use tileworld::clock::Clock;
use tileworld::player::Player;
use tileworld::region::Region;
use tileworld::space::{GamePos, TileVariant};
use tileworld::tile::{Boulder, Edge, PostOperation, TestPillar, Tile, Warp};

fn sample_region() -> Region {
    Region::new(vec![
        Tile::Edge(Edge::new(GamePos::new(0, 0), TileVariant::Top)),
        Tile::TestPillar(TestPillar::new(GamePos::new(1, 2))),
        Tile::Warp(Warp::new(GamePos::new(2, 3), String::from("cave"))),
        Tile::Boulder(Boulder::new(GamePos::new(4, 1), TileVariant::Center)),
    ])
}

#[test]
fn warp_scenario_loads_named_region() {
    let mut region = sample_region();
    let mut player = Player::new(GamePos::new(2, 2));
    let ops = region.player_enter(&mut player, GamePos::new(2, 3));
    assert_eq!(ops.len(), 1);
    match &ops[0] {
        PostOperation::LoadRegion(name) => assert_eq!(name, "cave"),
    }
    match region.tile_at_pos(GamePos::new(2, 3)).unwrap() {
        Tile::Warp(w) => {
            assert_eq!(w.pos, GamePos::new(2, 3));
            assert_eq!(w.load_name, "cave");
        },
        _ => panic!("the warp must stay a warp"),
    }
    assert_eq!(player.get_pos(), GamePos::new(2, 2));
}

#[test]
fn player_enter_empty_when_unoccupied() {
    let mut region = sample_region();
    let mut player = Player::new(GamePos::new(0, 0));
    let ops = region.player_enter(&mut player, GamePos::new(9, 9));
    assert!(ops.is_empty());
    assert_eq!(region.tiles.len(), 4);
}

#[test]
fn tile_at_pos_hits_and_misses() {
    let region = sample_region();
    let t = region.tile_at_pos(GamePos::new(1, 2)).unwrap();
    assert_eq!(t.get_pos(), GamePos::new(1, 2));
    assert!(region.tile_at_pos(GamePos::new(3, 3)).is_none());
}

#[test]
fn update_keeps_positions_and_count() {
    let mut region = sample_region();
    let before: Vec<GamePos> = region.tiles.iter().map(|t| t.get_pos()).collect();
    let mut clock = Clock::new();
    let mut n = 0;
    while n < 20 {
        clock.tick();
        region.update(&clock);
        n += 1;
    }
    let after: Vec<GamePos> = region.tiles.iter().map(|t| t.get_pos()).collect();
    assert_eq!(before, after);
    assert_eq!(region.tiles.len(), 4);
}

#[test]
fn draw_lists_partition_by_row() {
    let region = sample_region();
    let player_pos = GamePos::new(0, 2);
    let before = region.draw_before_player(player_pos);
    let after = region.draw_after_player(player_pos);
    assert!(before.iter().all(|c| c.pos.y <= 2));
    assert!(after.iter().all(|c| c.pos.y > 2));
    assert_eq!(before.len() + after.len(), region.tiles.len());
    let mut got: Vec<GamePos> = before.iter().chain(after.iter()).map(|c| c.pos).collect();
    let mut want: Vec<GamePos> = region.tiles.iter().map(|t| t.get_pos()).collect();
    got.sort_by_key(|p| (p.x, p.y));
    want.sort_by_key(|p| (p.x, p.y));
    assert_eq!(got, want);
    assert!(before.iter().any(|c| c.pos == GamePos::new(1, 2)));
}

#[test]
fn distinct_positions_check() {
    let region = sample_region();
    assert!(region.has_distinct_positions());
    let clash = Region::new(vec![
        Tile::TestPillar(TestPillar::new(GamePos::new(1, 1))),
        Tile::Edge(Edge::new(GamePos::new(1, 1), TileVariant::Left)),
    ]);
    assert!(!clash.has_distinct_positions());
}
