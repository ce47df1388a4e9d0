use tileworld::clock::Clock;
use tileworld::player::Player;
use tileworld::region::Region;
use tileworld::space::{GamePos, TileVariant};
use tileworld::tile::{TestPillar, Tile, Warp};
use tileworld::world::{Camera, World};

#[test]
fn world_update_ticks_once_and_updates_regions() {
    let region = Region::new(vec![Tile::TestPillar(TestPillar::new(GamePos::new(0, 0)))]);
    let mut world = World::new(
        vec![region],
        Player::new(GamePos::new(0, 0)),
        Camera::new(GamePos::new(0, 0)),
        Clock::new(),
    );
    let mut n = 0;
    while n < 8 {
        world.update();
        n += 1;
    }
    assert_eq!(world.clock.time(), 8);
    assert_eq!(world.regions.len(), 1);
    assert_eq!(world.regions[0].tiles.len(), 1);
    match &world.regions[0].tiles[0] {
        Tile::TestPillar(p) => {
            assert_eq!(p.pos, GamePos::new(0, 0));
            assert_eq!(p.anim.last_tick, 8);
        },
        _ => panic!("tile kind must not change"),
    }
    assert_eq!(world.player.pos, GamePos::new(0, 0));
    assert_eq!(world.camera.pos, GamePos::new(0, 0));
}

#[test]
fn world_updates_every_region() {
    let r1 = Region::new(vec![Tile::TestPillar(TestPillar::new(GamePos::new(0, 0)))]);
    let r2 = Region::new(vec![Tile::Warp(Warp::new(GamePos::new(1, 1), String::from("b")))]);
    let mut world = World::new(
        vec![r1, r2],
        Player::new(GamePos::new(5, 5)),
        Camera::new(GamePos::new(5, 5)),
        Clock::new(),
    );
    let mut n = 0;
    while n < 8 {
        world.update();
        n += 1;
    }
    match &world.regions[0].tiles[0] {
        Tile::TestPillar(p) => assert_eq!(p.anim.last_tick, 8),
        _ => panic!("tile kind must not change"),
    }
    match &world.regions[1].tiles[0] {
        Tile::Warp(w) => {
            assert_eq!(w.anim.last_tick, 8);
            assert_eq!(w.load_name, "b");
        },
        _ => panic!("tile kind must not change"),
    }
}

#[test]
fn edge_and_pillar_never_used_as_variant() {
    // the TileVariant of a pillar's factory is ignored: same cell regardless
    let p = TestPillar::new(GamePos::new(3, 3));
    let t = Tile::TestPillar(p);
    let c = t.create(GamePos::new(4, 4), TileVariant::Right);
    match c {
        Tile::TestPillar(cp) => assert_eq!(cp.pos, GamePos::new(4, 4)),
        _ => panic!("create changed the kind"),
    }
}
