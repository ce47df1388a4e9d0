use tileworld::animation::Frame;
use tileworld::player::Player;
use tileworld::space::{GamePos, TileVariant};
use tileworld::tile::{
    match_directions, Boulder, Edge, PostOperation, TestPillar, Tile, TileEnum, Warp,
    BOULDER_FINAL_STAGE,
};

#[test]
fn match_directions_offsets() {
    let base = Frame { x: 4, y: 1 };
    assert_eq!(match_directions(TileVariant::Center, base), Frame { x: 4, y: 1 });
    assert_eq!(match_directions(TileVariant::Top, base), Frame { x: 4, y: 0 });
    assert_eq!(match_directions(TileVariant::Bottom, base), Frame { x: 4, y: 2 });
    assert_eq!(match_directions(TileVariant::Left, base), Frame { x: 3, y: 1 });
    assert_eq!(match_directions(TileVariant::Right, base), Frame { x: 5, y: 1 });
}

#[test]
fn edge_faces_its_direction() {
    let e = Edge::new(GamePos::new(1, 1), TileVariant::Top);
    assert_eq!(e.pos, GamePos::new(1, 1));
    assert_eq!(e.anim.current_frame(), Frame { x: 4, y: 0 });
}

#[test]
fn noop_variants_return_no_ops() {
    let mut edge = Tile::Edge(Edge::new(GamePos::new(1, 1), TileVariant::Left));
    let mut pillar = Tile::TestPillar(TestPillar::new(GamePos::new(2, 2)));
    let mut player = Player::new(GamePos::new(0, 0));
    let ops = edge.on_player_enter(&mut player, GamePos::new(1, 1));
    assert!(ops.is_empty());
    assert_eq!(edge.get_pos(), GamePos::new(1, 1));
    assert_eq!(edge.get_tile_enum(), TileEnum::Edge);
    let ops = pillar.on_player_enter(&mut player, GamePos::new(2, 2));
    assert!(ops.is_empty());
    assert_eq!(pillar.get_pos(), GamePos::new(2, 2));
    assert_eq!(pillar.get_tile_enum(), TileEnum::TestPillar);
    assert_eq!(player.get_pos(), GamePos::new(0, 0));
}

#[test]
fn warp_enter_requests_its_region() {
    let mut warp = Tile::Warp(Warp::new(GamePos::new(2, 3), String::from("cave")));
    let mut player = Player::new(GamePos::new(2, 2));
    let ops = warp.on_player_enter(&mut player, GamePos::new(2, 3));
    assert_eq!(ops.len(), 1);
    match &ops[0] {
        PostOperation::LoadRegion(name) => assert_eq!(name, "cave"),
    }
    match &warp {
        Tile::Warp(w) => {
            assert_eq!(w.pos, GamePos::new(2, 3));
            assert_eq!(w.load_name, "cave");
        },
        _ => panic!("variant changed"),
    }
}

#[test]
fn warp_default_and_pick_sentinels() {
    let w = Warp::default();
    assert_eq!(w.load_name, "");
    assert_eq!(w.pos, GamePos::new(0, 0));
    let picked = Tile::Warp(w).pick_tile();
    match picked {
        Tile::Warp(p) => {
            assert_eq!(p.load_name, "a");
            assert_eq!(p.pos, GamePos::new(0, 0));
            assert_eq!(p.anim.current_frame(), Frame { x: 0, y: 0 });
        },
        _ => panic!("pick changed the variant"),
    }
}

#[test]
fn warp_next_is_boulder_placeholder() {
    let w = Tile::Warp(Warp::new(GamePos::new(5, 5), String::from("x")));
    match w.next() {
        Some(Tile::Boulder(b)) => {
            assert_eq!(b.stage, 0);
            assert_eq!(b.pos, GamePos::new(0, 0));
        },
        _ => panic!("warp must declare a boulder placeholder"),
    }
}

#[test]
fn boulder_stages_end() {
    let mut t = Tile::Boulder(Boulder::new(GamePos::new(1, 0), TileVariant::Center));
    let mut count = 0u64;
    loop {
        match t.next() {
            Some(n) => {
                t = n;
                count += 1;
            },
            None => break,
        }
    }
    assert_eq!(count, BOULDER_FINAL_STAGE);
    match t {
        Tile::Boulder(b) => {
            assert_eq!(b.stage, BOULDER_FINAL_STAGE);
            assert_eq!(b.pos, GamePos::new(1, 0));
        },
        _ => panic!("boulder stages must stay boulders"),
    }
}

#[test]
fn create_same_kind_at_new_pos() {
    let w = Tile::Warp(Warp::new(GamePos::new(0, 0), String::from("hall")));
    match w.create(GamePos::new(9, 9), TileVariant::Center) {
        Tile::Warp(cw) => {
            assert_eq!(cw.pos, GamePos::new(9, 9));
            assert_eq!(cw.load_name, "hall");
        },
        _ => panic!("create changed the kind"),
    }
    let e = Tile::Edge(Edge::new(GamePos::new(0, 0), TileVariant::Top));
    match e.create(GamePos::new(3, 4), TileVariant::Left) {
        Tile::Edge(ce) => assert_eq!(ce.pos, GamePos::new(3, 4)),
        _ => panic!("create changed the kind"),
    }
}

#[test]
fn get_anim_mut_exposes_owned_state() {
    let mut p = Tile::TestPillar(TestPillar::new(GamePos::new(7, 7)));
    let anim = p.get_anim_mut();
    assert_eq!(anim.select(12345).is_err(), true);
    assert_eq!(anim.frame_index, 0);
    assert_eq!(p.get_pos(), GamePos::new(7, 7));
}
