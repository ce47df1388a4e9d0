use tileworld::clock::Clock;
use tileworld::codec::{decode_region, decode_tile, encode_region, encode_tile, Tok};
use tileworld::region::Region;
use tileworld::space::{GamePos, TileVariant};
use tileworld::tile::{Boulder, Edge, TestPillar, Tile, Warp};

fn mixed_region() -> Region {
    let mut region = Region::new(vec![
        Tile::Edge(Edge::new(GamePos::new(0, 0), TileVariant::Top)),
        Tile::TestPillar(TestPillar::new(GamePos::new(1, 2))),
        Tile::Warp(Warp::new(GamePos::new(2, 3), String::from("cave"))),
        Tile::Boulder(Boulder::new(GamePos::new(4, 1), TileVariant::Center)),
    ]);
    // advance a few ticks so the persisted animation state is nontrivial
    let mut clock = Clock::new();
    let mut n = 0;
    while n < 9 {
        clock.tick();
        region.update(&clock);
        n += 1;
    }
    region
}

#[test]
fn region_round_trips_mixed_variants() {
    let region = mixed_region();
    let toks = encode_region(&region);
    let (decoded, end) = decode_region(&toks, 0).unwrap();
    assert_eq!(end, toks.len());
    assert_eq!(decoded.tiles.len(), region.tiles.len());
    for (a, b) in region.tiles.iter().zip(decoded.tiles.iter()) {
        assert_eq!(a.get_pos(), b.get_pos());
        assert_eq!(a.get_tile_enum(), b.get_tile_enum());
    }
    match (&region.tiles[2], &decoded.tiles[2]) {
        (Tile::Warp(w1), Tile::Warp(w2)) => {
            assert_eq!(w1.load_name, w2.load_name);
            assert_eq!(w2.load_name, "cave");
        },
        _ => panic!("warp lost its variant identity"),
    }
    match (&region.tiles[3], &decoded.tiles[3]) {
        (Tile::Boulder(b1), Tile::Boulder(b2)) => assert_eq!(b1.stage, b2.stage),
        _ => panic!("boulder lost its variant identity"),
    }
    match (&region.tiles[0], &decoded.tiles[0]) {
        (Tile::Edge(e1), Tile::Edge(e2)) => {
            assert_eq!(e1.anim.frame_sets, e2.anim.frame_sets);
            assert_eq!(e1.anim.current, e2.anim.current);
            assert_eq!(e1.anim.frame_index, e2.anim.frame_index);
            assert_eq!(e1.anim.last_tick, e2.anim.last_tick);
            assert_eq!(e1.anim.frame_duration, e2.anim.frame_duration);
        },
        _ => panic!("edge lost its variant identity"),
    }
}

#[test]
fn tile_round_trips_alone() {
    let t = Tile::Warp(Warp::new(GamePos::new(-7, 12), String::from("deep")));
    let toks = encode_tile(&t);
    let (back, end) = decode_tile(&toks, 0).unwrap();
    assert_eq!(end, toks.len());
    assert_eq!(back.get_pos(), GamePos::new(-7, 12));
    match back {
        Tile::Warp(w) => assert_eq!(w.load_name, "deep"),
        _ => panic!("warp lost its variant identity"),
    }
}

#[test]
fn decode_rejects_unknown_tag() {
    // tag 99, position (0,0), a one-set animation: a well-formed stream but
    // for the tag, so the variant registry must refuse it
    let toks = vec![
        Tok::U(99),
        Tok::I(0),
        Tok::I(0),
        Tok::U(1),
        Tok::U(5),
        Tok::I(0),
        Tok::I(0),
        Tok::U(1),
        Tok::U(0),
        Tok::U(0),
        Tok::U(0),
        Tok::U(8),
    ];
    assert!(decode_tile(&toks, 0).is_none());
}

#[test]
fn decode_rejects_truncated_stream() {
    let t = Tile::TestPillar(TestPillar::new(GamePos::new(1, 1)));
    let mut toks = encode_tile(&t);
    toks.pop();
    assert!(decode_tile(&toks, 0).is_none());
}

#[test]
fn empty_region_round_trips() {
    let region = Region::new(Vec::new());
    let toks = encode_region(&region);
    assert_eq!(toks.len(), 1);
    let (decoded, end) = decode_region(&toks, 0).unwrap();
    assert_eq!(end, 1);
    assert!(decoded.tiles.is_empty());
}
