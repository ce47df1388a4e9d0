//! Tagged persistence codec. A region's heterogeneous tile list flattens to a
//! stream of plain tokens — each tile as its variant tag followed by its
//! fields — so that saving and loading lose no variant identity: decoding an
//! encoded region is proved to give back exactly the tiles that went in.

use vstd::prelude::*;

use crate::animation::{Animation, AnimationView, Frame, FrameSet};
use crate::region::{all_wf, Region};
use crate::space::GamePos;
use crate::tile::{Boulder, Edge, TestPillar, Tile, TileV, Warp};

verus! {

/// One token of the flat persistence stream.
#[derive(Debug)]
pub enum Tok {
    U(u64),
    I(i64),
    S(String),
}

/// Mathematical model of a token.
pub enum TokV {
    U(u64),
    I(i64),
    S(Seq<char>),
}

impl View for Tok {
    type V = TokV;

    open spec fn view(&self) -> TokV {
        match self {
            Tok::U(x) => TokV::U(*x),
            Tok::I(x) => TokV::I(*x),
            Tok::S(s) => TokV::S(s@),
        }
    }
}

/// The models of a token stream, element by element.
pub open spec fn toks_view(s: Seq<Tok>) -> Seq<TokV> {
    s.map_values(|t: Tok| t@)
}

/// Variant tag written for an edge.
pub const TAG_EDGE: u64 = 1;

/// Variant tag written for a test pillar.
pub const TAG_PILLAR: u64 = 2;

/// Variant tag written for a warp.
pub const TAG_WARP: u64 = 3;

/// Variant tag written for a boulder.
pub const TAG_BOULDER: u64 = 4;

/// The tag code of a tile's variant.
pub open spec fn tag_code(t: TileV) -> u64 {
    match t {
        TileV::Edge { .. } => TAG_EDGE,
        TileV::TestPillar { .. } => TAG_PILLAR,
        TileV::Warp { .. } => TAG_WARP,
        TileV::Boulder { .. } => TAG_BOULDER,
    }
}

/// A position as tokens: its two coordinates.
pub open spec fn enc_pos(p: GamePos) -> Seq<TokV> {
    seq![TokV::I(p.x), TokV::I(p.y)]
}

/// A frame-set as tokens: key, base cell, frame count.
pub open spec fn enc_frame_set(fs: FrameSet) -> Seq<TokV> {
    seq![TokV::U(fs.key), TokV::I(fs.base.x), TokV::I(fs.base.y), TokV::U(fs.len)]
}

/// A frame-set list as tokens, in order.
pub open spec fn enc_frame_sets(sets: Seq<FrameSet>) -> Seq<TokV>
    decreases sets.len(),
{
    if sets.len() == 0 {
        Seq::<TokV>::empty()
    } else {
        enc_frame_set(sets[0]) + enc_frame_sets(sets.drop_first())
    }
}

/// An animation as tokens: frame-set count, the frame-sets, then the selected
/// set, frame index, last tick and frame duration.
pub open spec fn enc_anim(a: AnimationView) -> Seq<TokV> {
    seq![TokV::U(a.frame_sets.len() as u64)] + enc_frame_sets(a.frame_sets) + seq![
        TokV::U(a.current as u64),
        TokV::U(a.frame_index),
        TokV::U(a.last_tick),
        TokV::U(a.frame_duration),
    ]
}

/// A tile as tokens: variant tag, position, animation, then the variant's own
/// fields (a warp's load-name, a boulder's stage).
pub open spec fn enc_tile(t: TileV) -> Seq<TokV> {
    seq![TokV::U(tag_code(t))] + enc_pos(t.pos()) + enc_anim(t.anim()) + (match t {
        TileV::Warp { load_name, .. } => seq![TokV::S(load_name)],
        TileV::Boulder { stage, .. } => seq![TokV::U(stage)],
        _ => Seq::<TokV>::empty(),
    })
}

/// A tile list as tokens, in order.
pub open spec fn enc_tiles(s: Seq<TileV>) -> Seq<TokV>
    decreases s.len(),
{
    if s.len() == 0 {
        Seq::<TokV>::empty()
    } else {
        enc_tile(s[0]) + enc_tiles(s.drop_first())
    }
}

/// A region as tokens: its tile count, then its tiles.
pub open spec fn enc_region(s: Seq<TileV>) -> Seq<TokV> {
    seq![TokV::U(s.len() as u64)] + enc_tiles(s)
}

/// Reads one unsigned token.
pub open spec fn dec_u(s: Seq<TokV>, i: int) -> Option<(u64, int)> {
    if 0 <= i < s.len() {
        match s[i] {
            TokV::U(x) => Some((x, i + 1)),
            _ => None,
        }
    } else {
        None
    }
}

/// Reads one signed token.
pub open spec fn dec_i(s: Seq<TokV>, i: int) -> Option<(i64, int)> {
    if 0 <= i < s.len() {
        match s[i] {
            TokV::I(x) => Some((x, i + 1)),
            _ => None,
        }
    } else {
        None
    }
}

/// Reads one string token.
pub open spec fn dec_s(s: Seq<TokV>, i: int) -> Option<(Seq<char>, int)> {
    if 0 <= i < s.len() {
        match s[i] {
            TokV::S(x) => Some((x, i + 1)),
            _ => None,
        }
    } else {
        None
    }
}

/// Reads a position.
pub open spec fn dec_pos(s: Seq<TokV>, i: int) -> Option<(GamePos, int)> {
    match dec_i(s, i) {
        Some((x, i1)) => match dec_i(s, i1) {
            Some((y, i2)) => Some((GamePos { x, y }, i2)),
            None => None,
        },
        None => None,
    }
}

/// Reads one frame-set.
pub open spec fn dec_frame_set(s: Seq<TokV>, i: int) -> Option<(FrameSet, int)> {
    match dec_u(s, i) {
        Some((key, i1)) => match dec_i(s, i1) {
            Some((bx, i2)) => match dec_i(s, i2) {
                Some((by, i3)) => match dec_u(s, i3) {
                    Some((len, i4)) => Some(
                        (FrameSet { key, base: Frame { x: bx, y: by }, len }, i4),
                    ),
                    None => None,
                },
                None => None,
            },
            None => None,
        },
        None => None,
    }
}

/// Reads `n` frame-sets.
pub open spec fn dec_frame_sets(s: Seq<TokV>, i: int, n: nat) -> Option<(Seq<FrameSet>, int)>
    decreases n,
{
    if n == 0 {
        Some((Seq::<FrameSet>::empty(), i))
    } else {
        match dec_frame_set(s, i) {
            Some((fs, i1)) => match dec_frame_sets(s, i1, (n - 1) as nat) {
                Some((rest, i2)) => Some((seq![fs] + rest, i2)),
                None => None,
            },
            None => None,
        }
    }
}

/// Reads an animation. Counts and indices must fit the machine's word, as
/// those of every animation this crate builds do.
pub open spec fn dec_anim(s: Seq<TokV>, i: int) -> Option<(AnimationView, int)> {
    match dec_u(s, i) {
        Some((n, i1)) => if n <= usize::MAX as u64 {
            match dec_frame_sets(s, i1, n as nat) {
                Some((sets, i2)) => match dec_u(s, i2) {
                    Some((cur, i3)) => if cur <= usize::MAX as u64 {
                        match dec_u(s, i3) {
                            Some((fi, i4)) => match dec_u(s, i4) {
                                Some((lt, i5)) => match dec_u(s, i5) {
                                    Some((fd, i6)) => Some(
                                        (
                                            AnimationView {
                                                frame_sets: sets,
                                                current: cur as int,
                                                frame_index: fi,
                                                last_tick: lt,
                                                frame_duration: fd,
                                            },
                                            i6,
                                        ),
                                    ),
                                    None => None,
                                },
                                None => None,
                            },
                            None => None,
                        }
                    } else {
                        None
                    },
                    None => None,
                },
                None => None,
            }
        } else {
            None
        },
        None => None,
    }
}

/// Reads one tile: tag, position, animation, variant fields. An unknown tag
/// fails the read — the registry of this closed variant set decides.
pub open spec fn dec_tile(s: Seq<TokV>, i: int) -> Option<(TileV, int)> {
    match dec_u(s, i) {
        Some((tag, i1)) => match dec_pos(s, i1) {
            Some((pos, i2)) => match dec_anim(s, i2) {
                Some((anim, i3)) => if tag == TAG_EDGE {
                    Some((TileV::Edge { pos, anim }, i3))
                } else if tag == TAG_PILLAR {
                    Some((TileV::TestPillar { pos, anim }, i3))
                } else if tag == TAG_WARP {
                    match dec_s(s, i3) {
                        Some((name, i4)) => Some(
                            (TileV::Warp { pos, anim, load_name: name }, i4),
                        ),
                        None => None,
                    }
                } else if tag == TAG_BOULDER {
                    match dec_u(s, i3) {
                        Some((stage, i4)) => Some((TileV::Boulder { pos, anim, stage }, i4)),
                        None => None,
                    }
                } else {
                    None
                },
                None => None,
            },
            None => None,
        },
        None => None,
    }
}

/// Reads `n` tiles.
pub open spec fn dec_tiles(s: Seq<TokV>, i: int, n: nat) -> Option<(Seq<TileV>, int)>
    decreases n,
{
    if n == 0 {
        Some((Seq::<TileV>::empty(), i))
    } else {
        match dec_tile(s, i) {
            Some((t, i1)) => match dec_tiles(s, i1, (n - 1) as nat) {
                Some((rest, i2)) => Some((seq![t] + rest, i2)),
                None => None,
            },
            None => None,
        }
    }
}

/// Reads a region: tile count, then that many tiles.
pub open spec fn dec_region(s: Seq<TokV>, i: int) -> Option<(Seq<TileV>, int)> {
    match dec_u(s, i) {
        Some((n, i1)) => if n <= usize::MAX as u64 {
            dec_tiles(s, i1, n as nat)
        } else {
            None
        },
        None => None,
    }
}

/// The segment `seg` stands in `s` starting at `i`.
pub open spec fn at_seg(s: Seq<TokV>, i: int, seg: Seq<TokV>) -> bool {
    &&& 0 <= i
    &&& i + seg.len() <= s.len()
    &&& forall|k: int| 0 <= k < seg.len() ==> s[i + k] == #[trigger] seg[k]
}

/// A segment made of two parts stands in `s` part by part.
proof fn lemma_at_seg_split(s: Seq<TokV>, i: int, a: Seq<TokV>, b: Seq<TokV>)
    requires
        at_seg(s, i, a + b),
    ensures
        at_seg(s, i, a),
        at_seg(s, i + a.len(), b),
{
    assert forall|k: int| 0 <= k < a.len() implies s[i + k] == #[trigger] a[k] by {
        assert((a + b)[k] == a[k]);
    };
    assert forall|k: int| 0 <= k < b.len() implies s[i + a.len() + k] == #[trigger] b[k] by {
        assert((a + b)[a.len() + k] == b[k]);
        assert(s[i + (a.len() + k)] == (a + b)[a.len() + k]);
    };
}

/// Decoding reads back an encoded frame-set.
proof fn lemma_rt_frame_set(s: Seq<TokV>, i: int, fs: FrameSet)
    requires
        at_seg(s, i, enc_frame_set(fs)),
    ensures
        dec_frame_set(s, i) == Some((fs, i + 4)),
{
    let e = enc_frame_set(fs);
    assert(s[i + 0] == e[0]);
    assert(s[i + 1] == e[1]);
    assert(s[i + 2] == e[2]);
    assert(s[i + 3] == e[3]);
}

/// Decoding reads back an encoded frame-set list.
proof fn lemma_rt_frame_sets(s: Seq<TokV>, i: int, sets: Seq<FrameSet>)
    requires
        at_seg(s, i, enc_frame_sets(sets)),
    ensures
        dec_frame_sets(s, i, sets.len()) == Some((sets, i + enc_frame_sets(sets).len())),
    decreases sets.len(),
{
    if sets.len() > 0 {
        let rest = sets.drop_first();
        lemma_at_seg_split(s, i, enc_frame_set(sets[0]), enc_frame_sets(rest));
        lemma_rt_frame_set(s, i, sets[0]);
        lemma_rt_frame_sets(s, i + 4, rest);
        assert(seq![sets[0]] + rest =~= sets);
    }
}

/// Decoding reads back an encoded animation.
proof fn lemma_rt_anim(s: Seq<TokV>, i: int, a: AnimationView)
    requires
        at_seg(s, i, enc_anim(a)),
        a.wf(),
    ensures
        dec_anim(s, i) == Some((a, i + enc_anim(a).len())),
{
    let head = seq![TokV::U(a.frame_sets.len() as u64)];
    let mid = enc_frame_sets(a.frame_sets);
    let tail = seq![
        TokV::U(a.current as u64),
        TokV::U(a.frame_index),
        TokV::U(a.last_tick),
        TokV::U(a.frame_duration),
    ];
    lemma_at_seg_split(s, i, head + mid, tail);
    lemma_at_seg_split(s, i, head, mid);
    assert(s[i + 0] == head[0]);
    assert((a.frame_sets.len() as u64) as nat == a.frame_sets.len());
    lemma_rt_frame_sets(s, i + 1, a.frame_sets);
    let i2 = i + 1 + mid.len();
    assert(s[i2 + 0] == tail[0]);
    assert(s[i2 + 1] == tail[1]);
    assert(s[i2 + 2] == tail[2]);
    assert(s[i2 + 3] == tail[3]);
    assert((a.current as u64) as int == a.current);
    assert((a.current as u64) <= usize::MAX as u64);
}

/// Decoding reads back an encoded position.
proof fn lemma_rt_pos(s: Seq<TokV>, i: int, p: GamePos)
    requires
        at_seg(s, i, enc_pos(p)),
    ensures
        dec_pos(s, i) == Some((p, i + 2)),
{
    let e = enc_pos(p);
    assert(s[i + 0] == e[0]);
    assert(s[i + 1] == e[1]);
}

/// Decoding reads back an encoded tile: the same variant tag, position,
/// animation state and variant fields.
pub proof fn lemma_rt_tile(s: Seq<TokV>, i: int, t: TileV)
    requires
        at_seg(s, i, enc_tile(t)),
        t.wf(),
    ensures
        dec_tile(s, i) == Some((t, i + enc_tile(t).len())),
{
    let head = seq![TokV::U(tag_code(t))];
    let pos = enc_pos(t.pos());
    let anim = enc_anim(t.anim());
    let extra = match t {
        TileV::Warp { load_name, .. } => seq![TokV::S(load_name)],
        TileV::Boulder { stage, .. } => seq![TokV::U(stage)],
        _ => Seq::<TokV>::empty(),
    };
    lemma_at_seg_split(s, i, head + pos + anim, extra);
    lemma_at_seg_split(s, i, head + pos, anim);
    lemma_at_seg_split(s, i, head, pos);
    assert(s[i + 0] == head[0]);
    lemma_rt_pos(s, i + 1, t.pos());
    lemma_rt_anim(s, i + 3, t.anim());
    let i3 = i + 3 + anim.len();
    match t {
        TileV::Warp { load_name, .. } => {
            assert(s[i3 + 0] == extra[0]);
        },
        TileV::Boulder { stage, .. } => {
            assert(s[i3 + 0] == extra[0]);
        },
        _ => {},
    }
}

/// Decoding reads back an encoded tile list.
proof fn lemma_rt_tiles(s: Seq<TokV>, i: int, tiles: Seq<TileV>)
    requires
        at_seg(s, i, enc_tiles(tiles)),
        all_wf(tiles),
    ensures
        dec_tiles(s, i, tiles.len()) == Some((tiles, i + enc_tiles(tiles).len())),
    decreases tiles.len(),
{
    if tiles.len() > 0 {
        let rest = tiles.drop_first();
        lemma_at_seg_split(s, i, enc_tile(tiles[0]), enc_tiles(rest));
        assert(tiles[0].wf());
        lemma_rt_tile(s, i, tiles[0]);
        assert(all_wf(rest)) by {
            assert forall|j: int| 0 <= j < rest.len() implies (#[trigger] rest[j]).wf() by {
                assert(rest[j] == tiles[j + 1]);
            };
        };
        lemma_rt_tiles(s, i + enc_tile(tiles[0]).len(), rest);
        assert(seq![tiles[0]] + rest =~= tiles);
    }
}

/// Persistence round-trip: decoding an encoded region gives back exactly the
/// tiles that were encoded — the same positions, the same variant tags, the
/// same variant fields and the same animation state, in the same order.
pub proof fn lemma_region_round_trip(tiles: Seq<TileV>)
    requires
        all_wf(tiles),
        tiles.len() <= usize::MAX,
    ensures
        dec_region(enc_region(tiles), 0) == Some(
            (tiles, enc_region(tiles).len() as int),
        ),
{
    let s = enc_region(tiles);
    let head = seq![TokV::U(tiles.len() as u64)];
    assert(at_seg(s, 0, head + enc_tiles(tiles))) by {
        assert forall|k: int|
            0 <= k < (head + enc_tiles(tiles)).len() implies s[0 + k] == #[trigger] (head
            + enc_tiles(tiles))[k] by {};
    };
    lemma_at_seg_split(s, 0, head, enc_tiles(tiles));
    assert(s[0] == head[0]);
    assert((tiles.len() as u64) as nat == tiles.len());
    lemma_rt_tiles(s, 1, tiles);
}

/// Tile round-trip: decoding one encoded tile gives back that tile.
pub proof fn lemma_tile_round_trip(t: TileV)
    requires
        t.wf(),
    ensures
        dec_tile(enc_tile(t), 0) == Some((t, enc_tile(t).len() as int)),
{
    assert(at_seg(enc_tile(t), 0, enc_tile(t))) by {
        assert forall|k: int|
            0 <= k < enc_tile(t).len() implies enc_tile(t)[0 + k] == #[trigger] enc_tile(
            t,
        )[k] by {};
    };
    lemma_rt_tile(enc_tile(t), 0, t);
}

/// Appending one frame-set extends its list's encoding at the end.
proof fn lemma_enc_frame_sets_push(sets: Seq<FrameSet>, fs: FrameSet)
    ensures
        enc_frame_sets(sets.push(fs)) == enc_frame_sets(sets) + enc_frame_set(fs),
    decreases sets.len(),
{
    if sets.len() == 0 {
        assert(sets.push(fs)[0] == fs);
        assert(sets.push(fs).drop_first() =~= Seq::<FrameSet>::empty());
        assert(enc_frame_sets(sets.push(fs)) == enc_frame_set(fs) + enc_frame_sets(
            sets.push(fs).drop_first(),
        ));
        assert(enc_frame_sets(sets.push(fs)) =~= enc_frame_set(fs));
        assert(enc_frame_sets(sets) + enc_frame_set(fs) =~= enc_frame_set(fs));
    } else {
        lemma_enc_frame_sets_push(sets.drop_first(), fs);
        assert(sets.push(fs).drop_first() =~= sets.drop_first().push(fs));
        assert(sets.push(fs)[0] == sets[0]);
        assert(enc_frame_sets(sets.push(fs)) == enc_frame_set(sets[0]) + enc_frame_sets(
            sets.drop_first().push(fs),
        ));
        assert(enc_frame_sets(sets.drop_first().push(fs)) == enc_frame_sets(sets.drop_first())
            + enc_frame_set(fs));
        assert((enc_frame_set(sets[0]) + enc_frame_sets(sets.drop_first())) + enc_frame_set(fs)
            =~= enc_frame_set(sets[0]) + (enc_frame_sets(sets.drop_first()) + enc_frame_set(
            fs,
        )));
        assert(enc_frame_sets(sets.push(fs)) =~= enc_frame_sets(sets) + enc_frame_set(fs));
    }
}

/// Appending one tile extends its list's encoding at the end.
proof fn lemma_enc_tiles_push(tiles: Seq<TileV>, t: TileV)
    ensures
        enc_tiles(tiles.push(t)) == enc_tiles(tiles) + enc_tile(t),
    decreases tiles.len(),
{
    if tiles.len() == 0 {
        assert(tiles.push(t)[0] == t);
        assert(tiles.push(t).drop_first() =~= Seq::<TileV>::empty());
        assert(enc_tiles(tiles.push(t)) == enc_tile(t) + enc_tiles(tiles.push(t).drop_first()));
        assert(enc_tiles(tiles.push(t)) =~= enc_tile(t));
        assert(enc_tiles(tiles) + enc_tile(t) =~= enc_tile(t));
    } else {
        lemma_enc_tiles_push(tiles.drop_first(), t);
        assert(tiles.push(t).drop_first() =~= tiles.drop_first().push(t));
        assert(tiles.push(t)[0] == tiles[0]);
        assert(enc_tiles(tiles.push(t)) == enc_tile(tiles[0]) + enc_tiles(
            tiles.drop_first().push(t),
        ));
        assert(enc_tiles(tiles.drop_first().push(t)) == enc_tiles(tiles.drop_first()) + enc_tile(
            t,
        ));
        assert((enc_tile(tiles[0]) + enc_tiles(tiles.drop_first())) + enc_tile(t) =~= enc_tile(
            tiles[0],
        ) + (enc_tiles(tiles.drop_first()) + enc_tile(t)));
        assert(enc_tiles(tiles.push(t)) =~= enc_tiles(tiles) + enc_tile(t));
    }
}

/// Writes a position's tokens.
fn push_pos(out: &mut Vec<Tok>, p: GamePos)
    ensures
        toks_view(final(out)@) == toks_view(old(out)@) + enc_pos(p),
{
    out.push(Tok::I(p.x));
    out.push(Tok::I(p.y));
    proof {
        assert(toks_view(out@) =~= toks_view(old(out)@) + enc_pos(p));
    }
}

/// Writes an animation's tokens.
fn push_anim(out: &mut Vec<Tok>, a: &Animation)
    requires
        a@.wf(),
    ensures
        toks_view(final(out)@) == toks_view(old(out)@) + enc_anim(a@),
{
    let n = a.frame_sets.len();
    out.push(Tok::U(n as u64));
    let ghost base: Seq<TokV> = toks_view(old(out)@) + seq![
        TokV::U(a@.frame_sets.len() as u64),
    ];
    proof {
        assert(a.frame_sets@.take(0) =~= Seq::<FrameSet>::empty());
        assert(toks_view(out@) =~= base + enc_frame_sets(a.frame_sets@.take(0)));
    }
    let mut i: usize = 0;
    while i < a.frame_sets.len()
        invariant
            i <= a.frame_sets@.len(),
            toks_view(out@) == base + enc_frame_sets(a.frame_sets@.take(i as int)),
        decreases a.frame_sets@.len() - i,
    {
        let fs = a.frame_sets[i];
        let ghost pre: Seq<Tok> = out@;
        out.push(Tok::U(fs.key));
        out.push(Tok::I(fs.base.x));
        out.push(Tok::I(fs.base.y));
        out.push(Tok::U(fs.len));
        proof {
            assert(toks_view(out@) =~= toks_view(pre) + enc_frame_set(a.frame_sets@[i as int]));
            lemma_enc_frame_sets_push(a.frame_sets@.take(i as int), a.frame_sets@[i as int]);
            assert(a.frame_sets@.take(i as int).push(a.frame_sets@[i as int])
                =~= a.frame_sets@.take(i as int + 1));
            assert(toks_view(out@) =~= base + enc_frame_sets(a.frame_sets@.take(i as int + 1)));
        }
        i = i + 1;
    }
    let ghost mid: Seq<Tok> = out@;
    proof {
        assert(a.frame_sets@.take(a.frame_sets@.len() as int) =~= a.frame_sets@);
        assert(toks_view(mid) == base + enc_frame_sets(a@.frame_sets));
    }
    out.push(Tok::U(a.current as u64));
    out.push(Tok::U(a.frame_index));
    out.push(Tok::U(a.last_tick));
    out.push(Tok::U(a.frame_duration));
    proof {
        assert(toks_view(out@) =~= toks_view(mid) + seq![
            TokV::U(a@.current as u64),
            TokV::U(a@.frame_index),
            TokV::U(a@.last_tick),
            TokV::U(a@.frame_duration),
        ]);
        assert(toks_view(out@) =~= toks_view(old(out)@) + enc_anim(a@));
    }
}

/// Encodes one tile: variant tag, position, animation, variant fields.
pub fn encode_tile(t: &Tile) -> (r: Vec<Tok>)
    requires
        t@.wf(),
    ensures
        toks_view(r@) == enc_tile(t@),
{
    let mut out: Vec<Tok> = Vec::new();
    match t {
        Tile::Edge(e) => {
            out.push(Tok::U(TAG_EDGE));
            push_pos(&mut out, e.pos);
            push_anim(&mut out, &e.anim);
            proof {
                assert(toks_view(out@) =~= enc_tile(t@));
            }
        },
        Tile::TestPillar(e) => {
            out.push(Tok::U(TAG_PILLAR));
            push_pos(&mut out, e.pos);
            push_anim(&mut out, &e.anim);
            proof {
                assert(toks_view(out@) =~= enc_tile(t@));
            }
        },
        Tile::Warp(e) => {
            out.push(Tok::U(TAG_WARP));
            push_pos(&mut out, e.pos);
            push_anim(&mut out, &e.anim);
            let ghost pre: Seq<Tok> = out@;
            out.push(Tok::S(e.load_name.clone()));
            proof {
                assert(toks_view(out@) =~= toks_view(pre) + seq![TokV::S(e.load_name@)]);
                assert(toks_view(out@) =~= enc_tile(t@));
            }
        },
        Tile::Boulder(e) => {
            out.push(Tok::U(TAG_BOULDER));
            push_pos(&mut out, e.pos);
            push_anim(&mut out, &e.anim);
            let ghost pre: Seq<Tok> = out@;
            out.push(Tok::U(e.stage));
            proof {
                assert(toks_view(out@) =~= toks_view(pre) + seq![TokV::U(e.stage)]);
                assert(toks_view(out@) =~= enc_tile(t@));
            }
        },
    }
    out
}

/// Encodes a region: tile count, then every tile in list order.
pub fn encode_region(region: &Region) -> (r: Vec<Tok>)
    requires
        all_wf(region@),
    ensures
        toks_view(r@) == enc_region(region@),
{
    let mut out: Vec<Tok> = Vec::new();
    let n = region.tiles.len();
    out.push(Tok::U(n as u64));
    let ghost base: Seq<TokV> = seq![TokV::U(region@.len() as u64)];
    proof {
        assert(region@.take(0) =~= Seq::<TileV>::empty());
        assert(toks_view(out@) =~= base + enc_tiles(region@.take(0)));
    }
    let mut i: usize = 0;
    while i < region.tiles.len()
        invariant
            i <= region.tiles@.len(),
            region@.len() == region.tiles@.len(),
            all_wf(region@),
            toks_view(out@) == base + enc_tiles(region@.take(i as int)),
        decreases region.tiles@.len() - i,
    {
        proof {
            assert(region@[i as int].wf());
        }
        let mut enc_t = encode_tile(&region.tiles[i]);
        let ghost pre: Seq<Tok> = out@;
        let ghost enc_tv: Seq<TokV> = toks_view(enc_t@);
        out.append(&mut enc_t);
        proof {
            assert(toks_view(out@) =~= toks_view(pre) + enc_tv);
            lemma_enc_tiles_push(region@.take(i as int), region@[i as int]);
            assert(region@.take(i as int).push(region@[i as int]) =~= region@.take(i as int + 1));
            assert(toks_view(out@) =~= base + enc_tiles(region@.take(i as int + 1)));
        }
        i = i + 1;
    }
    proof {
        assert(region@.take(region@.len() as int) =~= region@);
        assert(toks_view(out@) =~= enc_region(region@));
    }
    out
}

/// Reads one unsigned token.
fn decode_u(toks: &Vec<Tok>, i: usize) -> (r: Option<(u64, usize)>)
    ensures
        r is Some <==> dec_u(toks_view(toks@), i as int) is Some,
        r matches Some((x, j)) ==> dec_u(toks_view(toks@), i as int) == Some((x, j as int)) && j
            <= toks@.len(),
{
    if i < toks.len() {
        match &toks[i] {
            Tok::U(x) => Some((*x, i + 1)),
            _ => None,
        }
    } else {
        None
    }
}

/// Reads one signed token.
fn decode_i(toks: &Vec<Tok>, i: usize) -> (r: Option<(i64, usize)>)
    ensures
        r is Some <==> dec_i(toks_view(toks@), i as int) is Some,
        r matches Some((x, j)) ==> dec_i(toks_view(toks@), i as int) == Some((x, j as int)) && j
            <= toks@.len(),
{
    if i < toks.len() {
        match &toks[i] {
            Tok::I(x) => Some((*x, i + 1)),
            _ => None,
        }
    } else {
        None
    }
}

/// Reads one string token.
fn decode_s(toks: &Vec<Tok>, i: usize) -> (r: Option<(String, usize)>)
    ensures
        r is Some <==> dec_s(toks_view(toks@), i as int) is Some,
        r matches Some((x, j)) ==> dec_s(toks_view(toks@), i as int) == Some((x@, j as int)) && j
            <= toks@.len(),
{
    if i < toks.len() {
        match &toks[i] {
            Tok::S(x) => Some((x.clone(), i + 1)),
            _ => None,
        }
    } else {
        None
    }
}

/// Reads a position.
fn decode_pos(toks: &Vec<Tok>, i: usize) -> (r: Option<(GamePos, usize)>)
    ensures
        r is Some <==> dec_pos(toks_view(toks@), i as int) is Some,
        r matches Some((p, j)) ==> dec_pos(toks_view(toks@), i as int) == Some((p, j as int)) && j
            <= toks@.len(),
{
    let (x, i1) = match decode_i(toks, i) {
        Some(v) => v,
        None => {
            return None;
        },
    };
    let (y, i2) = match decode_i(toks, i1) {
        Some(v) => v,
        None => {
            return None;
        },
    };
    Some((GamePos { x, y }, i2))
}

/// Reads one frame-set.
fn decode_frame_set(toks: &Vec<Tok>, i: usize) -> (r: Option<(FrameSet, usize)>)
    ensures
        r is Some <==> dec_frame_set(toks_view(toks@), i as int) is Some,
        r matches Some((fs, j)) ==> dec_frame_set(toks_view(toks@), i as int) == Some(
            (fs, j as int),
        ) && j <= toks@.len(),
{
    let (key, i1) = match decode_u(toks, i) {
        Some(v) => v,
        None => {
            return None;
        },
    };
    let (bx, i2) = match decode_i(toks, i1) {
        Some(v) => v,
        None => {
            return None;
        },
    };
    let (by, i3) = match decode_i(toks, i2) {
        Some(v) => v,
        None => {
            return None;
        },
    };
    let (len, i4) = match decode_u(toks, i3) {
        Some(v) => v,
        None => {
            return None;
        },
    };
    Some((FrameSet { key, base: Frame { x: bx, y: by }, len }, i4))
}

/// Reading `k + m` frame-sets is reading `k`, then `m` more where that left
/// off.
proof fn lemma_dec_frame_sets_split(s: Seq<TokV>, i: int, k: nat, m: nat)
    ensures
        dec_frame_sets(s, i, k + m) == match dec_frame_sets(s, i, k) {
            Some((a, i1)) => match dec_frame_sets(s, i1, m) {
                Some((b, i2)) => Some((a + b, i2)),
                None => None,
            },
            None => None,
        },
    decreases k,
{
    if k == 0 {
        match dec_frame_sets(s, i, m) {
            Some((b, i2)) => {
                assert(Seq::<FrameSet>::empty() + b =~= b);
            },
            None => {},
        }
    } else {
        match dec_frame_set(s, i) {
            Some((fs, i1)) => {
                lemma_dec_frame_sets_split(s, i1, (k - 1) as nat, m);
                match dec_frame_sets(s, i1, (k - 1) as nat) {
                    Some((a1, j1)) => {
                        match dec_frame_sets(s, j1, m) {
                            Some((b, i2)) => {
                                assert((seq![fs] + a1) + b =~= seq![fs] + (a1 + b));
                            },
                            None => {},
                        }
                    },
                    None => {},
                }
            },
            None => {},
        }
    }
}

/// Reads `n` frame-sets.
fn decode_frame_sets(toks: &Vec<Tok>, i: usize, n: u64) -> (r: Option<(Vec<FrameSet>, usize)>)
    ensures
        r is Some <==> dec_frame_sets(toks_view(toks@), i as int, n as nat) is Some,
        r matches Some((sets, j)) ==> dec_frame_sets(toks_view(toks@), i as int, n as nat) == Some(
            (sets@, j as int),
        ),
{
    let ghost tv: Seq<TokV> = toks_view(toks@);
    let mut sets: Vec<FrameSet> = Vec::new();
    let mut cur = i;
    let mut k: u64 = 0;
    proof {
        assert(dec_frame_sets(tv, i as int, 0) == Some((sets@, cur as int)));
    }
    while k < n
        invariant
            k <= n,
            tv == toks_view(toks@),
            dec_frame_sets(tv, i as int, k as nat) == Some((sets@, cur as int)),
        decreases n - k,
    {
        match decode_frame_set(toks, cur) {
            Some((fs, j)) => {
                proof {
                    lemma_dec_frame_sets_split(tv, i as int, k as nat, 1);
                    assert(dec_frame_sets(tv, j as int, 0) == Some(
                        (Seq::<FrameSet>::empty(), j as int),
                    ));
                    assert(dec_frame_sets(tv, cur as int, 1) == Some((seq![fs], j as int)));
                    assert(sets@ + seq![fs] =~= sets@.push(fs));
                }
                sets.push(fs);
                cur = j;
                proof {
                    assert((k + 1) as nat == k as nat + 1);
                }
                k = k + 1;
            },
            None => {
                proof {
                    lemma_dec_frame_sets_split(tv, i as int, k as nat, (n - k) as nat);
                    assert(k as nat + (n - k) as nat == n as nat);
                    assert(dec_frame_sets(tv, cur as int, (n - k) as nat) is None);
                }
                return None;
            },
        }
    }
    Some((sets, cur))
}

/// Reads an animation and rebuilds it.
fn decode_anim(toks: &Vec<Tok>, i: usize) -> (r: Option<(Animation, usize)>)
    ensures
        r is Some <==> dec_anim(toks_view(toks@), i as int) is Some,
        r matches Some((a, j)) ==> dec_anim(toks_view(toks@), i as int) == Some((a@, j as int))
            && j <= toks@.len(),
{
    let (n, i1) = match decode_u(toks, i) {
        Some(v) => v,
        None => {
            return None;
        },
    };
    if n > usize::MAX as u64 {
        return None;
    }
    let (sets, i2) = match decode_frame_sets(toks, i1, n) {
        Some(v) => v,
        None => {
            return None;
        },
    };
    let (cur, i3) = match decode_u(toks, i2) {
        Some(v) => v,
        None => {
            return None;
        },
    };
    if cur > usize::MAX as u64 {
        return None;
    }
    let (fi, i4) = match decode_u(toks, i3) {
        Some(v) => v,
        None => {
            return None;
        },
    };
    let (lt, i5) = match decode_u(toks, i4) {
        Some(v) => v,
        None => {
            return None;
        },
    };
    let (fd, i6) = match decode_u(toks, i5) {
        Some(v) => v,
        None => {
            return None;
        },
    };
    Some(
        (
            Animation {
                frame_sets: sets,
                current: cur as usize,
                frame_index: fi,
                last_tick: lt,
                frame_duration: fd,
            },
            i6,
        ),
    )
}

/// Reads one tile and rebuilds it; fails on an unknown variant tag.
pub fn decode_tile(toks: &Vec<Tok>, i: usize) -> (r: Option<(Tile, usize)>)
    ensures
        r is Some <==> dec_tile(toks_view(toks@), i as int) is Some,
        r matches Some((t, j)) ==> dec_tile(toks_view(toks@), i as int) == Some((t@, j as int))
            && j <= toks@.len(),
{
    let (tag, i1) = match decode_u(toks, i) {
        Some(v) => v,
        None => {
            return None;
        },
    };
    let (pos, i2) = match decode_pos(toks, i1) {
        Some(v) => v,
        None => {
            return None;
        },
    };
    let (anim, i3) = match decode_anim(toks, i2) {
        Some(v) => v,
        None => {
            return None;
        },
    };
    if tag == TAG_EDGE {
        Some((Tile::Edge(Edge { pos, anim }), i3))
    } else if tag == TAG_PILLAR {
        Some((Tile::TestPillar(TestPillar { pos, anim }), i3))
    } else if tag == TAG_WARP {
        let (name, i4) = match decode_s(toks, i3) {
            Some(v) => v,
            None => {
                return None;
            },
        };
        Some((Tile::Warp(Warp { pos, anim, load_name: name }), i4))
    } else if tag == TAG_BOULDER {
        let (stage, i4) = match decode_u(toks, i3) {
            Some(v) => v,
            None => {
                return None;
            },
        };
        Some((Tile::Boulder(Boulder { pos, anim, stage }), i4))
    } else {
        None
    }
}

/// Reading `k + m` tiles is reading `k`, then `m` more where that left off.
proof fn lemma_dec_tiles_split(s: Seq<TokV>, i: int, k: nat, m: nat)
    ensures
        dec_tiles(s, i, k + m) == match dec_tiles(s, i, k) {
            Some((a, i1)) => match dec_tiles(s, i1, m) {
                Some((b, i2)) => Some((a + b, i2)),
                None => None,
            },
            None => None,
        },
    decreases k,
{
    if k == 0 {
        match dec_tiles(s, i, m) {
            Some((b, i2)) => {
                assert(Seq::<TileV>::empty() + b =~= b);
            },
            None => {},
        }
    } else {
        match dec_tile(s, i) {
            Some((t, i1)) => {
                lemma_dec_tiles_split(s, i1, (k - 1) as nat, m);
                match dec_tiles(s, i1, (k - 1) as nat) {
                    Some((a1, j1)) => {
                        match dec_tiles(s, j1, m) {
                            Some((b, i2)) => {
                                assert((seq![t] + a1) + b =~= seq![t] + (a1 + b));
                            },
                            None => {},
                        }
                    },
                    None => {},
                }
            },
            None => {},
        }
    }
}

/// Reads a region back from its tokens: the tile count, then that many tiles.
/// Fails, touching nothing else, on a malformed stream or an unknown tag.
pub fn decode_region(toks: &Vec<Tok>, i: usize) -> (r: Option<(Region, usize)>)
    ensures
        r is Some <==> dec_region(toks_view(toks@), i as int) is Some,
        r matches Some((rg, j)) ==> dec_region(toks_view(toks@), i as int) == Some(
            (rg@, j as int),
        ),
{
    let ghost tv: Seq<TokV> = toks_view(toks@);
    let (n, i1) = match decode_u(toks, i) {
        Some(v) => v,
        None => {
            return None;
        },
    };
    if n > usize::MAX as u64 {
        return None;
    }
    let mut tiles: Vec<Tile> = Vec::new();
    let mut cur = i1;
    let mut k: u64 = 0;
    proof {
        assert(tiles@.map_values(|t: Tile| t@) =~= Seq::<TileV>::empty());
        assert(dec_tiles(tv, i1 as int, 0) == Some(
            (tiles@.map_values(|t: Tile| t@), cur as int),
        ));
    }
    while k < n
        invariant
            k <= n,
            n <= usize::MAX as u64,
            tv == toks_view(toks@),
            dec_u(tv, i as int) == Some((n, i1 as int)),
            dec_tiles(tv, i1 as int, k as nat) == Some(
                (tiles@.map_values(|t: Tile| t@), cur as int),
            ),
        decreases n - k,
    {
        match decode_tile(toks, cur) {
            Some((t, j)) => {
                proof {
                    lemma_dec_tiles_split(tv, i1 as int, k as nat, 1);
                    assert(dec_tiles(tv, j as int, 0) == Some((Seq::<TileV>::empty(), j as int)));
                    assert(dec_tiles(tv, cur as int, 1) == Some((seq![t@], j as int)));
                    assert(tiles@.map_values(|t: Tile| t@) + seq![t@] =~= tiles@.push(
                        t,
                    ).map_values(|t: Tile| t@));
                }
                tiles.push(t);
                cur = j;
                proof {
                    assert((k + 1) as nat == k as nat + 1);
                }
                k = k + 1;
            },
            None => {
                proof {
                    lemma_dec_tiles_split(tv, i1 as int, k as nat, (n - k) as nat);
                    assert(k as nat + (n - k) as nat == n as nat);
                    assert(dec_tiles(tv, cur as int, (n - k) as nat) is None);
                    assert(dec_tiles(tv, i1 as int, n as nat) is None);
                    assert(dec_u(tv, i as int) == Some((n, i1 as int)));
                    assert(dec_region(tv, i as int) is None);
                }
                return None;
            },
        }
    }
    let region = Region::new(tiles);
    Some((region, cur))
}

} // verus!
