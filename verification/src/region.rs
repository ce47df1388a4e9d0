//! A region: one loadable map area owning an ordered list of tiles, with
//! position lookup, per-tick animation update, and a depth-ordered render
//! split around the player's row.

use vstd::prelude::*;

use crate::animation::{spec_advance, Frame};
use crate::clock::Clock;
use crate::player::Player;
use crate::space::GamePos;
use crate::tile::{ops_view, spec_enter_ops, PostOpView, PostOperation, Tile, TileV};

verus! {

/// One renderable unit handed to the drawing collaborator: a grid position
/// and the sheet cell to show there.
#[derive(Clone, Copy, Debug, PartialEq, Eq, Structural)]
pub struct DrawCommand {
    pub pos: GamePos,
    pub frame: Frame,
}

/// The positions occupied by a tile sequence.
pub open spec fn positions(s: Seq<TileV>) -> Set<GamePos> {
    s.map_values(|t: TileV| t.pos()).to_set()
}

/// The region invariant: at most one tile occupies a given position.
pub open spec fn positions_distinct(s: Seq<TileV>) -> bool {
    forall|i: int, j: int|
        0 <= i < s.len() && 0 <= j < s.len() && i != j ==> (#[trigger] s[i]).pos() != (
        #[trigger] s[j]).pos()
}

/// Every tile of the sequence is well formed.
pub open spec fn all_wf(s: Seq<TileV>) -> bool {
    forall|i: int| 0 <= i < s.len() ==> (#[trigger] s[i]).wf()
}

/// A region after one tick: every tile's animation advanced once against the
/// same pre-tick clock reading, nothing else changed.
pub open spec fn spec_region_update(s: Seq<TileV>, now: u64) -> Seq<TileV> {
    s.map_values(|t: TileV| t.with_anim(spec_advance(t.anim(), now)))
}

/// The first tile of the sequence occupying `pos`, if any.
pub open spec fn spec_tile_at(s: Seq<TileV>, pos: GamePos) -> Option<TileV>
    decreases s.len(),
{
    if s.len() == 0 {
        None
    } else if s[0].pos() == pos {
        Some(s[0])
    } else {
        spec_tile_at(s.drop_first(), pos)
    }
}

/// The draw command a tile contributes: its position and current frame.
pub open spec fn draw_cmd(t: TileV) -> DrawCommand {
    DrawCommand { pos: t.pos(), frame: t.anim().frame() }
}

/// Tiles drawn behind the player: those at the player's row or above it
/// (ties at equal row go to the back layer), in list order.
pub open spec fn spec_draw_before(s: Seq<TileV>, player_y: i64) -> Seq<DrawCommand> {
    s.filter(|t: TileV| t.pos().y <= player_y).map_values(|t: TileV| draw_cmd(t))
}

/// Tiles drawn in front of the player: those strictly below the player's
/// row, in list order.
pub open spec fn spec_draw_after(s: Seq<TileV>, player_y: i64) -> Seq<DrawCommand> {
    s.filter(|t: TileV| t.pos().y > player_y).map_values(|t: TileV| draw_cmd(t))
}

/// The positions the commands of a draw list cover.
pub open spec fn cmd_positions(cmds: Seq<DrawCommand>) -> Set<GamePos> {
    cmds.map_values(|c: DrawCommand| c.pos).to_set()
}

/// The lookup behaves as one: it succeeds exactly when some tile occupies
/// `pos`, and a found tile occupies `pos` and comes from the sequence.
pub proof fn lemma_spec_tile_at(s: Seq<TileV>, pos: GamePos)
    ensures
        (spec_tile_at(s, pos) is Some) <==> exists|i: int|
            0 <= i < s.len() && (#[trigger] s[i]).pos() == pos,
        spec_tile_at(s, pos) matches Some(t) ==> t.pos() == pos && exists|i: int|
            0 <= i < s.len() && s[i] == t,
    decreases s.len(),
{
    if s.len() == 0 {
    } else if s[0].pos() == pos {
        assert(s[0].pos() == pos);
    } else {
        lemma_spec_tile_at(s.drop_first(), pos);
        if spec_tile_at(s, pos) is Some {
            let t = spec_tile_at(s.drop_first(), pos).unwrap();
            let j = choose|j: int| 0 <= j < s.drop_first().len() && s.drop_first()[j] == t;
            assert(s[j + 1] == t);
        }
        if exists|i: int| 0 <= i < s.len() && (#[trigger] s[i]).pos() == pos {
            let i = choose|i: int| 0 <= i < s.len() && (#[trigger] s[i]).pos() == pos;
            assert(s.drop_first()[i - 1].pos() == pos);
        }
    }
}

/// At most one tile occupies a position: wherever the one-tile-per-position
/// invariant holds, any tile occupying `pos` is exactly the tile the lookup
/// finds, and a found tile always occupies the queried position.
pub proof fn lemma_tile_at_unique(s: Seq<TileV>, pos: GamePos)
    requires
        positions_distinct(s),
    ensures
        spec_tile_at(s, pos) matches Some(t) ==> t.pos() == pos,
        forall|i: int|
            0 <= i < s.len() && (#[trigger] s[i]).pos() == pos ==> spec_tile_at(s, pos) == Some(
                s[i],
            ),
{
    lemma_spec_tile_at(s, pos);
    assert forall|i: int|
        0 <= i < s.len() && (#[trigger] s[i]).pos() == pos implies spec_tile_at(s, pos) == Some(
        s[i],
    ) by {
        let t = spec_tile_at(s, pos).unwrap();
        let j = choose|j: int| 0 <= j < s.len() && s[j] == t;
        if i != j {
            assert(s[i].pos() != s[j].pos());
        }
    };
}

/// A region tick never relocates, retags or drops tiles: after an update the
/// tile count, each tile's position, tag and variant fields, and the set of
/// occupied positions are all unchanged.
pub proof fn lemma_update_preserves_positions(s: Seq<TileV>, now: u64)
    ensures
        spec_region_update(s, now).len() == s.len(),
        forall|i: int|
            0 <= i < s.len() ==> (#[trigger] spec_region_update(s, now)[i]).pos() == s[i].pos()
                && spec_region_update(s, now)[i].tag() == s[i].tag(),
        positions(spec_region_update(s, now)) == positions(s),
{
    let u = spec_region_update(s, now);
    assert(u.map_values(|t: TileV| t.pos()) =~= s.map_values(|t: TileV| t.pos()));
}

/// Helper: the two depth filters split a tile list exactly in two.
proof fn lemma_draw_split_len(s: Seq<TileV>, player_y: i64)
    ensures
        s.filter(|t: TileV| t.pos().y <= player_y).len() + s.filter(
            |t: TileV| t.pos().y > player_y,
        ).len() == s.len(),
    decreases s.len(),
{
    reveal(Seq::filter);
    if s.len() > 0 {
        lemma_draw_split_len(s.drop_last(), player_y);
        s.drop_last().lemma_filter_push(s.last(), |t: TileV| t.pos().y <= player_y);
        s.drop_last().lemma_filter_push(s.last(), |t: TileV| t.pos().y > player_y);
        assert(s.drop_last().push(s.last()) =~= s);
    }
}

/// Depth-draw partition: every command of the before-list lies at the
/// player's row or behind it, every command of the after-list strictly in
/// front; the two lists together draw exactly the region's tiles, covering
/// its position set exactly once.
pub proof fn lemma_draw_partition(s: Seq<TileV>, player_y: i64)
    ensures
        forall|i: int|
            0 <= i < spec_draw_before(s, player_y).len() ==> (#[trigger] spec_draw_before(
                s,
                player_y,
            )[i]).pos.y <= player_y,
        forall|i: int|
            0 <= i < spec_draw_after(s, player_y).len() ==> (#[trigger] spec_draw_after(
                s,
                player_y,
            )[i]).pos.y > player_y,
        spec_draw_before(s, player_y).len() + spec_draw_after(s, player_y).len() == s.len(),
        cmd_positions(spec_draw_before(s, player_y)).union(
            cmd_positions(spec_draw_after(s, player_y)),
        ) == positions(s),
        cmd_positions(spec_draw_before(s, player_y)).intersect(
            cmd_positions(spec_draw_after(s, player_y)),
        ) == Set::<GamePos>::empty(),
{
    broadcast use vstd::seq_lib::group_filter_ensures;

    let bef = spec_draw_before(s, player_y);
    let aft = spec_draw_after(s, player_y);
    let pb = |t: TileV| t.pos().y <= player_y;
    let pa = |t: TileV| t.pos().y > player_y;
    let fb = s.filter(pb);
    let fa = s.filter(pa);
    assert forall|i: int| 0 <= i < bef.len() implies (#[trigger] bef[i]).pos.y <= player_y by {
        assert(pb(fb[i]));
    };
    assert forall|i: int| 0 <= i < aft.len() implies (#[trigger] aft[i]).pos.y > player_y by {
        assert(pa(fa[i]));
    };
    lemma_draw_split_len(s, player_y);
    let posns = s.map_values(|t: TileV| t.pos());
    assert forall|x: GamePos| positions(s).contains(x) implies cmd_positions(bef).union(
        cmd_positions(aft),
    ).contains(x) by {
        let i = choose|i: int| 0 <= i < posns.len() && (#[trigger] posns[i]) == x;
        if s[i].pos().y <= player_y {
            assert(fb.contains(s[i]));
            let j = choose|j: int| 0 <= j < fb.len() && (#[trigger] fb[j]) == s[i];
            assert(bef.map_values(|c: DrawCommand| c.pos)[j] == x);
        } else {
            assert(fa.contains(s[i]));
            let j = choose|j: int| 0 <= j < fa.len() && (#[trigger] fa[j]) == s[i];
            assert(aft.map_values(|c: DrawCommand| c.pos)[j] == x);
        }
    };
    assert forall|x: GamePos|
        cmd_positions(bef).union(cmd_positions(aft)).contains(x) implies positions(s).contains(
        x,
    ) by {
        let befp = bef.map_values(|c: DrawCommand| c.pos);
        let aftp = aft.map_values(|c: DrawCommand| c.pos);
        if cmd_positions(bef).contains(x) {
            let j = choose|j: int| 0 <= j < befp.len() && (#[trigger] befp[j]) == x;
            s.lemma_filter_contains_rev(pb, fb[j]);
            let i = choose|i: int| 0 <= i < s.len() && (#[trigger] s[i]) == fb[j];
            assert(posns[i] == x);
        } else {
            let j = choose|j: int| 0 <= j < aftp.len() && (#[trigger] aftp[j]) == x;
            s.lemma_filter_contains_rev(pa, fa[j]);
            let i = choose|i: int| 0 <= i < s.len() && (#[trigger] s[i]) == fa[j];
            assert(posns[i] == x);
        }
    };
    assert(cmd_positions(bef).union(cmd_positions(aft)) =~= positions(s));
    assert forall|x: GamePos|
        !(cmd_positions(bef).intersect(cmd_positions(aft)).contains(x)) by {
        if cmd_positions(bef).contains(x) && cmd_positions(aft).contains(x) {
            let befp = bef.map_values(|c: DrawCommand| c.pos);
            let aftp = aft.map_values(|c: DrawCommand| c.pos);
            let j = choose|j: int| 0 <= j < befp.len() && (#[trigger] befp[j]) == x;
            let k = choose|k: int| 0 <= k < aftp.len() && (#[trigger] aftp[k]) == x;
            assert(pb(fb[j]));
            assert(pa(fa[k]));
        }
    };
    assert(cmd_positions(bef).intersect(cmd_positions(aft)) =~= Set::<GamePos>::empty());
}

/// A mutable borrow of one element of a vector.
pub(crate) fn elem_mut<T>(v: &mut Vec<T>, i: usize) -> (r: &mut T)
    requires
        i < old(v)@.len(),
    ensures
        *r == old(v)@[i as int],
        final(v)@ == old(v)@.update(i as int, *final(r)),
{
    &mut v[i]
}

/// One loadable map area: an ordered list of tiles. The order carries no
/// meaning beyond iteration and draw order before depth filtering; the
/// intended invariant, established by construction, is one tile per position.
#[derive(Debug)]
pub struct Region {
    pub tiles: Vec<Tile>,
}

impl View for Region {
    type V = Seq<TileV>;

    open spec fn view(&self) -> Seq<TileV> {
        self.tiles@.map_values(|t: Tile| t@)
    }
}

impl Region {
    pub fn new(tiles: Vec<Tile>) -> (r: Region)
        ensures
            r@ == tiles@.map_values(|t: Tile| t@),
    {
        Region { tiles }
    }

    /// Checks the region invariant: no two tiles share a position. Region
    /// builders establish the invariant by construction; this check lets a
    /// caller confirm it for tile lists of unknown provenance.
    pub fn has_distinct_positions(&self) -> (r: bool)
        ensures
            r == positions_distinct(self@),
    {
        let n = self.tiles.len();
        let mut i: usize = 0;
        while i < n
            invariant
                i <= n,
                n == self.tiles@.len(),
                self@.len() == n,
                forall|a: int, b: int|
                    0 <= a < i && 0 <= b < self@.len() && a != b ==> (#[trigger] self@[a]).pos()
                        != (#[trigger] self@[b]).pos(),
            decreases n - i,
        {
            let pos_i = self.tiles[i].get_pos();
            let mut j: usize = i + 1;
            while j < n
                invariant
                    i < n,
                    i < j <= n,
                    n == self.tiles@.len(),
                    self@.len() == n,
                    pos_i == self@[i as int].pos(),
                    forall|b: int|
                        i < b < j ==> (#[trigger] self@[b]).pos() != self@[i as int].pos(),
                decreases n - j,
            {
                if self.tiles[j].get_pos() == pos_i {
                    proof {
                        assert(self@[i as int].pos() == self@[j as int].pos());
                    }
                    return false;
                }
                j = j + 1;
            }
            i = i + 1;
        }
        true
    }

    /// The list index of the tile occupying `pos`, if any.
    fn index_of_pos(&self, pos: GamePos) -> (r: Option<usize>)
        ensures
            match r {
                Some(i) => i < self@.len() && spec_tile_at(self@, pos) == Some(self@[i as int])
                    && self@[i as int].pos() == pos,
                None => spec_tile_at(self@, pos) is None,
            },
    {
        let mut i: usize = 0;
        proof {
            assert(self@.skip(0) =~= self@);
        }
        while i < self.tiles.len()
            invariant
                i <= self.tiles@.len(),
                self@.len() == self.tiles@.len(),
                spec_tile_at(self@.skip(i as int), pos) == spec_tile_at(self@, pos),
            decreases self.tiles@.len() - i,
        {
            if self.tiles[i].get_pos() == pos {
                proof {
                    assert(self@.skip(i as int)[0] == self@[i as int]);
                }
                return Some(i);
            }
            proof {
                assert(self@.skip(i as int).drop_first() =~= self@.skip(i as int + 1));
                assert(self@.skip(i as int)[0] == self@[i as int]);
            }
            i = i + 1;
        }
        proof {
            assert(self@.skip(self@.len() as int) =~= Seq::<TileV>::empty());
        }
        None
    }

    /// Looks up the tile occupying `pos`: the first in list order, the unique
    /// one wherever the one-tile-per-position invariant holds. Absence is not
    /// an error: `None` means the position is unoccupied.
    pub fn tile_at_pos(&self, pos: GamePos) -> (r: Option<&Tile>)
        ensures
            match r {
                Some(t) => spec_tile_at(self@, pos) == Some(t@),
                None => spec_tile_at(self@, pos) is None,
            },
    {
        match self.index_of_pos(pos) {
            Some(i) => Some(&self.tiles[i]),
            None => None,
        }
    }

    /// Drives the player-entry hook of the tile the player's computed move
    /// lands on, if any, and hands its deferred operations back to the
    /// caller. No variant in this crate mutates on entry, so the region and
    /// the player come back unchanged; an unoccupied position yields no
    /// operations.
    pub fn player_enter(&mut self, player: &mut Player, move_pos: GamePos) -> (r: Vec<
        PostOperation,
    >)
        ensures
            final(self)@ == old(self)@,
            *final(player) == *old(player),
            ops_view(r@) == match spec_tile_at(old(self)@, move_pos) {
                Some(t) => spec_enter_ops(t),
                None => Seq::<PostOpView>::empty(),
            },
    {
        let ghost orig: Seq<TileV> = self@;
        match self.index_of_pos(move_pos) {
            Some(i) => {
                let ops = elem_mut(&mut self.tiles, i).on_player_enter(player, move_pos);
                proof {
                    assert((self.tiles@[i as int])@ == orig[i as int]);
                    assert(ops_view(ops@) == spec_enter_ops(orig[i as int]));
                    assert(self@ =~= orig);
                }
                ops
            },
            None => {
                let r: Vec<PostOperation> = Vec::new();
                proof {
                    assert(ops_view(r@) =~= Seq::<PostOpView>::empty());
                }
                r
            },
        }
    }

    /// Advances every tile's animation once against the pre-tick clock
    /// reading. Order-independent: no tile's update reads another tile.
    pub fn update(&mut self, clock: &Clock)
        requires
            all_wf(old(self)@),
        ensures
            final(self)@ == spec_region_update(old(self)@, clock.time),
            all_wf(final(self)@),
    {
        let ghost orig: Seq<Tile> = self.tiles@;
        let ghost origv: Seq<TileV> = self@;
        let mut i: usize = 0;
        while i < self.tiles.len()
            invariant
                i <= self.tiles@.len(),
                self.tiles@.len() == orig.len(),
                origv == orig.map_values(|t: Tile| t@),
                all_wf(origv),
                forall|j: int| i <= j < orig.len() ==> self.tiles@[j] == orig[j],
                forall|j: int|
                    0 <= j < i ==> (#[trigger] self.tiles@[j])@ == origv[j].with_anim(
                        spec_advance(origv[j].anim(), clock.time),
                    ) && self.tiles@[j]@.wf(),
            decreases self.tiles@.len() - i,
        {
            let t = elem_mut(&mut self.tiles, i);
            proof {
                assert(origv[i as int] == orig[i as int]@);
            }
            t.update_anim(clock);
            i = i + 1;
        }
        proof {
            assert(self@ =~= spec_region_update(origv, clock.time));
            assert(all_wf(self@));
        }
    }

    /// The draw list for everything rendered behind the player: the tiles at
    /// the player's row or above it, in list order, each as its position and
    /// current frame.
    pub fn draw_before_player(&self, player_pos: GamePos) -> (r: Vec<DrawCommand>)
        requires
            all_wf(self@),
        ensures
            r@ == spec_draw_before(self@, player_pos.y),
    {
        let mut cmds: Vec<DrawCommand> = Vec::new();
        let mut i: usize = 0;
        proof {
            assert(self@.take(0) =~= Seq::<TileV>::empty());
            assert(Seq::<TileV>::empty().filter(|t: TileV| t.pos().y <= player_pos.y)
                =~= Seq::<TileV>::empty()) by {
                reveal(Seq::filter);
            }
            assert(cmds@ =~= spec_draw_before(self@.take(0), player_pos.y));
        }
        while i < self.tiles.len()
            invariant
                i <= self.tiles@.len(),
                self@.len() == self.tiles@.len(),
                all_wf(self@),
                cmds@ == spec_draw_before(self@.take(i as int), player_pos.y),
            decreases self.tiles@.len() - i,
        {
            let t = &self.tiles[i];
            proof {
                self@.lemma_take_succ_push(i as int);
                self@.take(i as int).lemma_filter_push(
                    self@[i as int],
                    |t: TileV| t.pos().y <= player_pos.y,
                );
            }
            if t.get_pos().y <= player_pos.y {
                let pos = t.get_pos();
                let frame = t.get_anim().current_frame();
                cmds.push(DrawCommand { pos, frame });
            }
            proof {
                assert(cmds@ =~= spec_draw_before(self@.take(i as int + 1), player_pos.y));
            }
            i = i + 1;
        }
        proof {
            assert(self@.take(self@.len() as int) =~= self@);
        }
        cmds
    }

    /// The draw list for everything rendered in front of the player: the
    /// tiles strictly below the player's row, in list order.
    pub fn draw_after_player(&self, player_pos: GamePos) -> (r: Vec<DrawCommand>)
        requires
            all_wf(self@),
        ensures
            r@ == spec_draw_after(self@, player_pos.y),
    {
        let mut cmds: Vec<DrawCommand> = Vec::new();
        let mut i: usize = 0;
        proof {
            assert(self@.take(0) =~= Seq::<TileV>::empty());
            assert(Seq::<TileV>::empty().filter(|t: TileV| t.pos().y > player_pos.y)
                =~= Seq::<TileV>::empty()) by {
                reveal(Seq::filter);
            }
            assert(cmds@ =~= spec_draw_after(self@.take(0), player_pos.y));
        }
        while i < self.tiles.len()
            invariant
                i <= self.tiles@.len(),
                self@.len() == self.tiles@.len(),
                all_wf(self@),
                cmds@ == spec_draw_after(self@.take(i as int), player_pos.y),
            decreases self.tiles@.len() - i,
        {
            let t = &self.tiles[i];
            proof {
                self@.lemma_take_succ_push(i as int);
                self@.take(i as int).lemma_filter_push(
                    self@[i as int],
                    |t: TileV| t.pos().y > player_pos.y,
                );
            }
            if t.get_pos().y > player_pos.y {
                let pos = t.get_pos();
                let frame = t.get_anim().current_frame();
                cmds.push(DrawCommand { pos, frame });
            }
            proof {
                assert(cmds@ =~= spec_draw_after(self@.take(i as int + 1), player_pos.y));
            }
            i = i + 1;
        }
        proof {
            assert(self@.take(self@.len() as int) =~= self@);
        }
        cmds
    }
}

} // verus!
