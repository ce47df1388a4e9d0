//! The tile capability set: a closed sum of grid-object variants sharing a
//! uniform interface (position, animation advance, player-entry hook, tile
//! replacement, factories), with per-variant behaviour behind it.

use vstd::prelude::*;

use crate::animation::{
    default_anim_view, get_default_anim, spec_advance, Animation, AnimationView, Frame,
};
use crate::clock::Clock;
use crate::player::Player;
use crate::space::{GamePos, TileVariant};

verus! {

/// A deferred effect requested by a tile's player-entry hook; consumed once
/// by the world after the interaction call returns, never persisted.
#[derive(Debug)]
pub enum PostOperation {
    /// Ask the world to resolve the named region and swap it in.
    LoadRegion(String),
}

/// Mathematical model of a [`PostOperation`].
pub enum PostOpView {
    LoadRegion(Seq<char>),
}

impl View for PostOperation {
    type V = PostOpView;

    open spec fn view(&self) -> PostOpView {
        match self {
            PostOperation::LoadRegion(name) => PostOpView::LoadRegion(name@),
        }
    }
}

/// The models of a list of operations, element by element.
pub open spec fn ops_view(ops: Seq<PostOperation>) -> Seq<PostOpView> {
    ops.map_values(|op: PostOperation| op@)
}

/// The variant tag of a tile, also the discriminant written by the codec.
#[derive(Clone, Copy, Debug, PartialEq, Eq, Structural)]
pub enum TileEnum {
    Edge,
    TestPillar,
    Warp,
    Boulder,
}

/// Mathematical model of a [`Tile`]: one case per variant, each carrying the
/// common position and animation and the variant's own fields.
pub enum TileV {
    Edge { pos: GamePos, anim: AnimationView },
    TestPillar { pos: GamePos, anim: AnimationView },
    Warp { pos: GamePos, anim: AnimationView, load_name: Seq<char> },
    Boulder { pos: GamePos, anim: AnimationView, stage: u64 },
}

impl TileV {
    pub open spec fn pos(self) -> GamePos {
        match self {
            TileV::Edge { pos, .. } => pos,
            TileV::TestPillar { pos, .. } => pos,
            TileV::Warp { pos, .. } => pos,
            TileV::Boulder { pos, .. } => pos,
        }
    }

    pub open spec fn anim(self) -> AnimationView {
        match self {
            TileV::Edge { anim, .. } => anim,
            TileV::TestPillar { anim, .. } => anim,
            TileV::Warp { anim, .. } => anim,
            TileV::Boulder { anim, .. } => anim,
        }
    }

    /// The same tile with its animation state replaced: position, variant tag
    /// and variant-specific fields all kept.
    pub open spec fn with_anim(self, a: AnimationView) -> TileV {
        match self {
            TileV::Edge { pos, .. } => TileV::Edge { pos, anim: a },
            TileV::TestPillar { pos, .. } => TileV::TestPillar { pos, anim: a },
            TileV::Warp { pos, load_name, .. } => TileV::Warp { pos, anim: a, load_name },
            TileV::Boulder { pos, stage, .. } => TileV::Boulder { pos, anim: a, stage },
        }
    }

    pub open spec fn tag(self) -> TileEnum {
        match self {
            TileV::Edge { .. } => TileEnum::Edge,
            TileV::TestPillar { .. } => TileEnum::TestPillar,
            TileV::Warp { .. } => TileEnum::Warp,
            TileV::Boulder { .. } => TileEnum::Boulder,
        }
    }

    /// A tile is well formed when its animation state is.
    pub open spec fn wf(self) -> bool {
        self.anim().wf()
    }
}

/// Sheet cell of the edge variant's default frame before direction offsets.
pub open spec fn edge_base_cell() -> Frame {
    Frame { x: 4, y: 1 }
}

/// Sheet cell of the test-pillar variant's default frame.
pub open spec fn pillar_base_cell() -> Frame {
    Frame { x: 2, y: 0 }
}

/// Sheet cell of the warp variant's default frame.
pub open spec fn warp_base_cell() -> Frame {
    Frame { x: 2, y: 4 }
}

/// Sheet cell of the boulder variant's default frame.
pub open spec fn boulder_base_cell() -> Frame {
    Frame { x: 6, y: 2 }
}

/// Stage after which a boulder declares no further replacement.
pub const BOULDER_FINAL_STAGE: u64 = 2;

/// Model of `match_directions`: the sheet cell one step from `base` in the
/// direction the variant faces (`Center` keeps `base` itself).
pub open spec fn spec_match_directions(variant: TileVariant, base: Frame) -> Frame {
    match variant {
        TileVariant::Center => base,
        TileVariant::Top => Frame { x: base.x, y: (base.y - 1) as i64 },
        TileVariant::Bottom => Frame { x: base.x, y: (base.y + 1) as i64 },
        TileVariant::Left => Frame { x: (base.x - 1) as i64, y: base.y },
        TileVariant::Right => Frame { x: (base.x + 1) as i64, y: base.y },
    }
}

/// Looks up the sheet cell for a variant's facing: one cell away from `base`
/// in the faced direction, `base` itself for `Center`.
pub fn match_directions(variant: TileVariant, base: Frame) -> (r: Frame)
    requires
        i64::MIN < base.x < i64::MAX,
        i64::MIN < base.y < i64::MAX,
    ensures
        r == spec_match_directions(variant, base),
{
    match variant {
        TileVariant::Center => base,
        TileVariant::Top => Frame { x: base.x, y: base.y - 1 },
        TileVariant::Bottom => Frame { x: base.x, y: base.y + 1 },
        TileVariant::Left => Frame { x: base.x - 1, y: base.y },
        TileVariant::Right => Frame { x: base.x + 1, y: base.y },
    }
}

/// Model of a fresh edge: directionally keyed default animation.
pub open spec fn spec_edge_new(pos: GamePos, direction: TileVariant) -> TileV {
    TileV::Edge {
        pos,
        anim: default_anim_view(spec_match_directions(direction, edge_base_cell())),
    }
}

/// Model of a fresh test pillar.
pub open spec fn spec_pillar_new(pos: GamePos) -> TileV {
    TileV::TestPillar { pos, anim: default_anim_view(pillar_base_cell()) }
}

/// Model of a fresh warp to the named region.
pub open spec fn spec_warp_new(pos: GamePos, load_name: Seq<char>) -> TileV {
    TileV::Warp { pos, anim: default_anim_view(warp_base_cell()), load_name }
}

/// Model of a fresh boulder at the given stage.
pub open spec fn spec_boulder_new(pos: GamePos, variant: TileVariant, stage: u64) -> TileV {
    TileV::Boulder {
        pos,
        anim: default_anim_view(spec_match_directions(variant, boulder_base_cell())),
        stage,
    }
}

/// An impassable map edge; no entry behaviour of its own.
#[derive(Debug)]
pub struct Edge {
    pub pos: GamePos,
    pub anim: Animation,
}

impl View for Edge {
    type V = TileV;

    open spec fn view(&self) -> TileV {
        TileV::Edge { pos: self.pos, anim: self.anim@ }
    }
}

impl Edge {
    pub fn new(pos: GamePos, direction: TileVariant) -> (r: Edge)
        ensures
            r@ == spec_edge_new(pos, direction),
            r@.wf(),
    {
        Edge { pos, anim: get_default_anim(match_directions(direction, Frame { x: 4, y: 1 })) }
    }
}

/// A decorative obstacle used in test maps; no entry behaviour of its own.
#[derive(Debug)]
pub struct TestPillar {
    pub pos: GamePos,
    pub anim: Animation,
}

impl View for TestPillar {
    type V = TileV;

    open spec fn view(&self) -> TileV {
        TileV::TestPillar { pos: self.pos, anim: self.anim@ }
    }
}

impl TestPillar {
    pub fn new(pos: GamePos) -> (r: TestPillar)
        ensures
            r@ == spec_pillar_new(pos),
            r@.wf(),
    {
        TestPillar { pos, anim: get_default_anim(Frame { x: 2, y: 0 }) }
    }
}

/// A region warp: entering it asks the world to load the named region.
#[derive(Debug)]
pub struct Warp {
    pub pos: GamePos,
    pub anim: Animation,
    pub load_name: String,
}

impl View for Warp {
    type V = TileV;

    open spec fn view(&self) -> TileV {
        TileV::Warp { pos: self.pos, anim: self.anim@, load_name: self.load_name@ }
    }
}

impl Warp {
    /// Builds a warp to the region named `load_name`. The name is an explicit
    /// parameter: acquiring it (for example by prompting a map author) is the
    /// business of an external authoring collaborator, never of this
    /// constructor.
    pub fn new(pos: GamePos, load_name: String) -> (r: Warp)
        ensures
            r@ == spec_warp_new(pos, load_name@),
            r@.wf(),
    {
        Warp { pos, anim: get_default_anim(Frame { x: 2, y: 4 }), load_name }
    }

    /// A warp at the origin with the documented sentinel load-name `""`.
    pub fn default() -> (r: Warp)
        ensures
            r@ == spec_warp_new(GamePos { x: 0, y: 0 }, Seq::<char>::empty()),
    {
        let name = String::new();
        proof {
            assert(name@ =~= Seq::<char>::empty());
        }
        Warp { pos: GamePos { x: 0, y: 0 }, anim: get_default_anim(Frame { x: 2, y: 4 }), load_name: name }
    }
}

/// A pushable boulder advancing through replacement stages; the final stage
/// declares no successor.
#[derive(Debug)]
pub struct Boulder {
    pub pos: GamePos,
    pub anim: Animation,
    pub stage: u64,
}

impl View for Boulder {
    type V = TileV;

    open spec fn view(&self) -> TileV {
        TileV::Boulder { pos: self.pos, anim: self.anim@, stage: self.stage }
    }
}

impl Boulder {
    pub fn new(pos: GamePos, variant: TileVariant) -> (r: Boulder)
        ensures
            r@ == spec_boulder_new(pos, variant, 0),
            r@.wf(),
    {
        Boulder {
            pos,
            anim: get_default_anim(match_directions(variant, Frame { x: 6, y: 2 })),
            stage: 0,
        }
    }
}

/// The deferred effects a tile's player-entry hook returns: a warp asks for
/// its region to be loaded; every other variant asks for nothing.
pub open spec fn spec_enter_ops(t: TileV) -> Seq<PostOpView> {
    match t {
        TileV::Warp { load_name, .. } => seq![PostOpView::LoadRegion(load_name)],
        _ => Seq::<PostOpView>::empty(),
    }
}

/// The replacement a tile declares for itself after a triggering event: a
/// warp yields the boulder-stage placeholder of the combination mechanic; a
/// boulder below its final stage yields its next stage in place; everything
/// else declares none.
pub open spec fn spec_next(t: TileV) -> Option<TileV> {
    match t {
        TileV::Warp { .. } => Some(
            spec_boulder_new(GamePos { x: 0, y: 0 }, TileVariant::Center, 0),
        ),
        TileV::Boulder { pos, stage, .. } => if stage < BOULDER_FINAL_STAGE {
            Some(spec_boulder_new(pos, TileVariant::Center, (stage + 1) as u64))
        } else {
            None
        },
        _ => None,
    }
}

/// The fresh instance `create` returns: the same kind at the new position and
/// orientation. A created warp carries its parent's load-name (the name is
/// authoring input and is never acquired interactively here).
pub open spec fn spec_create(t: TileV, pos: GamePos, variant: TileVariant) -> TileV {
    match t {
        TileV::Edge { .. } => spec_edge_new(pos, variant),
        TileV::TestPillar { .. } => spec_pillar_new(pos),
        TileV::Warp { load_name, .. } => spec_warp_new(pos, load_name),
        TileV::Boulder { .. } => spec_boulder_new(pos, variant, 0),
    }
}

/// The palette placeholder `pick_tile` returns: a default instance at the
/// origin. A picked warp carries the documented sentinel load-name `"a"` and
/// the origin sheet cell, as distinct from the constructed default.
pub open spec fn spec_pick(t: TileV, a_name: Seq<char>) -> TileV {
    match t {
        TileV::Warp { .. } => TileV::Warp {
            pos: GamePos { x: 0, y: 0 },
            anim: default_anim_view(Frame { x: 0, y: 0 }),
            load_name: a_name,
        },
        _ => spec_create(t, GamePos { x: 0, y: 0 }, TileVariant::Center),
    }
}

/// A grid-cell object: every variant has a position and an animation, plus
/// variant-specific state and behaviour behind the uniform interface below.
#[derive(Debug)]
pub enum Tile {
    Edge(Edge),
    TestPillar(TestPillar),
    Warp(Warp),
    Boulder(Boulder),
}

impl View for Tile {
    type V = TileV;

    open spec fn view(&self) -> TileV {
        match self {
            Tile::Edge(t) => t@,
            Tile::TestPillar(t) => t@,
            Tile::Warp(t) => t@,
            Tile::Boulder(t) => t@,
        }
    }
}

impl Tile {
    /// Pure accessor for the tile's grid position.
    pub fn get_pos(&self) -> (r: GamePos)
        ensures
            r == self@.pos(),
    {
        match self {
            Tile::Edge(t) => t.pos,
            Tile::TestPillar(t) => t.pos,
            Tile::Warp(t) => t.pos,
            Tile::Boulder(t) => t.pos,
        }
    }

    /// The tile's variant tag.
    pub fn get_tile_enum(&self) -> (r: TileEnum)
        ensures
            r == self@.tag(),
    {
        match self {
            Tile::Edge(_) => TileEnum::Edge,
            Tile::TestPillar(_) => TileEnum::TestPillar,
            Tile::Warp(_) => TileEnum::Warp,
            Tile::Boulder(_) => TileEnum::Boulder,
        }
    }

    /// Read access to the tile's animation state.
    pub fn get_anim(&self) -> (r: &Animation)
        ensures
            (*r)@ == self@.anim(),
    {
        match self {
            Tile::Edge(t) => &t.anim,
            Tile::TestPillar(t) => &t.anim,
            Tile::Warp(t) => &t.anim,
            Tile::Boulder(t) => &t.anim,
        }
    }

    /// Exposes the tile's animation state, owned exclusively by the tile, to
    /// the update and render driver. Whatever the caller does through the
    /// reference, the tile's position, tag and variant fields stay put.
    pub fn get_anim_mut(&mut self) -> (r: &mut Animation)
        ensures
            (*r)@ == old(self)@.anim(),
            final(self)@ == old(self)@.with_anim(final(r)@),
    {
        match self {
            Tile::Edge(t) => &mut t.anim,
            Tile::TestPillar(t) => &mut t.anim,
            Tile::Warp(t) => &mut t.anim,
            Tile::Boulder(t) => &mut t.anim,
        }
    }

    /// Advances the tile's animation by one world tick; never relocates the
    /// tile nor touches its variant fields.
    pub fn update_anim(&mut self, clock: &Clock)
        requires
            old(self)@.wf(),
        ensures
            final(self)@ == old(self)@.with_anim(spec_advance(old(self)@.anim(), clock.time)),
            final(self)@.wf(),
    {
        match self {
            Tile::Edge(t) => t.anim.advance(clock),
            Tile::TestPillar(t) => t.anim.advance(clock),
            Tile::Warp(t) => t.anim.advance(clock),
            Tile::Boulder(t) => t.anim.advance(clock),
        }
    }

    /// Invoked when the player's computed move lands on this tile. Total and
    /// synchronous: returns the variant's deferred effects and mutates
    /// nothing, neither the tile nor the player.
    pub fn on_player_enter(&mut self, player: &mut Player, move_pos: GamePos) -> (r: Vec<
        PostOperation,
    >)
        ensures
            final(self)@ == old(self)@,
            *final(player) == *old(player),
            ops_view(r@) == spec_enter_ops(old(self)@),
    {
        match self {
            Tile::Warp(t) => {
                let mut ops: Vec<PostOperation> = Vec::new();
                ops.push(PostOperation::LoadRegion(t.load_name.clone()));
                proof {
                    assert(ops_view(ops@) =~= spec_enter_ops(self@));
                }
                ops
            },
            _ => {
                let ops: Vec<PostOperation> = Vec::new();
                proof {
                    assert(ops_view(ops@) =~= spec_enter_ops(self@));
                }
                ops
            },
        }
    }

    /// The tile this one declares as its replacement after a triggering
    /// event, if any.
    pub fn next(&self) -> (r: Option<Tile>)
        ensures
            r is Some <==> spec_next(self@) is Some,
            r matches Some(t) ==> Some(t@) == spec_next(self@),
    {
        match self {
            Tile::Warp(_) => Some(
                Tile::Boulder(Boulder::new(GamePos { x: 0, y: 0 }, TileVariant::Center)),
            ),
            Tile::Boulder(t) => {
                if t.stage < BOULDER_FINAL_STAGE {
                    let mut b = Boulder::new(t.pos, TileVariant::Center);
                    b.stage = t.stage + 1;
                    Some(Tile::Boulder(b))
                } else {
                    None
                }
            },
            _ => None,
        }
    }

    /// Factory: a fresh instance of the same kind at the new position and
    /// orientation, for map authoring and region generation.
    pub fn create(&self, pos: GamePos, variant: TileVariant) -> (r: Tile)
        ensures
            r@ == spec_create(self@, pos, variant),
            r@.wf(),
    {
        match self {
            Tile::Edge(_) => Tile::Edge(Edge::new(pos, variant)),
            Tile::TestPillar(_) => Tile::TestPillar(TestPillar::new(pos)),
            Tile::Warp(t) => Tile::Warp(Warp::new(pos, t.load_name.clone())),
            Tile::Boulder(_) => Tile::Boulder(Boulder::new(pos, variant)),
        }
    }

    /// A default placeholder instance of this kind for editor or palette use,
    /// with the documented sentinel field values.
    pub fn pick_tile(&self) -> (r: Tile)
        ensures
            r@ == spec_pick(self@, "a"@),
            r@.wf(),
    {
        match self {
            Tile::Warp(_) => {
                let name: String = "a".to_owned();
                Tile::Warp(Warp {
                    pos: GamePos { x: 0, y: 0 },
                    anim: get_default_anim(Frame { x: 0, y: 0 }),
                    load_name: name,
                })
            },
            _ => self.create(GamePos { x: 0, y: 0 }, TileVariant::Center),
        }
    }
}

} // verus!
