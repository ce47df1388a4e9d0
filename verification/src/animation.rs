//! Per-tile visual state machine: a registry of keyed frame-sets, a selected
//! set, and a frame index advanced by the world clock.

use vstd::prelude::*;

use crate::clock::Clock;

verus! {

/// A sprite-sheet cell: the renderable datum handed to the drawing
/// collaborator, which resolves it to an image externally.
#[derive(Clone, Copy, Debug, PartialEq, Eq, Structural)]
pub struct Frame {
    pub x: i64,
    pub y: i64,
}

/// A keyed sequence of frames: `len` consecutive cells of one sheet row,
/// starting at `base`. Selection keys come from direction or variant lookup.
#[derive(Clone, Copy, Debug, PartialEq, Eq, Structural)]
pub struct FrameSet {
    pub key: u64,
    pub base: Frame,
    pub len: u64,
}

impl FrameSet {
    /// A frame-set is well formed when it holds at least one frame and its
    /// row of cells stays within coordinate range.
    pub open spec fn wf(self) -> bool {
        &&& 1 <= self.len <= i64::MAX
        &&& self.base.x + self.len <= i64::MAX
    }

    /// The `j`-th frame of the set: the cell `j` columns right of `base`.
    pub open spec fn frame_at(self, j: u64) -> Frame {
        Frame { x: (self.base.x + j) as i64, y: self.base.y }
    }
}

/// The requested animation key has no registered frame-set; recoverable, the
/// caller keeps or substitutes a frame-set of its choice.
#[derive(Clone, Copy, Debug, PartialEq, Eq, Structural)]
pub struct AnimationSelectError;

/// Mathematical model of an [`Animation`].
pub struct AnimationView {
    pub frame_sets: Seq<FrameSet>,
    pub current: int,
    pub frame_index: u64,
    pub last_tick: u64,
    pub frame_duration: u64,
}

impl AnimationView {
    /// Well-formedness: a nonempty registry of well-formed frame-sets, a
    /// selected set in range, a frame index in bounds for the selected set,
    /// and a nonzero frame duration.
    pub open spec fn wf(self) -> bool {
        &&& 1 <= self.frame_sets.len() <= usize::MAX
        &&& 0 <= self.current < self.frame_sets.len()
        &&& (forall|i: int| 0 <= i < self.frame_sets.len() ==> (#[trigger] self.frame_sets[i]).wf())
        &&& self.frame_index < self.frame_sets[self.current].len
        &&& 1 <= self.frame_duration
    }

    /// The currently selected frame-set.
    pub open spec fn cur_set(self) -> FrameSet {
        self.frame_sets[self.current]
    }

    /// The frame the animation currently shows.
    pub open spec fn frame(self) -> Frame {
        self.cur_set().frame_at(self.frame_index)
    }
}

/// Whether some registered frame-set carries `key`.
pub open spec fn has_key(sets: Seq<FrameSet>, key: u64) -> bool {
    exists|i: int| 0 <= i < sets.len() && (#[trigger] sets[i]).key == key
}

/// The animation state after one `advance` at tick `now`: if a full frame
/// duration has elapsed since `last_tick`, the frame index moves one step
/// (wrapping past the last frame to the first) and `last_tick` is stamped;
/// otherwise the state is unchanged.
pub open spec fn spec_advance(a: AnimationView, now: u64) -> AnimationView {
    if a.last_tick + a.frame_duration <= now {
        AnimationView {
            frame_index: if a.frame_index + 1 < a.cur_set().len {
                (a.frame_index + 1) as u64
            } else {
                0
            },
            last_tick: now,
            ..a
        }
    } else {
        a
    }
}

/// Per-tile animation state. Owned exclusively by its tile; advanced once per
/// world tick by the tile's update hook.
#[derive(Debug)]
pub struct Animation {
    pub frame_sets: Vec<FrameSet>,
    pub current: usize,
    pub frame_index: u64,
    pub last_tick: u64,
    pub frame_duration: u64,
}

impl View for Animation {
    type V = AnimationView;

    open spec fn view(&self) -> AnimationView {
        AnimationView {
            frame_sets: self.frame_sets@,
            current: self.current as int,
            frame_index: self.frame_index,
            last_tick: self.last_tick,
            frame_duration: self.frame_duration,
        }
    }
}

impl Animation {
    /// Builds an animation over `frame_sets`, starting on the first set's
    /// first frame at tick zero. Returns `None` exactly when the input is
    /// ill-formed: no frame-sets, a frame-set with no frames or overrunning
    /// the coordinate range, or a zero frame duration.
    pub fn new(frame_sets: Vec<FrameSet>, frame_duration: u64) -> (r: Option<Animation>)
        ensures
            r is Some <==> {
                &&& 1 <= frame_sets@.len()
                &&& (forall|i: int|
                    0 <= i < frame_sets@.len() ==> (#[trigger] frame_sets@[i]).wf())
                &&& 1 <= frame_duration
            },
            r matches Some(a) ==> a@ == (AnimationView {
                frame_sets: frame_sets@,
                current: 0,
                frame_index: 0,
                last_tick: 0,
                frame_duration,
            }),
            r matches Some(a) ==> a@.wf(),
    {
        if frame_sets.len() == 0 || frame_duration == 0 {
            return None;
        }
        let mut i: usize = 0;
        while i < frame_sets.len()
            invariant
                i <= frame_sets@.len(),
                forall|j: int| 0 <= j < i ==> (#[trigger] frame_sets@[j]).wf(),
            decreases frame_sets@.len() - i,
        {
            let s = frame_sets[i];
            if s.len == 0 || s.len > i64::MAX as u64 || s.base.x > i64::MAX - (s.len as i64) {
                return None;
            }
            i = i + 1;
        }
        Some(Animation { frame_sets, current: 0, frame_index: 0, last_tick: 0, frame_duration })
    }

    /// Switches the active frame-set to the first one registered under `key`
    /// and resets the frame index to the start of that set (the documented
    /// selection policy). Fails with [`AnimationSelectError`], leaving the
    /// whole state unchanged, exactly when no frame-set carries `key`.
    pub fn select(&mut self, key: u64) -> (r: Result<(), AnimationSelectError>)
        ensures
            r is Ok <==> has_key(old(self)@.frame_sets, key),
            r is Ok ==> {
                &&& final(self)@.frame_sets == old(self)@.frame_sets
                &&& 0 <= final(self)@.current < final(self)@.frame_sets.len()
                &&& final(self)@.cur_set().key == key
                &&& (forall|j: int|
                    0 <= j < final(self)@.current
                        ==> (#[trigger] final(self)@.frame_sets[j]).key != key)
                &&& final(self)@.frame_index == 0
                &&& final(self)@.last_tick == old(self)@.last_tick
                &&& final(self)@.frame_duration == old(self)@.frame_duration
            },
            r is Err ==> final(self)@ == old(self)@,
            old(self)@.wf() ==> final(self)@.wf(),
    {
        let mut i: usize = 0;
        while i < self.frame_sets.len()
            invariant
                i <= self.frame_sets@.len(),
                forall|j: int| 0 <= j < i ==> (#[trigger] self.frame_sets@[j]).key != key,
                self@ == old(self)@,
            decreases self.frame_sets@.len() - i,
        {
            if self.frame_sets[i].key == key {
                self.current = i;
                self.frame_index = 0;
                return Ok(());
            }
            i = i + 1;
        }
        Err(AnimationSelectError)
    }

    /// Advances the frame index if a full frame duration has elapsed since
    /// the last recorded tick; otherwise a no-op. Called once per world tick.
    pub fn advance(&mut self, clock: &Clock)
        requires
            old(self)@.wf(),
        ensures
            final(self)@ == spec_advance(old(self)@, clock.time),
            final(self)@.wf(),
    {
        if clock.time >= self.frame_duration && self.last_tick <= clock.time - self.frame_duration {
            let set_len = self.frame_sets[self.current].len;
            self.frame_index = if self.frame_index + 1 < set_len {
                self.frame_index + 1
            } else {
                0
            };
            self.last_tick = clock.time;
        }
    }

    /// The frame the animation currently shows. Pure query.
    pub fn current_frame(&self) -> (r: Frame)
        requires
            self@.wf(),
        ensures
            r == self@.frame(),
    {
        let s = self.frame_sets[self.current];
        Frame { x: s.base.x + (self.frame_index as i64), y: s.base.y }
    }
}

/// The animation invariant keeps the frame index in bounds: however many
/// times a well-formed animation has been advanced or re-keyed (each step
/// preserves well-formedness, as `advance` and `select` ensure), the frame
/// index stays a valid index into the selected frame-set.
pub proof fn lemma_frame_index_in_bounds(a: AnimationView)
    requires
        a.wf(),
    ensures
        a.frame_index < a.cur_set().len,
        0 <= a.current < a.frame_sets.len(),
{
}

/// Key under which the default frame-set of a tile is registered.
pub const DEFAULT_ANIM_KEY: u64 = 0;

/// Ticks each frame of a default animation is held before advancing.
pub const DEFAULT_FRAME_DURATION: u64 = 8;

/// Model of the animation `get_default_anim` builds for a sheet cell.
pub open spec fn default_anim_view(cell: Frame) -> AnimationView {
    AnimationView {
        frame_sets: seq![FrameSet { key: DEFAULT_ANIM_KEY, base: cell, len: 1 }],
        current: 0,
        frame_index: 0,
        last_tick: 0,
        frame_duration: DEFAULT_FRAME_DURATION,
    }
}

/// The default animation table entry for a sheet cell: a single frame-set,
/// registered under [`DEFAULT_ANIM_KEY`], holding the one frame at `cell`.
pub fn get_default_anim(cell: Frame) -> (r: Animation)
    requires
        cell.x < i64::MAX,
    ensures
        r@ == default_anim_view(cell),
        r@.wf(),
{
    let frame_sets = vec![FrameSet { key: DEFAULT_ANIM_KEY, base: cell, len: 1 }];
    assert(frame_sets@ =~= seq![FrameSet { key: DEFAULT_ANIM_KEY, base: cell, len: 1 }]);
    Animation {
        frame_sets,
        current: 0,
        frame_index: 0,
        last_tick: 0,
        frame_duration: DEFAULT_FRAME_DURATION,
    }
}

} // verus!
