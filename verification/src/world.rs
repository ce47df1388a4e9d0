//! The world: top-level owner of all regions, the player, the camera and the
//! clock, and the per-tick update driver.

use vstd::prelude::*;

use crate::clock::{spec_tick, Clock};
use crate::player::Player;
use crate::region::{all_wf, elem_mut, spec_region_update, Region};
use crate::space::GamePos;

verus! {

/// The camera, as far as this core reads it: the grid position its viewport
/// is centred on. Pixel transforms and zoom belong to the render collaborator.
#[derive(Clone, Copy, Debug, PartialEq, Eq, Structural)]
pub struct Camera {
    pub pos: GamePos,
}

impl Camera {
    pub fn new(pos: GamePos) -> (r: Camera)
        ensures
            r.pos == pos,
    {
        Camera { pos }
    }
}

/// The world is well formed when every region's tiles are.
pub open spec fn regions_wf(regions: Seq<Region>) -> bool {
    forall|i: int| 0 <= i < regions.len() ==> all_wf((#[trigger] regions[i])@)
}

/// The top-level container: all regions, the player, the camera and the tick
/// clock. Region switching driven by warp operations swaps entries of
/// `regions`; this core treats all regions uniformly.
#[derive(Debug)]
pub struct World {
    pub regions: Vec<Region>,
    pub player: Player,
    pub camera: Camera,
    pub clock: Clock,
}

impl World {
    pub fn new(regions: Vec<Region>, player: Player, camera: Camera, clock: Clock) -> (r: World)
        ensures
            r.regions == regions,
            r.player == player,
            r.camera == camera,
            r.clock == clock,
    {
        World { regions, player, camera, clock }
    }

    /// One world tick: advances the clock exactly once, then updates every
    /// region exactly once against the new reading, in list order. Region
    /// updates are independent, so the order does not affect the outcome;
    /// the player and the camera are untouched.
    pub fn update(&mut self)
        requires
            regions_wf(old(self).regions@),
        ensures
            final(self).clock.time == spec_tick(old(self).clock.time),
            final(self).player == old(self).player,
            final(self).camera == old(self).camera,
            final(self).regions@.len() == old(self).regions@.len(),
            forall|i: int|
                0 <= i < old(self).regions@.len() ==> (#[trigger] final(self).regions@[i])@
                    == spec_region_update(
                    old(self).regions@[i]@,
                    spec_tick(old(self).clock.time),
                ),
            regions_wf(final(self).regions@),
    {
        self.clock.tick();
        let ghost orig: Seq<Region> = self.regions@;
        let mut i: usize = 0;
        while i < self.regions.len()
            invariant
                i <= self.regions@.len(),
                self.regions@.len() == orig.len(),
                self.clock.time == spec_tick(old(self).clock.time),
                self.player == old(self).player,
                self.camera == old(self).camera,
                regions_wf(orig),
                forall|j: int| i <= j < orig.len() ==> self.regions@[j] == orig[j],
                forall|j: int|
                    0 <= j < i ==> (#[trigger] self.regions@[j])@ == spec_region_update(
                        orig[j]@,
                        self.clock.time,
                    ) && all_wf(self.regions@[j]@),
            decreases self.regions@.len() - i,
        {
            proof {
                assert(all_wf((orig[i as int])@));
            }
            let r = elem_mut(&mut self.regions, i);
            r.update(&self.clock);
            i = i + 1;
        }
    }
}

} // verus!
