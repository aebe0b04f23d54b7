//! The tunable parameters of a session.
use vstd::prelude::*;
use crate::geometry::Viewport;

verus! {

/// How often the window is recomputed, how wide it is, and where it is drawn.
#[derive(Clone, Copy, Debug, PartialEq, Eq, Structural)]
pub struct Config {
    /// Least gap, in milliseconds, between two recomputations of the window.
    pub throttle_interval: u64,
    /// Half-width, in milliseconds, of the window around the playback clock.
    pub window_radius: u32,
    /// The output surface that rows are mapped onto.
    pub viewport: Viewport,
}

impl Config {
    /// A window can be mapped onto the viewport only if it has some width.
    pub open spec fn wf(self) -> bool {
        self.window_radius > 0 && self.viewport.wf()
    }
}

impl Default for Config {
    /// A tenth of a second between recomputations, a window of two and a half
    /// seconds on either side of the clock, and a 1920 by 1080 surface whose
    /// origin is its centre.
    fn default() -> (r: Config)
        ensures
            r.throttle_interval == 100,
            r.window_radius == 2500,
            r.viewport == (Viewport { width: 1920, height: 1080, offset_x: 960, offset_y: 540 }),
            r.wf(),
    {
        Config {
            throttle_interval: 100,
            window_radius: 2500,
            viewport: Viewport { width: 1920, height: 1080, offset_x: 960, offset_y: 540 },
        }
    }
}

} // verus!
