//! Double-click detector: a timer-based state machine that promotes two
//! clicks inside one detection window to a double-click gesture.

use vstd::prelude::*;

verus! {

/// Mathematical image of the detector.
pub ghost struct DoubleClickModel {
    /// The detection window, in milliseconds.
    pub duration_ms: u64,
    /// Milliseconds elapsed since the arming click, while armed.
    pub timer: Option<u64>,
}

/// Timer-based double-click detector. While armed, a second click fires the
/// gesture on the *current* click's target: clicks this close together are
/// taken as one gesture regardless of target identity.
pub struct DoubleClick {
    duration_ms: u64,
    timer: Option<u64>,
}

impl View for DoubleClick {
    type V = DoubleClickModel;

    closed spec fn view(&self) -> DoubleClickModel {
        DoubleClickModel { duration_ms: self.duration_ms, timer: self.timer }
    }
}

impl Default for DoubleClick {
    fn default() -> (r: DoubleClick)
        ensures
            r@ == (DoubleClickModel { duration_ms: 200, timer: None }),
    {
        DoubleClick { duration_ms: 200, timer: None }
    }
}

impl DoubleClick {
    /// A detector with the given detection window.
    pub fn new(duration_ms: u64) -> (r: DoubleClick)
        ensures
            r@ == (DoubleClickModel { duration_ms, timer: None }),
    {
        DoubleClick { duration_ms, timer: None }
    }

    /// A click on a tracked target: arms the detector while idle; while
    /// armed, disarms and emits the double-click gesture on this target.
    pub fn on_click(&mut self, target: u64) -> (r: Option<u64>)
        ensures
            final(self)@.duration_ms == old(self)@.duration_ms,
            match old(self)@.timer {
                None => final(self)@.timer == Some(0u64) && r is None,
                Some(_) => final(self)@.timer is None && r == Some(target),
            },
    {
        match self.timer {
            None => {
                self.timer = Some(0);
                None
            },
            Some(_) => {
                self.timer = None;
                // the two clicks may target different entities, but being
                // this fast they count as one gesture on the current target
                Some(target)
            },
        }
    }

    /// Per-tick update: advances the armed timer by the elapsed time, capped
    /// at the window; a timer found expired resets to idle, unfired.
    pub fn update_time(&mut self, delta_ms: u64)
        ensures
            final(self)@.duration_ms == old(self)@.duration_ms,
            match old(self)@.timer {
                None => final(self)@.timer is None,
                Some(elapsed) => if elapsed >= old(self)@.duration_ms {
                    final(self)@.timer is None
                } else {
                    final(self)@.timer == Some(
                        (if elapsed + delta_ms > old(self)@.duration_ms {
                            old(self)@.duration_ms
                        } else {
                            (elapsed + delta_ms) as u64
                        }),
                    )
                },
            },
    {
        match self.timer {
            None => {},
            Some(elapsed) => {
                if elapsed >= self.duration_ms {
                    self.timer = None;
                } else if delta_ms > self.duration_ms - elapsed {
                    self.timer = Some(self.duration_ms);
                } else {
                    self.timer = Some(elapsed + delta_ms);
                }
            },
        }
    }
}

} // verus!
