//! Long-hover detector: a timer-based state machine that emits a hover
//! gesture after the pointer rests on a tracked target, and a hover-end
//! gesture when the pointer leaves a triggered target.

use vstd::prelude::*;

verus! {

/// The detector's state.
#[derive(Debug, Clone, Copy)]
pub enum HoverState {
    /// No hover is being tracked.
    Idle,
    /// The pointer rests on `entity`; `elapsed_ms` counts towards the delay.
    Preparing { entity: u64, elapsed_ms: u64 },
    /// The hover gesture has fired and awaits the pointer's exit.
    Triggered,
}

/// Mathematical image of the detector.
pub ghost struct HoverModel {
    /// The hover delay, in milliseconds.
    pub duration_ms: u64,
    pub state: HoverState,
}

/// Timer-based long-hover detector.
pub struct Hover {
    duration_ms: u64,
    state: HoverState,
}

impl View for Hover {
    type V = HoverModel;

    closed spec fn view(&self) -> HoverModel {
        HoverModel { duration_ms: self.duration_ms, state: self.state }
    }
}

impl Default for Hover {
    fn default() -> (r: Hover)
        ensures
            r@ == (HoverModel { duration_ms: 500, state: HoverState::Idle }),
    {
        Hover { duration_ms: 500, state: HoverState::Idle }
    }
}

impl Hover {
    /// A detector with the given hover delay.
    pub fn new(duration_ms: u64) -> (r: Hover)
        ensures
            r@ == (HoverModel { duration_ms, state: HoverState::Idle }),
    {
        Hover { duration_ms, state: HoverState::Idle }
    }

    /// Pointer-enter on a tracked target: begin preparing a hover gesture on
    /// it. An overlapping request simply replaces the tracked target; the
    /// returned flag reports that anomaly so the caller can log it.
    pub fn on_over(&mut self, entity: u64) -> (overlap: bool)
        ensures
            final(self)@.duration_ms == old(self)@.duration_ms,
            final(self)@.state == (HoverState::Preparing { entity, elapsed_ms: 0 }),
            overlap == !(old(self)@.state is Idle),
    {
        let overlap = match self.state {
            HoverState::Idle => false,
            _ => true,
        };
        self.state = HoverState::Preparing { entity, elapsed_ms: 0 };
        overlap
    }

    /// Pointer-exit from a tracked target: resets the detector, emitting a
    /// hover-end gesture on the exited target only from the triggered state.
    pub fn on_out(&mut self, entity: u64) -> (r: Option<u64>)
        ensures
            final(self)@.duration_ms == old(self)@.duration_ms,
            final(self)@.state is Idle,
            r == (if old(self)@.state is Triggered {
                Some(entity)
            } else {
                None::<u64>
            }),
    {
        let fired = match self.state {
            HoverState::Triggered => true,
            _ => false,
        };
        self.state = HoverState::Idle;
        if fired {
            Some(entity)
        } else {
            None
        }
    }

    /// Per-tick update: advances the preparing timer by the elapsed time,
    /// capped at the delay; a timer found expired fires the hover gesture on
    /// the tracked target and moves to the triggered state.
    pub fn update_time(&mut self, delta_ms: u64) -> (r: Option<u64>)
        ensures
            final(self)@.duration_ms == old(self)@.duration_ms,
            match old(self)@.state {
                HoverState::Preparing { entity, elapsed_ms } => if elapsed_ms >= old(
                    self,
                )@.duration_ms {
                    final(self)@.state is Triggered && r == Some(entity)
                } else {
                    final(self)@.state == (HoverState::Preparing {
                        entity,
                        elapsed_ms: (if elapsed_ms + delta_ms > old(self)@.duration_ms {
                            old(self)@.duration_ms
                        } else {
                            (elapsed_ms + delta_ms) as u64
                        }),
                    }) && r is None
                },
                _ => final(self)@.state == old(self)@.state && r is None,
            },
    {
        match self.state {
            HoverState::Preparing { entity, elapsed_ms } => {
                if elapsed_ms >= self.duration_ms {
                    self.state = HoverState::Triggered;
                    Some(entity)
                } else if delta_ms > self.duration_ms - elapsed_ms {
                    self.state = HoverState::Preparing { entity, elapsed_ms: self.duration_ms };
                    None
                } else {
                    self.state = HoverState::Preparing {
                        entity,
                        elapsed_ms: elapsed_ms + delta_ms,
                    };
                    None
                }
            },
            _ => None,
        }
    }
}

} // verus!
