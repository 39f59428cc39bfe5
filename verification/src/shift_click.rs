//! Shift-click detector: stateless promotion of a click to a shift-click
//! gesture, driven by a held-modifier flag polled once per tick.

use vstd::prelude::*;

verus! {

/// Remembers whether a shift modifier was held at the last poll.
pub struct ShiftClick {
    shift_pressed: bool,
}

impl View for ShiftClick {
    type V = bool;

    closed spec fn view(&self) -> bool {
        self.shift_pressed
    }
}

impl Default for ShiftClick {
    fn default() -> (r: ShiftClick)
        ensures
            r@ == false,
    {
        ShiftClick { shift_pressed: false }
    }
}

impl ShiftClick {
    /// Per-tick poll of the held-modifier flag.
    pub fn detect_shift_press(&mut self, pressed: bool)
        ensures
            final(self)@ == pressed,
    {
        self.shift_pressed = pressed;
    }

    /// A click on a tracked target is promoted to a shift-click gesture on
    /// that target exactly when the modifier was held at the last poll.
    pub fn on_click(&self, target: u64) -> (r: Option<u64>)
        ensures
            r == (if self@ {
                Some(target)
            } else {
                None::<u64>
            }),
    {
        if self.shift_pressed {
            Some(target)
        } else {
            None
        }
    }
}

} // verus!
