//! The display override: a line received from outside is shown for a fixed
//! window, which a new line restarts.

use vstd::prelude::*;

verus! {

/// How long an override is shown, in milliseconds.
pub const FLASH_DURATION_MILLIS: u64 = 1000;

/// The state of the override.
pub struct FlashView {
    /// The token of the latest window.
    pub generation: u64,
    /// An override is being shown.
    pub active: bool,
}

/// Decides when the override ends: only the timer of the latest window
/// clears it.
pub struct FlashOverride {
    generation: u64,
    active: bool,
}

impl View for FlashOverride {
    type V = FlashView;

    closed spec fn view(&self) -> FlashView {
        FlashView { generation: self.generation, active: self.active }
    }
}

impl FlashOverride {
    /// No override shown.
    pub fn new() -> (r: FlashOverride)
        ensures
            r@ == (FlashView { generation: 0, active: false }),
    {
        FlashOverride { generation: 0, active: false }
    }

    /// A line arrived: it is shown, and a new window starts. Returns the
    /// token of the timer to arm for this window; earlier timers are void.
    pub fn on_line(&mut self) -> (r: u64)
        ensures
            final(self)@.active,
            final(self)@.generation == (if old(self)@.generation == u64::MAX {
                0
            } else {
                (old(self)@.generation + 1) as u64
            }),
            final(self)@.generation != old(self)@.generation,
            r == final(self)@.generation,
    {
        self.generation = if self.generation == u64::MAX {
            0
        } else {
            self.generation + 1
        };
        self.active = true;
        self.generation
    }

    /// The timer with `token` fired: returns whether the override is cleared,
    /// which is so when it belongs to the latest window of a shown override.
    pub fn on_timer(&mut self, token: u64) -> (r: bool)
        ensures
            r == (old(self)@.active && token == old(self)@.generation),
            final(self)@ == (FlashView { active: old(self)@.active && !r, ..old(self)@ }),
    {
        if self.active && token == self.generation {
            self.active = false;
            true
        } else {
            false
        }
    }
}

} // verus!
