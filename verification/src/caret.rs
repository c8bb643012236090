//! Caret blinking.

use vstd::prelude::*;

verus! {

/// The blink state of the caret.
#[derive(Clone, Copy, Debug)]
pub struct CaretState {
    /// Whether the caret is drawn.
    pub visible: bool,
    /// When the caret last changed.
    pub last_toggle_ms: u64,
}

impl CaretState {
    /// How long the caret stays in one state.
    pub const BLINK_INTERVAL_MS: u64 = 400;

    /// A hidden caret that has not changed yet.
    pub fn new() -> (res: Self)
        ensures
            res == (CaretState { visible: false, last_toggle_ms: 0 }),
    {
        CaretState { visible: false, last_toggle_ms: 0 }
    }

    /// Toggle the caret where the interval has passed at `now_ms`.
    pub fn update(&mut self, now_ms: u64)
        ensures
            *final(self) == caret_after(*old(self), now_ms),
    {
        if now_ms.saturating_sub(self.last_toggle_ms) >= Self::BLINK_INTERVAL_MS {
            self.visible = !self.visible;
            self.last_toggle_ms = now_ms;
        }
    }

    /// Show the caret and start a new interval at `now_ms`.
    pub fn reset(&mut self, now_ms: u64)
        ensures
            *final(self) == caret_at(now_ms),
    {
        self.visible = true;
        self.last_toggle_ms = now_ms;
    }
}

/// The caret as a reset at `now_ms` leaves it.
pub open spec fn caret_at(now_ms: u64) -> CaretState {
    CaretState { visible: true, last_toggle_ms: now_ms }
}

impl Default for CaretState {
    fn default() -> (res: Self)
        ensures
            res == (CaretState { visible: false, last_toggle_ms: 0 }),
    {
        CaretState::new()
    }
}

/// The caret at `now_ms`.
pub open spec fn caret_after(c: CaretState, now_ms: u64) -> CaretState {
    if now_ms - c.last_toggle_ms >= CaretState::BLINK_INTERVAL_MS {
        CaretState { visible: !c.visible, last_toggle_ms: now_ms }
    } else {
        c
    }
}

/// After a reset the caret is seen for a whole interval.
pub proof fn law_reset_shows_the_caret(start: u64, now: u64)
    requires
        now < start + CaretState::BLINK_INTERVAL_MS,
    ensures
        caret_after(caret_at(start), now) == caret_at(start),
        caret_at(start).visible,
{
}

/// Two whole intervals bring the caret back to what it was.
pub proof fn law_caret_blinks(c: CaretState, one: u64, two: u64)
    requires
        c.last_toggle_ms + CaretState::BLINK_INTERVAL_MS <= one,
        one + CaretState::BLINK_INTERVAL_MS <= two,
    ensures
        caret_after(c, one).visible != c.visible,
        caret_after(caret_after(c, one), two).visible == c.visible,
{
}

} // verus!
