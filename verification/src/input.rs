//! Input-button bookkeeping: the state of a mouse button or key across
//! polling cycles.

use vstd::prelude::*;

verus! {

/// `std::time::Instant`, an opaque moment in time.
#[verifier::external_type_specification]
#[verifier::external_body]
pub struct ExInstant(std::time::Instant);

/// Relies on `Instant::now`: some moment in time; nothing is assumed of
/// its value.
#[verifier::external_body]
fn now_instant() -> std::time::Instant {
    std::time::Instant::now()
}

/// The state of a button across polling cycles: freshly pressed, echoed
/// by key repeat, held since some moment, freshly released, or at rest.
#[derive(Clone, Copy, PartialEq, Eq, Debug)]
pub enum ButtonState {
    Pressed,
    Echo(std::time::Instant),
    Held(std::time::Instant),
    Released,
    Depressed,
}

impl ButtonState {
    /// Advances one polling cycle: a fresh press becomes held from this
    /// moment, a fresh release comes to rest, everything else stays.
    pub fn advance_state(self) -> (r: ButtonState)
        ensures
            self is Pressed ==> r is Held,
            self is Released ==> r is Depressed,
            !(self is Pressed) && !(self is Released) ==> r == self,
    {
        match self {
            ButtonState::Pressed => ButtonState::Held(now_instant()),
            ButtonState::Released => ButtonState::Depressed,
            _ => self,
        }
    }

    /// Whether the button counts as pressed: fresh, echoed, or held.
    pub fn is_pressed(&self) -> (r: bool)
        ensures
            r == (self is Pressed || self is Echo || self is Held),
    {
        match self {
            ButtonState::Pressed | ButtonState::Echo(_) | ButtonState::Held(_) => true,
            _ => false,
        }
    }
}

} // verus!
