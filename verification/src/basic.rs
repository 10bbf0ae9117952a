//! Small general-purpose pieces: named things, and a value of one of two
//! kinds.

use vstd::prelude::*;

verus! {

/// Something with a fixed name.  The name serves as a unique identifier,
/// so no two things should share one.
pub trait Name {
    fn name(&self) -> &'static str;
}

/// A value of one of two kinds.
pub enum Or<T, U> {
    First(T),
    Second(U),
}

impl<T, U> Or<T, U> {
    /// Whether this is the first kind.
    pub fn is_first(&self) -> (r: bool)
        ensures
            r == (self matches Or::First(_)),
    {
        if let Or::First(_) = self {
            true
        } else {
            false
        }
    }
}

} // verus!
