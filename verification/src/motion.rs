use vstd::prelude::*;

verus! {

/// How a body moves when its way may be blocked.
#[derive(Clone, Copy, PartialEq, Eq, Structural, Debug)]
pub enum Slide {
    /// The whole step.
    Full,
    /// Only its part along x.
    AlongX,
    /// Only its part along y.
    AlongY,
    /// Not at all.
    Blocked,
}

/// The whole step when its end is free, else sliding along x, else along
/// y, else staying.
pub open spec fn slide_for(full_free: bool, x_free: bool, y_free: bool) -> Slide {
    if full_free {
        Slide::Full
    } else if x_free {
        Slide::AlongX
    } else if y_free {
        Slide::AlongY
    } else {
        Slide::Blocked
    }
}

/// Decides how to move, given whether the end of the whole step, of its
/// part along x and of its part along y are free.
pub fn slide(full_free: bool, x_free: bool, y_free: bool) -> (r: Slide)
    ensures
        r == slide_for(full_free, x_free, y_free),
        full_free ==> r == Slide::Full,
        !full_free && x_free ==> r == Slide::AlongX,
        !full_free && !x_free && y_free ==> r == Slide::AlongY,
        !full_free && !x_free && !y_free ==> r == Slide::Blocked,
{
    if full_free {
        Slide::Full
    } else if x_free {
        Slide::AlongX
    } else if y_free {
        Slide::AlongY
    } else {
        Slide::Blocked
    }
}

} // verus!
