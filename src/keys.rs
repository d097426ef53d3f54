use vstd::prelude::*;

verus! {

/// The keys held down during one tick, as far as the game reads them.
#[derive(Clone, Copy, Debug, PartialEq, Eq, Structural)]
pub struct Keys {
    pub left: bool,
    pub right: bool,
    pub space: bool,
    pub up: bool,
    pub down: bool,
    pub enter: bool,
}

impl Keys {
    pub open spec fn none_spec() -> Keys {
        Keys { left: false, right: false, space: false, up: false, down: false, enter: false }
    }

    pub fn none() -> (r: Keys)
        ensures
            r == Keys::none_spec(),
    {
        Keys { left: false, right: false, space: false, up: false, down: false, enter: false }
    }
}

} // verus!
