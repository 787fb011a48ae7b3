use vstd::prelude::*;

verus! {

/// One debounced button activation.
#[derive(Clone, Copy, Debug, PartialEq, Eq, Structural)]
pub enum Event {
    Select,
    Up,
    Down,
}

} // verus!
