use vstd::prelude::*;

verus! {

/// The pointer's look.
#[derive(Clone, Copy, Debug, PartialEq, Eq, Structural)]
pub enum CursorShape {
    Default,
    Move,
    Resize,
    Text,
    Pointer,
}

} // verus!
