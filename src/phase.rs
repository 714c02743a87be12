use vstd::prelude::*;

verus! {

/// Which kind of move the match is currently asking for.
#[derive(Debug, Clone, Copy, PartialEq, Eq, Structural)]
pub enum Phase {
    Action,
    Block,
    Challenge,
}

} // verus!
