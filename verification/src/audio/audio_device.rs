use vstd::prelude::*;

verus! {

/// How much the analysis windows of a stream consumer overlap.
#[derive(Clone, Copy, Debug, PartialEq, Eq, Structural)]
pub enum Overlap {
    NoOverlap,
    Half,
}

} // verus!
