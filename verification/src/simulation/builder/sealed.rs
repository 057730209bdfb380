use vstd::prelude::*;

verus! {

/// Implemented only by the builder stages of this module.
pub trait Sealed {

}

} // verus!
