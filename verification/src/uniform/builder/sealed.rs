use vstd::prelude::*;

verus! {

/// Implemented only by the builder stages of this module. Each stage names the
/// stage that follows it when a bind group layout is added and when data is added.
pub trait Sealed {
    type AddBindGroupLayout;

    type AddData;
}

} // verus!
