use vstd::prelude::*;

mod sealed;

verus! {

/// The stage that a uniform builder has reached, held in its type.
pub trait BuilderState: sealed::Sealed {
    type AddBindGroupLayout;

    type AddData;
}

impl<T: sealed::Sealed> BuilderState for T {
    type AddBindGroupLayout = T::AddBindGroupLayout;

    type AddData = T::AddData;
}

/// Neither a layout nor data has been given.
pub struct BuilderInit;

/// A layout has been given, data has not.
pub struct BuilderLayout;

/// Data has been given, a layout has not.
pub struct BuilderData;

/// Both a layout and data have been given: the uniform can be built.
pub struct BuilderComplete;

impl sealed::Sealed for BuilderInit {
    type AddBindGroupLayout = BuilderLayout;

    type AddData = BuilderData;
}

impl sealed::Sealed for BuilderLayout {
    type AddBindGroupLayout = Self;

    type AddData = BuilderComplete;
}

impl sealed::Sealed for BuilderData {
    type AddBindGroupLayout = BuilderComplete;

    type AddData = Self;
}

impl sealed::Sealed for BuilderComplete {
    type AddBindGroupLayout = Self;

    type AddData = Self;
}

} // verus!
