use vstd::prelude::*;

mod sealed;

verus! {

/// The stage that a pipeline or shader builder has reached, held in its type.
pub trait BuilderState: sealed::Sealed {

}

impl<T: sealed::Sealed> BuilderState for T {

}

/// Nothing that the build needs has been given yet.
pub struct BuilderInit;

/// Everything that the build needs has been given.
pub struct BuilderComplete;

impl sealed::Sealed for BuilderInit {

}

impl sealed::Sealed for BuilderComplete {

}

} // verus!
