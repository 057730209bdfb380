use vstd::prelude::*;

verus! {

/// What a simulation says of itself: its name, and optionally a description and
/// an author.
#[derive(Debug, Clone, PartialEq, Default)]
pub struct InputMetadata {
    pub name: String,
    pub description: Option<String>,
    pub author: Option<String>,
}

} // verus!
