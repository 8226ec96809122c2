use vstd::prelude::*;

verus! {

/// The body of a memo creation.
#[derive(Debug)]
pub struct CreateMemoRequest {
    pub content: String,
}

/// The body of a memo update.
#[derive(Debug)]
pub struct UpdateMemoRequest {
    pub content: String,
}

} // verus!
