use vstd::prelude::*;

verus! {

/// A request for writing assistance.
#[derive(Debug)]
pub struct AssistRequest {
    pub prompt: String,
    pub limit: u64,
}

/// How many similar memos an assistance request consults when it names no limit.
pub fn default_limit() -> (r: u64)
    ensures
        r == 5,
{
    5
}

impl AssistRequest {
    /// A request for `prompt` with the default limit.
    pub fn new(prompt: String) -> (r: AssistRequest)
        ensures
            r.prompt == prompt,
            r.limit == 5,
    {
        AssistRequest { prompt, limit: default_limit() }
    }
}

} // verus!
