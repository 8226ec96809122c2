use vstd::prelude::*;

verus! {

/// A stand-in for the embedding and generation client, for tests.
#[derive(Debug, Clone, Copy, PartialEq, Eq, Structural)]
pub struct MockGeminiClient {
    pub embedding_dimension: usize,
}

impl MockGeminiClient {
    /// A client producing 768-dimensional embeddings.
    pub fn new() -> (r: Self)
        ensures
            r.embedding_dimension == 768,
    {
        MockGeminiClient { embedding_dimension: 768 }
    }

    /// The length of the embeddings this client produces.
    pub fn dimension(&self) -> (r: usize)
        ensures
            r == self.embedding_dimension,
    {
        self.embedding_dimension
    }
}

impl Default for MockGeminiClient {
    fn default() -> (r: Self)
        ensures
            r.embedding_dimension == 768,
    {
        Self::new()
    }
}

} // verus!
