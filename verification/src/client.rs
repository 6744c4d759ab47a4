//! A client bound to a single backend.

use std::sync::Arc;
use vstd::prelude::*;

verus! {

/// A client that hands every call to its backend. Copies of the client
/// share the backend.
#[derive(Debug, Clone)]
pub struct ArtificialClient<B> {
    backend: Arc<B>,
}

impl<B> View for ArtificialClient<B> {
    type V = B;

    closed spec fn view(&self) -> B {
        *self.backend
    }
}

impl<B> ArtificialClient<B> {
    /// A client for `backend`.
    pub fn new(backend: B) -> (client: ArtificialClient<B>)
        ensures
            client@ == backend,
    {
        ArtificialClient { backend: Arc::new(backend) }
    }

    /// The backend of the client.
    pub fn backend(&self) -> (backend: &B)
        ensures
            *backend == self@,
    {
        &self.backend
    }
}

} // verus!
