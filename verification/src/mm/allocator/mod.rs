//! Allocators.
use std::sync::Arc;
use vstd::prelude::*;

pub mod bump;

verus! {

/// An allocator shared by several owners.
pub struct Shared<T> {
    alloc: Arc<T>,
}

impl<T> Shared<T> {
    /// The shared allocator.
    pub closed spec fn spec_alloc(&self) -> T {
        *self.alloc
    }

    pub fn new(alloc: T) -> (r: Self)
        ensures
            r.spec_alloc() == alloc,
    {
        Self { alloc: Arc::new(alloc) }
    }

    /// Another owner of the same allocator.
    pub fn share(&self) -> (r: Self)
        ensures
            r.spec_alloc() == self.spec_alloc(),
    {
        Self { alloc: Arc::clone(&self.alloc) }
    }
}

} // verus!
