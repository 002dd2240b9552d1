//! A wrapper that lends a blocking storage peripheral to asynchronous
//! callers.
//!
//! The wrapped peripheral is held as a plain field; the asynchronous trait
//! plumbing that forwards to it lives outside the verified library.

use vstd::prelude::*;

verus! {

/// A wrapper around a blocking peripheral.
#[derive(Debug)]
pub struct BlockingAsync<T> {
    pub wrapped: T,
}

impl<T> BlockingAsync<T> {
    /// Create a new instance of a wrapper for a given peripheral.
    pub fn new(wrapped: T) -> (r: Self)
        ensures
            r.wrapped == wrapped,
    {
        BlockingAsync { wrapped }
    }
}

} // verus!
