//! A thin extractor wrapper around a host framework's request type.

use vstd::prelude::*;

verus! {

/// An HTTP request extractor: wraps the host framework's request value so
/// the host can hang its request-handling traits on it.
pub struct AxumExtractor<T>(T);

impl<T> AxumExtractor<T> {
    /// The wrapped value, for contracts.
    pub closed spec fn spec_inner(&self) -> &T {
        &self.0
    }

    /// Creates a new instance wrapping `value`.
    pub fn new(value: T) -> (r: AxumExtractor<T>)
        ensures
            *r.spec_inner() == value,
    {
        AxumExtractor(value)
    }

    /// A reference to the wrapped value.
    pub fn get(&self) -> (r: &T)
        ensures
            r == self.spec_inner(),
    {
        &self.0
    }

    /// Unwraps the extractor.
    pub fn into_inner(self) -> (r: T)
        ensures
            r == *self.spec_inner(),
    {
        self.0
    }
}

} // verus!
