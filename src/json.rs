//! A value to be sent as a JSON body.
use vstd::prelude::*;

verus! {

/// A value that a request carries serialized as JSON.
pub struct Json<T>(pub T);

impl<T> Json<T> {
    /// Wraps `inner`.
    pub fn new(inner: T) -> (r: Self)
        ensures
            r.0 == inner,
    {
        Json(inner)
    }

    /// The wrapped value.
    pub fn into_inner(self) -> (r: T)
        ensures
            r == self.0,
    {
        self.0
    }
}

} // verus!
