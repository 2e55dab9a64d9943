//! Bodies that a client hands back, which may have been cut short.
use crate::body::Body;
use vstd::prelude::*;

verus! {

/// A body, or nothing where the exchange was aborted (a timeout).
pub enum MaybeAbort<B> {
    Abort,
    Success { body: B },
}

impl<B> MaybeAbort<B> {
    /// A completed exchange carrying `body`.
    pub fn success(body: B) -> (r: Self)
        ensures
            r == (MaybeAbort::Success { body }),
    {
        MaybeAbort::Success { body }
    }

    /// An exchange that was cut short: it carries no body.
    pub fn timeout() -> (r: Self)
        ensures
            r is Abort,
    {
        MaybeAbort::Abort
    }
}

impl<B> Default for MaybeAbort<B> {
    fn default() -> (r: Self)
        ensures
            r is Abort,
    {
        MaybeAbort::Abort
    }
}

impl<S> MaybeAbort<Body<S>> {
    /// An aborted exchange has ended; otherwise the body says.
    pub fn is_end_stream(&self) -> (r: bool)
        ensures
            r == match self {
                MaybeAbort::Abort => true,
                MaybeAbort::Success { body } => body.fixed_content() matches Some(c) && c.len() == 0,
            },
    {
        match self {
            MaybeAbort::Abort => true,
            MaybeAbort::Success { body } => body.is_end_stream(),
        }
    }

    /// The exact size of what is left: unknown for an aborted exchange,
    /// otherwise the body's own.
    pub fn size_hint(&self) -> (r: Option<u64>)
        ensures
            self is Abort ==> r is None,
            self matches MaybeAbort::Success { body } ==> (r is Some <==> body.fixed_content() is Some),
            self matches MaybeAbort::Success { body } ==> (r matches Some(n) ==> body.fixed_content() matches Some(c) && n == c.len()),
    {
        match self {
            MaybeAbort::Abort => None,
            MaybeAbort::Success { body } => body.size_hint(),
        }
    }
}

} // verus!
