//! The body model shared by requests, responses and multipart parts.
//!
//! A body is a fixed buffer, nothing at all, or a source of chunks that the
//! caller drives (a generated stream, a reader). The first two are known to
//! the library byte for byte; a source is opaque and its size is unknown.
use vstd::prelude::*;

verus! {

/// A body of type-erased origin.
pub enum Body<S> {
    /// A single fixed buffer, produced as one chunk.
    Full(Vec<u8>),
    /// No data at all.
    Empty,
    /// A source of chunks that the caller polls; its length is unknown.
    Stream(S),
}

impl<S> Body<S> {
    /// The bytes that the body produces, where they are fixed in advance.
    pub open spec fn fixed_content(&self) -> Option<Seq<u8>> {
        match self {
            Body::Full(data) => Some(data@),
            Body::Empty => Some(Seq::empty()),
            Body::Stream(_) => None,
        }
    }

    /// The exact number of bytes the body produces, where it is known.
    pub fn size_hint(&self) -> (r: Option<u64>)
        ensures
            r matches Some(n) ==> self.fixed_content() matches Some(c) && n == c.len(),
            r is None ==> self.fixed_content() is None,
    {
        match self {
            Body::Full(data) => Some(data.len() as u64),
            Body::Empty => Some(0),
            Body::Stream(_) => None,
        }
    }

    /// Whether the body is known to produce nothing more.
    pub fn is_end_stream(&self) -> (r: bool)
        ensures
            r == (self.fixed_content() matches Some(c) && c.len() == 0),
    {
        match self {
            Body::Full(data) => data.len() == 0,
            Body::Empty => true,
            Body::Stream(_) => false,
        }
    }
}

/// A body made of one fixed buffer.
pub fn full<S>(data: Vec<u8>) -> (r: Body<S>)
    ensures
        r.fixed_content() == Some(data@),
        r == Body::<S>::Full(data),
{
    Body::Full(data)
}

/// A body without data.
pub fn empty<S>() -> (r: Body<S>)
    ensures
        r.fixed_content() == Some(Seq::<u8>::empty()),
        r == Body::<S>::Empty,
{
    Body::Empty
}

/// A body produced by a source that the caller polls; its size is unknown.
pub fn stream<S>(source: S) -> (r: Body<S>)
    ensures
        r.fixed_content() is None,
        r == Body::<S>::Stream(source),
{
    Body::Stream(source)
}

} // verus!
