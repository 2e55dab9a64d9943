//! An HTTP client toolkit whose core is a verified multipart/form-data encoder.
//!
//! Bodies are modelled by [`body::Body`]: a fixed buffer, nothing, or a source
//! that the caller drives. A [`multipart::Form`] frames its parts around such
//! bodies, tells ahead of time whether the encoded length is known, and is
//! encoded by a [`multipart::FormStream`] whose output is proved to be the
//! framing that the contracts describe.
pub mod auth;
pub mod body;
pub mod boundary;
pub mod client;
pub mod json;
pub mod multipart;
pub mod response;
pub mod uri;

pub use body::{empty, full, stream, Body};
pub use boundary::fast_random;
pub use client::MaybeAbort;
pub use json::Json;
pub use multipart::{BuildMultipartError, Form, FormStream, Part, Step};
pub use response::Decoders;
