//! Choosing how to decode a response body as text.
use crate::multipart::opt_view;
use std::sync::Arc;
use vstd::prelude::*;
use vstd::string::*;
use vstd::utf8::encode_utf8;

verus! {

/// The decoder registered last under `label` among `entries`.
pub open spec fn decoder_for<F>(entries: Seq<(String, F)>, label: Seq<char>) -> Option<F>
    decreases entries.len(),
{
    if entries.len() == 0 {
        None
    } else if entries.last().0@ == label {
        Some(entries.last().1)
    } else {
        decoder_for(entries.drop_last(), label)
    }
}

/// A collection of text decoders, each under a charset label. Where a label
/// was given twice, the later decoder counts.
#[derive(Clone)]
pub struct Decoders<F> {
    inner: Arc<Vec<(String, F)>>,
}

impl<F> Decoders<F> {
    pub closed spec fn entries(&self) -> Seq<(String, F)> {
        (*self.inner)@
    }

    /// The decoders of `entries`.
    pub fn new(entries: Vec<(String, F)>) -> (r: Self)
        ensures
            r.entries() == entries@,
    {
        Decoders { inner: Arc::new(entries) }
    }

    /// The decoder for charset `label`, if one was registered.
    pub fn get(&self, label: &str) -> (r: Option<&F>)
        ensures
            r matches Some(f) ==> decoder_for(self.entries(), label@) == Some(*f),
            r is None ==> decoder_for(self.entries(), label@) is None,
    {
        let entries: &Vec<(String, F)> = &self.inner;
        let wanted = label.to_owned();
        let mut i: usize = entries.len();
        assert(entries@.take(i as int) =~= entries@);
        while i > 0
            invariant
                i <= entries@.len(),
                entries@ == self.entries(),
                wanted@ == label@,
                decoder_for(self.entries(), label@) == decoder_for(entries@.take(i as int), label@),
            decreases i,
        {
            let entry = &entries[i - 1];
            let ghost prefix = entries@.take(i as int);
            assert(prefix.last() == entries@[i - 1]);
            assert(prefix.drop_last() =~= entries@.take(i - 1));
            if entry.0 == wanted {
                return Some(&entry.1);
            }
            i = i - 1;
        }
        None
    }
}

impl<F> Default for Decoders<F> {
    fn default() -> (r: Self)
        ensures
            r.entries() == Seq::<(String, F)>::empty(),
    {
        Decoders { inner: Arc::new(Vec::new()) }
    }
}

#[verifier::external_type_specification]
#[verifier::external_body]
pub struct ExEncoding(encoding_rs::Encoding);

/// The `charset` parameter of the media type `content_type`, lowercased;
/// `None` where it does not parse or has no such parameter.
pub uninterp spec fn mime_charset(content_type: Seq<char>) -> Option<Seq<char>>;

/// Relies on mime's `FromStr` for `Mime` and on `Mime::get_param` with
/// `CHARSET`: the parameter depends on the text alone.
#[verifier::external_body]
fn charset_of(content_type: &str) -> (r: Option<String>)
    ensures
        opt_view(r) == mime_charset(content_type@),
{
    match content_type.parse::<mime::Mime>() {
        Ok(m) => m.get_param(mime::CHARSET).map(|v| v.as_str().to_string()),
        Err(_) => None,
    }
}

/// Whether encoding_rs knows an encoding under `label`.
pub uninterp spec fn encoding_label_known(label: Seq<u8>) -> bool;

/// Relies on encoding_rs's `Encoding::for_label`: whether a label names an
/// encoding depends on the label alone.
#[verifier::external_body]
fn encoding_for_label(label: &str) -> (r: Option<&'static encoding_rs::Encoding>)
    ensures
        r is Some <==> encoding_label_known(label.spec_bytes()),
{
    encoding_rs::Encoding::for_label(label.as_bytes())
}

/// How to turn a response body into text.
pub enum TextDecoding<'a, F> {
    /// As UTF-8.
    Utf8,
    /// With an encoding that encoding_rs knows.
    Encoding(&'static encoding_rs::Encoding),
    /// With a registered decoder, for the charset label given.
    Custom(&'a F, String),
}

/// The charset that a `Content-Type` value names, if any.
pub open spec fn charset_named(content_type: Option<&str>) -> Option<Seq<char>> {
    match content_type {
        Some(c) => mime_charset(c@),
        None => None,
    }
}

/// How a body whose `Content-Type` is `content_type` is decoded: as UTF-8
/// where no charset is named or it is `utf-8`; else with the encoding of
/// that label where encoding_rs knows one; else with the decoder registered
/// under it; else as UTF-8.
pub fn text_decoding<'a, F>(content_type: Option<&str>, decoders: Option<&'a Decoders<F>>) -> (r:
    TextDecoding<'a, F>)
    ensures
        match charset_named(content_type) {
            None => r is Utf8,
            Some(cs) => if cs == "utf-8"@ {
                r is Utf8
            } else if encoding_label_known(encode_utf8(cs)) {
                r is Encoding
            } else {
                match decoders {
                    Some(d) => match decoder_for(d.entries(), cs) {
                        Some(f) => (r matches TextDecoding::Custom(g, label) && *g == f && label@ == cs),
                        None => r is Utf8,
                    },
                    None => r is Utf8,
                }
            },
        },
{
    let charset = match content_type {
        Some(c) => charset_of(c),
        None => None,
    };
    let charset = match charset {
        Some(cs) => cs,
        None => return TextDecoding::Utf8,
    };
    let utf8 = "utf-8".to_owned();
    if charset == utf8 {
        return TextDecoding::Utf8;
    }
    if let Some(encoding) = encoding_for_label(charset.as_str()) {
        return TextDecoding::Encoding(encoding);
    }
    match decoders {
        Some(d) => match d.get(charset.as_str()) {
            Some(f) => TextDecoding::Custom(f, charset),
            None => TextDecoding::Utf8,
        },
        None => TextDecoding::Utf8,
    }
}

} // verus!
