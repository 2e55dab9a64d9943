//! multipart/form-data: parts, forms, their framing and its length.
use crate::body::Body;
use crate::boundary::{boundary_text, random_boundary};
use std::collections::VecDeque;
use vstd::prelude::*;
use vstd::string::*;
use vstd::utf8::encode_utf8;

verus! {

/// How one character of a quoted header value is written.
pub open spec fn escape_char(c: char) -> Seq<char> {
    if c == '"' || c == '\\' {
        seq!['\\', c]
    } else {
        seq![c]
    }
}

/// A header value with each backslash and double quote preceded by a
/// backslash. No other character is changed.
pub open spec fn escape(s: Seq<char>) -> Seq<char>
    decreases s.len(),
{
    if s.len() == 0 {
        Seq::empty()
    } else {
        escape_char(s[0]) + escape(s.drop_first())
    }
}

/// What a receiver reads from the text that follows an opening quote: the
/// characters up to the first quote that no backslash escapes, each escaped
/// character taken literally; `None` where no such quote comes.
pub open spec fn read_quoted(t: Seq<char>) -> Option<Seq<char>>
    decreases t.len(),
{
    if t.len() == 0 {
        None
    } else if t[0] == '"' {
        Some(Seq::empty())
    } else if t[0] == '\\' {
        if t.len() < 2 {
            None
        } else {
            match read_quoted(t.subrange(2, t.len() as int)) {
                Some(v) => Some(seq![t[1]] + v),
                None => None,
            }
        }
    } else {
        match read_quoted(t.drop_first()) {
            Some(v) => Some(seq![t[0]] + v),
            None => None,
        }
    }
}

proof fn lemma_escape_push(s: Seq<char>, c: char)
    ensures
        escape(s.push(c)) == escape(s) + escape_char(c),
    decreases s.len(),
{
    if s.len() == 0 {
        assert(s.push(c).drop_first() =~= Seq::<char>::empty());
        assert(escape(Seq::<char>::empty()) =~= Seq::<char>::empty());
        assert(s.push(c)[0] == c);
        assert(escape(s.push(c)) =~= escape(s) + escape_char(c));
    } else {
        assert(s.push(c).drop_first() =~= s.drop_first().push(c));
        lemma_escape_push(s.drop_first(), c);
        assert(escape(s.push(c)) =~= escape(s) + escape_char(c));
    }
}

/// An escaped value, closed by a quote, is read back exactly, whatever
/// follows the closing quote.
pub proof fn lemma_quoted_round_trip(s: Seq<char>, rest: Seq<char>)
    ensures
        read_quoted(escape(s) + seq!['"'] + rest) == Some(s),
    decreases s.len(),
{
    let t = escape(s) + seq!['"'] + rest;
    if s.len() == 0 {
        assert(t[0] == '"');
    } else {
        let tail = escape(s.drop_first()) + seq!['"'] + rest;
        lemma_quoted_round_trip(s.drop_first(), rest);
        if s[0] == '"' || s[0] == '\\' {
            assert(t =~= seq!['\\', s[0]] + tail);
            assert(t.subrange(2, t.len() as int) =~= tail);
        } else {
            assert(t =~= seq![s[0]] + tail);
            assert(t.drop_first() =~= tail);
        }
        assert(seq![s[0]] + s.drop_first() =~= s);
    }
}

/// Two values that escape alike are equal.
pub proof fn lemma_escape_injective(a: Seq<char>, b: Seq<char>)
    requires
        escape(a) == escape(b),
    ensures
        a == b,
{
    lemma_quoted_round_trip(a, Seq::empty());
    lemma_quoted_round_trip(b, Seq::empty());
}

/// Writes `s` with each backslash and double quote escaped by a backslash.
pub fn escape_quoted(s: &str) -> (r: String)
    ensures
        r@ == escape(s@),
{
    let n = s.unicode_len();
    let mut out = String::new();
    let mut i: usize = 0;
    while i < n
        invariant
            n == s@.len(),
            i <= n,
            out@ == escape(s@.take(i as int)),
        decreases n - i,
    {
        let c = s.get_char(i);
        if c == '"' || c == '\\' {
            out.append("\\");
            proof {
                reveal_strlit("\\");
            }
            assert("\\"@ =~= seq!['\\']);
        }
        let one = s.substring_char(i, i + 1);
        assert(one@ =~= seq![c]);
        out.append(one);
        proof {
            lemma_escape_push(s@.take(i as int), c);
            assert(s@.take(i as int + 1) =~= s@.take(i as int).push(c));
            assert(out@ =~= escape(s@.take(i as int)) + escape_char(c));
        }
        i = i + 1;
    }
    assert(s@.take(n as int) =~= s@);
    out
}


/// An opening or closing quote.
pub open spec fn quote() -> Seq<char> {
    "\""@
}

/// A value between quotes, escaped.
pub open spec fn quoted(s: Seq<char>) -> Seq<char> {
    quote() + escape(s) + quote()
}

/// What stands before the quoted name of a part.
pub open spec fn name_prefix(boundary: Seq<char>) -> Seq<char> {
    "--"@ + boundary + "\r\n"@ + "Content-Disposition: form-data; name="@
}

/// The file name parameter of a part's disposition, where it has one.
pub open spec fn file_name_param(file_name: Option<Seq<char>>) -> Seq<char> {
    match file_name {
        Some(f) => "; filename="@ + quoted(f),
        None => Seq::empty(),
    }
}

/// The content type line of a part, where it has one.
pub open spec fn content_type_line(mime: Option<Seq<char>>) -> Seq<char> {
    match mime {
        Some(m) => "Content-Type: "@ + m + "\r\n"@,
        None => Seq::empty(),
    }
}

/// The headers of one part, with the separator line before them and the
/// blank line after them.
pub open spec fn preamble(
    boundary: Seq<char>,
    name: Seq<char>,
    file_name: Option<Seq<char>>,
    mime: Option<Seq<char>>,
) -> Seq<char> {
    name_prefix(boundary) + quoted(name) + file_name_param(file_name) + "\r\n"@
        + content_type_line(mime) + "\r\n"@
}

/// The line that ends the whole form.
pub open spec fn closing(boundary: Seq<char>) -> Seq<char> {
    "--"@ + boundary + "--\r\n"@
}

/// What follows the body of each part.
pub open spec fn crlf() -> Seq<char> {
    "\r\n"@
}

proof fn lemma_read_after(head: Seq<char>, s: Seq<char>, rest: Seq<char>)
    ensures
        ({
            let t = head + seq!['"'] + escape(s) + seq!['"'] + rest;
            read_quoted(t.subrange(head.len() + 1int, t.len() as int)) == Some(s)
        }),
{
    let t = head + seq!['"'] + escape(s) + seq!['"'] + rest;
    assert(t.subrange(head.len() + 1int, t.len() as int) =~= escape(s) + seq!['"'] + rest);
    lemma_quoted_round_trip(s, rest);
}

/// A receiver that reads the quoted name in the headers of a part, and the
/// quoted file name where there is one, recovers both exactly, whatever
/// characters they hold.
pub proof fn lemma_disposition_round_trip(
    boundary: Seq<char>,
    name: Seq<char>,
    file_name: Option<Seq<char>>,
    mime: Option<Seq<char>>,
)
    ensures
        ({
            let p = preamble(boundary, name, file_name, mime);
            let k = name_prefix(boundary).len() + 1int;
            &&& read_quoted(p.subrange(k, p.len() as int)) == Some(name)
            &&& file_name matches Some(f) ==> read_quoted(
                p.subrange(k + escape(name).len() + "; filename="@.len() + 2int, p.len() as int),
            ) == Some(f)
        }),
{
    reveal_strlit("\"");
    assert(quote() =~= seq!['"']);
    let head = name_prefix(boundary);
    let tail = "\r\n"@ + content_type_line(mime) + "\r\n"@;
    let after = file_name_param(file_name) + tail;
    let p = preamble(boundary, name, file_name, mime);
    assert(p =~= head + seq!['"'] + escape(name) + seq!['"'] + after);
    lemma_read_after(head, name, after);
    if let Some(f) = file_name {
        let head2 = head + seq!['"'] + escape(name) + seq!['"'] + "; filename="@;
        assert(p =~= head2 + seq!['"'] + escape(f) + seq!['"'] + tail);
        lemma_read_after(head2, f, tail);
    }
}

#[verifier::external_type_specification]
#[verifier::external_body]
pub struct ExMimeFromStrError(mime::FromStrError);

#[verifier::external_type_specification]
#[verifier::external_body]
pub struct ExInvalidHeaderValue(http::header::InvalidHeaderValue);

/// Why a multipart body could not be set up.
pub enum BuildMultipartError {
    /// The boundary did not make a valid `Content-Type` header value.
    InvalidBoundaryHeader(http::header::InvalidHeaderValue),
    /// A part's content type is not a valid media type.
    InvalidMime(mime::FromStrError),
}

/// The text of the media type that `s` parses to, or `None` where `s` is not
/// a valid media type.
pub uninterp spec fn mime_text(s: Seq<char>) -> Option<Seq<char>>;

/// Relies on mime's `FromStr` for `Mime` and on its `Display`: whether `s`
/// parses, and the text of what it parses to, depend on `s` alone.
#[verifier::external_body]
fn parse_mime(s: &str) -> (r: Result<String, mime::FromStrError>)
    ensures
        r is Ok <==> mime_text(s@) is Some,
        r matches Ok(t) ==> mime_text(s@) == Some(t@),
{
    match s.parse::<mime::Mime>() {
        Ok(m) => Ok(m.to_string()),
        Err(e) => Err(e),
    }
}

/// The view of an optional string.
pub open spec fn opt_view(s: Option<String>) -> Option<Seq<char>> {
    match s {
        Some(t) => Some(t@),
        None => None,
    }
}

/// One field of a form: its body, and optionally a file name and a content
/// type.
pub struct Part<S> {
    body: Body<S>,
    file_name: Option<String>,
    mime: Option<String>,
}

impl<S> Part<S> {
    pub closed spec fn spec_body(&self) -> Body<S> {
        self.body
    }

    pub closed spec fn spec_file_name(&self) -> Option<Seq<char>> {
        opt_view(self.file_name)
    }

    pub closed spec fn spec_mime(&self) -> Option<Seq<char>> {
        opt_view(self.mime)
    }

    /// A part holding the UTF-8 bytes of `value`.
    pub fn text(value: &str) -> (r: Part<S>)
        ensures
            r.spec_body().fixed_content() == Some(value.spec_bytes()),
            r.spec_file_name() is None,
            r.spec_mime() is None,
    {
        Part { body: Body::Full(value.as_bytes_vec()), file_name: None, mime: None }
    }

    /// A part holding `value`.
    pub fn bytes(value: Vec<u8>) -> (r: Part<S>)
        ensures
            r.spec_body() == Body::<S>::Full(value),
            r.spec_file_name() is None,
            r.spec_mime() is None,
    {
        Part { body: Body::Full(value), file_name: None, mime: None }
    }

    /// A part whose content is `body`.
    pub fn body(body: Body<S>) -> (r: Part<S>)
        ensures
            r.spec_body() == body,
            r.spec_file_name() is None,
            r.spec_mime() is None,
    {
        Part { body, file_name: None, mime: None }
    }

    /// The same part with file name `name`.
    pub fn file_name(self, name: &str) -> (r: Part<S>)
        ensures
            r.spec_body() == self.spec_body(),
            r.spec_file_name() == Some(name@),
            r.spec_mime() == self.spec_mime(),
    {
        Part { body: self.body, file_name: Some(name.to_owned()), mime: self.mime }
    }

    /// The same part with the content type that `mime` parses to; an error
    /// where `mime` is not a valid media type.
    pub fn mime_str(self, mime: &str) -> (r: Result<Part<S>, BuildMultipartError>)
        ensures
            r is Ok <==> mime_text(mime@) is Some,
            r matches Ok(p) ==> {
                &&& p.spec_body() == self.spec_body()
                &&& p.spec_file_name() == self.spec_file_name()
                &&& p.spec_mime() == mime_text(mime@)
            },
            r matches Err(e) ==> e is InvalidMime,
    {
        match parse_mime(mime) {
            Ok(text) => Ok(Part { body: self.body, file_name: self.file_name, mime: Some(text) }),
            Err(e) => Err(BuildMultipartError::InvalidMime(e)),
        }
    }

    /// The headers of this part under `name`, framed for `boundary`.
    fn preamble(&self, boundary: &str, name: &str) -> (r: String)
        ensures
            r@ == preamble(boundary@, name@, self.spec_file_name(), self.spec_mime()),
    {
        let mut out = String::new();
        out.append("--");
        out.append(boundary);
        out.append("\r\n");
        out.append("Content-Disposition: form-data; name=");
        out.append("\"");
        out.append(escape_quoted(name).as_str());
        out.append("\"");
        let ghost head = out@;
        match &self.file_name {
            Some(f) => {
                out.append("; filename=");
                out.append("\"");
                out.append(escape_quoted(f.as_str()).as_str());
                out.append("\"");
            },
            None => {},
        }
        assert(out@ =~= head + file_name_param(self.spec_file_name()));
        out.append("\r\n");
        let ghost head2 = out@;
        match &self.mime {
            Some(m) => {
                out.append("Content-Type: ");
                out.append(m.as_str());
                out.append("\r\n");
            },
            None => {},
        }
        assert(out@ =~= head2 + content_type_line(self.spec_mime()));
        out.append("\r\n");
        assert(out@ =~= preamble(boundary@, name@, self.spec_file_name(), self.spec_mime()));
        out
    }
}

/// The headers of a named field, framed for `boundary`.
pub open spec fn field_preamble<S>(boundary: Seq<char>, field: (String, Part<S>)) -> Seq<char> {
    preamble(boundary, field.0@, field.1.spec_file_name(), field.1.spec_mime())
}

/// The encoded fields, in order, the body of each taken from `bodies` at the
/// same index: the headers, the body, and a line break.
pub open spec fn encode_fields<S>(
    boundary: Seq<char>,
    fields: Seq<(String, Part<S>)>,
    bodies: Seq<Seq<u8>>,
) -> Seq<u8>
    decreases fields.len(),
{
    if fields.len() == 0 {
        Seq::empty()
    } else {
        let k = fields.len() - 1;
        encode_fields(boundary, fields.drop_last(), bodies) + encode_utf8(
            field_preamble(boundary, fields[k]),
        ) + bodies[k] + encode_utf8(crlf())
    }
}

/// The whole multipart body: the encoded fields and the closing line.
pub open spec fn encoding<S>(
    boundary: Seq<char>,
    fields: Seq<(String, Part<S>)>,
    bodies: Seq<Seq<u8>>,
) -> Seq<u8> {
    encode_fields(boundary, fields, bodies) + encode_utf8(closing(boundary))
}

/// Whether every field's body is fixed in advance.
pub open spec fn all_fixed<S>(fields: Seq<(String, Part<S>)>) -> bool {
    forall|i: int| 0 <= i < fields.len() ==> #[trigger] fields[i].1.spec_body().fixed_content() is Some
}

/// The fixed content of each field's body (empty for a source).
pub open spec fn fixed_bodies<S>(fields: Seq<(String, Part<S>)>) -> Seq<Seq<u8>> {
    Seq::new(
        fields.len(),
        |i: int|
            match fields[i].1.spec_body().fixed_content() {
                Some(c) => c,
                None => Seq::empty(),
            },
    )
}

/// Whether `bodies` gives one body per field and agrees with every body
/// that is fixed in advance.
pub open spec fn bodies_agree<S>(fields: Seq<(String, Part<S>)>, bodies: Seq<Seq<u8>>) -> bool {
    &&& bodies.len() == fields.len()
    &&& forall|i: int|
        0 <= i < fields.len() ==> (#[trigger] fields[i].1.spec_body().fixed_content() matches Some(
            c,
        ) ==> bodies[i] == c)
}

proof fn lemma_encode_fields_prefix<S>(
    boundary: Seq<char>,
    fields: Seq<(String, Part<S>)>,
    bodies: Seq<Seq<u8>>,
    i: int,
)
    requires
        0 <= i <= fields.len(),
    ensures
        ({
            let whole = encode_fields(boundary, fields, bodies);
            let part = encode_fields(boundary, fields.take(i), bodies);
            &&& part.len() <= whole.len()
            &&& whole.subrange(0, part.len() as int) == part
        }),
    decreases fields.len(),
{
    let whole = encode_fields(boundary, fields, bodies);
    if i == fields.len() {
        assert(fields.take(i) =~= fields);
        assert(whole.subrange(0, whole.len() as int) =~= whole);
    } else {
        let part = encode_fields(boundary, fields.take(i), bodies);
        let shorter = encode_fields(boundary, fields.drop_last(), bodies);
        assert(fields.drop_last().take(i) =~= fields.take(i));
        lemma_encode_fields_prefix(boundary, fields.drop_last(), bodies, i);
        assert(whole.subrange(0, part.len() as int) =~= shorter.subrange(0, part.len() as int));
    }
}

/// Fields are framed in the order they were added: for `i < j`, the
/// headers of field `i` are followed by its body and line break, all of
/// which lie before the headers of field `j`.
pub proof fn lemma_fields_in_order<S>(
    boundary: Seq<char>,
    fields: Seq<(String, Part<S>)>,
    bodies: Seq<Seq<u8>>,
    i: int,
    j: int,
)
    requires
        0 <= i < j < fields.len(),
    ensures
        ({
            let whole = encode_fields(boundary, fields, bodies);
            let start_i = encode_fields(boundary, fields.take(i), bodies).len() as int;
            let start_j = encode_fields(boundary, fields.take(j), bodies).len() as int;
            let head_i = encode_utf8(field_preamble(boundary, fields[i]));
            let head_j = encode_utf8(field_preamble(boundary, fields[j]));
            let body_at = start_i + head_i.len();
            let body_end = body_at + bodies[i].len();
            &&& whole.subrange(start_i, body_at) == head_i
            &&& whole.subrange(body_at, body_end) == bodies[i]
            &&& whole.subrange(start_j, start_j + head_j.len()) == head_j
            &&& body_end + encode_utf8(crlf()).len() <= start_j
        }),
{
    let whole = encode_fields(boundary, fields, bodies);
    let before_i = encode_fields(boundary, fields.take(i), bodies);
    let through_i = encode_fields(boundary, fields.take(i + 1), bodies);
    let before_j = encode_fields(boundary, fields.take(j), bodies);
    let through_j = encode_fields(boundary, fields.take(j + 1), bodies);
    let head_i = encode_utf8(field_preamble(boundary, fields[i]));
    let head_j = encode_utf8(field_preamble(boundary, fields[j]));
    let start_i = before_i.len() as int;
    let start_j = before_j.len() as int;
    let body_at = start_i + head_i.len();
    let body_end = body_at + bodies[i].len();
    assert(fields.take(i + 1).drop_last() =~= fields.take(i));
    assert(fields.take(j + 1).drop_last() =~= fields.take(j));
    assert(through_i == before_i + head_i + bodies[i] + encode_utf8(crlf()));
    assert(through_j == before_j + head_j + bodies[j] + encode_utf8(crlf()));
    lemma_encode_fields_prefix(boundary, fields, bodies, i + 1);
    lemma_encode_fields_prefix(boundary, fields, bodies, j + 1);
    assert(fields.take(j).take(i + 1) =~= fields.take(i + 1));
    lemma_encode_fields_prefix(boundary, fields.take(j), bodies, i + 1);
    assert(whole.subrange(start_i, body_at) =~= through_i.subrange(start_i, body_at));
    assert(through_i.subrange(start_i, body_at) =~= head_i);
    assert(whole.subrange(body_at, body_end) =~= through_i.subrange(body_at, body_end));
    assert(through_i.subrange(body_at, body_end) =~= bodies[i]);
    assert(whole.subrange(start_j, start_j + head_j.len()) =~= through_j.subrange(
        start_j,
        start_j + head_j.len(),
    ));
    assert(through_j.subrange(start_j, start_j + head_j.len()) =~= head_j);
}

/// For a form whose bodies are all fixed, the length computed ahead is the
/// number of bytes that its encoder has produced once done.
pub proof fn lemma_length_matches_stream<S>(form: Form<S>, done: FormStream<S>)
    requires
        all_fixed(form.spec_fields()),
        done.inv(),
        done.is_done(),
        done.spec_fields() == form.spec_fields(),
        done.spec_boundary() == form.spec_boundary(),
    ensures
        form.spec_length() == Some(done.spec_emitted().len()),
{
    let fields = form.spec_fields();
    assert(done.spec_bodies() =~= fixed_bodies(fields)) by {
        assert forall|k: int| 0 <= k < fields.len() implies done.spec_bodies()[k] == fixed_bodies(
            fields,
        )[k] by {
            assert(fields[k].1.spec_body().fixed_content() is Some);
        }
    }
}

proof fn lemma_encode_fields_bodies<S>(
    boundary: Seq<char>,
    fields: Seq<(String, Part<S>)>,
    bodies: Seq<Seq<u8>>,
    other: Seq<Seq<u8>>,
)
    requires
        forall|k: int| 0 <= k < fields.len() ==> bodies[k] == other[k],
    ensures
        encode_fields(boundary, fields, bodies) == encode_fields(boundary, fields, other),
    decreases fields.len(),
{
    if fields.len() > 0 {
        lemma_encode_fields_bodies(boundary, fields.drop_last(), bodies, other);
    }
}

/// A multipart/form-data body under construction: named parts, in the
/// order they were added, and the boundary that separates them.
pub struct Form<S> {
    boundary: String,
    fields: VecDeque<(String, Part<S>)>,
}

impl<S> Form<S> {
    pub closed spec fn spec_boundary(&self) -> Seq<char> {
        self.boundary@
    }

    pub closed spec fn spec_fields(&self) -> Seq<(String, Part<S>)> {
        self.fields@
    }

    /// The length of the encoded form, where every body is fixed.
    pub open spec fn spec_length(&self) -> Option<nat> {
        if all_fixed(self.spec_fields()) {
            Some(
                encoding(
                    self.spec_boundary(),
                    self.spec_fields(),
                    fixed_bodies(self.spec_fields()),
                ).len(),
            )
        } else {
            None
        }
    }

    /// What `compute_length` returns for this form.
    pub open spec fn computed_length(&self) -> Option<u64> {
        match self.spec_length() {
            Some(n) => if n <= u64::MAX {
                Some(n as u64)
            } else {
                None
            },
            None => None,
        }
    }

    /// An empty form with a fresh random boundary.
    pub fn new() -> (r: Form<S>)
        ensures
            r.spec_fields().len() == 0,
            exists|a: u64, b: u64, c: u64, d: u64| r.spec_boundary() == boundary_text(a, b, c, d),
    {
        Form { boundary: random_boundary(), fields: VecDeque::new() }
    }

    /// The boundary that separates the parts of this form.
    pub fn boundary(&self) -> (r: &str)
        ensures
            r@ == self.spec_boundary(),
    {
        self.boundary.as_str()
    }

    /// The form with a text field `name` holding `value` added at the end.
    pub fn text(self, name: &str, value: &str) -> (r: Form<S>)
        ensures
            r.spec_boundary() == self.spec_boundary(),
            r.spec_fields().len() == self.spec_fields().len() + 1,
            r.spec_fields().drop_last() == self.spec_fields(),
            r.spec_fields().last().0@ == name@,
            r.spec_fields().last().1.spec_body().fixed_content() == Some(value.spec_bytes()),
            r.spec_fields().last().1.spec_file_name() is None,
            r.spec_fields().last().1.spec_mime() is None,
    {
        self.part(name, Part::text(value))
    }

    /// The form with `part` added at the end under `name`.
    pub fn part(self, name: &str, part: Part<S>) -> (r: Form<S>)
        ensures
            r.spec_boundary() == self.spec_boundary(),
            r.spec_fields() == self.spec_fields().push((r.spec_fields().last().0, part)),
            r.spec_fields().last().0@ == name@,
    {
        let mut fields = self.fields;
        fields.push_back((name.to_owned(), part));
        let r = Form { boundary: self.boundary, fields };
        assert(r.spec_fields().drop_last() =~= self.spec_fields());
        r
    }

    /// The encoder of this form, before its first step.
    pub fn stream(self) -> (r: FormStream<S>)
        ensures
            r.inv(),
            r.spec_fields() == self.spec_fields(),
            r.spec_boundary() == self.spec_boundary(),
            r.spec_index() == 0,
            r.spec_state() is Preamble,
            r.spec_emitted() == Seq::<u8>::empty(),
    {
        let ghost fields = self.fields@;
        let _ = self.fields.len();
        let r = FormStream {
            boundary: self.boundary,
            pending: self.fields,
            current: None,
            index: 0,
            state: StreamState::Preamble,
            fields: Ghost(fields),
            bodies: Ghost(Seq::empty()),
            emitted: Ghost(Seq::empty()),
        };
        assert(fields.subrange(0, fields.len() as int) =~= fields);
        assert(fields.take(0) =~= Seq::<(String, Part<S>)>::empty());
        r
    }

    /// The `Content-Type` header value of a request carrying this form.
    pub fn content_type(&self) -> (r: String)
        ensures
            r@ == "multipart/form-data; boundary="@ + self.spec_boundary(),
    {
        let mut s = String::new();
        s.append("multipart/form-data; boundary=");
        s.append(self.boundary.as_str());
        s
    }

    /// The exact length of the encoded form, where every part's body has a
    /// known size and the total fits in 64 bits; `None` otherwise. The form
    /// is left as it is.
    pub fn compute_length(&self) -> (r: Option<u64>)
        ensures
            r == self.computed_length(),
            r is Some <==> (self.spec_length() matches Some(n) && n <= u64::MAX),
            r matches Some(n) ==> self.spec_length() == Some(n as nat),
            !all_fixed(self.spec_fields()) ==> r is None,
    {
        let ghost fields = self.spec_fields();
        let ghost bodies = fixed_bodies(fields);
        let ghost b = self.spec_boundary();
        let n = self.fields.len();
        let mut total: u64 = 0;
        let mut i: usize = 0;
        while i < n
            invariant
                n == fields.len(),
                fields == self.spec_fields(),
                b == self.spec_boundary(),
                bodies == fixed_bodies(fields),
                i <= n,
                all_fixed(fields.take(i as int)),
                total == encode_fields(b, fields.take(i as int), bodies).len(),
            decreases n - i,
        {
            let field = &self.fields[i];
            let size = match field.1.body.size_hint() {
                Some(size) => size,
                None => {
                    assert(!all_fixed(fields));
                    return None;
                },
            };
            let head = field.1.preamble(self.boundary.as_str(), field.0.as_str());
            let step = head.as_str().as_bytes().len() as u64;
            let tail = "\r\n".as_bytes().len() as u64;
            proof {
                let prev = fields.take(i as int);
                let next = fields.take(i as int + 1);
                assert(next.drop_last() =~= prev);
                assert(next[i as int] == fields[i as int]);
                assert(all_fixed(next));
                assert(encode_fields(b, next, bodies) == encode_fields(b, prev, bodies) + encode_utf8(
                    field_preamble(b, fields[i as int]),
                ) + bodies[i as int] + encode_utf8(crlf()));
                lemma_encode_fields_prefix(b, fields, bodies, i as int + 1);
            }
            let t1 = total.checked_add(step);
            if t1.is_none() {
                return None;
            }
            let t2 = t1.unwrap().checked_add(size);
            if t2.is_none() {
                return None;
            }
            let t3 = t2.unwrap().checked_add(tail);
            if t3.is_none() {
                return None;
            }
            total = t3.unwrap();
            i = i + 1;
        }
        assert(fields.take(n as int) =~= fields);
        let mut close = String::new();
        close.append("--");
        close.append(self.boundary.as_str());
        close.append("--\r\n");
        assert(close@ =~= closing(b));
        assert(all_fixed(fields));
        assert(encoding(b, fields, bodies).len() == total + encode_utf8(closing(b)).len());
        total.checked_add(close.as_str().as_bytes().len() as u64)
    }
}

/// Where a [`FormStream`] stands within the current part.
pub enum StreamState {
    /// The headers of the next part (or the closing line) come next.
    Preamble,
    /// The body of the current part comes next.
    Body,
    /// The caller is draining the current part's source.
    Source,
    /// The line break after the current part's body comes next.
    Trailer,
    /// Everything was produced.
    Done,
    /// A source failed; nothing more is produced.
    Failed,
}

/// What a [`FormStream`] asks of its caller next.
pub enum Step<S> {
    /// Bytes to send next.
    Data(Vec<u8>),
    /// The current part's body is this source: send what it yields, report
    /// each chunk with `source_data` and its end with `source_end`, or its
    /// failure with `source_failed`.
    Source(S),
    /// Nothing more comes.
    End,
}

/// The encoder of a form: a cursor over its parts that produces the framed
/// bytes in order, part by part, and hands each source body to the caller
/// when its turn comes.
pub struct FormStream<S> {
    boundary: String,
    pending: VecDeque<(String, Part<S>)>,
    current: Option<Body<S>>,
    index: usize,
    state: StreamState,
    fields: Ghost<Seq<(String, Part<S>)>>,
    bodies: Ghost<Seq<Seq<u8>>>,
    emitted: Ghost<Seq<u8>>,
}

impl<S> FormStream<S> {
    pub closed spec fn spec_boundary(&self) -> Seq<char> {
        self.boundary@
    }

    /// The fields of the form being encoded.
    pub closed spec fn spec_fields(&self) -> Seq<(String, Part<S>)> {
        self.fields@
    }

    /// The bytes of each body produced so far, by part.
    pub closed spec fn spec_bodies(&self) -> Seq<Seq<u8>> {
        self.bodies@
    }

    /// Every byte produced so far, in order.
    pub closed spec fn spec_emitted(&self) -> Seq<u8> {
        self.emitted@
    }

    pub closed spec fn spec_state(&self) -> StreamState {
        self.state
    }

    /// The fields not yet started.
    pub closed spec fn spec_pending(&self) -> Seq<(String, Part<S>)> {
        self.pending@
    }

    /// The body of the current part, while it has not been handed out.
    pub closed spec fn spec_current(&self) -> Option<Body<S>> {
        self.current
    }

    /// The index of the current part.
    pub closed spec fn spec_index(&self) -> nat {
        self.index as nat
    }

    /// Whether the caller is draining a source.
    pub open spec fn awaiting_source(&self) -> bool {
        self.spec_state() is Source
    }

    /// Whether the whole form was produced.
    pub open spec fn is_done(&self) -> bool {
        self.spec_state() is Done
    }

    /// A bound on the steps left before `End`.
    pub open spec fn remaining(&self) -> nat {
        let left = (self.spec_fields().len() - self.spec_index()) as nat;
        match self.spec_state() {
            StreamState::Preamble => 3 * left + 1,
            StreamState::Body => 3 * left,
            StreamState::Source => (3 * left - 1) as nat,
            StreamState::Trailer => (3 * left - 1) as nat,
            StreamState::Done => 0,
            StreamState::Failed => 0,
        }
    }

    /// The bodies of the parts before the current one agree with their
    /// fixed content.
    pub open spec fn earlier_bodies_agree(&self) -> bool {
        forall|k: int|
            0 <= k < self.spec_index() ==> (
            #[trigger] self.spec_fields()[k].1.spec_body().fixed_content() matches Some(c)
                ==> self.spec_bodies()[k] == c)
    }

    /// The bytes produced before the current part: the earlier parts, framed.
    pub open spec fn framed_before(&self) -> Seq<u8> {
        encode_fields(
            self.spec_boundary(),
            self.spec_fields().take(self.spec_index() as int),
            self.spec_bodies(),
        )
    }

    /// The headers of the current part, encoded.
    pub open spec fn current_preamble(&self) -> Seq<u8> {
        encode_utf8(field_preamble(self.spec_boundary(), self.spec_fields()[self.spec_index() as int]))
    }

    /// The state invariant: what was produced is exactly the framing of the
    /// form up to where the cursor stands.
    pub open spec fn inv(&self) -> bool {
        let n = self.spec_fields().len();
        let i = self.spec_index() as int;
        let state = self.spec_state();
        &&& i <= n
        &&& n <= usize::MAX
        &&& self.earlier_bodies_agree()
        &&& self.spec_pending() == self.spec_fields().subrange(
            if state is Preamble || state is Done {
                i
            } else {
                i + 1
            },
            n as int,
        )
        &&& match state {
            StreamState::Preamble => {
                &&& self.spec_bodies().len() == i
                &&& self.spec_emitted() == self.framed_before()
            },
            StreamState::Body => {
                &&& i < n
                &&& self.spec_current() == Some(self.spec_fields()[i].1.spec_body())
                &&& self.spec_bodies().len() == i + 1
                &&& self.spec_bodies()[i] == Seq::<u8>::empty()
                &&& self.spec_emitted() == self.framed_before() + self.current_preamble()
            },
            StreamState::Source => {
                &&& i < n
                &&& self.spec_fields()[i].1.spec_body() is Stream
                &&& self.spec_bodies().len() == i + 1
                &&& self.spec_emitted() == self.framed_before() + self.current_preamble()
                    + self.spec_bodies()[i]
            },
            StreamState::Trailer => {
                &&& i < n
                &&& self.spec_bodies().len() == i + 1
                &&& (self.spec_fields()[i].1.spec_body().fixed_content() matches Some(c)
                    ==> self.spec_bodies()[i] == c)
                &&& self.spec_emitted() == self.framed_before() + self.current_preamble()
                    + self.spec_bodies()[i]
            },
            StreamState::Done => {
                &&& i == n
                &&& self.spec_bodies().len() == n
                &&& self.spec_emitted() == encoding(
                    self.spec_boundary(),
                    self.spec_fields(),
                    self.spec_bodies(),
                )
            },
            StreamState::Failed => true,
        }
    }

    /// Once done, what was produced is the encoding of the form with the
    /// bodies as they came, and those agree with every fixed body.
    pub proof fn lemma_done(&self)
        requires
            self.inv(),
            self.is_done(),
        ensures
            self.spec_emitted() == encoding(self.spec_boundary(), self.spec_fields(), self.spec_bodies()),
            bodies_agree(self.spec_fields(), self.spec_bodies()),
    {
    }

    /// The line break after the current part; the cursor moves to the next
    /// part.
    fn finish_part(&mut self) -> (r: Vec<u8>)
        requires
            old(self).inv(),
            old(self).spec_state() is Trailer,
        ensures
            final(self).inv(),
            final(self).spec_state() is Preamble,
            final(self).spec_index() == old(self).spec_index() + 1,
            final(self).spec_fields() == old(self).spec_fields(),
            final(self).spec_boundary() == old(self).spec_boundary(),
            final(self).spec_bodies() == old(self).spec_bodies(),
            final(self).spec_emitted() == old(self).spec_emitted() + r@,
    {
        let ghost i = self.index as int;
        let ghost fields = self.fields@;
        let r = "\r\n".as_bytes_vec();
        self.index = self.index + 1;
        self.state = StreamState::Preamble;
        self.emitted = Ghost(self.emitted@ + r@);
        proof {
            assert(fields.take(i + 1).drop_last() =~= fields.take(i));
            assert(fields.take(i + 1)[i] == fields[i]);
        }
        r
    }

    /// Produces the next step of the encoding.
    pub fn next_step(&mut self) -> (r: Step<S>)
        requires
            old(self).inv(),
            !old(self).awaiting_source(),
        ensures
            final(self).inv(),
            final(self).spec_fields() == old(self).spec_fields(),
            final(self).spec_boundary() == old(self).spec_boundary(),
            r is End <==> (old(self).is_done() || old(self).spec_state() is Failed),
            match r {
                Step::Data(v) => {
                    &&& final(self).spec_emitted() == old(self).spec_emitted() + v@
                    &&& final(self).remaining() < old(self).remaining()
                },
                Step::Source(source) => {
                    &&& old(self).spec_state() is Body
                    &&& old(self).spec_fields()[old(self).spec_index() as int].1.spec_body()
                        == Body::Stream(source)
                    &&& final(self).awaiting_source()
                    &&& final(self).spec_index() == old(self).spec_index()
                    &&& final(self).spec_emitted() == old(self).spec_emitted()
                    &&& final(self).remaining() < old(self).remaining()
                },
                Step::End => *final(self) == *old(self),
            },
    {
        let ghost fields = self.fields@;
        let ghost b = self.boundary@;
        match self.state {
            StreamState::Preamble => {
                let ghost i = self.index as int;
                match self.pending.pop_front() {
                    None => {
                        let mut close = String::new();
                        close.append("--");
                        close.append(self.boundary.as_str());
                        close.append("--\r\n");
                        let r = close.as_str().as_bytes_vec();
                        proof {
                            assert(close@ =~= closing(b));
                            assert(fields.take(i) =~= fields);
                        }
                        self.state = StreamState::Done;
                        self.emitted = Ghost(self.emitted@ + r@);
                        Step::Data(r)
                    },
                    Some(field) => {
                        let head = field.1.preamble(self.boundary.as_str(), field.0.as_str());
                        let r = head.as_str().as_bytes_vec();
                        proof {
                            assert(self.pending@ =~= fields.subrange(i + 1, fields.len() as int));
                            assert(field == fields[i]);
                            lemma_encode_fields_bodies(
                                b,
                                fields.take(i),
                                self.bodies@,
                                self.bodies@.push(Seq::empty()),
                            );
                        }
                        let (_, part) = field;
                        self.current = Some(part.body);
                        self.bodies = Ghost(self.bodies@.push(Seq::empty()));
                        self.state = StreamState::Body;
                        self.emitted = Ghost(self.emitted@ + r@);
                        Step::Data(r)
                    },
                }
            },
            StreamState::Body => {
                let ghost i = self.index as int;
                match self.current.take() {
                    Some(Body::Full(data)) => {
                        proof {
                            lemma_encode_fields_bodies(
                                b,
                                fields.take(i),
                                self.bodies@,
                                self.bodies@.update(i, data@),
                            );
                        }
                        self.bodies = Ghost(self.bodies@.update(i, data@));
                        self.state = StreamState::Trailer;
                        if data.len() == 0 {
                            proof {
                                assert(self.emitted@ =~= old(self).emitted@ + data@);
                            }
                            Step::Data(self.finish_part())
                        } else {
                            self.emitted = Ghost(self.emitted@ + data@);
                            Step::Data(data)
                        }
                    },
                    Some(Body::Empty) => {
                        self.state = StreamState::Trailer;
                        proof {
                            assert(self.emitted@ =~= self.emitted@ + self.bodies@[i]);
                        }
                        Step::Data(self.finish_part())
                    },
                    Some(Body::Stream(source)) => {
                        self.state = StreamState::Source;
                        proof {
                            assert(self.emitted@ =~= self.emitted@ + self.bodies@[i]);
                        }
                        Step::Source(source)
                    },
                    None => {
                        // The body is kept until it is handed out.
                        proof {
                            assert(false);
                        }
                        Step::End
                    },
                }
            },
            StreamState::Trailer => Step::Data(self.finish_part()),
            StreamState::Source => {
                // Excluded: the caller reports on the source first.
                proof {
                    assert(false);
                }
                Step::End
            },
            StreamState::Done => Step::End,
            StreamState::Failed => Step::End,
        }
    }

    /// Reports a chunk that the current source yielded and that the caller
    /// sends on unchanged.
    pub fn source_data(&mut self, data: &[u8])
        requires
            old(self).inv(),
            old(self).awaiting_source(),
        ensures
            final(self).inv(),
            final(self).awaiting_source(),
            final(self).spec_fields() == old(self).spec_fields(),
            final(self).spec_boundary() == old(self).spec_boundary(),
            final(self).spec_index() == old(self).spec_index(),
            final(self).spec_bodies() == old(self).spec_bodies().update(
                old(self).spec_index() as int,
                old(self).spec_bodies()[old(self).spec_index() as int] + data@,
            ),
            final(self).spec_emitted() == old(self).spec_emitted() + data@,
            final(self).remaining() == old(self).remaining(),
    {
        let ghost i = self.index as int;
        let ghost bodies = self.bodies@.update(i, self.bodies@[i] + data@);
        proof {
            lemma_encode_fields_bodies(self.boundary@, self.fields@.take(i), self.bodies@, bodies);
        }
        self.bodies = Ghost(bodies);
        self.emitted = Ghost(self.emitted@ + data@);
        proof {
            assert(self.framed_before() == old(self).framed_before());
            assert(self.spec_emitted() =~= self.framed_before() + self.current_preamble()
                + self.spec_bodies()[i]);
            assert(forall|k: int| 0 <= k < i ==> self.spec_bodies()[k] == old(self).spec_bodies()[k]);
        }
    }

    /// Reports that the current source has ended.
    pub fn source_end(&mut self)
        requires
            old(self).inv(),
            old(self).awaiting_source(),
        ensures
            final(self).inv(),
            final(self).spec_state() is Trailer,
            final(self).spec_fields() == old(self).spec_fields(),
            final(self).spec_boundary() == old(self).spec_boundary(),
            final(self).spec_index() == old(self).spec_index(),
            final(self).spec_bodies() == old(self).spec_bodies(),
            final(self).spec_emitted() == old(self).spec_emitted(),
            final(self).remaining() == old(self).remaining(),
    {
        self.state = StreamState::Trailer;
    }

    /// Reports that the current source failed: the stream ends there.
    pub fn source_failed(&mut self)
        requires
            old(self).inv(),
            old(self).awaiting_source(),
        ensures
            final(self).inv(),
            final(self).spec_state() is Failed,
            final(self).spec_fields() == old(self).spec_fields(),
            final(self).spec_emitted() == old(self).spec_emitted(),
    {
        self.state = StreamState::Failed;
    }
}

} // verus!
