use client_util::body::{empty, full, stream};
use client_util::multipart::escape_quoted;
use client_util::{BuildMultipartError, Form, FormStream, Part, Step};
use std::cell::Cell;
use std::rc::Rc;

/// Runs an encoder to its end, feeding each source's chunks through it.
fn drain<S>(mut encoder: FormStream<S>, mut chunks_of: impl FnMut(S) -> Vec<Vec<u8>>) -> Vec<u8> {
    let mut out = Vec::new();
    loop {
        match encoder.next_step() {
            Step::Data(d) => out.extend_from_slice(&d),
            Step::Source(s) => {
                for chunk in chunks_of(s) {
                    encoder.source_data(&chunk);
                    out.extend_from_slice(&chunk);
                }
                encoder.source_end();
            }
            Step::End => break,
        }
    }
    out
}

fn drain_fixed(form: Form<()>) -> Vec<u8> {
    drain(form.stream(), |_| Vec::new())
}

fn chunks(source: Vec<Vec<u8>>) -> Vec<Vec<u8>> {
    source
}

#[test]
fn text_part() {
    let form = Form::<()>::new().text("foo", "bar");
    let expected_body = format!(
        "--{0}\r\nContent-Disposition: form-data; name=\"foo\"\r\n\r\nbar\r\n--{0}--\r\n",
        form.boundary()
    );
    let ct = format!("multipart/form-data; boundary={}", form.boundary());
    assert_eq!(form.content_type(), ct);
    assert_eq!(form.compute_length(), Some(expected_body.len() as u64));
    let full = drain_fixed(form);
    assert_eq!(full, expected_body.as_bytes());
}

#[test]
fn stream_part() {
    let part = Part::body(stream(vec![b"part1 part2".to_vec()]));
    let form = Form::new().text("foo", "bar").part("part_stream", part);
    let expected_body = format!(
        "--{0}\r\n\
         Content-Disposition: form-data; name=\"foo\"\r\n\
         \r\n\
         bar\r\n\
         --{0}\r\n\
         Content-Disposition: form-data; name=\"part_stream\"\r\n\
         \r\n\
         part1 part2\r\n\
         --{0}--\r\n",
        form.boundary()
    );
    let ct = format!("multipart/form-data; boundary={}", form.boundary());
    assert_eq!(form.content_type(), ct);
    // No length ahead: the request goes out chunked.
    assert_eq!(form.compute_length(), None);
    let full = drain(form.stream(), chunks);
    assert_eq!(full, expected_body.as_bytes());
}

#[test]
fn read_stream_part() {
    let file_part = Part::body(stream(vec![b"line one\n".to_vec(), b"line two\n".to_vec()]))
        .file_name("multipart")
        .mime_str("text/plain")
        .ok()
        .unwrap();
    let form = Form::new().part("file", file_part);
    let ct = format!("multipart/form-data; boundary={}", form.boundary());
    assert_eq!(form.content_type(), ct);
    assert_eq!(form.compute_length(), None);
    let expected_body = format!(
        "--{0}\r\n\
         Content-Disposition: form-data; name=\"file\"; filename=\"multipart\"\r\n\
         Content-Type: text/plain\r\n\
         \r\n\
         line one\nline two\n\r\n\
         --{0}--\r\n",
        form.boundary()
    );
    let full = drain(form.stream(), chunks);
    assert_eq!(String::from_utf8(full).unwrap(), expected_body);
}

#[test]
fn key_value_exact_bytes() {
    let form = Form::<()>::new().text("key", "value");
    let b = form.boundary().to_string();
    let full = drain_fixed(form);
    let expected = format!(
        "--{b}\r\nContent-Disposition: form-data; name=\"key\"\r\n\r\nvalue\r\n--{b}--\r\n"
    );
    assert_eq!(String::from_utf8(full).unwrap(), expected);
}

#[test]
fn empty_form_is_closing_line_only() {
    let form = Form::<()>::new();
    let b = form.boundary().to_string();
    assert_eq!(form.compute_length(), Some(b.len() as u64 + 6));
    assert_eq!(drain_fixed(form), format!("--{b}--\r\n").into_bytes());
}

#[test]
fn fixed_length_matches_stream() {
    let form = Form::<()>::new()
        .text("a", "1")
        .part("b", Part::bytes(vec![0, 159, 255, 10]))
        .part("c", Part::body(empty()))
        .part("d", Part::body(full(Vec::new())))
        .part("e", Part::text("héllo").file_name("f.txt").mime_str("TEXT/Plain").ok().unwrap())
        .text("naïve \"q\"", "ünïcödé");
    let length = form.compute_length();
    let out = drain_fixed(form);
    assert_eq!(length, Some(out.len() as u64));
}

#[test]
fn unknown_size_gives_no_length() {
    let form = Form::new()
        .text("a", "1")
        .part("s", Part::body(stream(vec![b"x".to_vec()])))
        .text("z", "2");
    assert_eq!(form.compute_length(), None);
}

#[test]
fn length_for_chunked_and_fixed_forms() {
    let streamed = Form::new().part("s", Part::body(stream(vec![b"abc".to_vec()])));
    assert!(streamed.compute_length().is_none());
    let fixed = Form::<Vec<Vec<u8>>>::new().text("s", "abc");
    let b = fixed.boundary().len() as u64;
    // "--" b "\r\n" + disposition line + "\r\n" + body + "\r\n" + "--" b "--\r\n"
    let disposition = "Content-Disposition: form-data; name=\"s\"\r\n".len() as u64;
    let expected = (2 + b + 2) + disposition + 2 + 3 + 2 + (2 + b + 4);
    assert_eq!(fixed.compute_length(), Some(expected));
}

#[test]
fn compute_length_twice_is_the_same() {
    let form = Form::<()>::new().text("a", "1").text("b", "22");
    let first = form.compute_length();
    let second = form.compute_length();
    assert_eq!(first, second);
    let out = drain_fixed(form);
    assert_eq!(first, Some(out.len() as u64));
}

#[test]
fn parts_keep_insertion_order() {
    let form = Form::<()>::new().text("a", "first").text("b", "second");
    let text = String::from_utf8(drain_fixed(form)).unwrap();
    let a = text.find("name=\"a\"").unwrap();
    let b = text.find("name=\"b\"").unwrap();
    let first = text.find("first").unwrap();
    assert!(a < first && first < b);
}

#[test]
fn quotes_and_backslashes_are_escaped() {
    let form = Form::<()>::new().part(
        "we\"ird\\name",
        Part::text("v").file_name("a\"b\\c.txt"),
    );
    let text = String::from_utf8(drain_fixed(form)).unwrap();
    assert!(text.contains("name=\"we\\\"ird\\\\name\"; filename=\"a\\\"b\\\\c.txt\"\r\n"));
}

#[test]
fn escape_quoted_values() {
    assert_eq!(escape_quoted("plain"), "plain");
    assert_eq!(escape_quoted("a\"b"), "a\\\"b");
    assert_eq!(escape_quoted("a\\b"), "a\\\\b");
    assert_eq!(escape_quoted("é\"\\"), "é\\\"\\\\");
    assert_eq!(escape_quoted(""), "");
}

#[test]
fn mime_is_normalized_and_invalid_is_refused() {
    let form = Form::<()>::new().part("m", Part::text("x").mime_str("TEXT/Plain").ok().unwrap());
    let text = String::from_utf8(drain_fixed(form)).unwrap();
    assert!(text.contains("\r\nContent-Type: text/plain\r\n\r\nx\r\n"));
    let bad = Part::<()>::text("x").mime_str("not a mime");
    assert!(matches!(bad, Err(BuildMultipartError::InvalidMime(_))));
}

#[test]
fn boundary_shape() {
    let form = Form::<()>::new();
    let b = form.boundary();
    assert_eq!(b.len(), 67);
    for (i, c) in b.chars().enumerate() {
        if i == 16 || i == 33 || i == 50 {
            assert_eq!(c, '-');
        } else {
            assert!(c.is_ascii_hexdigit() && !c.is_ascii_uppercase());
        }
    }
    let other = Form::<()>::new();
    assert_ne!(form.boundary(), other.boundary());
}

#[test]
fn source_chunks_pass_unchanged_in_order() {
    let form = Form::new().part(
        "s",
        Part::body(stream(vec![b"one".to_vec(), Vec::new(), b"two".to_vec()])),
    );
    let b = form.boundary().to_string();
    let out = drain(form.stream(), chunks);
    let expected = format!(
        "--{b}\r\nContent-Disposition: form-data; name=\"s\"\r\n\r\nonetwo\r\n--{b}--\r\n"
    );
    assert_eq!(String::from_utf8(out).unwrap(), expected);
}

#[test]
fn failed_source_ends_the_stream() {
    let form = Form::new()
        .part("s", Part::body(stream(())))
        .text("after", "never");
    let mut encoder = form.stream();
    let mut out = Vec::new();
    loop {
        match encoder.next_step() {
            Step::Data(d) => out.extend_from_slice(&d),
            Step::Source(()) => {
                encoder.source_data(b"partial");
                encoder.source_failed();
            }
            Step::End => break,
        }
    }
    let text = String::from_utf8(out).unwrap();
    assert!(!text.contains("after"));
    assert!(matches!(encoder.next_step(), Step::End));
}

struct OpenHandle(Rc<Cell<bool>>);

impl Drop for OpenHandle {
    fn drop(&mut self) {
        self.0.set(true);
    }
}

#[test]
fn dropping_a_pending_source_releases_it() {
    let closed = Rc::new(Cell::new(false));
    let form = Form::new()
        .text("a", "1")
        .part("file", Part::body(stream(OpenHandle(closed.clone()))));
    let mut encoder = form.stream();
    assert!(matches!(encoder.next_step(), Step::Data(_)));
    assert!(!closed.get());
    drop(encoder);
    assert!(closed.get());
}

#[test]
fn dropping_a_source_mid_stream_releases_it() {
    let closed = Rc::new(Cell::new(false));
    let form = Form::new().part("file", Part::body(stream(OpenHandle(closed.clone()))));
    let mut encoder = form.stream();
    let mut source = None;
    while source.is_none() {
        match encoder.next_step() {
            Step::Source(s) => source = Some(s),
            Step::Data(_) => {}
            Step::End => panic!("the source was never handed out"),
        }
    }
    encoder.source_data(b"some");
    assert!(!closed.get());
    drop(source);
    drop(encoder);
    assert!(closed.get());
}
