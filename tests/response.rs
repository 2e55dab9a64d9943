use client_util::response::{text_decoding, Decoders, TextDecoding};

fn decoders() -> Decoders<u32> {
    Decoders::new(vec![("x-custom".to_string(), 7)])
}

#[test]
fn no_content_type_is_utf8() {
    assert!(matches!(text_decoding::<u32>(None, None), TextDecoding::Utf8));
}

#[test]
fn no_charset_is_utf8() {
    let d = decoders();
    assert!(matches!(text_decoding(Some("text/plain"), Some(&d)), TextDecoding::Utf8));
    assert!(matches!(text_decoding(Some("not a mime"), Some(&d)), TextDecoding::Utf8));
}

#[test]
fn utf8_charset_in_any_case_is_utf8() {
    let d = decoders();
    assert!(matches!(
        text_decoding(Some("text/plain; charset=UTF-8"), Some(&d)),
        TextDecoding::Utf8
    ));
}

#[test]
fn known_label_uses_its_encoding() {
    match text_decoding::<u32>(Some("text/html; charset=latin1"), None) {
        TextDecoding::Encoding(e) => assert_eq!(e.name(), "windows-1252"),
        _ => panic!("expected an encoding"),
    }
}

#[test]
fn registered_decoder_for_unknown_label() {
    let d = decoders();
    match text_decoding(Some("text/plain; charset=X-Custom"), Some(&d)) {
        TextDecoding::Custom(f, label) => {
            assert_eq!(*f, 7);
            assert_eq!(label, "x-custom");
        }
        _ => panic!("expected the registered decoder"),
    }
}

#[test]
fn unknown_label_without_decoder_is_utf8() {
    let d = decoders();
    assert!(matches!(
        text_decoding(Some("text/plain; charset=x-other"), Some(&d)),
        TextDecoding::Utf8
    ));
    assert!(matches!(
        text_decoding::<u32>(Some("text/plain; charset=x-custom"), None),
        TextDecoding::Utf8
    ));
}
