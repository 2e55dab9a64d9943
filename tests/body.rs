use client_util::boundary::{boundary_from_words, seed};
use client_util::response::Decoders;
use client_util::{empty, fast_random, full, stream, Body, Json, MaybeAbort};

#[test]
fn full_body_size_and_end() {
    let b: Body<()> = full(b"hello".to_vec());
    assert_eq!(b.size_hint(), Some(5));
    assert!(!b.is_end_stream());
    let e: Body<()> = full(Vec::new());
    assert_eq!(e.size_hint(), Some(0));
    assert!(e.is_end_stream());
}

#[test]
fn empty_and_stream_bodies() {
    let e: Body<()> = empty();
    assert_eq!(e.size_hint(), Some(0));
    assert!(e.is_end_stream());
    let s = stream(());
    assert_eq!(s.size_hint(), None);
    assert!(!s.is_end_stream());
}

#[test]
fn xorshift_step_exact() {
    let mut state: u64 = 1;
    let r = fast_random(&mut state);
    assert_eq!(state, 0x2000001);
    assert_eq!(r, 0x47e4_ce4b_896c_dd1d);
    let r2 = fast_random(&mut state);
    assert_ne!(state, 0);
    assert_ne!(r, r2);
}

#[test]
fn seed_is_never_zero() {
    for _ in 0..8 {
        assert_ne!(seed(), 0);
    }
}

#[test]
fn boundary_words_in_hex() {
    let b = boundary_from_words(0, 1, 0xdead_beef, u64::MAX);
    assert_eq!(
        b,
        "0000000000000000-0000000000000001-00000000deadbeef-ffffffffffffffff"
    );
}

#[test]
fn json_wraps_and_unwraps() {
    let j = Json::new(vec![1, 2, 3]);
    assert_eq!(j.0, vec![1, 2, 3]);
    assert_eq!(j.into_inner(), vec![1, 2, 3]);
}

#[test]
fn maybe_abort_bodies() {
    let t: MaybeAbort<Body<()>> = MaybeAbort::timeout();
    assert!(t.is_end_stream());
    assert_eq!(t.size_hint(), None);
    let d: MaybeAbort<Body<()>> = MaybeAbort::default();
    assert!(matches!(d, MaybeAbort::Abort));
    let s = MaybeAbort::success(full::<()>(b"abc".to_vec()));
    assert!(!s.is_end_stream());
    assert_eq!(s.size_hint(), Some(3));
    let st = MaybeAbort::success(stream(()));
    assert_eq!(st.size_hint(), None);
    assert!(!st.is_end_stream());
}

#[test]
fn decoders_later_label_wins() {
    let d = Decoders::new(vec![
        ("latin1".to_string(), 1),
        ("koi8-r".to_string(), 2),
        ("latin1".to_string(), 3),
    ]);
    assert_eq!(d.get("latin1"), Some(&3));
    assert_eq!(d.get("koi8-r"), Some(&2));
    assert_eq!(d.get("utf-16"), None);
    let none: Decoders<u8> = Decoders::default();
    assert_eq!(none.get("latin1"), None);
}
