//! Boundary tokens for multipart bodies.
//!
//! Tokens come from a fast xorshift64* generator seeded from the hasher keys
//! that std draws per process and thread. The generator is not
//! cryptographically secure: a boundary only has to be unlikely to occur in
//! the parts it separates.
use vstd::prelude::*;
use std::collections::hash_map::RandomState;
use std::hash::BuildHasher;
use vstd::string::*;

verus! {

/// The multiplier that xorshift64* applies to each output.
pub const SCRAMBLE: u64 = 0x2545_f491_4f6c_dd1d;

/// One xorshift step (shifts 12, 25, 27) on a 64-bit state.
pub open spec fn xorshift(x: u64) -> u64 {
    let a = x ^ (x >> 12u64);
    let b = a ^ (a << 25u64);
    b ^ (b >> 27u64)
}

/// The value that the generator hands out for a state it has just reached.
pub open spec fn scramble(x: u64) -> u64 {
    x.wrapping_mul(SCRAMBLE)
}

proof fn lemma_xorshift_nonzero(x: u64)
    requires
        x != 0,
    ensures
        xorshift(x) != 0,
{
    let a = x ^ (x >> 12u64);
    assert(a != 0) by (bit_vector)
        requires
            x != 0,
            a == x ^ (x >> 12u64),
    ;
    let b = a ^ (a << 25u64);
    assert(b != 0) by (bit_vector)
        requires
            a != 0,
            b == a ^ (a << 25u64),
    ;
    let c = b ^ (b >> 27u64);
    assert(c != 0) by (bit_vector)
        requires
            b != 0,
            c == b ^ (b >> 27u64),
    ;
}

/// Advances the generator state and returns the next pseudo-random word.
///
/// A state of zero would stay zero forever, so the state must be non-zero,
/// and it stays so.
pub fn fast_random(state: &mut u64) -> (r: u64)
    requires
        *old(state) != 0,
    ensures
        *final(state) == xorshift(*old(state)),
        *final(state) != 0,
        r == scramble(*final(state)),
{
    proof {
        lemma_xorshift_nonzero(*state);
    }
    let mut n = *state;
    n = n ^ (n >> 12u64);
    n = n ^ (n << 25u64);
    n = n ^ (n >> 27u64);
    *state = n;
    n.wrapping_mul(SCRAMBLE)
}


/// The lowercase hexadecimal digit of value `d`.
pub open spec fn hex_digit(d: u64) -> char {
    "0123456789abcdef"@[d as int]
}

/// The sixteen lowercase hexadecimal digits of `x`, most significant first.
pub open spec fn hex16(x: u64) -> Seq<char> {
    Seq::new(16, |i: int| hex_digit((x >> ((60 - 4 * i) as u64)) & 15u64))
}

/// The boundary token made of four generator words: their hexadecimal forms
/// joined by dashes.
pub open spec fn boundary_text(a: u64, b: u64, c: u64, d: u64) -> Seq<char> {
    hex16(a) + "-"@ + hex16(b) + "-"@ + hex16(c) + "-"@ + hex16(d)
}

/// Appends the sixteen hexadecimal digits of `x` to `s`.
fn push_hex16(s: &mut String, x: u64)
    ensures
        final(s)@ == old(s)@ + hex16(x),
{
    let digits = "0123456789abcdef";
    proof {
        reveal_strlit("0123456789abcdef");
    }
    let mut i: u64 = 0;
    while i < 16
        invariant
            i <= 16,
            digits@ == "0123456789abcdef"@,
            digits@.len() == 16,
            s@ == old(s)@ + hex16(x).take(i as int),
        decreases 16 - i,
    {
        let shift: u64 = 60 - 4 * i;
        let d: u64 = (x >> shift) & 15u64;
        assert(d < 16) by (bit_vector)
            requires
                d == (x >> shift) & 15u64,
        ;
        let digit = digits.substring_char(d as usize, d as usize + 1);
        assert(digit@ =~= seq![hex_digit(d)]);
        s.append(digit);
        assert(hex16(x).take(i as int + 1) =~= hex16(x).take(i as int) + seq![hex_digit(d)]);
        i = i + 1;
    }
    assert(hex16(x).take(16) =~= hex16(x));
}

/// Writes the boundary token for four generator words.
pub fn boundary_from_words(a: u64, b: u64, c: u64, d: u64) -> (r: String)
    ensures
        r@ == boundary_text(a, b, c, d),
{
    let mut s = String::new();
    push_hex16(&mut s, a);
    s.append("-");
    push_hex16(&mut s, b);
    s.append("-");
    push_hex16(&mut s, c);
    s.append("-");
    push_hex16(&mut s, d);
    assert(s@ =~= boundary_text(a, b, c, d));
    s
}

/// Relies on std's `RandomState::new`: hasher keys that std draws per process
/// and thread, different for each call.
#[verifier::external_body]
fn fresh_keys() -> RandomState {
    RandomState::new()
}

/// Relies on std's `BuildHasher::hash_one`: the hash of `n` under `keys`.
/// Nothing is known of its value.
#[verifier::external_body]
fn hash_counter(keys: &RandomState, n: usize) -> u64 {
    keys.hash_one(n)
}

/// A non-zero generator seed: the hash of the first counter (1, 2, ...) that
/// does not hash to zero under freshly drawn keys.
pub fn seed() -> (r: u64)
    ensures
        r != 0,
{
    let keys = fresh_keys();
    let mut out: u64 = 0;
    let mut count: usize = 0;
    while out == 0 && count < usize::MAX
        decreases usize::MAX - count,
    {
        count = count + 1;
        out = hash_counter(&keys, count);
    }
    if out == 0 {
        // Only reached if every counter hashed to zero.
        SCRAMBLE
    } else {
        out
    }
}

/// A fresh boundary token: four words of a newly seeded generator, in
/// hexadecimal, joined by dashes.
pub fn random_boundary() -> (r: String)
    ensures
        exists|a: u64, b: u64, c: u64, d: u64| r@ == boundary_text(a, b, c, d),
{
    let mut state = seed();
    let a = fast_random(&mut state);
    let b = fast_random(&mut state);
    let c = fast_random(&mut state);
    let d = fast_random(&mut state);
    boundary_from_words(a, b, c, d)
}

} // verus!
