//! Values of the `Authorization` header.
use crate::uri::opt_str;
use base64::Engine;
use vstd::prelude::*;
use vstd::string::*;
use vstd::utf8::encode_utf8;

verus! {

/// The standard base64 text (standard alphabet, padded) of `bytes`.
pub uninterp spec fn base64_standard(bytes: Seq<u8>) -> Seq<char>;

/// Relies on base64's `Engine::encode` with the `STANDARD` engine: the text
/// depends on the bytes alone and is padded to whole groups of four. It
/// panics only where that length would overflow `usize`.
#[verifier::external_body]
fn base64_encode(bytes: &[u8]) -> (r: String)
    requires
        bytes@.len() <= usize::MAX / 2,
    ensures
        r@ == base64_standard(bytes@),
        r@.len() == 4 * ((bytes@.len() + 2) / 3),
{
    base64::engine::general_purpose::STANDARD.encode(bytes)
}

/// The credentials of basic authentication: the user name, a colon, and the
/// password where there is one.
pub open spec fn credentials(username: Seq<char>, password: Option<Seq<char>>) -> Seq<char> {
    username + ":"@ + match password {
        Some(p) => p,
        None => Seq::empty(),
    }
}

/// The header value of basic authentication: `Basic ` and the base64 text of
/// the UTF-8 credentials.
pub fn basic_auth_value(username: &str, password: Option<&str>) -> (r: String)
    requires
        encode_utf8(credentials(username@, opt_str(password))).len() <= usize::MAX / 2,
    ensures
        r@ == "Basic "@ + base64_standard(
            encode_utf8(credentials(username@, opt_str(password))),
        ),
{
    let mut text = String::new();
    text.append(username);
    text.append(":");
    match password {
        Some(p) => text.append(p),
        None => {},
    }
    assert(text@ =~= credentials(username@, opt_str(password)));
    let encoded = base64_encode(text.as_str().as_bytes());
    let mut value = String::new();
    value.append("Basic ");
    value.append(encoded.as_str());
    value
}

/// The header value of bearer authentication: `Bearer ` and the token.
pub fn bearer_auth_value(token: &str) -> (r: String)
    ensures
        r@ == "Bearer "@ + token@,
{
    let mut value = String::new();
    value.append("Bearer ");
    value.append(token);
    value
}

} // verus!
