//! The observability service's credentials: whether tracing is configured,
//! and the Basic authorization header sent with each trace.

use vstd::prelude::*;
use vstd::utf8::encode_utf8;
use crate::text::{push_str, to_string};
use base64::Engine;

verus! {

/// The character of a base64 digit `d < 64` in the standard alphabet of
/// RFC 4648: `A`-`Z`, `a`-`z`, `0`-`9`, `+`, `/`.
pub open spec fn base64_digit(d: nat) -> char {
    if d < 26 {
        (65 + d) as char
    } else if d < 52 {
        (97 + (d - 26)) as char
    } else if d < 62 {
        (48 + (d - 52)) as char
    } else if d == 62 {
        '+'
    } else {
        '/'
    }
}

/// Base64 with the standard alphabet and `=` padding (RFC 4648): each group
/// of three bytes becomes four digits; a last group of one or two bytes
/// becomes two or three digits and padding.
pub open spec fn base64_spec(d: Seq<u8>) -> Seq<char>
    decreases d.len(),
{
    if d.len() == 0 {
        seq![]
    } else if d.len() == 1 {
        seq![base64_digit((d[0] / 4) as nat), base64_digit(((d[0] % 4) * 16) as nat), '=', '=']
    } else if d.len() == 2 {
        seq![
            base64_digit((d[0] / 4) as nat),
            base64_digit(((d[0] % 4) * 16 + d[1] / 16) as nat),
            base64_digit(((d[1] % 16) * 4) as nat),
            '=',
        ]
    } else {
        seq![
            base64_digit((d[0] / 4) as nat),
            base64_digit(((d[0] % 4) * 16 + d[1] / 16) as nat),
            base64_digit(((d[1] % 16) * 4 + d[2] / 64) as nat),
            base64_digit((d[2] % 64) as nat),
        ] + base64_spec(d.skip(3))
    }
}

/// Trusted: `base64::Engine::encode` with `base64::engine::general_purpose::STANDARD`,
/// which the crate documents as the RFC 4648 standard alphabet with padding.
#[verifier::external_body]
fn base64_standard_encode(data: &[u8]) -> (r: String)
    ensures
        r@ == base64_spec(data@),
{
    base64::engine::general_purpose::STANDARD.encode(data)
}

/// Tracing is configured when both keys are set.
pub fn is_configured(secret_key: &str, public_key: &str) -> (r: bool)
    ensures
        r == (secret_key@.len() > 0 && public_key@.len() > 0),
{
    !secret_key.is_empty() && !public_key.is_empty()
}

/// The Basic authorization of the tracing service: `public:secret`, UTF-8
/// encoded and written in base64.
pub open spec fn auth_header_spec(public_key: Seq<char>, secret_key: Seq<char>) -> Seq<char> {
    "Basic "@ + base64_spec(encode_utf8(public_key + ":"@ + secret_key))
}

/// Writes the authorization header of the tracing service.
pub fn auth_header(public_key: &str, secret_key: &str) -> (r: String)
    ensures
        r@ == auth_header_spec(public_key@, secret_key@),
{
    let mut creds = to_string(public_key);
    push_str(&mut creds, ":");
    push_str(&mut creds, secret_key);
    let encoded = base64_standard_encode(creds.as_str().as_bytes());
    let mut out = to_string("Basic ");
    push_str(&mut out, encoded.as_str());
    out
}

} // verus!
