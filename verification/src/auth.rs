//! Authentication of requests by the identity provider's JSON Web Tokens:
//! reading the bearer token, finding the signing key among the provider's
//! published keys, checking the token, and reading its claims.

use vstd::prelude::*;
use crate::json::{JsonValue, array_items, field_lookup, i64_view, json_array_field, json_get, json_index, json_str_field, str_view};
use crate::models::opt_view;
use crate::text::{chars_of, push_str, str_equal, string_of, to_string};

verus! {

// ---------------------------------------------------------------------------
// Request headers and names
// ---------------------------------------------------------------------------

/// The token of an `Authorization` header: what follows `Bearer `.
pub open spec fn bearer_token_spec(header: Option<Seq<char>>) -> Option<Seq<char>> {
    match header {
        Some(h) => if h.len() >= 7 && h.take(7) == "Bearer "@ {
            Some(h.skip(7))
        } else {
            None
        },
        None => None,
    }
}

/// Reads the token of an `Authorization` header.
pub fn bearer_token(header: Option<&str>) -> (r: Option<String>)
    ensures
        opt_view(r) == bearer_token_spec(match header { Some(h) => Some(h@), None => None }),
{
    match header {
        Some(h) => {
            let v = chars_of(h);
            let p = chars_of("Bearer ");
            proof {
                reveal_strlit("Bearer ");
            }
            if crate::text::starts_with_chars(&v, &p) {
                let mut t: Vec<char> = Vec::new();
                let mut i: usize = 7;
                while i < v.len()
                    invariant
                        7 <= i <= v.len(),
                        t@ == v@.subrange(7, i as int),
                    decreases v.len() - i,
                {
                    t.push(v[i]);
                    assert(v@.subrange(7, i as int).push(v@[i as int]) =~= v@.subrange(7, i + 1));
                    i += 1;
                }
                assert(t@ =~= h@.skip(7));
                Some(string_of(&t))
            } else {
                None
            }
        },
        None => None,
    }
}

/// A user's display name: the first and last names that are given, joined by
/// a space.
pub open spec fn display_name_spec(first: Option<Seq<char>>, last: Option<Seq<char>>) -> Seq<char> {
    match (first, last) {
        (Some(f), Some(l)) => f + " "@ + l,
        (Some(f), None) => f,
        (None, Some(l)) => l,
        (None, None) => seq![],
    }
}

/// Builds a user's display name.
pub fn display_name(first: Option<&str>, last: Option<&str>) -> (r: String)
    ensures
        r@ == display_name_spec(
            match first { Some(f) => Some(f@), None => None },
            match last { Some(l) => Some(l@), None => None },
        ),
{
    let mut out = String::new();
    match first {
        Some(f) => push_str(&mut out, f),
        None => {},
    }
    match last {
        Some(l) => {
            if first.is_some() {
                push_str(&mut out, " ");
            }
            push_str(&mut out, l);
        },
        None => {},
    }
    out
}

// ---------------------------------------------------------------------------
// Claims
// ---------------------------------------------------------------------------

/// The claims of an identity token.
#[derive(Debug, Clone)]
pub struct ClerkClaims {
    pub sub: String,
    pub email: Option<String>,
    pub first_name: Option<String>,
    pub last_name: Option<String>,
    pub exp: i64,
}

/// `ClerkClaims` by their characters.
pub struct ClaimsView {
    pub sub: Seq<char>,
    pub email: Option<Seq<char>>,
    pub first_name: Option<Seq<char>>,
    pub last_name: Option<Seq<char>>,
    pub exp: i64,
}

impl View for ClerkClaims {
    type V = ClaimsView;

    open spec fn view(&self) -> ClaimsView {
        ClaimsView {
            sub: self.sub@,
            email: opt_view(self.email),
            first_name: opt_view(self.first_name),
            last_name: opt_view(self.last_name),
            exp: self.exp,
        }
    }
}

/// An optional string claim: missing or null reads as `None`, a string as
/// itself, and anything else makes the claims unreadable (the outer `None`).
pub open spec fn optional_claim(v: JsonValue, key: Seq<char>) -> Option<Option<Seq<char>>> {
    match field_lookup(v, key) {
        None => Some(None),
        Some(JsonValue::Null) => Some(None),
        Some(JsonValue::Str(s)) => Some(Some(s@)),
        Some(_) => None,
    }
}

/// The claims a token's payload holds: `sub` must be a string and `exp` an
/// integer within `i64`; `email`, `first_name` and `last_name` are optional
/// strings; other members are ignored.
pub open spec fn claims_spec(v: JsonValue) -> Option<ClaimsView> {
    match (
        str_view(json_index(v, "sub"@)),
        optional_claim(v, "email"@),
        optional_claim(v, "first_name"@),
        optional_claim(v, "last_name"@),
        i64_view(json_index(v, "exp"@)),
    ) {
        (Some(sub), Some(email), Some(first_name), Some(last_name), Some(exp)) => Some(
            ClaimsView { sub, email, first_name, last_name, exp },
        ),
        _ => None,
    }
}

fn optional_claim_of(v: &JsonValue, key: &str) -> (r: Option<Option<String>>)
    ensures
        match r {
            Some(o) => optional_claim(*v, key@) == Some(opt_view(o)),
            None => optional_claim(*v, key@) is None,
        },
{
    match json_get(v, key) {
        None => Some(None),
        Some(x) => match x {
            JsonValue::Null => Some(None),
            JsonValue::Str(s) => Some(Some(s.clone())),
            _ => None,
        },
    }
}

/// Reads the claims of a token's payload. The payload comes as a JSON value,
/// in which a member named twice has already been merged by the JSON parser
/// (the last one kept), so a duplicated claim is not seen here.
pub fn claims_from_json(v: &JsonValue) -> (r: Option<ClerkClaims>)
    ensures
        match r {
            Some(c) => claims_spec(*v) == Some(c@),
            None => claims_spec(*v) is None,
        },
{
    let sub = match json_str_field(v, "sub") {
        Some(s) => s.clone(),
        None => return None,
    };
    let email = match optional_claim_of(v, "email") {
        Some(e) => e,
        None => return None,
    };
    let first_name = match optional_claim_of(v, "first_name") {
        Some(e) => e,
        None => return None,
    };
    let last_name = match optional_claim_of(v, "last_name") {
        Some(e) => e,
        None => return None,
    };
    let exp = match crate::json::json_i64_field(v, "exp") {
        Some(x) => x,
        None => return None,
    };
    Some(ClerkClaims { sub, email, first_name, last_name, exp })
}

// ---------------------------------------------------------------------------
// Signing keys
// ---------------------------------------------------------------------------

/// Why a request could not be authenticated.
#[derive(Debug, Clone)]
pub enum AuthError {
    /// The token's header cannot be read; the reader's message follows.
    InvalidHeader(String),
    /// The published keys are not a JSON object with a `keys` list.
    InvalidJwks,
    /// No published key has the token's key id.
    NoMatchingKey(String),
    /// The matching key's components cannot be read; the message follows.
    InvalidKey(String),
    /// The token fails verification or its claims cannot be read; the
    /// message follows.
    InvalidToken(String),
}

impl AuthError {
    /// The message the client is told.
    pub fn message(&self) -> (r: String)
        ensures
            r@ == match *self {
                AuthError::InvalidHeader(m) => m@,
                AuthError::InvalidJwks => "Invalid JWKS response"@,
                AuthError::NoMatchingKey(kid) => "No matching JWK found for kid="@ + kid@,
                AuthError::InvalidKey(m) => "Invalid RSA key: "@ + m@,
                AuthError::InvalidToken(m) => "JWT invalid: "@ + m@,
            },
    {
        match self {
            AuthError::InvalidHeader(m) => m.clone(),
            AuthError::InvalidJwks => to_string("Invalid JWKS response"),
            AuthError::NoMatchingKey(kid) => {
                let mut s = to_string("No matching JWK found for kid=");
                push_str(&mut s, kid.as_str());
                s
            },
            AuthError::InvalidKey(m) => {
                let mut s = to_string("Invalid RSA key: ");
                push_str(&mut s, m.as_str());
                s
            },
            AuthError::InvalidToken(m) => {
                let mut s = to_string("JWT invalid: ");
                push_str(&mut s, m.as_str());
                s
            },
        }
    }
}

/// The key id of a published key; a key without one has the empty id.
pub open spec fn key_id(k: JsonValue) -> Seq<char> {
    match str_view(json_index(k, "kid"@)) {
        Some(s) => s,
        None => seq![],
    }
}

/// The first published key with the given id.
pub open spec fn first_key_with_id(keys: Seq<JsonValue>, kid: Seq<char>) -> Option<int>
    decreases keys.len(),
{
    if keys.len() == 0 {
        None
    } else if key_id(keys[0]) == kid {
        Some(0)
    } else {
        match first_key_with_id(keys.drop_first(), kid) {
            Some(i) => Some(i + 1),
            None => None,
        }
    }
}

/// A string member of a key, empty when missing.
pub open spec fn key_component(k: JsonValue, name: Seq<char>) -> Seq<char> {
    match str_view(json_index(k, name)) {
        Some(s) => s,
        None => seq![],
    }
}

/// The RSA components (`n`, `e`) of the published key with the token's key
/// id: an error when the keys are not a list, or no key has that id.
pub open spec fn find_jwk_spec(jwks: JsonValue, kid: Seq<char>) -> Result<(Seq<char>, Seq<char>), ()> {
    match field_lookup(jwks, "keys"@) {
        Some(JsonValue::Array(keys)) => match first_key_with_id(keys@, kid) {
            Some(i) => Ok((key_component(keys@[i], "n"@), key_component(keys@[i], "e"@))),
            None => Err(()),
        },
        _ => Err(()),
    }
}

fn component_of(k: &JsonValue, name: &str) -> (r: String)
    ensures
        r@ == key_component(*k, name@),
{
    match json_str_field(k, name) {
        Some(s) => s.clone(),
        None => String::new(),
    }
}

/// Finds the RSA components of the published key with the given id.
pub fn find_jwk(jwks: &JsonValue, kid: &str) -> (r: Result<(String, String), AuthError>)
    ensures
        match r {
            Ok((n, e)) => find_jwk_spec(*jwks, kid@) == Ok::<(Seq<char>, Seq<char>), ()>((n@, e@)),
            Err(err) => find_jwk_spec(*jwks, kid@) is Err && (match field_lookup(*jwks, "keys"@) {
                Some(JsonValue::Array(_)) => err matches AuthError::NoMatchingKey(k) && k@ == kid@,
                _ => err is InvalidJwks,
            }),
        },
{
    let keys = match json_get(jwks, "keys") {
        Some(x) => match x {
            JsonValue::Array(a) => a,
            _ => return Err(AuthError::InvalidJwks),
        },
        None => return Err(AuthError::InvalidJwks),
    };
    let mut i: usize = 0;
    assert(keys@.skip(0) =~= keys@);
    while i < keys.len()
        invariant
            i <= keys.len(),
            field_lookup(*jwks, "keys"@) == Some(JsonValue::Array(*keys)),
            first_key_with_id(keys@, kid@) == match first_key_with_id(keys@.skip(i as int), kid@) {
                Some(j) => Some(j + i),
                None => None,
            },
        decreases keys.len() - i,
    {
        assert(keys@.skip(i as int)[0] == keys@[i as int]);
        assert(keys@.skip(i as int).drop_first() =~= keys@.skip(i + 1));
        let id = match json_str_field(&keys[i], "kid") {
            Some(s) => s.as_str(),
            None => "",
        };
        proof {
            reveal_strlit("");
        }
        assert(key_id(keys@[i as int]) == id@);
        if str_equal(id, kid) {
            let n = component_of(&keys[i], "n");
            let e = component_of(&keys[i], "e");
            return Ok((n, e));
        }
        i += 1;
    }
    Err(AuthError::NoMatchingKey(to_string(kid)))
}

// ---------------------------------------------------------------------------
// Token verification
// ---------------------------------------------------------------------------

/// The key id in a token's header, as `jsonwebtoken::decode_header` reads it;
/// `None` when the header cannot be read.
pub uninterp spec fn jwt_header_kid(token: Seq<char>) -> Option<Option<Seq<char>>>;

/// The value of a character of the URL-safe base64 alphabet (RFC 4648,
/// section 5), or -1 for a character outside it.
pub open spec fn base64url_value(c: char) -> int {
    if 'A' <= c && c <= 'Z' {
        c as int - 65
    } else if 'a' <= c && c <= 'z' {
        c as int - 97 + 26
    } else if '0' <= c && c <= '9' {
        c as int - 48 + 52
    } else if c == '-' {
        62
    } else if c == '_' {
        63
    } else {
        -1
    }
}

/// Whether `s` decodes as unpadded URL-safe base64 in the strict form that
/// the `base64` crate's `URL_SAFE_NO_PAD` engine accepts: every character is
/// of the alphabet (so no `=`), the length is not one more than a multiple
/// of four, and the last character carries no bits beyond the decoded bytes.
pub open spec fn base64url_unpadded_valid(s: Seq<char>) -> bool {
    &&& forall|i: int| 0 <= i < s.len() ==> base64url_value(#[trigger] s[i]) >= 0
    &&& s.len() % 4 != 1
    &&& s.len() % 4 == 2 ==> base64url_value(s.last()) % 16 == 0
    &&& s.len() % 4 == 3 ==> base64url_value(s.last()) % 4 == 0
}

/// Whether `jsonwebtoken::DecodingKey::from_rsa_components` accepts these
/// components: it decodes each with `URL_SAFE_NO_PAD` and fails exactly when
/// one of them does not decode.
pub open spec fn rsa_components_accepted(n: Seq<char>, e: Seq<char>) -> bool {
    base64url_unpadded_valid(n) && base64url_unpadded_valid(e)
}

/// Trusted: `jsonwebtoken::decode_header`, giving the header's key id. The
/// header is named, not described; the error message is left unsaid.
#[verifier::external_body]
fn decode_header_kid(token: &str) -> (r: Result<Option<String>, String>)
    ensures
        r is Ok <==> jwt_header_kid(token@) is Some,
        r matches Ok(k) ==> jwt_header_kid(token@) == Some(opt_view(k)),
{
    match jsonwebtoken::decode_header(token) {
        Ok(h) => Ok(h.kid),
        Err(e) => Err(e.to_string()),
    }
}

/// The payload of a token, as `jsonwebtoken::decode` reads it into a
/// `serde_json::Value` when it accepts the token: the second dot-separated
/// part, base64url-decoded and parsed as JSON. It depends on the token alone.
pub uninterp spec fn jwt_payload(token: Seq<char>) -> Option<JsonValue>;

/// Whether the token's header names RS256 and its signature is a valid RS256
/// signature, under the RSA public key with modulus `n` and exponent `e`
/// (base64url), of its header and payload parts. It depends on these alone.
pub uninterp spec fn rs256_signature_valid(token: Seq<char>, n: Seq<char>, e: Seq<char>) -> bool;

/// Why decoding a token with a published RSA key failed.
pub enum RsaDecodeFailure {
    /// The key's components were refused.
    Key(String),
    /// The token was refused (signature, algorithm, expiry, payload).
    Token(String),
}

/// Trusted: `jsonwebtoken::DecodingKey::from_rsa_components` on `(n, e)`,
/// then `jsonwebtoken::decode` of the token with that key and
/// `Validation::new(Algorithm::RS256)` (expiry checked by default). The key
/// is refused exactly when one component does not decode as unpadded
/// URL-safe base64 (`rsa_components_accepted`). When the token is accepted,
/// its signature is valid under this key and the result is its payload.
/// Whether it is accepted also depends on the current time (expiry), so
/// when that happens is left unsaid, as are the error messages.
#[verifier::external_body]
fn decode_with_rsa_key(token: &str, n: &str, e: &str) -> (r: Result<JsonValue, RsaDecodeFailure>)
    ensures
        (r matches Err(RsaDecodeFailure::Key(_))) <==> !rsa_components_accepted(n@, e@),
        r matches Ok(p) ==> rs256_signature_valid(token@, n@, e@) && jwt_payload(token@) == Some(p),
{
    let key = match jsonwebtoken::DecodingKey::from_rsa_components(n, e) {
        Ok(k) => k,
        Err(err) => return Err(RsaDecodeFailure::Key(err.to_string())),
    };
    let validation = jsonwebtoken::Validation::new(jsonwebtoken::Algorithm::RS256);
    match jsonwebtoken::decode::<serde_json::Value>(token, &key, &validation) {
        Ok(data) => Ok(crate::json::from_serde(data.claims)),
        Err(err) => Err(RsaDecodeFailure::Token(err.to_string())),
    }
}

/// The key id the token asks for: its header's, or the empty id.
pub open spec fn token_kid(token: Seq<char>) -> Seq<char> {
    match jwt_header_kid(token) {
        Some(Some(k)) => k,
        _ => seq![],
    }
}

/// Verifies a token against the identity provider's published keys and
/// reads its claims. It fails when the header cannot be read, when the key
/// set has no key list, when no published key has the token's key id, when
/// that key cannot be read, and when the token fails verification
/// (signature, expiry) or its claims cannot be read. When it succeeds, the
/// token is signed under the published key with its key id, and the claims
/// are those of its payload.
pub fn verify_with_jwks(token: &str, jwks: &JsonValue) -> (r: Result<ClerkClaims, AuthError>)
    ensures
        (r matches Err(AuthError::InvalidHeader(_))) <==> jwt_header_kid(token@) is None,
        (r matches Err(AuthError::InvalidJwks)) <==> (jwt_header_kid(token@) is Some && !(field_lookup(
            *jwks,
            "keys"@,
        ) matches Some(JsonValue::Array(_)))),
        (r matches Err(AuthError::NoMatchingKey(_))) <==> (jwt_header_kid(token@) is Some && (field_lookup(
            *jwks,
            "keys"@,
        ) matches Some(JsonValue::Array(_))) && find_jwk_spec(*jwks, token_kid(token@)) is Err),
        r matches Err(AuthError::NoMatchingKey(k)) ==> k@ == token_kid(token@),
        (r matches Err(AuthError::InvalidKey(_))) <==> (jwt_header_kid(token@) is Some && (find_jwk_spec(
            *jwks,
            token_kid(token@),
        ) matches Ok((n, e)) && !rsa_components_accepted(n, e))),
        (r is Ok || r matches Err(AuthError::InvalidToken(_))) ==> jwt_header_kid(token@) is Some && (find_jwk_spec(
            *jwks,
            token_kid(token@),
        ) matches Ok((n, e)) && rsa_components_accepted(n, e)),
        r matches Ok(c) ==> ({
            &&& find_jwk_spec(*jwks, token_kid(token@)) matches Ok((n, e)) && rs256_signature_valid(token@, n, e)
            &&& jwt_payload(token@) matches Some(p) && claims_spec(p) == Some(c@)
        }),
{
    let kid = match decode_header_kid(token) {
        Ok(k) => match k {
            Some(s) => s,
            None => String::new(),
        },
        Err(m) => return Err(AuthError::InvalidHeader(m)),
    };
    let (n, e) = match find_jwk(jwks, kid.as_str()) {
        Ok(c) => c,
        Err(err) => return Err(err),
    };
    let payload = match decode_with_rsa_key(token, n.as_str(), e.as_str()) {
        Ok(p) => p,
        Err(RsaDecodeFailure::Key(m)) => return Err(AuthError::InvalidKey(m)),
        Err(RsaDecodeFailure::Token(m)) => return Err(AuthError::InvalidToken(m)),
    };
    match claims_from_json(&payload) {
        Some(c) => Ok(c),
        None => Err(AuthError::InvalidToken(to_string("claims do not match the expected shape"))),
    }
}

} // verus!
