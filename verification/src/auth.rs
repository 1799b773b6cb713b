//! Who may do what: the API key of the signaling server, and the tokens that it
//! issues to players.

use crate::status::StatusCode;
use crate::text::{ascii_lower, chars_of, text_equal};
use axum::http::header::HeaderValue;
use axum::http::HeaderMap;
use jsonwebtoken::{decode, DecodingKey, Validation};
use serde::de::IgnoredAny;
use vstd::prelude::*;

verus! {

// ── Request headers ────────────────────────────────────────────────────────

/// `http::HeaderMap`, the header fields of a request.
#[verifier::external_type_specification]
#[verifier::external_body]
#[verifier::reject_recursive_types(T)]
pub struct ExHeaderMap<T>(HeaderMap<T>);

/// `http::HeaderValue`, the value of a header field.
#[verifier::external_type_specification]
#[verifier::external_body]
pub struct ExHeaderValue(HeaderValue);

/// What a header map holds: for each field name, in lower case, the values in
/// the order in which they came.
pub uninterp spec fn header_fields(headers: HeaderMap<HeaderValue>) -> Map<Seq<char>, Seq<Seq<u8>>>;

/// A byte that may stand in a header text: visible ASCII, a space or a tab.
pub open spec fn is_header_text_byte(b: u8) -> bool {
    32 <= b < 127 || b == 9
}

/// The first value of a field, whatever the case of the name, if it is there
/// and is text.
pub open spec fn first_text(
    fields: Map<Seq<char>, Seq<Seq<u8>>>,
    name: Seq<char>,
) -> Option<Seq<char>> {
    let values = fields[ascii_lower(name)];
    if fields.contains_key(ascii_lower(name)) && values.len() > 0 && (forall|i: int|
        0 <= i < values[0].len() ==> is_header_text_byte(#[trigger] values[0][i])) {
        Some(values[0].map_values(|b: u8| b as char))
    } else {
        None
    }
}

/// The text of an optional string slice.
pub open spec fn optional_str(s: Option<&str>) -> Option<Seq<char>> {
    match s {
        Some(t) => Some(t@),
        None => None,
    }
}

/// `HeaderMap::get` and `HeaderValue::to_str`: the first value stored under the
/// name, which is looked up without regard to case, if all its bytes are visible
/// ASCII, spaces or tabs; nothing if there is no value or it holds another byte.
#[verifier::external_body]
pub(crate) fn header_str<'a>(headers: &'a HeaderMap<HeaderValue>, key: &str) -> (r: Option<&'a str>)
    ensures
        optional_str(r) == first_text(header_fields(*headers), key@),
{
    headers.get(key)?.to_str().ok()
}

/// What a header says, or nothing at all if it is missing.
pub open spec fn header_or_empty(headers: HeaderMap<HeaderValue>, name: Seq<char>) -> Seq<char> {
    match first_text(header_fields(headers), name) {
        Some(t) => t,
        None => Seq::empty(),
    }
}

/// What a header says, or nothing at all if it is missing.
pub fn header_value(headers: &HeaderMap<HeaderValue>, name: &str) -> (r: String)
    ensures
        r@ == header_or_empty(*headers, name@),
{
    match header_str(headers, name) {
        Some(t) => t.to_owned(),
        None => String::new(),
    }
}

// ── API key ────────────────────────────────────────────────────────────────

/// Let a request pass if its `X-API-Key` is the expected one.
pub fn check_api_key(headers: &HeaderMap<HeaderValue>, expected: &str) -> (r: Result<(), StatusCode>)
    ensures
        r == (if header_or_empty(*headers, "X-API-Key"@) == expected@ {
            Ok::<(), StatusCode>(())
        } else {
            Err(StatusCode::Unauthorized)
        }),
{
    let presented = header_value(headers, "X-API-Key");
    if text_equal(presented.as_str(), expected) {
        Ok(())
    } else {
        Err(StatusCode::Unauthorized)
    }
}

// ── Tokens ─────────────────────────────────────────────────────────────────

/// What a token says of its holder.
#[derive(Debug, Clone)]
pub struct Claims {
    pub sub: String,
    pub username: String,
    pub exp: usize,
}

/// The token in an `Authorization` header: what follows `Bearer `.
pub open spec fn token_of(authorization: Seq<char>) -> Seq<char> {
    if "Bearer "@.is_prefix_of(authorization) {
        authorization.skip("Bearer "@.len() as int)
    } else {
        Seq::empty()
    }
}

/// The token in an `Authorization` header.
pub fn bearer_token(authorization: &str) -> (r: String)
    ensures
        r@ == token_of(authorization@),
{
    let text = chars_of(authorization);
    let scheme = chars_of("Bearer ");
    if text.len() < scheme.len() {
        return String::new();
    }
    let mut i: usize = 0;
    while i < scheme.len()
        invariant
            i <= scheme.len() <= text.len(),
            text@ == authorization@,
            scheme@ == "Bearer "@,
            forall|j: int| 0 <= j < i ==> text@[j] == scheme@[j],
        decreases scheme.len() - i,
    {
        if text[i] != scheme[i] {
            assert("Bearer "@[i as int] != authorization@[i as int]);
            return String::new();
        }
        i = i + 1;
    }
    assert("Bearer "@ =~= authorization@.subrange(0, "Bearer "@.len() as int));
    authorization.substring_char(scheme.len(), text.len()).to_owned()
}

/// Whether a token is signed with the secret by HMAC-SHA256.
pub uninterp spec fn signed_with(token: Seq<char>, secret: Seq<char>) -> bool;

/// `jsonwebtoken::decode` with the default validation, of a payload that is not
/// looked into: it accepts only a token that is signed with the secret by
/// HMAC-SHA256. It refuses one that has expired, too, so a refusal depends on the
/// time, and nothing is claimed of it. The clock must stand after the first minute
/// of 1970.
#[verifier::external_body]
fn token_accepted(token: &str, secret: &str) -> (r: bool)
    ensures
        r ==> signed_with(token@, secret@),
{
    let key = DecodingKey::from_secret(secret.as_bytes());
    decode::<IgnoredAny>(token, &key, &Validation::default()).is_ok()
}

/// Whether the check of a token against a secret says so: whether it is what a call
/// of `token_accepted` hands out for them.
pub closed spec fn token_check(token: Seq<char>, secret: Seq<char>, accepted: bool) -> bool {
    exists|t: &str, s: &str| #[trigger]
        call_ensures(token_accepted, (t, s), accepted) && t@ == token && s@ == secret
}

fn checked<F: Fn(&str, &str) -> bool>(check: F, token: &str, secret: &str) -> (r: bool)
    requires
        call_requires(check, (token, secret)),
    ensures
        call_ensures(check, (token, secret), r),
{
    check(token, secret)
}

/// Check a token against a secret.
fn check_token(token: &str, secret: &str) -> (r: bool)
    ensures
        token_check(token@, secret@, r),
        r ==> signed_with(token@, secret@),
{
    checked(token_accepted, token, secret)
}

/// Nothing but a call of `token_accepted` on the token and the secret says whether
/// the token is accepted, and an accepted token is signed with the secret.
proof fn checks_come_from_the_decoder(
    token: Seq<char>,
    secret: Seq<char>,
    accepted: bool,
)
    requires
        token_check(token, secret, accepted),
    ensures
        exists|t: &str, s: &str| #[trigger]
            call_ensures(token_accepted, (t, s), accepted) && t@ == token && s@ == secret,
        accepted ==> signed_with(token, secret),
{
}

/// The token that a request presents.
pub open spec fn presented_token(headers: HeaderMap<HeaderValue>) -> Seq<char> {
    token_of(header_or_empty(headers, "Authorization"@))
}

/// The token that a request presents; empty if it presents none.
pub fn request_token(headers: &HeaderMap<HeaderValue>) -> (r: String)
    ensures
        r@ == presented_token(*headers),
{
    let authorization = header_value(headers, "Authorization");
    bearer_token(authorization.as_str())
}

/// Verify the token of a request, and hand out what it says of its holder. `claims`
/// is what the payload of the presented token holds, if it holds claims. Without a
/// configured secret no token is accepted. Whether a signed token is accepted
/// depends on the time, too.
pub fn verify_jwt(
    headers: &HeaderMap<HeaderValue>,
    secret: Option<&str>,
    claims: Option<Claims>,
) -> (r: Result<Claims, StatusCode>)
    ensures
        secret is None ==> r == Err::<Claims, StatusCode>(StatusCode::ServiceUnavailable),
        secret is Some && (presented_token(*headers).len() == 0 || claims is None) ==> r == Err::<
            Claims,
            StatusCode,
        >(StatusCode::Unauthorized),
        secret is Some ==> match r {
            Ok(c) => {
                &&& presented_token(*headers).len() > 0
                &&& signed_with(presented_token(*headers), secret->0@)
                &&& claims == Some(c)
            },
            Err(e) => e == StatusCode::Unauthorized,
        },
        secret is Some && presented_token(*headers).len() > 0 && claims is Some ==> exists|
            accepted: bool,
        |
            #[trigger] token_check(presented_token(*headers), secret->0@, accepted) && r == (
            if accepted {
                Ok::<Claims, StatusCode>(claims->0)
            } else {
                Err(StatusCode::Unauthorized)
            }),
{
    match secret {
        None => Err(StatusCode::ServiceUnavailable),
        Some(secret) => {
            let token = request_token(headers);
            if token.as_str().is_empty() || !check_token(token.as_str(), secret) {
                return Err(StatusCode::Unauthorized);
            }
            match claims {
                Some(c) => Ok(c),
                None => Err(StatusCode::Unauthorized),
            }
        },
    }
}

} // verus!
