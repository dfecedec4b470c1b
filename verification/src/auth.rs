//! Who may use the service.
use crate::config::AppConfig;
use crate::error::{ApiError, ApiErrorView, UNAUTHORIZED};
use crate::path::copy_range;
use crate::text::{strip_prefix, text_eq};
use crate::utf8::decode_strict;
use vstd::prelude::*;

verus! {

/// The headers of a request.
#[verifier::external_type_specification]
#[verifier::external_body]
#[verifier::reject_recursive_types(T)]
pub struct ExHeaderMap<T>(axum::http::HeaderMap<T>);

/// The value of a header.
#[verifier::external_type_specification]
#[verifier::external_body]
pub struct ExHeaderValue(axum::http::HeaderValue);

/// The values of each header, by the lower-case name of the header, in the order in which they
/// were given.
pub uninterp spec fn header_values(headers: axum::http::HeaderMap) -> Map<
    Seq<char>,
    Seq<Seq<u8>>,
>;

/// Whether a text is a header name as `header_values` holds it: lower-case letters and hyphens.
pub open spec fn is_header_name(name: Seq<char>) -> bool {
    name.len() > 0 && forall|i: int|
        0 <= i < name.len() ==> 'a' <= #[trigger] name[i] <= 'z' || name[i] == '-'
}

/// The first value of a header.
pub open spec fn first_value(values: Map<Seq<char>, Seq<Seq<u8>>>, name: Seq<char>) -> Option<
    Seq<u8>,
> {
    if values.contains_key(name) && values[name].len() > 0 {
        Some(values[name][0])
    } else {
        None
    }
}

/// Calls `axum::http::HeaderMap::get`, and copies the bytes of the value. The contract says that
/// the first value of the header is handed out, and nothing where the header has none.
#[verifier::external_body]
fn header_value(headers: &axum::http::HeaderMap, name: &str) -> (value: Option<Vec<u8>>)
    requires
        is_header_name(name@),
    ensures
        value is Some <==> first_value(header_values(*headers), name@) is Some,
        value matches Some(v) ==> first_value(header_values(*headers), name@) == Some(v@),
{
    headers.get(name).map(|value| value.as_bytes().to_vec())
}

/// Whether a byte of a header value can be read as text.
pub open spec fn is_visible(b: u8) -> bool {
    32 <= b < 127 || b == 9
}

/// The text of a header value, if all of its bytes can be read as text.
pub open spec fn visible_text(value: Seq<u8>) -> Option<Seq<char>> {
    if forall|i: int| 0 <= i < value.len() ==> is_visible(#[trigger] value[i]) {
        Some(value.map_values(|b: u8| b as char))
    } else {
        None
    }
}

/// The text of a header, if it is there and can be read.
pub open spec fn header_text(
    values: Map<Seq<char>, Seq<Seq<u8>>>,
    name: Seq<char>,
) -> Option<Seq<char>> {
    match first_value(values, name) {
        Some(value) => visible_text(value),
        None => None,
    }
}

/// The secret that a request presents: the `x-api-secret` header, or else what follows
/// `Bearer ` in the `authorization` header.
pub open spec fn presented_secret(values: Map<Seq<char>, Seq<Seq<u8>>>) -> Option<Seq<char>> {
    chosen_secret(header_text(values, "x-api-secret"@), header_text(values, "authorization"@))
}

/// The answer to a request that does not present the right secret.
pub open spec fn unauthorized() -> ApiErrorView {
    ApiErrorView {
        status: UNAUTHORIZED,
        message: "unauthorized: provide a valid x-api-secret or Bearer token"@,
    }
}

/// Reads a header value as text.
fn read_visible(value: &Vec<u8>) -> (r: Option<String>)
    ensures
        r.deep_view() == visible_text(value@),
{
    let n: usize = value.len();
    let mut i: usize = 0;
    while i < n
        invariant
            n == value@.len(),
            i <= n,
            forall|k: int| 0 <= k < i ==> is_visible(#[trigger] value@[k]),
        decreases n - i,
    {
        let b = value[i];
        if !((32 <= b && b < 127) || b == 9) {
            assert(!is_visible(value@[i as int]));
            return None;
        }
        i = i + 1;
    }
    let ghost chars = value@.map_values(|b: u8| b as char);
    proof {
        assert(vstd::utf8::is_ascii_chars(chars)) by {
            assert forall|k: int| 0 <= k < chars.len() implies '\0' <= #[trigger] chars[k]
                <= '\u{7f}' by {
                assert(is_visible(value@[k]));
            }
        }
        vstd::utf8::is_ascii_chars_encode_utf8(chars);
        assert(vstd::utf8::encode_utf8(chars) =~= value@) by {
            assert forall|k: int| 0 <= k < value@.len() implies vstd::utf8::encode_utf8(
                chars,
            )[k] == value@[k] by {
                assert(is_visible(value@[k]));
                assert(chars[k] as u8 == value@[k]);
            }
        }
        vstd::utf8::encode_utf8_valid_utf8(chars);
        vstd::utf8::encode_utf8_decode_utf8(chars);
    }
    let bytes = copy_range(value, 0, n);
    assert(bytes@ =~= value@);
    decode_strict(bytes)
}

/// The text of a header, if it is there and can be read.
fn read_header(headers: &axum::http::HeaderMap, name: &str) -> (r: Option<String>)
    requires
        is_header_name(name@),
    ensures
        r.deep_view() == header_text(header_values(*headers), name@),
{
    match header_value(headers, name) {
        Some(value) => read_visible(&value),
        None => None,
    }
}

/// The secret that a request presents.
pub fn extract_secret(headers: &axum::http::HeaderMap) -> (r: Option<String>)
    ensures
        r.deep_view() == presented_secret(header_values(*headers)),
{
    proof {
        reveal_strlit("x-api-secret");
        reveal_strlit("authorization");
    }
    let own = read_header(headers, "x-api-secret");
    let bearer = read_header(headers, "authorization");
    choose_secret(own, bearer)
}

/// The secret in the texts of the two headers that may hold one.
pub open spec fn chosen_secret(own: Option<Seq<char>>, bearer: Option<Seq<char>>) -> Option<
    Seq<char>,
> {
    match own {
        Some(secret) => Some(secret),
        None => match bearer {
            Some(text) => if "Bearer "@.is_prefix_of(text) {
                Some(text.skip("Bearer "@.len() as int))
            } else {
                None
            },
            None => None,
        },
    }
}

/// Picks the secret from the texts of the `x-api-secret` and the `authorization` header.
pub fn choose_secret(own: Option<String>, bearer: Option<String>) -> (r: Option<String>)
    ensures
        r.deep_view() == chosen_secret(own.deep_view(), bearer.deep_view()),
{
    match own {
        Some(secret) => Some(secret),
        None => match bearer {
            Some(text) => match strip_prefix(text.as_str(), "Bearer ") {
                Some(rest) => {
                    assert(rest@ =~= text@.skip("Bearer "@.len() as int));
                    Some(rest.to_owned())
                },
                None => None,
            },
            None => None,
        },
    }
}

/// Lets a request pass if it presents the configured secret.
pub fn require_secret(headers: &axum::http::HeaderMap, settings: &AppConfig) -> (r: Result<
    (),
    ApiError,
>)
    ensures
        r is Ok <==> presented_secret(header_values(*headers)) == Some(settings@.secret),
        r matches Err(error) ==> error@ == unauthorized(),
{
    match extract_secret(headers) {
        Some(secret) => if text_eq(secret.as_str(), settings.secret.as_str()) {
            return Ok(());
        },
        None => {},
    }
    Err(
        ApiError::unauthorized(
            "unauthorized: provide a valid x-api-secret or Bearer token".to_owned(),
        ),
    )
}

/// A request without either header is refused, whatever the secret is.
pub proof fn law_nothing_presented_is_refused(
    values: Map<Seq<char>, Seq<Seq<u8>>>,
    secret: Seq<char>,
)
    requires
        !values.contains_key("x-api-secret"@),
        !values.contains_key("authorization"@),
    ensures
        presented_secret(values) != Some(secret),
{
}

/// A secret of visible characters can be presented in the `x-api-secret` header; what the
/// `authorization` header holds does not matter then.
pub proof fn law_own_header_is_enough(values: Map<Seq<char>, Seq<Seq<u8>>>, secret: Seq<char>)
    requires
        header_text(values, "x-api-secret"@) is Some,
    ensures
        presented_secret(values) == Some(secret) <==> header_text(values, "x-api-secret"@) == Some(
            secret,
        ),
{
}

/// A secret of visible characters can be presented as a bearer token, where there is no
/// `x-api-secret` header that can be read.
pub proof fn law_bearer_token_is_enough(values: Map<Seq<char>, Seq<Seq<u8>>>, secret: Seq<char>)
    requires
        header_text(values, "x-api-secret"@) is None,
    ensures
        presented_secret(values) == Some(secret) <==> header_text(values, "authorization"@) == Some(
            "Bearer "@ + secret,
        ),
{
    if let Some(text) = header_text(values, "authorization"@) {
        if "Bearer "@.is_prefix_of(text) {
            assert("Bearer "@ + text.skip("Bearer "@.len() as int) =~= text);
        }
        if text == "Bearer "@ + secret {
            assert(text.skip("Bearer "@.len() as int) =~= secret);
            assert(text.subrange(0, "Bearer "@.len() as int) =~= "Bearer "@);
        }
    }
}

/// Whether the bytes of a header value can all be read, and spell `text`.
pub open spec fn spells(value: Seq<u8>, text: Seq<char>) -> bool {
    &&& value.len() == text.len()
    &&& forall|i: int|
        0 <= i < value.len() ==> {
            &&& (32 <= #[trigger] value[i] <= 126 || value[i] == 9)
            &&& text[i] as int == value[i]
        }
}

/// Whether the first value that was given for a header can be read, and spells `text`.
pub open spec fn is_given(
    values: Map<Seq<char>, Seq<Seq<u8>>>,
    name: Seq<char>,
    text: Seq<char>,
) -> bool {
    values.contains_key(name) && values[name].len() > 0 && spells(values[name][0], text)
}

/// The text of a header is what its first value spells.
proof fn lemma_header_text(
    values: Map<Seq<char>, Seq<Seq<u8>>>,
    name: Seq<char>,
    text: Seq<char>,
)
    ensures
        header_text(values, name) == Some(text) <==> is_given(values, name, text),
{
    if let Some(value) = first_value(values, name) {
        if let Some(read) = visible_text(value) {
            assert forall|i: int| 0 <= i < value.len() implies (32 <= #[trigger] value[i] <= 126
                || value[i] == 9) && read[i] as int == value[i] by {
                assert(is_visible(value[i]));
            }
            if spells(value, text) {
                assert forall|i: int| 0 <= i < text.len() implies text[i] == read[i] by {
                    assert(text[i] as int == value[i]);
                }
                assert(text =~= read);
            }
        } else if spells(value, text) {
            assert forall|i: int| 0 <= i < value.len() implies is_visible(#[trigger] value[i]) by {
            }
        }
    }
}

/// A secret is presented in exactly two ways: as the whole first value of the `x-api-secret`
/// header, or, where that header is missing or cannot be read, behind `Bearer ` as the whole first
/// value of the `authorization` header. No other request presents it.
pub proof fn law_secrets_are_presented_in_two_ways(
    values: Map<Seq<char>, Seq<Seq<u8>>>,
    secret: Seq<char>,
)
    ensures
        presented_secret(values) == Some(secret) <==> {
            ||| is_given(values, "x-api-secret"@, secret)
            ||| {
                &&& forall|text: Seq<char>| !#[trigger] is_given(values, "x-api-secret"@, text)
                &&& is_given(values, "authorization"@, "Bearer "@ + secret)
            }
        },
{
    lemma_header_text(values, "x-api-secret"@, secret);
    lemma_header_text(values, "authorization"@, "Bearer "@ + secret);
    match header_text(values, "x-api-secret"@) {
        Some(own) => {
            lemma_header_text(values, "x-api-secret"@, own);
            assert(is_given(values, "x-api-secret"@, own));
        },
        None => {
            assert forall|text: Seq<char>| !#[trigger] is_given(values, "x-api-secret"@, text) by {
                lemma_header_text(values, "x-api-secret"@, text);
            }
            law_bearer_token_is_enough(values, secret);
        },
    }
}

/// A refused request is told so with a status of its own.
pub proof fn law_refused_requests_are_unauthorized()
    ensures
        unauthorized().status == 401,
        unauthorized().message == "unauthorized: provide a valid x-api-secret or Bearer token"@,
{
}

} // verus!
