//! The headers that go with every request to the language model.

use crate::text::{ascii_lower, lemma_encode_concat};
use crate::types::BotConfig;
use http::header::InvalidHeaderValue;
use http::{HeaderMap, HeaderValue};
use vstd::prelude::*;
use vstd::utf8::{encode_utf8, is_ascii_chars_encode_utf8};

verus! {

/// `http::HeaderMap`, whose contents [`header_fields`] names.
#[verifier::external_type_specification]
#[verifier::external_body]
#[verifier::reject_recursive_types(T)]
pub struct ExHeaderMap<T>(HeaderMap<T>);

/// `http::HeaderValue`, the values of an `http::HeaderMap`; nothing is claimed
/// of it.
#[verifier::external_type_specification]
#[verifier::external_body]
pub struct ExHeaderValue(HeaderValue);

/// `http::header::InvalidHeaderValue`, which says that a value was not taken;
/// nothing is claimed of it.
#[verifier::external_type_specification]
#[verifier::external_body]
pub struct ExInvalidHeaderValue(InvalidHeaderValue);

/// The headers of a map: for each name, in lower case, its values in order.
pub uninterp spec fn header_fields(map: HeaderMap) -> Map<Seq<char>, Seq<Seq<u8>>>;

/// Whether a byte may stand in a header value: a tab, or anything from the
/// space on but the delete character.
pub open spec fn is_header_byte(b: u8) -> bool {
    b == 9 || (b >= 32 && b != 127)
}

/// Whether a text may be a header value.
pub open spec fn is_header_text(text: Seq<char>) -> bool {
    forall|i: int| 0 <= i < encode_utf8(text).len() ==> is_header_byte(#[trigger] encode_utf8(text)[i])
}

/// Whether a character is a letter or a hyphen.
pub open spec fn is_name_char(c: char) -> bool {
    ('a' <= c && c <= 'z') || ('A' <= c && c <= 'Z') || c == '-'
}

/// No headers.
pub open spec fn no_headers() -> Map<Seq<char>, Seq<Seq<u8>>> {
    Map::empty()
}

/// `http::HeaderMap::new`: a map without headers.
#[verifier::external_body]
fn new_header_map() -> (map: HeaderMap)
    ensures
        header_fields(map) == no_headers(),
{
    HeaderMap::new()
}

/// `http::HeaderMap::append` with the parsed `value`: takes a value exactly
/// where all of its bytes may stand in a header, adds those bytes behind the
/// values of `name`, which is taken in lower case, and says whether there were
/// any; a value that is not taken leaves the map as it was. The names that are
/// admitted are short ones of letters and hyphens, and the map is small: the
/// call panics on a name that is not valid and on a map of some ten thousand
/// names.
#[verifier::external_body]
fn append_header(map: &mut HeaderMap, name: &'static str, value: &str) -> (present: Result<
    bool,
    InvalidHeaderValue,
>)
    requires
        1 <= name@.len() <= 64,
        forall|i: int| 0 <= i < name@.len() ==> is_name_char(#[trigger] name@[i]),
        header_fields(*old(map)).dom().len() < 100,
    ensures
        present is Ok <==> is_header_text(value@),
        present matches Ok(p) ==> p == header_fields(*old(map)).dom().contains(lower_name(name@)),
        present is Ok ==> header_fields(*final(map)) == with_header(
            header_fields(*old(map)),
            lower_name(name@),
            encode_utf8(value@),
        ),
        present is Err ==> header_fields(*final(map)) == header_fields(*old(map)),
{
    Ok(map.append(name, value.parse::<HeaderValue>()?))
}

/// A header name in lower case.
pub open spec fn lower_name(name: Seq<char>) -> Seq<char> {
    name.map_values(|c: char| ascii_lower(c))
}

/// Headers with one more value for `name`.
pub open spec fn with_header(
    fields: Map<Seq<char>, Seq<Seq<u8>>>,
    name: Seq<char>,
    value: Seq<u8>,
) -> Map<Seq<char>, Seq<Seq<u8>>> {
    fields.insert(
        name,
        if fields.dom().contains(name) {
            fields[name].push(value)
        } else {
            seq![value]
        },
    )
}

/// A setting that cannot be sent as a header.
pub enum HeaderError {
    /// The API key holds a character that no header may hold.
    InvalidApiKey,
}

/// Makes the headers of the requests to the language model.
pub fn completion_headers(config: &BotConfig) -> (headers: Result<HeaderMap, HeaderError>)
    ensures
        headers is Ok <==> is_header_text(config.openai_api_key@),
        headers is Ok <==> forall|i: int|
            0 <= i < encode_utf8(config.openai_api_key@).len() ==> {
                let b = #[trigger] encode_utf8(config.openai_api_key@)[i];
                b == 9 || (32 <= b && b != 127)
            },
        headers matches Ok(map) ==> header_fields(map) == map![
            "authorization"@ => seq![encode_utf8("Bearer "@ + config.openai_api_key@)],
            "content-type"@ => seq![encode_utf8("application/json"@)],
        ],
{
    let mut headers = new_header_map();
    let authorization = "Bearer ".to_owned().concat(config.openai_api_key.as_str());
    proof {
        lemma_bearer_text(config.openai_api_key@);
        lemma_plain_texts();
    }
    if append_header(&mut headers, "Authorization", authorization.as_str()).is_err() {
        return Err(HeaderError::InvalidApiKey);
    }
    if append_header(&mut headers, "Content-Type", "application/json").is_err() {
        return Err(HeaderError::InvalidApiKey);
    }
    proof {
        assert(header_fields(headers) =~= map![
            "authorization"@ => seq![encode_utf8("Bearer "@ + config.openai_api_key@)],
            "content-type"@ => seq![encode_utf8("application/json"@)],
        ]);
    }
    Ok(headers)
}

/// A key may be sent behind the word that announces it exactly where it may be
/// sent by itself.
proof fn lemma_bearer_text(key: Seq<char>)
    ensures
        is_header_text("Bearer "@ + key) <==> is_header_text(key),
{
    reveal_strlit("Bearer ");
    let word = "Bearer "@;
    lemma_encode_concat(word, key);
    is_ascii_chars_encode_utf8(word);
    let all = encode_utf8(word + key);
    assert(all == encode_utf8(word) + encode_utf8(key));
    assert forall|i: int| 0 <= i < encode_utf8(word).len() implies is_header_byte(
        #[trigger] encode_utf8(word)[i],
    ) by {
        assert(encode_utf8(word)[i] == word[i] as u8);
    }
    if is_header_text(word + key) {
        assert forall|i: int| 0 <= i < encode_utf8(key).len() implies is_header_byte(
            #[trigger] encode_utf8(key)[i],
        ) by {
            assert(all[encode_utf8(word).len() + i] == encode_utf8(key)[i]);
        }
    }
    if is_header_text(key) {
        assert forall|i: int| 0 <= i < all.len() implies is_header_byte(#[trigger] all[i]) by {
            if i < encode_utf8(word).len() {
                assert(all[i] == encode_utf8(word)[i]);
            } else {
                assert(all[i] == encode_utf8(key)[i - encode_utf8(word).len()]);
            }
        }
    }
}

/// The fixed names and values are valid, and the names differ.
proof fn lemma_plain_texts()
    ensures
        is_header_text("application/json"@),
        1 <= "Authorization"@.len() <= 64,
        forall|i: int|
            0 <= i < "Authorization"@.len() ==> is_name_char(#[trigger] "Authorization"@[i]),
        1 <= "Content-Type"@.len() <= 64,
        forall|i: int|
            0 <= i < "Content-Type"@.len() ==> is_name_char(#[trigger] "Content-Type"@[i]),
        lower_name("Authorization"@) == "authorization"@,
        lower_name("Content-Type"@) == "content-type"@,
        "authorization"@ != "content-type"@,
{
    reveal_strlit("application/json");
    reveal_strlit("Authorization");
    reveal_strlit("Content-Type");
    reveal_strlit("authorization");
    reveal_strlit("content-type");
    let json = "application/json"@;
    is_ascii_chars_encode_utf8(json);
    assert forall|i: int| 0 <= i < encode_utf8(json).len() implies is_header_byte(
        #[trigger] encode_utf8(json)[i],
    ) by {
        assert(encode_utf8(json)[i] == json[i] as u8);
    }
    assert(lower_name("Authorization"@) =~= "authorization"@);
    assert(lower_name("Content-Type"@) =~= "content-type"@);
    assert("authorization"@.len() == 13);
    assert("content-type"@.len() == 12);
}

} // verus!
