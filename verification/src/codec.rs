//! Encodings that the proxy takes from other crates: standard Base64, UTF-8, argon2
//! password hashes and URL query strings.
use vstd::prelude::*;
use vstd::utf8::*;
use base64::Engine;
use crate::text::is_white;

verus! {

#[verifier::external_type_specification]
#[verifier::external_body]
pub struct ExDecodeError(base64::DecodeError);

#[verifier::external_type_specification]
#[verifier::external_body]
pub struct ExFromUtf8Error(std::string::FromUtf8Error);

#[verifier::external_type_specification]
#[verifier::external_body]
pub struct ExArgon2Error(argon2::Error);

/// What `base64::engine::general_purpose::STANDARD.decode` returns for `input`:
/// the decoded bytes, or `None` where it reports an error.
pub uninterp spec fn base64_decoded(input: Seq<u8>) -> Option<Seq<u8>>;

/// What `base64::engine::general_purpose::STANDARD.encode` returns for `input`.
pub uninterp spec fn base64_encoded(input: Seq<u8>) -> Seq<char>;

/// A character of the standard Base64 alphabet, padding included.
pub open spec fn is_base64_char(c: char) -> bool {
    ('A' <= c && c <= 'Z') || ('a' <= c && c <= 'z') || ('0' <= c && c <= '9') || c == '+'
        || c == '/' || c == '='
}

/// Decodes standard (padded) Base64, by `base64::engine::general_purpose::STANDARD.decode`.
/// The contract ties the result to the input through `base64_decoded` and claims nothing
/// else of it.
#[verifier::external_body]
pub(crate) fn base64_decode(input: &[u8]) -> (res: Result<Vec<u8>, base64::DecodeError>)
    ensures
        base64_decoded(input@) == (match res {
            Ok(v) => Some(v@),
            Err(_) => None::<Seq<u8>>,
        }),
{
    base64::engine::general_purpose::STANDARD.decode(input)
}

/// Encodes bytes as standard (padded) Base64, by
/// `base64::engine::general_purpose::STANDARD.encode`. Besides naming the result, the
/// contract states two facts the crate documents for this engine: every character of the
/// output is from the standard alphabet, and decoding the output gives the input back.
#[verifier::external_body]
pub(crate) fn base64_encode(input: &[u8]) -> (res: String)
    ensures
        res@ == base64_encoded(input@),
        forall|i: int| 0 <= i < res@.len() ==> is_base64_char(#[trigger] res@[i]),
        base64_decoded(encode_utf8(res@)) == Some(input@),
{
    base64::engine::general_purpose::STANDARD.encode(input)
}

/// Decodes UTF-8 by `String::from_utf8`, which fails exactly on invalid UTF-8.
#[verifier::external_body]
pub(crate) fn utf8_decode(bytes: Vec<u8>) -> (res: Result<String, std::string::FromUtf8Error>)
    ensures
        res is Ok <==> valid_utf8(bytes@),
        res matches Ok(s) ==> s@ == decode_utf8(bytes@),
{
    String::from_utf8(bytes)
}

/// What `argon2::hash_encoded(data, salt, &argon2::Config::default())` returns: the
/// encoded hash, or `None` where it reports an error.
pub uninterp spec fn argon2_encoded(data: Seq<u8>, salt: Seq<u8>) -> Option<Seq<char>>;

/// Hashes `data` with `salt` by `argon2::hash_encoded` with the crate's default
/// configuration (argon2i, version 19, 4096 KiB, 3 passes, 1 lane). Besides naming the
/// result, the contract states what the crate's `Context::new` and `encode_string` show:
/// with that configuration it fails only for data longer than `u32::MAX` bytes or a salt
/// shorter than 8 or longer than `u32::MAX` bytes, and every encoded hash starts with
/// `$argon2i$v=19$m=4096,t=3,p=1$` and holds no whitespace (it is `$`-separated fields of
/// letters, digits and Base64).
#[verifier::external_body]
pub(crate) fn argon2_hash(data: &[u8], salt: &[u8]) -> (res: Result<String, argon2::Error>)
    ensures
        argon2_encoded(data@, salt@) == (match res {
            Ok(h) => Some(h@),
            Err(_) => None::<Seq<char>>,
        }),
        data@.len() <= 0xffff_ffff && 8 <= salt@.len() <= 0xffff_ffff ==> res is Ok,
        res matches Ok(h) ==> h@.len() > 0 && h@[0] == '$' && forall|i: int|
            0 <= i < h@.len() ==> !is_white(#[trigger] h@[i]),
        res matches Ok(h) ==> h@.take(29) == "$argon2i$v=19$m=4096,t=3,p=1$"@,
{
    argon2::hash_encoded(data, salt, &argon2::Config::default())
}

/// What `serde_qs::from_str::<BTreeMap<String, String>>` returns for `query`: the pairs in
/// the map's (ascending key) order, or `None` where it reports an error.
pub uninterp spec fn query_decoded(query: Seq<char>) -> Option<Seq<(Seq<char>, Seq<char>)>>;

/// What `serde_qs::to_string` returns for the map that holds `pairs`.
pub uninterp spec fn query_encoded(pairs: Seq<(Seq<char>, Seq<char>)>) -> Seq<char>;

/// The keys of `pairs` are pairwise distinct.
pub open spec fn distinct_keys<V>(pairs: Seq<(Seq<char>, V)>) -> bool {
    forall|i: int, j: int|
        0 <= i < j < pairs.len() ==> #[trigger] pairs[i].0 != #[trigger] pairs[j].0
}

/// Parses a URL query string into key/value pairs by `serde_qs::from_str` into a
/// `BTreeMap<String, String>`; the pairs come out in the map's order, so no key occurs
/// twice.
#[verifier::external_body]
pub(crate) fn query_decode(query: &str) -> (res: Option<Vec<(String, String)>>)
    ensures
        res.deep_view() == query_decoded(query@),
        res matches Some(v) ==> distinct_keys(v.deep_view()),
{
    match serde_qs::from_str::<std::collections::BTreeMap<String, String>>(query) {
        Ok(map) => Some(map.into_iter().collect()),
        Err(_) => None,
    }
}

/// Renders key/value pairs as a URL query string by `serde_qs::to_string` on the
/// `BTreeMap` that holds them. The serializer writes a map of strings into a byte buffer,
/// which cannot fail; the contract says so (`Some`) and names the text.
#[verifier::external_body]
pub(crate) fn query_encode(pairs: &Vec<(String, String)>) -> (res: Option<String>)
    requires
        distinct_keys(pairs.deep_view()),
    ensures
        res is Some,
        res matches Some(s) ==> s@ == query_encoded(pairs.deep_view()),
{
    let map: std::collections::BTreeMap<String, String> = pairs.iter().cloned().collect();
    match serde_qs::to_string(&map) {
        Ok(s) => Some(s),
        Err(_) => None,
    }
}

} // verus!
