//! HTTP Basic authentication: the header the proxy sends to musikcubed, and the password
//! a client sends in its own `Authorization` header.
use vstd::prelude::*;
use vstd::utf8::*;
use crate::codec::{base64_decode, base64_decoded, base64_encode, base64_encoded, is_base64_char, utf8_decode};
use crate::error::{AppError, ErrorSource};
use crate::text::{push_str, strip_all_prefix, trim_start_matches};

verus! {

/// `Basic `, the scheme prefix of a Basic `Authorization` value.
pub open spec fn basic_prefix() -> Seq<char> {
    seq!['B', 'a', 's', 'i', 'c', ' ']
}

/// `default:`, the user name musikcubed expects in front of the password.
pub open spec fn default_user_prefix() -> Seq<char> {
    seq!['d', 'e', 'f', 'a', 'u', 'l', 't', ':']
}

/// The bytes that the Base64 part of `auth` decodes to, once every leading `Basic ` is
/// removed.
pub open spec fn basic_auth_bytes(auth: Seq<char>) -> Option<Seq<u8>> {
    base64_decoded(encode_utf8(strip_all_prefix(auth, basic_prefix())))
}

/// The password carried by the `Authorization` value `auth`: its decoded text without any
/// leading `default:`; `None` where it is not Base64 of UTF-8 text.
pub open spec fn basic_auth_password(auth: Seq<char>) -> Option<Seq<char>> {
    match basic_auth_bytes(auth) {
        Some(b) => if valid_utf8(b) {
            Some(strip_all_prefix(decode_utf8(b), default_user_prefix()))
        } else {
            None
        },
        None => None,
    }
}

/// The `Authorization` value that logs in to musikcubed with `password`.
pub open spec fn basic_auth_header(password: Seq<char>) -> Seq<char> {
    basic_prefix() + base64_encoded(encode_utf8(default_user_prefix() + password))
}

/// The password in a client's Basic `Authorization` value `auth`.
pub fn extract_password_from_basic_auth(auth: &str) -> (res: Result<String, AppError>)
    ensures
        match basic_auth_password(auth@) {
            Some(p) => res matches Ok(s) && s@ == p,
            None => res is Err,
        },
        res matches Err(e) ==> e.status is None && (e.source is Base64 <==> basic_auth_bytes(
            auth@,
        ) is None),
{
    proof {
        reveal_strlit("Basic ");
        reveal_strlit("default:");
        assert("Basic "@ =~= basic_prefix());
        assert("default:"@ =~= default_user_prefix());
    }
    let encoded = trim_start_matches(auth, "Basic ");
    match base64_decode(encoded.as_str().as_bytes()) {
        Err(e) => Err(AppError::base64(e)),
        Ok(bytes) => password_from_decoded(bytes),
    }
}

/// The password in the decoded bytes of a Basic `Authorization` value: their UTF-8 text
/// without any leading `default:`.
pub fn password_from_decoded(bytes: Vec<u8>) -> (res: Result<String, AppError>)
    ensures
        valid_utf8(bytes@) ==> (res matches Ok(s) && s@ == strip_all_prefix(
            decode_utf8(bytes@),
            default_user_prefix(),
        )),
        !valid_utf8(bytes@) ==> (res matches Err(e) && e.source is Utf8 && e.status is None),
{
    proof {
        reveal_strlit("default:");
        assert("default:"@ =~= default_user_prefix());
    }
    match utf8_decode(bytes) {
        Err(e) => Err(AppError::utf8(e)),
        Ok(text) => Ok(trim_start_matches(text.as_str(), "default:")),
    }
}

/// The `Authorization` value that logs in to musikcubed with `password`:
/// `Basic ` and the Base64 of `default:` followed by the password. Reading it back as a
/// client's header gives the password without any leading `default:`.
pub fn basic_auth_header_value(password: &str) -> (res: String)
    ensures
        res@ == basic_auth_header(password@),
        basic_auth_password(res@) == Some(
            strip_all_prefix(default_user_prefix() + password@, default_user_prefix()),
        ),
{
    broadcast use vstd::string::group_string_axioms;
    proof {
        reveal_strlit("Basic ");
        reveal_strlit("default:");
        assert("Basic "@ =~= basic_prefix());
        assert("default:"@ =~= default_user_prefix());
    }
    let mut user = "default:".to_string();
    push_str(&mut user, password);
    let encoded = base64_encode(user.as_str().as_bytes());
    let mut res = "Basic ".to_string();
    push_str(&mut res, encoded.as_str());
    proof {
        let enc = encoded@;
        let whole = basic_prefix() + enc;
        assert(whole.take(6) == basic_prefix());
        assert(whole.skip(6) == enc);
        assert(strip_all_prefix(enc, basic_prefix()) == enc) by {
            if 6 <= enc.len() && enc.take(6) == basic_prefix() {
                assert(enc.take(6)[5] == ' ');
                assert(is_base64_char(enc[5]));
            }
        }
        assert(strip_all_prefix(whole, basic_prefix()) == enc);
        vstd::utf8::encode_utf8_valid_utf8(user@);
        vstd::utf8::encode_utf8_decode_utf8(user@);
    }
    res
}

} // verus!
