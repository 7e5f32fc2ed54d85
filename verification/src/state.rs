//! The proxy's shared state and the decisions its HTTP handlers make: who may ask, and
//! which musikcubed URL answers.
use vstd::prelude::*;
use crate::auth::{basic_auth_header, basic_auth_header_value, basic_auth_password, extract_password_from_basic_auth};
use crate::error::{is_message_error, AppError, UNAUTHORIZED};
use crate::music::{MusicInfo, MusicInfoMap};
use crate::query::{forwarded_path, forwarded_target};
use crate::text::{decimal, push_decimal, push_str};
use crate::token::{check_token, is_alnum_char, is_random_source_error, is_scoped_token_shape, random_source_error, scoped_check, scoped_record, MusicScopedTokens, Tokens};

verus! {

/// HTTP 404 Not Found.
pub const NOT_FOUND: u16 = 404;

/// What the proxy holds while it runs.
pub struct AppCore {
    pub tokens: Tokens,
    pub scoped_tokens: MusicScopedTokens,
    pub music_info: MusicInfoMap,
    pub tokens_path: String,
    pub public_port: u16,
    pub musikcubed_address: String,
    pub musikcubed_http_port: u16,
    pub musikcubed_metadata_port: u16,
    pub musikcubed_password: String,
    pub musikcubed_auth_header_value: String,
}

/// `http://{address}:{port}{path}`.
pub open spec fn http_url(address: Seq<char>, port: u16, path: Seq<char>) -> Seq<char> {
    "http://"@ + address + ":"@ + decimal(port as nat) + path
}

/// `ws://{address}:{port}`.
pub open spec fn ws_url(address: Seq<char>, port: u16) -> Seq<char> {
    "ws://"@ + address + ":"@ + decimal(port as nat)
}

/// The error of a request whose access token is missing or wrong.
pub open spec fn is_bad_token_error(e: AppError) -> bool {
    is_message_error(e, "Invalid token or token not present"@, Some(UNAUTHORIZED))
}

/// The error of a request whose scoped token is unknown or expired.
pub open spec fn is_bad_scoped_token_error(e: AppError) -> bool {
    is_message_error(e, "Invalid token or not authorized"@, Some(UNAUTHORIZED))
}

/// The error of a request for a track that musikcubed did not list.
pub open spec fn is_unknown_music_error(e: AppError) -> bool {
    is_message_error(e, "music id not found"@, Some(NOT_FOUND))
}

/// The outcome of checking an optional access token against `hashes`.
pub open spec fn token_gate(hashes: Set<Seq<char>>, token: Option<Seq<char>>, res: Result<(), AppError>) -> bool {
    match token {
        None => res matches Err(e) && is_bad_token_error(e),
        Some(t) => match check_token(hashes, t) {
            Some(true) => res is Ok,
            Some(false) => res matches Err(e) && is_bad_token_error(e),
            None => res matches Err(e) && e.source is Hash && e.status is None,
        },
    }
}

/// `after` differs from `before` at most in which scoped tokens it holds.
pub open spec fn unchanged_but_scoped(before: AppCore, after: AppCore) -> bool {
    &&& after.tokens == before.tokens
    &&& after.music_info == before.music_info
    &&& after.scoped_tokens.expiry() == before.scoped_tokens.expiry()
    &&& after.tokens_path == before.tokens_path
    &&& after.public_port == before.public_port
    &&& after.musikcubed_address == before.musikcubed_address
    &&& after.musikcubed_http_port == before.musikcubed_http_port
    &&& after.musikcubed_metadata_port == before.musikcubed_metadata_port
    &&& after.musikcubed_password == before.musikcubed_password
    &&& after.musikcubed_auth_header_value == before.musikcubed_auth_header_value
}

/// The error of a request made while the clock reads earlier than the Unix epoch.
pub open spec fn is_clock_error(e: AppError) -> bool {
    is_message_error(e, "the clock reads earlier than the Unix epoch"@, None)
}

/// `after` took exactly one clock reading, `now`, more than `before`.
pub open spec fn took_reading(before: AppCore, after: AppCore, now: u64) -> bool {
    after.scoped_tokens.readings() == before.scoped_tokens.readings().push(now)
}

/// Issuing scoped `token` for `music_id`: it has the scoped shape, was not in use before,
/// and now grants `music_id` from the one clock reading taken; nothing else changed.
pub open spec fn scoped_token_issued(before: AppCore, after: AppCore, music_id: Seq<char>, token: Seq<char>) -> bool {
    &&& unchanged_but_scoped(before, after)
    &&& is_scoped_token_shape(token)
    &&& !before.scoped_tokens@.contains_key(token)
    &&& exists|now: u64|
        #![trigger took_reading(before, after, now)]
        took_reading(before, after, now) && after.scoped_tokens@ == before.scoped_tokens@.insert(
            token,
            (now, music_id),
        )
}

/// The music id that scoped `token` grants at time `now` in `core`.
pub open spec fn granted(core: AppCore, token: Seq<char>, now: u64) -> Option<Seq<char>> {
    scoped_check(core.scoped_tokens@, core.scoped_tokens.expiry(), token, now).1
}

/// `after` is `before` once scoped `token` was checked at time `now`: only an expired
/// token was dropped.
pub open spec fn checks_scoped(before: AppCore, after: AppCore, token: Seq<char>, now: u64) -> bool {
    &&& unchanged_but_scoped(before, after)
    &&& after.scoped_tokens@ == scoped_check(before.scoped_tokens@, before.scoped_tokens.expiry(), token, now).0
}

/// The answer to checking scoped `token` at time `now`: the music id it grants, else the
/// bad-scoped-token error.
pub open spec fn scoped_id_outcome(before: AppCore, token: Seq<char>, now: u64, res: Result<String, AppError>) -> bool {
    match granted(before, token, now) {
        Some(id) => res matches Ok(s) && s@ == id,
        None => res matches Err(e) && is_bad_scoped_token_error(e),
    }
}

/// The answer to asking for the track of scoped `token` at time `now`: the listed track,
/// the 404 for an unlisted one, or the bad-scoped-token error.
pub open spec fn scoped_info_outcome(before: AppCore, token: Seq<char>, now: u64, res: Result<MusicInfo, AppError>) -> bool {
    match granted(before, token, now) {
        None => res matches Err(e) && is_bad_scoped_token_error(e),
        Some(id) => if before.music_info@.contains_key(id) {
            res == Ok::<MusicInfo, AppError>(before.music_info@[id])
        } else {
            res matches Err(e) && is_unknown_music_error(e)
        },
    }
}

/// The answer to asking for the thumbnail of the track of scoped `token` at time `now`:
/// its musikcubed URL, the 404 for an unlisted track, or the bad-scoped-token error.
pub open spec fn scoped_thumbnail_outcome(before: AppCore, token: Seq<char>, now: u64, res: Result<String, AppError>) -> bool {
    match granted(before, token, now) {
        None => res matches Err(e) && is_bad_scoped_token_error(e),
        Some(id) => if before.music_info@.contains_key(id) {
            res matches Ok(url) && url@ == http_url(
                before.musikcubed_address@,
                before.musikcubed_http_port,
                "/thumbnail/"@ + decimal(before.music_info@[id].thumbnail_id as nat),
            )
        } else {
            res matches Err(e) && is_unknown_music_error(e)
        },
    }
}

/// The answer to asking for the audio of the track of scoped `token` at time `now`: its
/// musikcubed URL, or the bad-scoped-token error.
pub open spec fn scoped_audio_outcome(before: AppCore, token: Seq<char>, now: u64, res: Result<String, AppError>) -> bool {
    match granted(before, token, now) {
        None => res matches Err(e) && is_bad_scoped_token_error(e),
        Some(id) => res matches Ok(url) && url@ == http_url(
            before.musikcubed_address@,
            before.musikcubed_http_port,
            "/audio/external_id/"@ + id,
        ),
    }
}

/// Whether `token` is present and stored.
pub open spec fn token_accepted(hashes: Set<Seq<char>>, token: Option<Seq<char>>) -> bool {
    token matches Some(t) && check_token(hashes, t) == Some(true)
}

/// The token a data request carries: its `token` query parameter, else the password of its
/// Basic `Authorization` header.
pub open spec fn request_token(query_token: Option<Seq<char>>, authorization: Option<Seq<char>>) -> Option<Seq<char>> {
    match query_token {
        Some(t) => Some(t),
        None => match authorization {
            Some(a) => basic_auth_password(a),
            None => None,
        },
    }
}

/// The view of an optional `&str`.
pub open spec fn opt_view(s: Option<&str>) -> Option<Seq<char>> {
    match s {
        Some(x) => Some(x@),
        None => None,
    }
}

impl AppCore {
    /// The state for a proxy on `public_port` in front of musikcubed at
    /// `musikcubed_address`, with the tokens file at `tokens_path` holding
    /// `tokens_contents` and scoped tokens valid for `scoped_expiry` seconds.
    pub fn new(
        public_port: u16,
        musikcubed_address: String,
        musikcubed_http_port: u16,
        musikcubed_metadata_port: u16,
        musikcubed_password: String,
        tokens_path: String,
        tokens_contents: &str,
        scoped_expiry: u64,
        music_info: MusicInfoMap,
    ) -> (res: AppCore)
        ensures
            res.tokens@ == crate::token::file_entries(tokens_contents@).to_set(),
            res.scoped_tokens@ == Map::<Seq<char>, (u64, Seq<char>)>::empty(),
            res.scoped_tokens.expiry() == scoped_expiry,
            res.music_info == music_info,
            res.tokens_path == tokens_path,
            res.public_port == public_port,
            res.musikcubed_address == musikcubed_address,
            res.musikcubed_http_port == musikcubed_http_port,
            res.musikcubed_metadata_port == musikcubed_metadata_port,
            res.musikcubed_password == musikcubed_password,
            res.musikcubed_auth_header_value@ == basic_auth_header(musikcubed_password@),
    {
        let musikcubed_auth_header_value = basic_auth_header_value(musikcubed_password.as_str());
        AppCore {
            tokens: Tokens::read(tokens_contents),
            scoped_tokens: MusicScopedTokens::new(scoped_expiry),
            music_info,
            tokens_path,
            public_port,
            musikcubed_address,
            musikcubed_http_port,
            musikcubed_metadata_port,
            musikcubed_password,
            musikcubed_auth_header_value,
        }
    }

    /// Accepts a request that carries a stored access token.
    pub fn verify_token(&self, maybe_token: Option<&str>) -> (res: Result<(), AppError>)
        ensures
            token_gate(self.tokens@, opt_view(maybe_token), res),
    {
        broadcast use vstd::string::group_string_axioms;
        if let Some(token) = maybe_token {
            match self.tokens.verify(token) {
                Err(e) => return Err(e),
                Ok(true) => return Ok(()),
                Ok(false) => {},
            }
        }
        Err(AppError::message("Invalid token or token not present".to_string()).status(UNAUTHORIZED))
    }

    /// The music id that scoped `token` grants at time `now`; an expired token is dropped.
    pub fn verify_scoped_token_at(&mut self, token: &str, now: u64) -> (res: Result<String, AppError>)
        ensures
            final(self).scoped_tokens.readings() == old(self).scoped_tokens.readings(),
            checks_scoped(*old(self), *final(self), token@, now),
            scoped_id_outcome(*old(self), token@, now, res),
    {
        broadcast use vstd::string::group_string_axioms;
        match self.scoped_tokens.verify_at(token, now) {
            Some(id) => Ok(id),
            None => Err(AppError::message("Invalid token or not authorized".to_string()).status(UNAUTHORIZED)),
        }
    }

    /// The music id that scoped `token` grants now; an expired token is dropped. An error
    /// (with nothing changed) where the clock reads earlier than the Unix epoch.
    pub fn verify_scoped_token(&mut self, token: &str) -> (res: Result<String, AppError>)
        ensures
            *final(self) == *old(self) && (res matches Err(e) && is_clock_error(e)) || exists|now: u64|
                took_reading(*old(self), *final(self), now) && checks_scoped(
                    *old(self),
                    *final(self),
                    token@,
                    now,
                ) && #[trigger] scoped_id_outcome(
                    *old(self),
                    token@,
                    now,
                    res,
                ),
    {
        let ghost before = *self;
        match self.scoped_tokens.read_clock() {
            None => Err(clock_error()),
            Some(now) => {
                let res = self.verify_scoped_token_at(token, now);
                assert(took_reading(before, *self, now));
                assert(scoped_id_outcome(before, token@, now, res));
                res
            },
        }
    }

    /// `http://{address}:{http port}{path}` on musikcubed.
    pub fn musikcubed_url(&self, path: &str) -> (res: String)
        ensures
            res@ == http_url(self.musikcubed_address@, self.musikcubed_http_port, path@),
    {
        broadcast use vstd::string::group_string_axioms;
        let mut s = "http://".to_string();
        push_str(&mut s, self.musikcubed_address.as_str());
        push_str(&mut s, ":");
        push_decimal(&mut s, self.musikcubed_http_port as u64);
        push_str(&mut s, path);
        s
    }

    /// `ws://{address}:{metadata port}` of musikcubed.
    pub fn musikcubed_ws_url(&self) -> (res: String)
        ensures
            res@ == ws_url(self.musikcubed_address@, self.musikcubed_metadata_port),
    {
        broadcast use vstd::string::group_string_axioms;
        let mut s = "ws://".to_string();
        push_str(&mut s, self.musikcubed_address.as_str());
        push_str(&mut s, ":");
        push_decimal(&mut s, self.musikcubed_metadata_port as u64);
        s
    }

    /// Where a data request (thumbnails, audio by external id) to `path` with `query` is
    /// proxied: checks the token of its `token` parameter or `Authorization` header, then
    /// gives the musikcubed URL without the token.
    pub fn data_request_url(
        &self,
        query_token: Option<&str>,
        authorization: Option<&str>,
        path: &str,
        query: Option<&str>,
    ) -> (res: Result<String, AppError>)
        ensures
            token_gate(
                self.tokens@,
                request_token(opt_view(query_token), opt_view(authorization)),
                match res {
                    Ok(_) => Ok::<(), AppError>(()),
                    Err(e) => Err(e),
                },
            ),
            res matches Ok(url) ==> url@ == http_url(
                self.musikcubed_address@,
                self.musikcubed_http_port,
                forwarded_target(path@, opt_view(query)),
            ),
    {
        let from_header: Option<String> = match query_token {
            Some(_) => None,
            None => match authorization {
                Some(a) => match extract_password_from_basic_auth(a) {
                    Ok(p) => Some(p),
                    Err(_) => None,
                },
                None => None,
            },
        };
        let token: Option<&str> = match query_token {
            Some(t) => Some(t),
            None => match &from_header {
                Some(p) => Some(p.as_str()),
                None => None,
            },
        };
        match self.verify_token(token) {
            Err(e) => Err(e),
            Ok(()) => {
                let target = forwarded_path(path, query);
                Ok(self.musikcubed_url(target.as_str()))
            },
        }
    }

    /// A new scoped token for `music_id`, for a request carrying a stored access token: one
    /// not in use, recorded at the clock reading taken. An error (with nothing created) where
    /// the clock reads earlier than the Unix epoch, or where the random source fails or gives
    /// only tokens in use for `DRAW_ATTEMPTS` draws.
    pub fn generate_scoped_token(&mut self, query_token: Option<&str>, music_id: String) -> (res: Result<String, AppError>)
        ensures
            !token_accepted(old(self).tokens@, opt_view(query_token)) ==> *final(self) == *old(self)
                && token_gate(
                old(self).tokens@,
                opt_view(query_token),
                match res {
                    Ok(_) => Ok::<(), AppError>(()),
                    Err(e) => Err(e),
                },
            ),
            token_accepted(old(self).tokens@, opt_view(query_token)) ==> match res {
                Ok(token) => {
                    &&& scoped_token_issued(*old(self), *final(self), music_id@, token@)
                    &&& unchanged_but_scoped(*old(self), *final(self))
                    &&& token@.len() == 12
                    &&& forall|i: int| 0 <= i < 12 ==> is_alnum_char(#[trigger] token@[i])
                    &&& exists|now: u64|
                        final(self).scoped_tokens@ == #[trigger] scoped_record(
                            old(self).scoped_tokens@,
                            token@,
                            music_id@,
                            now,
                        )
                },
                Err(e) => *final(self) == *old(self) && (is_clock_error(e) || is_random_source_error(e)),
            },
    {
        broadcast use vstd::string::group_string_axioms;
        match self.verify_token(query_token) {
            Err(e) => Err(e),
            Ok(()) => {
                let ghost before = *self;
                let ghost id = music_id@;
                let token = match self.scoped_tokens.fresh_token() {
                    Some(token) => token,
                    None => return Err(random_source_error()),
                };
                let now = match self.scoped_tokens.read_clock() {
                    Some(now) => now,
                    None => return Err(clock_error()),
                };
                let token = self.scoped_tokens.generate_for_id_at(token, music_id, now);
                assert(self.scoped_tokens@ == scoped_record(before.scoped_tokens@, token@, id, now));
                assert(took_reading(before, *self, now));
                Ok(token)
            },
        }
    }

    /// The track that scoped `token` grants at time `now`: an error where the token is
    /// unknown or expired, and a 404 where musikcubed did not list the track.
    pub fn scoped_music_info_at(&mut self, token: &str, now: u64) -> (res: Result<MusicInfo, AppError>)
        ensures
            final(self).scoped_tokens.readings() == old(self).scoped_tokens.readings(),
            checks_scoped(*old(self), *final(self), token@, now),
            scoped_info_outcome(*old(self), token@, now, res),
    {
        broadcast use vstd::string::group_string_axioms;
        let music_id = match self.verify_scoped_token_at(token, now) {
            Ok(id) => id,
            Err(e) => return Err(e),
        };
        match self.music_info.get(music_id.as_str()) {
            Some(info) => Ok(info),
            None => Err(AppError::message("music id not found".to_string()).status(NOT_FOUND)),
        }
    }

    /// The track that scoped `token` grants now, as `scoped_music_info_at` gives it; an
    /// error (with nothing changed) where the clock reads earlier than the Unix epoch.
    pub fn scoped_music_info(&mut self, token: &str) -> (res: Result<MusicInfo, AppError>)
        ensures
            *final(self) == *old(self) && (res matches Err(e) && is_clock_error(e)) || exists|now: u64|
                took_reading(*old(self), *final(self), now) && checks_scoped(
                    *old(self),
                    *final(self),
                    token@,
                    now,
                ) && #[trigger] scoped_info_outcome(
                    *old(self),
                    token@,
                    now,
                    res,
                ),
    {
        let ghost before = *self;
        match self.scoped_tokens.read_clock() {
            None => Err(clock_error()),
            Some(now) => {
                let res = self.scoped_music_info_at(token, now);
                assert(took_reading(before, *self, now));
                assert(scoped_info_outcome(before, token@, now, res));
                res
            },
        }
    }

    /// Where the thumbnail of the track that scoped `token` grants at time `now` is fetched
    /// from: an error where the token is unknown or expired, a 404 where musikcubed did not
    /// list the track.
    pub fn scoped_thumbnail_url_at(&mut self, token: &str, now: u64) -> (res: Result<String, AppError>)
        ensures
            final(self).scoped_tokens.readings() == old(self).scoped_tokens.readings(),
            checks_scoped(*old(self), *final(self), token@, now),
            scoped_thumbnail_outcome(*old(self), token@, now, res),
    {
        broadcast use vstd::string::group_string_axioms;
        match self.scoped_music_info_at(token, now) {
            Err(e) => Err(e),
            Ok(info) => {
                let mut path = "/thumbnail/".to_string();
                push_decimal(&mut path, info.thumbnail_id as u64);
                Ok(self.musikcubed_url(path.as_str()))
            },
        }
    }

    /// Where the thumbnail of the track that scoped `token` grants now is fetched from, as
    /// `scoped_thumbnail_url_at` gives it; an error (with nothing changed) where the clock
    /// reads earlier than the Unix epoch.
    pub fn scoped_thumbnail_url(&mut self, token: &str) -> (res: Result<String, AppError>)
        ensures
            *final(self) == *old(self) && (res matches Err(e) && is_clock_error(e)) || exists|now: u64|
                took_reading(*old(self), *final(self), now) && checks_scoped(
                    *old(self),
                    *final(self),
                    token@,
                    now,
                ) && #[trigger] scoped_thumbnail_outcome(
                    *old(self),
                    token@,
                    now,
                    res,
                ),
    {
        let ghost before = *self;
        match self.scoped_tokens.read_clock() {
            None => Err(clock_error()),
            Some(now) => {
                let res = self.scoped_thumbnail_url_at(token, now);
                assert(took_reading(before, *self, now));
                assert(scoped_thumbnail_outcome(before, token@, now, res));
                res
            },
        }
    }

    /// Where the audio of the track that scoped `token` grants at time `now` is fetched
    /// from: an error where the token is unknown or expired.
    pub fn scoped_audio_url_at(&mut self, token: &str, now: u64) -> (res: Result<String, AppError>)
        ensures
            final(self).scoped_tokens.readings() == old(self).scoped_tokens.readings(),
            checks_scoped(*old(self), *final(self), token@, now),
            scoped_audio_outcome(*old(self), token@, now, res),
    {
        broadcast use vstd::string::group_string_axioms;
        match self.verify_scoped_token_at(token, now) {
            Err(e) => Err(e),
            Ok(id) => {
                let mut path = "/audio/external_id/".to_string();
                push_str(&mut path, id.as_str());
                Ok(self.musikcubed_url(path.as_str()))
            },
        }
    }

    /// Where the audio of the track that scoped `token` grants now is fetched from, as
    /// `scoped_audio_url_at` gives it; an error (with nothing changed) where the clock reads
    /// earlier than the Unix epoch.
    pub fn scoped_audio_url(&mut self, token: &str) -> (res: Result<String, AppError>)
        ensures
            *final(self) == *old(self) && (res matches Err(e) && is_clock_error(e)) || exists|now: u64|
                took_reading(*old(self), *final(self), now) && checks_scoped(
                    *old(self),
                    *final(self),
                    token@,
                    now,
                ) && #[trigger] scoped_audio_outcome(
                    *old(self),
                    token@,
                    now,
                    res,
                ),
    {
        let ghost before = *self;
        match self.scoped_tokens.read_clock() {
            None => Err(clock_error()),
            Some(now) => {
                let res = self.scoped_audio_url_at(token, now);
                assert(took_reading(before, *self, now));
                assert(scoped_audio_outcome(before, token@, now, res));
                res
            },
        }
    }
}

/// The error answered where the clock reads earlier than the Unix epoch.
pub fn clock_error() -> (res: AppError)
    ensures
        is_clock_error(res),
{
    broadcast use vstd::string::group_string_axioms;
    AppError::message("the clock reads earlier than the Unix epoch".to_string())
}

/// Whether a proxied audio response gets the cache header: a 2xx status.
pub fn adds_cache_header(status: u16) -> (res: bool)
    ensures
        res == (200 <= status && status <= 299),
{
    200 <= status && status <= 299
}

/// The cache header value given to successful audio responses.
pub fn audio_cache_header() -> (res: String)
    ensures
        res@ == "private, max-age=604800"@,
{
    broadcast use vstd::string::group_string_axioms;
    "private, max-age=604800".to_string()
}

/// How the public listener serves.
pub enum ServeMode {
    /// Over TLS, with the certificate and key read from these files.
    Tls { cert_path: String, key_path: String },
    /// Over plain HTTP, which the configuration allows explicitly.
    Insecure,
    /// Not at all: no TLS files are configured and plain HTTP is not allowed.
    Refuse,
}

/// Chooses how the public listener serves: TLS where both a certificate and a key path are
/// configured; otherwise plain HTTP where `insecure` is set; otherwise refusal.
pub fn serve_mode(cert_path: Option<String>, key_path: Option<String>, insecure: bool) -> (res: ServeMode)
    ensures
        match (cert_path, key_path) {
            (Some(c), Some(k)) => res matches ServeMode::Tls { cert_path: rc, key_path: rk }
                && rc@ == c@ && rk@ == k@,
            _ => if insecure { res is Insecure } else { res is Refuse },
        },
{
    match (cert_path, key_path) {
        (Some(c), Some(k)) => ServeMode::Tls { cert_path: c, key_path: k },
        _ => if insecure { ServeMode::Insecure } else { ServeMode::Refuse },
    }
}

/// Two share tokens issued one after the other are different, and each grants the track it
/// was issued for, at every moment from its creation until its expiry has passed.
pub proof fn law_share_tokens_issued_in_turn_grant_their_own_tracks(
    first: AppCore,
    second: AppCore,
    third: AppCore,
    id1: Seq<char>,
    id2: Seq<char>,
    t1: Seq<char>,
    t2: Seq<char>,
    now: u64,
)
    requires
        scoped_token_issued(first, second, id1, t1),
        scoped_token_issued(second, third, id2, t2),
    ensures
        t1 != t2,
        third.scoped_tokens@[t1].1 == id1,
        third.scoped_tokens@[t2].1 == id2,
        third.scoped_tokens@[t2].0 <= now <= third.scoped_tokens@[t2].0 + third.scoped_tokens.expiry()
            ==> granted(third, t2, now) == Some(id2),
        third.scoped_tokens@[t1].0 <= now <= third.scoped_tokens@[t1].0 + third.scoped_tokens.expiry()
            ==> granted(third, t1, now) == Some(id1),
{
    let n1 = choose|n: u64|
        #![trigger took_reading(first, second, n)]
        took_reading(first, second, n) && second.scoped_tokens@ == first.scoped_tokens@.insert(t1, (n, id1));
    let n2 = choose|n: u64|
        #![trigger took_reading(second, third, n)]
        took_reading(second, third, n) && third.scoped_tokens@ == second.scoped_tokens@.insert(t2, (n, id2));
    assert(second.scoped_tokens@.contains_key(t1));
}

} // verus!
