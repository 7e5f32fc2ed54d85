//! The proxy's error: what went wrong, and the HTTP status to answer with.
use vstd::prelude::*;

verus! {

/// What went wrong.
#[derive(Debug)]
pub enum ErrorSource {
    /// A plain description.
    Message(String),
    /// Base64 that would not decode.
    Base64(base64::DecodeError),
    /// Bytes that were not UTF-8.
    Utf8(std::string::FromUtf8Error),
    /// The password hasher refused its input.
    Hash(argon2::Error),
}

/// An error together with the HTTP status to answer with, if one was chosen.
#[derive(Debug)]
pub struct AppError {
    pub source: ErrorSource,
    pub status: Option<u16>,
}

/// HTTP 401 Unauthorized.
pub const UNAUTHORIZED: u16 = 401;

/// HTTP 500 Internal Server Error, the status of an error that chose none.
pub const INTERNAL_SERVER_ERROR: u16 = 500;

/// An error whose source is the plain description `msg`, with no status chosen.
pub open spec fn is_message_error(e: AppError, msg: Seq<char>, status: Option<u16>) -> bool {
    &&& e.source matches ErrorSource::Message(m) && m@ == msg
    &&& e.status == status
}

impl AppError {
    /// An error carrying the description `msg`, with no status chosen.
    pub fn message(msg: String) -> (res: AppError)
        ensures
            is_message_error(res, msg@, None),
    {
        AppError { source: ErrorSource::Message(msg), status: None }
    }

    /// An error from a failed Base64 decoding, with no status chosen.
    pub fn base64(e: base64::DecodeError) -> (res: AppError)
        ensures
            res.source == ErrorSource::Base64(e),
            res.status is None,
    {
        AppError { source: ErrorSource::Base64(e), status: None }
    }

    /// An error from bytes that were not UTF-8, with no status chosen.
    pub fn utf8(e: std::string::FromUtf8Error) -> (res: AppError)
        ensures
            res.source == ErrorSource::Utf8(e),
            res.status is None,
    {
        AppError { source: ErrorSource::Utf8(e), status: None }
    }

    /// An error from the password hasher, with no status chosen.
    pub fn hash(e: argon2::Error) -> (res: AppError)
        ensures
            res.source == ErrorSource::Hash(e),
            res.status is None,
    {
        AppError { source: ErrorSource::Hash(e), status: None }
    }

    /// The same error, answered with status `code`.
    pub fn status(self, code: u16) -> (res: AppError)
        ensures
            res.source == self.source,
            res.status == Some(code),
    {
        AppError { source: self.source, status: Some(code) }
    }

    /// The status to answer with: the chosen one, else 500.
    pub fn response_status(&self) -> (res: u16)
        ensures
            res == match self.status {
                Some(code) => code,
                None => INTERNAL_SERVER_ERROR,
            },
    {
        match self.status {
            Some(code) => code,
            None => INTERNAL_SERVER_ERROR,
        }
    }

    /// The body of the error response for an error described as `description`.
    pub fn response_text(description: &str) -> (res: String)
        ensures
            res@ == "Something went wrong: "@ + description@,
    {
        broadcast use vstd::string::group_string_axioms;
        let mut s = "Something went wrong: ".to_string();
        crate::text::push_str(&mut s, description);
        s
    }
}

} // verus!
