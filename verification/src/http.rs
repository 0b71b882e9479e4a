//! HTTP-level answers: error replies (a status code and a message) and the
//! request-header checks done before an upload body is read.
use vstd::prelude::*;
use crate::text::{chars_of, parse_decimal, parse_usize, push_chars, string_from_chars};

verus! {

/// An error reply: HTTP status code and body text.
pub struct ApiError {
    pub status: u16,
    pub message: String,
}

impl ApiError {
    pub open spec fn is(self, status: u16, message: Seq<char>) -> bool {
        self.status == status && self.message@ == message
    }
}

/// Builds an error reply from a status and a message.
pub fn api_error(status: u16, message: &str) -> (e: ApiError)
    ensures
        e.is(status, message@),
{
    let cs = chars_of(message);
    ApiError { status, message: string_from_chars(cs.as_slice()) }
}

/// Builds an error reply whose message is `prefix` followed by `detail`.
pub fn api_error_with(status: u16, prefix: &str, detail: &[char]) -> (e: ApiError)
    ensures
        e.is(status, prefix@ + detail@),
{
    let mut v = chars_of(prefix);
    push_chars(&mut v, detail);
    ApiError { status, message: string_from_chars(v.as_slice()) }
}

/// Largest upload body, in bytes, read into memory (50 MiB).
pub const UPLOAD_BODY_LIMIT: usize = 52428800;

/// The `Content-Type` of an upload request: `header` is `None` when the
/// header is absent and `Some(None)` when its value is not visible ASCII.
pub fn required_content_type(header: Option<Option<&str>>) -> (r: Result<String, ApiError>)
    ensures
        match header {
            Some(Some(v)) => r matches Ok(s) && s@ == v@,
            _ => r matches Err(e) && e.is(415, "missing Content-Type header"@),
        },
{
    match header {
        Some(Some(v)) => {
            let cs = chars_of(v);
            Ok(string_from_chars(cs.as_slice()))
        },
        _ => Err(api_error(415, "missing Content-Type header")),
    }
}

/// The size a `Content-Length` value claims: its decimal value, or zero when
/// it is not visible ASCII (`None`) or not a number that fits a `usize`.
pub open spec fn claimed_length(value: Option<Seq<char>>) -> nat {
    match value {
        Some(v) => match parse_usize(v) {
            Some(n) => n as nat,
            None => 0,
        },
        None => 0,
    }
}

/// Rejects, before reading the body, a request whose `Content-Length`
/// claims more than `UPLOAD_BODY_LIMIT` bytes. `header` is `None` when the
/// header is absent and `Some(None)` when its value is not visible ASCII.
pub fn precheck_content_length(header: Option<Option<&str>>) -> (r: Result<(), ApiError>)
    ensures
        match header {
            None => r is Ok,
            Some(v) => {
                let claim = claimed_length(
                    match v {
                        Some(s) => Some(s@),
                        None => None,
                    },
                );
                &&& claim > UPLOAD_BODY_LIMIT ==> (r matches Err(e) && e.is(
                    413,
                    "file exceeds size limit"@,
                ))
                &&& claim <= UPLOAD_BODY_LIMIT ==> r is Ok
            },
        },
{
    match header {
        None => Ok(()),
        Some(v) => {
            let claimed: u64 = match v {
                Some(s) => {
                    let cs = chars_of(s);
                    match parse_decimal(cs.as_slice(), usize::MAX as u64) {
                        Some(n) => n,
                        None => 0,
                    }
                },
                None => 0,
            };
            if claimed > UPLOAD_BODY_LIMIT as u64 {
                Err(api_error(413, "file exceeds size limit"))
            } else {
                Ok(())
            }
        },
    }
}

/// The reply when an upload body turns out larger than `UPLOAD_BODY_LIMIT`.
pub fn body_too_large() -> (e: ApiError)
    ensures
        e.is(413, "body exceeded size limit"@),
{
    api_error(413, "body exceeded size limit")
}

} // verus!
