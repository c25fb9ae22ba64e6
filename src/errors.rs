//! Errors of the storage operations, and the reason phrases of HTTP error
//! statuses.

use vstd::prelude::*;
use crate::text::decimal;

verus! {

/// The kind of a failure to reach the service, or of an answer that stands
/// for one.
#[derive(Clone, Copy, Debug, PartialEq, Eq, Structural)]
pub enum IoKind {
    NotFound,
    PermissionDenied,
    TimedOut,
    Other,
}

/// Why a response could not be read.
#[derive(Clone, Debug, PartialEq, Eq)]
pub enum ParseError {
    /// The content is not UTF-8: the length of its valid prefix.
    UTF8 { valid_up_to: usize },
    InvalidFormat { msg: String },
}

/// Why an operation failed.
#[derive(Clone, Debug, PartialEq, Eq)]
pub enum Error {
    /// The request did not reach the service, or got no answer.
    Io { kind: IoKind, msg: String },
    /// The service answered with a status other than success: the status and
    /// the body as sent.
    Service { status: u16, body: Vec<u8> },
    /// The answer could not be read.
    Parse(ParseError),
    /// Any other failure, with its message.
    Internal { msg: String },
}

/// The status class of success.
pub open spec fn is_success_status(status: u16) -> bool {
    200 <= status && status < 300
}

impl Error {
    /// The kind of I/O failure this error stands for: that of a transport
    /// failure, or the one that a status of not found, forbidden or request
    /// timeout means.
    pub open spec fn spec_io_kind(&self) -> Option<IoKind> {
        match self {
            Error::Io { kind, .. } => Some(*kind),
            Error::Service { status, .. } => if *status == 404 {
                Some(IoKind::NotFound)
            } else if *status == 403 {
                Some(IoKind::PermissionDenied)
            } else if *status == 408 {
                Some(IoKind::TimedOut)
            } else {
                None
            },
            _ => None,
        }
    }

    /// Returns the I/O kind of this error, if it has one.
    pub fn io_kind(&self) -> (r: Option<IoKind>)
        ensures
            r == self.spec_io_kind(),
    {
        match self {
            Error::Io { kind, .. } => Some(*kind),
            Error::Service { status, .. } => {
                if *status == 404 {
                    Some(IoKind::NotFound)
                } else if *status == 403 {
                    Some(IoKind::PermissionDenied)
                } else if *status == 408 {
                    Some(IoKind::TimedOut)
                } else {
                    None
                }
            },
            _ => None,
        }
    }
}

/// What went wrong with one object.
#[derive(Clone, Debug, PartialEq, Eq)]
pub enum ObjectError {
    PutError { msg: String },
    GetError { msg: String },
    DeleteError { msg: String },
    HeadError { msg: String },
}

/// An HTTP error status.
#[derive(Clone, Copy, Debug, PartialEq, Eq, Structural)]
pub struct HttpError(pub u16);

impl From<u16> for HttpError {
    fn from(code: u16) -> (r: HttpError) {
        HttpError(code)
    }
}

impl vstd::std_specs::convert::FromSpecImpl<u16> for HttpError {
    open spec fn obeys_from_spec() -> bool {
        true
    }

    open spec fn from_spec(code: u16) -> HttpError {
        HttpError(code)
    }
}

/// The reason phrase of an HTTP error status, for the statuses this library
/// knows.
pub open spec fn reason_phrase(code: u16) -> Option<Seq<char>> {
    if code == 400 { Some("Bad Request"@) }
    else if code == 401 { Some("Unauthorized"@) }
    else if code == 402 { Some("Payment Required"@) }
    else if code == 403 { Some("Forbidden"@) }
    else if code == 404 { Some("Not Found"@) }
    else if code == 405 { Some("Method Not Allowed"@) }
    else if code == 406 { Some("Not Acceptable"@) }
    else if code == 407 { Some("Proxy Authentication Required"@) }
    else if code == 408 { Some("Request Timeout"@) }
    else if code == 409 { Some("Conflict"@) }
    else if code == 410 { Some("Gone"@) }
    else if code == 411 { Some("Length Required"@) }
    else if code == 412 { Some("Precondition Failed"@) }
    else if code == 413 { Some("Payload Too Large"@) }
    else if code == 414 { Some("URI Too Long"@) }
    else if code == 415 { Some("Unsupported Media Type"@) }
    else if code == 416 { Some("Range Not Satisfiable"@) }
    else if code == 417 { Some("Expectation Failed"@) }
    else if code == 418 { Some("I'm a teapot"@) }
    else if code == 421 { Some("Misdirected Request"@) }
    else if code == 422 { Some("Unprocessable Entity"@) }
    else if code == 423 { Some("Locked"@) }
    else if code == 424 { Some("Failed Dependency"@) }
    else if code == 426 { Some("Upgrade Required"@) }
    else if code == 428 { Some("Precondition Required"@) }
    else if code == 429 { Some("Too Many Requests"@) }
    else if code == 431 { Some("Request Header Fields Too Large"@) }
    else if code == 451 { Some("Unavailable For Legal Reasons"@) }
    else if code == 500 { Some("Internal Server Error"@) }
    else if code == 501 { Some("Not Implemented"@) }
    else if code == 502 { Some("Bad Gateway"@) }
    else if code == 503 { Some("Service Unavailable"@) }
    else if code == 504 { Some("Gateway Timeout"@) }
    else if code == 505 { Some("HTTP Version Not Supported"@) }
    else if code == 506 { Some("Variant Also Negotiates"@) }
    else if code == 507 { Some("Insufficient Storage"@) }
    else if code == 508 { Some("Loop Detected"@) }
    else if code == 510 { Some("Not Extended"@) }
    else if code == 511 { Some("Network Authentication Required"@) }
    else { None }
}

impl HttpError {
    /// The status code.
    pub fn code(&self) -> (r: u16)
        ensures
            r == self.0,
    {
        self.0
    }

    /// The reason phrase of the status; none for a status this library does
    /// not know.
    pub fn info(&self) -> (r: Option<&'static str>)
        ensures
            r.is_some() == reason_phrase(self.0).is_some(),
            r.is_some() ==> reason_phrase(self.0) == Some(r.unwrap()@),
    {
        match self.0 {
            400 => Some("Bad Request"),
            401 => Some("Unauthorized"),
            402 => Some("Payment Required"),
            403 => Some("Forbidden"),
            404 => Some("Not Found"),
            405 => Some("Method Not Allowed"),
            406 => Some("Not Acceptable"),
            407 => Some("Proxy Authentication Required"),
            408 => Some("Request Timeout"),
            409 => Some("Conflict"),
            410 => Some("Gone"),
            411 => Some("Length Required"),
            412 => Some("Precondition Failed"),
            413 => Some("Payload Too Large"),
            414 => Some("URI Too Long"),
            415 => Some("Unsupported Media Type"),
            416 => Some("Range Not Satisfiable"),
            417 => Some("Expectation Failed"),
            418 => Some("I'm a teapot"),
            421 => Some("Misdirected Request"),
            422 => Some("Unprocessable Entity"),
            423 => Some("Locked"),
            424 => Some("Failed Dependency"),
            426 => Some("Upgrade Required"),
            428 => Some("Precondition Required"),
            429 => Some("Too Many Requests"),
            431 => Some("Request Header Fields Too Large"),
            451 => Some("Unavailable For Legal Reasons"),
            500 => Some("Internal Server Error"),
            501 => Some("Not Implemented"),
            502 => Some("Bad Gateway"),
            503 => Some("Service Unavailable"),
            504 => Some("Gateway Timeout"),
            505 => Some("HTTP Version Not Supported"),
            506 => Some("Variant Also Negotiates"),
            507 => Some("Insufficient Storage"),
            508 => Some("Loop Detected"),
            510 => Some("Not Extended"),
            511 => Some("Network Authentication Required"),
            _ => None,
        }
    }

    /// The status and its reason phrase, as `404 Not Found`; the code alone
    /// for a status this library does not know.
    pub fn to_text(&self) -> (r: String)
        ensures
            r@ == decimal(self.0 as nat) + match reason_phrase(self.0) {
                Some(p) => seq![' '] + p,
                None => Seq::empty(),
            },
    {
        proof {
            reveal_strlit(" ");
        }
        let mut r = crate::text::decimal_string(self.0 as u64);
        match self.info() {
            Some(p) => {
                r.append(" ");
                r.append(p);
            },
            None => {},
        }
        r
    }
}

} // verus!
