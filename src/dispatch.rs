//! What the transport needs from a signed request, checked before anything
//! is sent, and the errors of sending.

use vstd::prelude::*;
use vstd::string::*;
use crate::request::SignedRequest;
use crate::text::is_prefix;

verus! {

/// Why a request could not be sent.
#[derive(Clone, Debug, PartialEq, Eq)]
pub enum DispatchError {
    /// The method is not an HTTP method token.
    InvalidMethod,
    /// A header name or value cannot stand in an HTTP header.
    HeaderError(String),
    /// The transport failed; its message.
    InternalError(String),
    /// Anything else.
    Unknown(String),
}

/// The bytes form a method that the HTTP library accepts.
pub uninterp spec fn is_method_token(b: Seq<u8>) -> bool;

/// The bytes form a header name that the HTTP library accepts.
pub uninterp spec fn is_header_name(b: Seq<u8>) -> bool;

/// The bytes form a header value that the HTTP library accepts: each is
/// visible, a space or a tab, or above ASCII; none is DEL.
pub open spec fn is_header_value(b: Seq<u8>) -> bool {
    forall|i: int| 0 <= i < b.len() ==> (#[trigger] b[i] >= 32 && b[i] != 127) || b[i] == 9
}

/// Relies on `http::Method::from_bytes`: whether the method is accepted
/// depends on its bytes alone.
#[verifier::external_body]
fn method_accepted(m: &str) -> (r: bool)
    ensures
        r == is_method_token(m.spec_bytes()),
{
    http::Method::from_bytes(m.as_bytes()).is_ok()
}

/// Relies on `http::header::HeaderName::from_bytes`: whether the name is
/// accepted depends on its bytes alone.
#[verifier::external_body]
fn header_name_accepted(k: &str) -> (r: Result<(), String>)
    ensures
        r.is_ok() == is_header_name(k.spec_bytes()),
{
    match http::header::HeaderName::from_bytes(k.as_bytes()) {
        Ok(_) => Ok(()),
        Err(e) => Err(e.to_string()),
    }
}

/// Relies on `http::header::HeaderValue::from_str`: the value is accepted
/// where every byte passes `is_valid` (value.rs), as `is_header_value`
/// states.
#[verifier::external_body]
fn header_value_accepted(v: &str) -> (r: Result<(), String>)
    ensures
        r.is_ok() == is_header_value(v.spec_bytes()),
{
    match http::header::HeaderValue::from_str(v) {
        Ok(_) => Ok(()),
        Err(e) => Err(e.to_string()),
    }
}

impl SignedRequest {
    /// Header `i` is the first that cannot be sent.
    pub open spec fn first_unsendable(&self, i: int) -> bool {
        &&& 0 <= i < self.headers@.len()
        &&& !self.header_sendable(i)
        &&& forall|j: int| 0 <= j < i ==> #[trigger] self.header_sendable(j)
    }

    /// The start of the message for header `i`: `InvalidKey` for a bad
    /// name, else `InvalidValue`.
    pub open spec fn header_error_prefix(&self, i: int) -> Seq<char> {
        if is_header_name(vstd::utf8::encode_utf8(self.headers@[i].0@)) {
            "InvalidValue"@
        } else {
            "InvalidKey"@
        }
    }

    /// Header `i` can be sent.
    pub open spec fn header_sendable(&self, i: int) -> bool {
        is_header_name(vstd::utf8::encode_utf8(self.headers@[i].0@)) && is_header_value(
            vstd::utf8::encode_utf8(self.headers@[i].1@),
        )
    }

    /// Checks that the request can go on the wire: every header first, in
    /// order, then the method.
    pub fn check_wire(&self) -> (r: Result<(), DispatchError>)
        ensures
            r.is_ok() == ((forall|i: int| 0 <= i < self.headers@.len() ==> #[trigger] self.header_sendable(i))
                && is_method_token(vstd::utf8::encode_utf8(self.method@))),
            r.is_err() && (forall|i: int| 0 <= i < self.headers@.len() ==> #[trigger] self.header_sendable(i))
                ==> r == Err::<(), DispatchError>(DispatchError::InvalidMethod),
            r.is_err() && !(forall|i: int| 0 <= i < self.headers@.len() ==> #[trigger] self.header_sendable(i))
                ==> r->Err_0 is HeaderError && exists|i: int|
                #[trigger] self.first_unsendable(i) && is_prefix(
                    self.header_error_prefix(i),
                    r->Err_0->HeaderError_0@,
                ),
    {
        let mut i: usize = 0;
        while i < self.headers.len()
            invariant
                i <= self.headers@.len(),
                forall|j: int| 0 <= j < i ==> #[trigger] self.header_sendable(j),
            decreases self.headers@.len() - i,
        {
            match header_name_accepted(self.headers[i].0.as_str()) {
                Ok(()) => {},
                Err(e) => {
                    assert(!self.header_sendable(i as int));
                    let mut s = String::from_str("InvalidKey");
                    s.append(e.as_str());
                    assert(s@.subrange(0, "InvalidKey"@.len() as int) =~= "InvalidKey"@);
                    assert(self.first_unsendable(i as int));
                    return Err(DispatchError::HeaderError(s));
                },
            }
            match header_value_accepted(self.headers[i].1.as_str()) {
                Ok(()) => {},
                Err(e) => {
                    assert(!self.header_sendable(i as int));
                    let mut s = String::from_str("InvalidValue");
                    s.append(e.as_str());
                    assert(s@.subrange(0, "InvalidValue"@.len() as int) =~= "InvalidValue"@);
                    assert(self.first_unsendable(i as int));
                    return Err(DispatchError::HeaderError(s));
                },
            }
            i = i + 1;
        }
        if method_accepted(self.method.as_str()) {
            Ok(())
        } else {
            Err(DispatchError::InvalidMethod)
        }
    }
}

} // verus!
