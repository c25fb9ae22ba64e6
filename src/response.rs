//! Responses as the library sees them, and their normalised forms: status
//! checked, metadata split from the other headers, content decoded.

use vstd::prelude::*;
use vstd::utf8::*;
use crate::errors::{is_success_status, Error, ParseError};
use crate::keyed::{drop_entry, entry_map, has_key, keys_sorted, put_entry};
use crate::request::OSS_PREFIX;
use crate::text::{is_prefix, starts_with, str_eq, trim_prefix_all, trim_start_matches};

verus! {

/// Headers that every OSS response carries.
#[derive(Clone, Debug, Default)]
pub struct CommonRespHeaders {
    /// The length of the body, as defined in RFC 2616.
    pub content_length: Option<String>,
    /// The state of the connection: `open` or `close`.
    pub connection: Option<String>,
    /// The time of the response, in GMT.
    pub date: Option<String>,
    /// The tag of the object's content.
    pub etag: Option<String>,
    /// The server that answered.
    pub server: Option<String>,
    /// The id the service gave the request.
    pub x_oss_request_id: Option<String>,
}

/// A response of the service: status, headers in the order received, body.
#[derive(Clone, Debug)]
pub struct HttpResponse {
    pub status: u16,
    pub headers: Vec<(String, String)>,
    pub body: Vec<u8>,
}

impl HttpResponse {
    /// Whether the status is one of success (2xx).
    pub fn is_success(&self) -> (r: bool)
        ensures
            r == is_success_status(self.status),
    {
        200 <= self.status && self.status < 300
    }
}

/// A successful response as it is; any other as a service error with its
/// status and body.
pub fn check_status(resp: HttpResponse) -> (r: Result<HttpResponse, Error>)
    ensures
        is_success_status(resp.status) ==> r == Ok::<HttpResponse, Error>(resp),
        !is_success_status(resp.status) ==> r == Err::<HttpResponse, Error>(
            Error::Service { status: resp.status, body: resp.body },
        ),
{
    if resp.is_success() {
        Ok(resp)
    } else {
        Err(Error::Service { status: resp.status, body: resp.body })
    }
}

/// `k` without the metadata prefix, every leading repetition of it.
pub open spec fn strip_meta(k: Seq<char>) -> Seq<char> {
    trim_prefix_all(k, OSS_PREFIX@)
}

/// The metadata among headers `h`, by key without the prefix; of two
/// entries with one key, the later.
pub open spec fn meta_part(h: Seq<(String, String)>) -> Map<Seq<char>, Seq<char>>
    decreases h.len(),
{
    if h.len() == 0 {
        Map::empty()
    } else if is_prefix(OSS_PREFIX@, h.last().0@) {
        meta_part(h.drop_last()).insert(strip_meta(h.last().0@), h.last().1@)
    } else {
        meta_part(h.drop_last())
    }
}

/// The headers of `h` that are not metadata; of two with one name, the
/// later.
pub open spec fn plain_part(h: Seq<(String, String)>) -> Map<Seq<char>, Seq<char>>
    decreases h.len(),
{
    if h.len() == 0 {
        Map::empty()
    } else if is_prefix(OSS_PREFIX@, h.last().0@) {
        plain_part(h.drop_last())
    } else {
        plain_part(h.drop_last()).insert(h.last().0@, h.last().1@)
    }
}

/// Metadata key `k` is asked for by `names`, with or without its prefix.
pub open spec fn wanted(names: Seq<String>, k: Seq<char>) -> bool {
    exists|j: int| 0 <= j < names.len() && (#[trigger] names[j]@ == k || names[j]@ == strip_meta(k))
}

/// The result of a read: content, metadata, other headers.
#[derive(Clone, Debug)]
pub struct GetAsBufferResp {
    pub content: Vec<u8>,
    /// Ordered by key, keys unique.
    pub meta: Vec<(String, String)>,
    /// Ordered by name, names unique.
    pub headers: Vec<(String, String)>,
}

/// The result of a read, content as text.
#[derive(Clone, Debug)]
pub struct GetResp {
    pub content: String,
    pub meta: Vec<(String, String)>,
    pub headers: Vec<(String, String)>,
}

fn is_wanted(names: &Vec<String>, k: &str) -> (r: bool)
    ensures
        r == wanted(names@, k@),
{
    let stripped = trim_start_matches(k, OSS_PREFIX);
    let mut j: usize = 0;
    while j < names.len()
        invariant
            j <= names@.len(),
            stripped@ == strip_meta(k@),
            forall|i: int| 0 <= i < j ==> !(#[trigger] names@[i]@ == k@ || names@[i]@ == strip_meta(k@)),
        decreases names@.len() - j,
    {
        if str_eq(names[j].as_str(), k) || str_eq(names[j].as_str(), stripped) {
            return true;
        }
        j = j + 1;
    }
    false
}

impl GetAsBufferResp {
    pub open spec fn wf(&self) -> bool {
        keys_sorted(self.meta@) && keys_sorted(self.headers@)
    }

    /// Splits the headers of `resp`: those with the metadata prefix become
    /// metadata, keyed without it.
    pub fn from_response(resp: HttpResponse) -> (r: GetAsBufferResp)
        ensures
            r.wf(),
            r.content == resp.body,
            entry_map(r.meta@) == meta_part(resp.headers@),
            entry_map(r.headers@) == plain_part(resp.headers@),
    {
        let mut meta: Vec<(String, String)> = Vec::new();
        let mut headers: Vec<(String, String)> = Vec::new();
        assert(entry_map(meta@) =~= Map::empty());
        assert(entry_map(headers@) =~= Map::empty());
        let mut i: usize = 0;
        while i < resp.headers.len()
            invariant
                i <= resp.headers@.len(),
                keys_sorted(meta@),
                keys_sorted(headers@),
                entry_map(meta@) == meta_part(resp.headers@.subrange(0, i as int)),
                entry_map(headers@) == plain_part(resp.headers@.subrange(0, i as int)),
            decreases resp.headers@.len() - i,
        {
            let k = resp.headers[i].0.as_str();
            let v = resp.headers[i].1.clone();
            assert(resp.headers@.subrange(0, i + 1).drop_last() =~= resp.headers@.subrange(0, i as int));
            assert(resp.headers@.subrange(0, i + 1).last() == resp.headers@[i as int]);
            if starts_with(k, OSS_PREFIX) {
                let name = trim_start_matches(k, OSS_PREFIX);
                put_entry(&mut meta, String::from_str(name), v);
            } else {
                put_entry(&mut headers, String::from_str(k), v);
            }
            i = i + 1;
        }
        assert(resp.headers@.subrange(0, i as int) =~= resp.headers@);
        GetAsBufferResp { content: resp.body, meta, headers }
    }

    /// Keeps only the metadata that `names` asks for.
    pub fn filter(&mut self, names: &Vec<String>)
        requires
            old(self).wf(),
        ensures
            final(self).wf(),
            final(self).content == old(self).content,
            final(self).headers == old(self).headers,
            entry_map(final(self).meta@) == entry_map(old(self).meta@).restrict(
                Set::new(|k: Seq<char>| wanted(names@, k)),
            ),
    {
        let mut keys: Vec<String> = Vec::new();
        let mut i: usize = 0;
        while i < self.meta.len()
            invariant
                i <= self.meta@.len(),
                keys@.len() == i,
                forall|j: int| 0 <= j < i ==> #[trigger] keys@[j]@ == self.meta@[j].0@,
            decreases self.meta@.len() - i,
        {
            keys.push(self.meta[i].0.clone());
            i = i + 1;
        }
        let ghost orig = entry_map(self.meta@);
        let ghost seq0 = self.meta@;
        let mut i: usize = 0;
        while i < keys.len()
            invariant
                old(self).wf(),
                self.wf(),
                self.content == old(self).content,
                self.headers == old(self).headers,
                orig == entry_map(old(self).meta@),
                seq0 == old(self).meta@,
                keys@.len() == seq0.len(),
                forall|j: int| 0 <= j < keys@.len() ==> #[trigger] keys@[j]@ == seq0[j].0@,
                i <= keys@.len(),
                entry_map(self.meta@) == Map::new(
                    |k: Seq<char>| orig.contains_key(k) && (wanted(names@, k) || !exists|j: int|
                        0 <= j < i && #[trigger] keys@[j]@ == k),
                    |k: Seq<char>| orig[k],
                ),
            decreases keys@.len() - i,
        {
            if !is_wanted(names, keys[i].as_str()) {
                let ghost before = entry_map(self.meta@);
                drop_entry(&mut self.meta, keys[i].as_str());
                assert(entry_map(self.meta@) =~= Map::new(
                    |k: Seq<char>| orig.contains_key(k) && (wanted(names@, k) || !exists|j: int|
                        0 <= j < i + 1 && #[trigger] keys@[j]@ == k),
                    |k: Seq<char>| orig[k],
                ));
            } else {
                assert(entry_map(self.meta@) =~= Map::new(
                    |k: Seq<char>| orig.contains_key(k) && (wanted(names@, k) || !exists|j: int|
                        0 <= j < i + 1 && #[trigger] keys@[j]@ == k),
                    |k: Seq<char>| orig[k],
                ));
            }
            i = i + 1;
        }
        assert forall|k: Seq<char>| orig.contains_key(k) implies exists|j: int|
            0 <= j < keys@.len() && #[trigger] keys@[j]@ == k by {
            assert(has_key(seq0, k));
            let j = choose|j: int| 0 <= j < seq0.len() && #[trigger] seq0[j].0@ == k;
            assert(keys@[j]@ == k);
        }
        assert(entry_map(self.meta@) =~= orig.restrict(Set::new(|k: Seq<char>| wanted(names@, k))));
    }
}

/// Relies on `String::from_utf8`: the bytes as text where they are UTF-8,
/// else the length of their valid prefix (`Utf8Error::valid_up_to`).
#[verifier::external_body]
fn utf8_text(bytes: Vec<u8>) -> (r: Result<String, usize>)
    ensures
        r.is_ok() == valid_utf8(bytes@),
        r.is_ok() ==> r.unwrap()@ == decode_utf8(bytes@),
{
    String::from_utf8(bytes).map_err(|e| e.utf8_error().valid_up_to())
}

/// A body as text: decoded where it is UTF-8, else a UTF-8 parse error.
pub fn text_of(bytes: Vec<u8>) -> (r: Result<String, Error>)
    ensures
        r.is_ok() == valid_utf8(bytes@),
        r.is_ok() ==> r.unwrap()@ == decode_utf8(bytes@),
        !r.is_ok() ==> r->Err_0 is Parse && r->Err_0->Parse_0 is UTF8,
{
    match utf8_text(bytes) {
        Ok(text) => Ok(text),
        Err(n) => Err(Error::Parse(ParseError::UTF8 { valid_up_to: n })),
    }
}

impl GetResp {
    /// The read with its content decoded as UTF-8; a UTF-8 parse error where
    /// it is not UTF-8.
    pub fn from_buffer(resp: GetAsBufferResp) -> (r: Result<GetResp, Error>)
        ensures
            r.is_ok() == valid_utf8(resp.content@),
            r.is_ok() ==> r.unwrap().content@ == decode_utf8(resp.content@) && r.unwrap().meta
                == resp.meta && r.unwrap().headers == resp.headers,
            !r.is_ok() ==> r->Err_0 is Parse && r->Err_0->Parse_0 is UTF8,
    {
        match text_of(resp.content) {
            Ok(content) => Ok(GetResp { content, meta: resp.meta, headers: resp.headers }),
            Err(e) => Err(e),
        }
    }
}

} // verus!
