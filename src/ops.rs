//! The requests behind the storage operations of an OSS client, built and
//! ready to sign: listing, upload, copy; and presigned URLs with defaults.

use vstd::prelude::*;
use crate::auth::signable;
use crate::client::{url_sign_text, OSSClient};
use crate::errors::{is_success_status, Error};
use crate::keyed::{entry_map, fold_insert, keys_sorted, put_entry};
use crate::request::{with_headers, with_meta, with_params, Schema, SignedRequest};
use crate::response::{check_status, meta_part, plain_part, wanted, GetAsBufferResp, HttpResponse};
use crate::text::{decimal, is_prefix, lower, starts_with, trim_prefix_all, trim_start_matches};
use crate::types::{ListOptions, PutOrCopyOptions, SignedUrlOptions};

verus! {

/// How long a presigned URL lasts where no expiry time is given, in seconds.
pub const DEFAULT_URL_LIFETIME: u64 = 3600;

/// The metadata of upload options, as views.
pub open spec fn meta_views(opts: PutOrCopyOptions) -> Seq<(Seq<char>, Seq<char>)> {
    match opts.meta {
        Some(m) => m.deep_view(),
        None => Seq::empty(),
    }
}

/// The expiry time of a presigned URL: the one given, else an hour after
/// `now` (a time before the epoch counting as the epoch).
pub open spec fn expiry_of(expires: Option<u64>, now: i64) -> u64 {
    match expires {
        Some(e) => e,
        None => ((if now < 0 {
            0
        } else {
            now as int
        }) + DEFAULT_URL_LIFETIME) as u64,
    }
}

/// Relies on chrono's `Utc::now` and `timestamp`: the current time in
/// seconds since the epoch.
#[verifier::external_body]
fn now_epoch_seconds() -> (r: i64)
{
    chrono::Utc::now().timestamp()
}

/// The expiry time of a presigned URL.
pub fn expiry(expires: Option<u64>, now: i64) -> (r: u64)
    ensures
        r == expiry_of(expires, now),
{
    match expires {
        Some(e) => e,
        None => {
            if now < 0 {
                DEFAULT_URL_LIFETIME
            } else {
                now as u64 + DEFAULT_URL_LIFETIME
            }
        },
    }
}

/// The method of a presigned URL: that of the options, else GET.
pub open spec fn url_verb(opts: Option<&SignedUrlOptions>) -> Seq<char> {
    match opts {
        Some(o) => match o.method {
            Some(m) => m@,
            None => "GET"@,
        },
        None => "GET"@,
    }
}

/// The expiry time of a presigned URL made at `now`.
pub open spec fn url_expiry(opts: Option<&SignedUrlOptions>, now: i64) -> u64 {
    match opts {
        Some(o) => expiry_of(o.expires, now),
        None => expiry_of(None, now),
    }
}

impl OSSClient {
    /// The request of a listing of the bucket.
    pub fn list_request(&self, opts: Option<&ListOptions>) -> (r: SignedRequest)
        ensures
            r.wf(),
            self.made(&r, "GET"@, Seq::empty()),
            r.payload.is_none(),
            r.header_view() == map!["content-length"@ => "0"@],
            r.param_view() == match opts {
                Some(o) => with_params(Map::empty(), o.spec_params()),
                None => Map::empty(),
            },
    {
        let mut r = self.get_request(None);
        match opts {
            Some(o) => {
                let params = o.to_params();
                r.set_params(&params);
            },
            None => {
                assert(r.param_view() =~= Map::empty());
            },
        }
        r
    }

    /// The request of an upload of `data` to `key`, with the headers and
    /// metadata of `opts`.
    pub fn put_object_request(&self, key: &str, data: Vec<u8>, opts: Option<&PutOrCopyOptions>) -> (r: SignedRequest)
        ensures
            r.wf(),
            self.made(&r, "PUT"@, key@),
            r.params@.len() == 0,
            r.payload == Some(data),
            r.header_view() == match opts {
                Some(o) => with_meta(
                    with_headers(map!["content-length"@ => decimal(data@.len())], o.spec_headers()),
                    meta_views(*o),
                ),
                None => map!["content-length"@ => decimal(data@.len())],
            },
    {
        let ghost n = data@.len();
        let mut r = self.put_request(key, Some(data));
        match opts {
            Some(o) => {
                let headers = o.as_headers();
                r.add_headers(&headers);
                match &o.meta {
                    Some(m) => r.add_meta(m),
                    None => {
                        assert(with_meta(r.header_view(), Seq::empty()) == r.header_view());
                    },
                }
            },
            None => {},
        }
        r
    }

    /// The request of a copy of `src` (`/bucket/object`) to `key`, with the
    /// headers and metadata of `opts`.
    pub fn copy_object_request(&self, src: &str, key: &str, opts: Option<&PutOrCopyOptions>) -> (r: SignedRequest)
        ensures
            r.wf(),
            self.made(&r, "PUT"@, key@),
            r.params@.len() == 0,
            r.payload.is_none(),
            r.header_view() == match opts {
                Some(o) => with_meta(
                    with_headers(map!["content-length"@ => "0"@], o.spec_headers()).insert(
                        "x-oss-copy-source"@,
                        src@,
                    ),
                    meta_views(*o),
                ),
                None => map!["content-length"@ => "0"@].insert("x-oss-copy-source"@, src@),
            },
    {
        proof {
            reveal_strlit("0");
            reveal_strlit("x-oss-copy-source");
            assert(decimal(0) =~= "0"@);
            assert(lower("x-oss-copy-source"@) =~= "x-oss-copy-source"@);
        }
        let mut r = self.put_request(key, None);
        match opts {
            Some(o) => {
                let headers = o.as_headers();
                r.add_headers(&headers);
                r.add_header("x-oss-copy-source", src);
                match &o.meta {
                    Some(m) => r.add_meta(m),
                    None => {
                        assert(with_meta(r.header_view(), Seq::empty()) == r.header_view());
                    },
                }
            },
            None => {
                r.add_header("x-oss-copy-source", src);
            },
        }
        r
    }

    /// A presigned URL for `key`: the method of `opts`, else GET; its expiry
    /// time, else an hour from now. An internal error where the text to sign
    /// is too long for the digest.
    pub fn sign_url(&self, key: &str, opts: Option<&SignedUrlOptions>) -> (r: Result<String, Error>)
        ensures
            exists|now: i64|
                {
                    &&& r.is_ok() == signable(
                        self.access_key_secret@,
                        url_sign_text(url_verb(opts), #[trigger] url_expiry(opts, now), self.bucket@, key@, Seq::empty(), Seq::empty()),
                    )
                    &&& r.is_ok() ==> r.unwrap()@ == self.presigned_url(key@, url_verb(opts), url_expiry(opts, now), Seq::empty(), Seq::empty())
                },
            opts.is_some() && opts.unwrap().expires.is_some() ==> r.is_ok() == signable(
                self.access_key_secret@,
                url_sign_text(url_verb(opts), opts.unwrap().expires.unwrap(), self.bucket@, key@, Seq::empty(), Seq::empty()),
            ),
    {
        let now = now_epoch_seconds();
        let (method, expires) = match opts {
            Some(o) => (
                match &o.method {
                    Some(m) => m.as_str(),
                    None => "GET",
                },
                expiry(o.expires, now),
            ),
            None => ("GET", expiry(None, now)),
        };
        let no_headers: Vec<(String, String)> = Vec::new();
        proof {
            reveal_strlit("");
        }
        match self.get_signed_url(key, method, expires, "", &no_headers) {
            Some(url) => {
                assert(no_headers@ =~= Seq::<(String, String)>::empty());
                assert(""@ =~= Seq::<char>::empty());
                assert(expires == url_expiry(opts, now));
                Ok(url)
            },
            None => {
                assert(no_headers@ =~= Seq::<(String, String)>::empty());
                assert(""@ =~= Seq::<char>::empty());
                assert(expires == url_expiry(opts, now));
                Err(Error::Internal { msg: String::from_str("presigned URL too long to sign") })
            },
        }
    }
}

/// The scheme named at the start of an endpoint URL: `https` where it
/// begins so, else `http`.
pub open spec fn endpoint_scheme(url: Seq<char>) -> Schema {
    if is_prefix("https"@, url) {
        Schema::Https
    } else {
        Schema::Http
    }
}

impl OSSClient {
    /// A client of `bucket` at the endpoint URL `endpoint`
    /// (`https://host` or `http://host`).
    pub fn from_endpoint(
        endpoint: &str,
        bucket: Option<&str>,
        access_key_id: &str,
        access_key_secret: &str,
    ) -> (r: OSSClient)
        ensures
            r.schema == endpoint_scheme(endpoint@),
            r.endpoint@ == trim_prefix_all(
                trim_prefix_all(endpoint@, endpoint_scheme(endpoint@).spec_text()),
                "://"@,
            ),
            r.bucket@ == crate::client::or_empty(bucket),
            r.access_key_id@ == access_key_id@,
            r.access_key_secret@ == access_key_secret@,
    {
        let schema = if starts_with(endpoint, "https") {
            "https"
        } else {
            "http"
        };
        proof {
            reveal_strlit("https");
            reveal_strlit("http");
            assert("http"@.len() == 4 && "https"@.len() == 5);
        }
        let host = trim_start_matches(trim_start_matches(endpoint, schema), "://");
        OSSClient::new(host, Some(schema), bucket, access_key_id, access_key_secret)
    }
}

/// A completed upload, copy or delete: success, or the service's error.
pub fn status_result(resp: HttpResponse) -> (r: Result<(), Error>)
    ensures
        r.is_ok() == is_success_status(resp.status),
        !is_success_status(resp.status) ==> r == Err::<(), Error>(
            Error::Service { status: resp.status, body: resp.body },
        ),
{
    match check_status(resp) {
        Ok(_) => Ok(()),
        Err(e) => Err(e),
    }
}

/// A completed read: content and headers with the metadata split off, kept
/// only as `names` asks where it is given; or the service's error.
pub fn get_result(resp: HttpResponse, names: Option<&Vec<String>>) -> (r: Result<GetAsBufferResp, Error>)
    ensures
        r.is_ok() == is_success_status(resp.status),
        !is_success_status(resp.status) ==> r == Err::<GetAsBufferResp, Error>(
            Error::Service { status: resp.status, body: resp.body },
        ),
        r.is_ok() ==> r.unwrap().wf() && r.unwrap().content == resp.body && entry_map(
            r.unwrap().headers@,
        ) == plain_part(resp.headers@) && entry_map(r.unwrap().meta@) == match names {
            Some(n) => meta_part(resp.headers@).restrict(Set::new(|k: Seq<char>| wanted(n@, k))),
            None => meta_part(resp.headers@),
        },
{
    let ghost h = resp.headers@;
    match check_status(resp) {
        Ok(ok) => {
            let mut got = GetAsBufferResp::from_response(ok);
            match names {
                Some(n) => got.filter(n),
                None => {},
            }
            Ok(got)
        },
        Err(e) => Err(e),
    }
}

/// A completed HEAD: the headers, with the metadata (keyed without its
/// prefix) set over them; or the service's error.
pub fn head_result(resp: HttpResponse) -> (r: Result<Vec<(String, String)>, Error>)
    ensures
        r.is_ok() == is_success_status(resp.status),
        !is_success_status(resp.status) ==> r == Err::<Vec<(String, String)>, Error>(
            Error::Service { status: resp.status, body: resp.body },
        ),
        r.is_ok() ==> exists|meta: Seq<(String, String)>|
            keys_sorted(meta) && entry_map(meta) == meta_part(resp.headers@) && entry_map(
                #[trigger] r.unwrap()@,
            ) == fold_insert(
                plain_part(resp.headers@),
                meta.map_values(|p: (String, String)| (p.0@, p.1@)),
            ),
{
    match get_result(resp, None) {
        Ok(got) => {
            let mut out = got.headers;
            let meta = got.meta;
            let mut i: usize = 0;
            while i < meta.len()
                invariant
                    i <= meta@.len(),
                    keys_sorted(out@),
                    entry_map(out@) == fold_insert(entry_map(got.headers@), meta.deep_view().subrange(0, i as int)),
                decreases meta@.len() - i,
            {
                put_entry(&mut out, meta[i].0.clone(), meta[i].1.clone());
                assert(meta.deep_view().subrange(0, i + 1).drop_last() =~= meta.deep_view().subrange(0, i as int));
                i = i + 1;
            }
            assert(meta.deep_view().subrange(0, i as int) =~= meta.deep_view());
            assert(meta.deep_view() =~= meta@.map_values(|p: (String, String)| (p.0@, p.1@)));
            assert(keys_sorted(meta@));
            Ok(out)
        },
        Err(e) => Err(e),
    }
}

} // verus!
