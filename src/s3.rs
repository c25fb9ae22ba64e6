//! Presigned URLs of the S3 backend. The signature (AWS version 4) is
//! rusoto's and reads the clock; the path and the defaults are decided here.

use vstd::prelude::*;
use crate::text::{decimal, is_infix, is_prefix};
use crate::types::SignedUrlOptions;

verus! {

/// The part of a presigned URL that the time of signing leaves alone:
/// scheme, host and canonical path, for a request of `service` on `path` in
/// the custom region `region_name` at `endpoint`.
pub uninterp spec fn presigned_base(
    service: Seq<char>,
    region_name: Seq<char>,
    endpoint: Seq<char>,
    path: Seq<char>,
) -> Seq<char>;

/// What every presigned URL of `path` that lasts `lifetime` seconds has:
/// the base, then `?`, and among the query parameters `X-Amz-Expires`.
pub open spec fn presigned_shape(
    service: Seq<char>,
    region_name: Seq<char>,
    endpoint: Seq<char>,
    path: Seq<char>,
    lifetime: u64,
    url: Seq<char>,
) -> bool {
    &&& is_prefix(presigned_base(service, region_name, endpoint, path) + seq!['?'], url)
    &&& is_infix("X-Amz-Expires="@ + decimal(lifetime as nat), url)
}

/// How long an S3 presigned URL lasts where no lifetime is given, in seconds.
pub const DEFAULT_S3_URL_LIFETIME: u64 = 3600;

/// Relies on rusoto_signature's `SignedRequest::new` and
/// `generate_presigned_url`, with a custom region named `region_name` at
/// `endpoint` and credentials built by rusoto_credential's
/// `AwsCredentials::new`. The URL is `scheme://host`, the canonical path,
/// `?` and the query (signature.rs, `generate_presigned_url`); the query
/// always holds `X-Amz-Expires` with the lifetime in seconds. The rest
/// carries the time of signing and is not stated.
#[verifier::external_body]
fn presign(
    method: &str,
    service: &str,
    region_name: &str,
    endpoint: &str,
    path: &str,
    access_key_id: &str,
    access_key_secret: &str,
    lifetime: u64,
) -> (r: String)
    ensures
        is_prefix(presigned_base(service@, region_name@, endpoint@, path@) + seq!['?'], r@),
        is_infix("X-Amz-Expires="@ + decimal(lifetime as nat), r@),
{
    let region = rusoto_signature::Region::Custom {
        name: region_name.to_string(),
        endpoint: endpoint.to_string(),
    };
    let credentials = rusoto_credential::AwsCredentials::new(access_key_id, access_key_secret, None, None);
    let mut request = rusoto_signature::SignedRequest::new(method, service, &region, path);
    request.generate_presigned_url(&credentials, &std::time::Duration::from_secs(lifetime), false)
}

/// Where and as whom requests to one S3 bucket are made.
pub struct S3Config {
    pub endpoint: String,
    pub bucket: String,
    pub access_key_id: String,
    pub access_key_secret: String,
}

/// The method of an S3 presigned URL, and its lifetime in seconds: those of
/// the options, else GET and an hour.
pub open spec fn s3_url_terms(opts: Option<&SignedUrlOptions>) -> (Seq<char>, u64) {
    match opts {
        Some(o) => (
            match o.method {
                Some(m) => m@,
                None => "GET"@,
            },
            match o.expires {
                Some(e) => e,
                None => DEFAULT_S3_URL_LIFETIME,
            },
        ),
        None => ("GET"@, DEFAULT_S3_URL_LIFETIME),
    }
}

/// The method and the lifetime of an S3 presigned URL.
pub fn url_terms(opts: Option<&SignedUrlOptions>) -> (r: (String, u64))
    ensures
        (r.0@, r.1) == s3_url_terms(opts),
{
    match opts {
        Some(o) => (
            match &o.method {
                Some(m) => m.clone(),
                None => String::from_str("GET"),
            },
            match o.expires {
                Some(e) => e,
                None => DEFAULT_S3_URL_LIFETIME,
            },
        ),
        None => (String::from_str("GET"), DEFAULT_S3_URL_LIFETIME),
    }
}

impl S3Config {
    /// The path of `key` in the bucket: `/bucket/key`.
    pub fn object_path(&self, key: &str) -> (r: String)
        ensures
            r@ == seq!['/'] + self.bucket@ + seq!['/'] + key@,
    {
        proof {
            reveal_strlit("/");
        }
        let mut r = String::from_str("/");
        r.append(self.bucket.as_str());
        r.append("/");
        r.append(key);
        r
    }

    /// A presigned URL for `key`, by method and lifetime as `url_terms`
    /// reads the options.
    pub fn sign_url(&self, key: &str, opts: Option<&SignedUrlOptions>) -> (r: String)
        ensures
            presigned_shape(
                "s3"@,
                "CN"@,
                self.endpoint@,
                seq!['/'] + self.bucket@ + seq!['/'] + key@,
                s3_url_terms(opts).1,
                r@,
            ),
    {
        let path = self.object_path(key);
        let (method, lifetime) = url_terms(opts);
        presign(
            method.as_str(),
            "s3",
            "CN",
            self.endpoint.as_str(),
            path.as_str(),
            self.access_key_id.as_str(),
            self.access_key_secret.as_str(),
            lifetime,
        )
    }
}

} // verus!
