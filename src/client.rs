//! The OSS client's configuration, the requests it builds, and presigned
//! URLs.

use vstd::prelude::*;
use crate::auth::{sign, sign_text, signable, signature_of};
use crate::request::{schema_named, Schema, SignedRequest};
use crate::resource::{get_oss_subresource_signed_str, presigned_resource};
use crate::text::{decimal, decimal_string, is_prefix, percent_encode, starts_with, str_eq, url_encode};

verus! {

/// The signed headers of a presigned URL, in the caller's order: those
/// whose name begins with `x-oss-`, each as `name:value` and a newline.
pub open spec fn url_oss_block(h: Seq<(String, String)>) -> Seq<char>
    decreases h.len(),
{
    if h.len() == 0 {
        Seq::empty()
    } else {
        url_oss_block(h.drop_last()) + (if is_prefix("x-oss-"@, h.last().0@) {
            h.last().0@ + seq![':'] + h.last().1@ + seq!['\n']
        } else {
            Seq::empty()
        })
    }
}

/// The value of the last header of `h` named `name`, or the empty string.
pub open spec fn last_value_of(h: Seq<(String, String)>, name: Seq<char>) -> Seq<char>
    decreases h.len(),
{
    if h.len() == 0 {
        Seq::empty()
    } else if h.last().0@ == name {
        h.last().1@
    } else {
        last_value_of(h.drop_last(), name)
    }
}

/// The string that signs a presigned URL.
pub open spec fn url_sign_text(
    verb: Seq<char>,
    expires: u64,
    bucket: Seq<char>,
    object: Seq<char>,
    sub: Seq<char>,
    headers: Seq<(String, String)>,
) -> Seq<char> {
    sign_text(
        verb,
        last_value_of(headers, "Content-MD5"@),
        last_value_of(headers, "content-type"@),
        decimal(expires as nat),
        url_oss_block(headers),
        presigned_resource(bucket, object, sub),
    )
}

/// The query of a presigned URL.
pub open spec fn presigned_query(id: Seq<char>, expires: u64, signature: Seq<char>) -> Seq<char> {
    "OSSAccessKeyId="@ + id + "&Expires="@ + decimal(expires as nat) + "&Signature="@
        + percent_encode(signature)
}

/// A URL on the bucket's host: scheme, bucket as subdomain of the endpoint,
/// object, then `query` after `?`.
pub open spec fn host_text(
    schema: Schema,
    bucket: Seq<char>,
    endpoint: Seq<char>,
    object: Seq<char>,
    query: Seq<char>,
) -> Seq<char> {
    schema.spec_text() + seq![':', '/', '/'] + bucket + seq!['.'] + endpoint + seq!['/'] + object
        + seq!['?'] + query
}

/// The length of a payload, 0 for none.
pub open spec fn payload_len(p: Option<Vec<u8>>) -> nat {
    match p {
        Some(b) => b@.len(),
        None => 0,
    }
}

/// The view of an optional string, the empty string for none.
pub open spec fn or_empty(o: Option<&str>) -> Seq<char> {
    match o {
        Some(s) => s@,
        None => Seq::empty(),
    }
}

/// Where and as whom requests to one OSS bucket are made.
pub struct OSSClient {
    pub endpoint: String,
    pub access_key_id: String,
    pub access_key_secret: String,
    pub bucket: String,
    pub schema: Schema,
}

impl OSSClient {
    /// The presigned URL of `verb` on `object` until `expires`, with
    /// sub-resource text `sub` and the user's headers `headers`.
    pub open spec fn presigned_url(
        &self,
        object: Seq<char>,
        verb: Seq<char>,
        expires: u64,
        sub: Seq<char>,
        headers: Seq<(String, String)>,
    ) -> Seq<char> {
        host_text(
            self.schema,
            self.bucket@,
            self.endpoint@,
            object,
            presigned_query(
                self.access_key_id@,
                expires,
                signature_of(
                    self.access_key_secret@,
                    url_sign_text(verb, expires, self.bucket@, object, sub, headers),
                ),
            ),
        )
    }

    /// A client of `bucket` (none: no bucket) at `endpoint`; the scheme by
    /// name, plain `http` where none is given.
    pub fn new(
        endpoint: &str,
        schema: Option<&str>,
        bucket: Option<&str>,
        access_key_id: &str,
        access_key_secret: &str,
    ) -> (r: OSSClient)
        ensures
            r.endpoint@ == endpoint@,
            r.schema == (match schema {
                Some(s) => schema_named(s@),
                None => Schema::Http,
            }),
            r.bucket@ == or_empty(bucket),
            r.access_key_id@ == access_key_id@,
            r.access_key_secret@ == access_key_secret@,
    {
        OSSClient {
            endpoint: String::from_str(endpoint),
            schema: match schema {
                Some(s) => Schema::from_name(s),
                None => Schema::Http,
            },
            bucket: match bucket {
                Some(b) => String::from_str(b),
                None => String::new(),
            },
            access_key_id: String::from_str(access_key_id),
            access_key_secret: String::from_str(access_key_secret),
        }
    }

    /// The key id and the secret.
    pub fn get_access_key(&self) -> (r: (&str, &str))
        ensures
            r.0@ == self.access_key_id@,
            r.1@ == self.access_key_secret@,
    {
        (self.access_key_id.as_str(), self.access_key_secret.as_str())
    }

    /// The request this client makes to `object`: with `payload` loaded, if
    /// any, and a `content-length` header of its length (0 for none).
    fn generate_request(&self, method: &str, object: &str, payload: Option<Vec<u8>>) -> (r: SignedRequest)
        ensures
            r.wf(),
            self.made(&r, method@, object@),
            r.params@.len() == 0,
            r.payload == payload,
            r.header_view() == map!["content-length"@ => decimal(payload_len(payload))],
    {
        let mut r = SignedRequest::new(
            method,
            self.endpoint.as_str(),
            self.bucket.as_str(),
            object,
            self.access_key_id.as_str(),
            self.access_key_secret.as_str(),
            self.schema,
        );
        let ghost plen = payload_len(payload);
        let n = match payload {
            Some(p) => r.load(p),
            None => 0,
        };
        let len = decimal_string(n as u64);
        proof {
            reveal_strlit("content-length");
            assert(crate::text::lower("content-length"@) =~= "content-length"@);
            assert(r.header_view() =~= Map::empty());
        }
        r.add_header("content-length", len.as_str());
        assert(r.header_view() =~= map!["content-length"@ => decimal(plen)]);
        r
    }

    /// `r` is a request of this client, with method `method`, to `object`.
    pub open spec fn made(&self, r: &SignedRequest, method: Seq<char>, object: Seq<char>) -> bool {
        &&& r.method@ == method
        &&& r.endpoint@ == self.endpoint@
        &&& r.bucket@ == self.bucket@
        &&& r.object@ == object
        &&& r.access_key_id@ == self.access_key_id@
        &&& r.access_key_secret@ == self.access_key_secret@
        &&& r.schema == self.schema
    }

    /// A GET of `object`; with none, of the bucket itself (a listing).
    pub fn get_request(&self, object: Option<&str>) -> (r: SignedRequest)
        ensures
            r.wf(),
            self.made(&r, "GET"@, or_empty(object)),
            r.params@.len() == 0,
            r.payload.is_none(),
            r.header_view() == map!["content-length"@ => "0"@],
    {
        proof {
            reveal_strlit("0");
            assert(decimal(0) =~= "0"@);
        }
        let o = match object {
            Some(o) => o,
            None => "",
        };
        proof {
            reveal_strlit("");
        }
        assert(o@ =~= or_empty(object));
        self.generate_request("GET", o, None)
    }

    /// A PUT of `payload` (none: an empty body) to `object`.
    pub fn put_request(&self, object: &str, payload: Option<Vec<u8>>) -> (r: SignedRequest)
        ensures
            r.wf(),
            self.made(&r, "PUT"@, object@),
            r.params@.len() == 0,
            r.payload == payload,
            r.header_view() == map!["content-length"@ => decimal(payload_len(payload))],
    {
        self.generate_request("PUT", object, payload)
    }

    /// A HEAD of `object`.
    pub fn head_request(&self, object: &str) -> (r: SignedRequest)
        ensures
            r.wf(),
            self.made(&r, "HEAD"@, object@),
            r.params@.len() == 0,
            r.payload.is_none(),
            r.header_view() == map!["content-length"@ => "0"@],
    {
        proof {
            reveal_strlit("0");
            assert(decimal(0) =~= "0"@);
        }
        self.generate_request("HEAD", object, None)
    }

    /// A DELETE of `object`.
    pub fn del_request(&self, object: &str) -> (r: SignedRequest)
        ensures
            r.wf(),
            self.made(&r, "DELETE"@, object@),
            r.params@.len() == 0,
            r.payload.is_none(),
            r.header_view() == map!["content-length"@ => "0"@],
    {
        proof {
            reveal_strlit("0");
            assert(decimal(0) =~= "0"@);
        }
        self.generate_request("DELETE", object, None)
    }

    /// A URL on this client's bucket host, for `object`, with query `params`.
    fn host(&self, object: &str, params: &str) -> (r: String)
        ensures
            r@ == host_text(self.schema, self.bucket@, self.endpoint@, object@, params@),
    {
        proof {
            reveal_strlit("://");
            reveal_strlit(".");
            reveal_strlit("/");
            reveal_strlit("?");
        }
        let mut r = String::from_str(self.schema.as_str());
        r.append("://");
        r.append(self.bucket.as_str());
        r.append(".");
        r.append(self.endpoint.as_str());
        r.append("/");
        r.append(object);
        r.append("?");
        r.append(params);
        r
    }

    /// A URL that grants `verb` on `object` until `expires` (seconds since
    /// the epoch) without credentials. `params` is the sub-resource text,
    /// signed as given; `headers` are those the URL's user will send. None
    /// where the text to sign is too long for the digest.
    pub fn get_signed_url(
        &self,
        object: &str,
        verb: &str,
        expires: u64,
        params: &str,
        headers: &Vec<(String, String)>,
    ) -> (r: Option<String>)
        ensures
            r.is_some() == signable(
                self.access_key_secret@,
                url_sign_text(verb@, expires, self.bucket@, object@, params@, headers@),
            ),
            r.is_some() ==> r.unwrap()@ == self.presigned_url(object@, verb@, expires, params@, headers@),
            r.is_some() ==> signature_of(
                self.access_key_secret@,
                url_sign_text(verb@, expires, self.bucket@, object@, params@, headers@),
            ).len() == 28,
    {
        proof {
            reveal_strlit(":");
            reveal_strlit("\n");
        }
        let mut content_type = String::new();
        let mut content_md5 = String::new();
        let mut oss_headers = String::new();
        let mut i: usize = 0;
        while i < headers.len()
            invariant
                ":"@ == seq![':'],
                "\n"@ == seq!['\n'],
                i <= headers@.len(),
                oss_headers@ == url_oss_block(headers@.subrange(0, i as int)),
                content_type@ == last_value_of(headers@.subrange(0, i as int), "content-type"@),
                content_md5@ == last_value_of(headers@.subrange(0, i as int), "Content-MD5"@),
            decreases headers@.len() - i,
        {
            let k = headers[i].0.as_str();
            let v = headers[i].1.as_str();
            let ghost before = oss_headers@;
            assert(headers@.subrange(0, i + 1).drop_last() =~= headers@.subrange(0, i as int));
            assert(headers@.subrange(0, i + 1).last() == headers@[i as int]);
            if starts_with(k, "x-oss-") {
                oss_headers.append(k);
                oss_headers.append(":");
                oss_headers.append(v);
                oss_headers.append("\n");
                assert(oss_headers@ =~= before + (k@ + seq![':'] + v@ + seq!['\n']));
            } else {
                assert(oss_headers@ =~= before + Seq::<char>::empty());
            }
            if str_eq(k, "content-type") {
                content_type = String::from_str(v);
            }
            if str_eq(k, "Content-MD5") {
                content_md5 = String::from_str(v);
            }
            i = i + 1;
        }
        assert(headers@.subrange(0, i as int) =~= headers@);
        let resource = get_oss_subresource_signed_str(self.bucket.as_str(), object, params);
        let expires_text = decimal_string(expires);
        let text = crate::auth::build_sign_str(
            verb,
            content_md5.as_str(),
            content_type.as_str(),
            expires_text.as_str(),
            oss_headers.as_str(),
            resource.as_str(),
        );
        match sign(self.access_key_secret.as_str(), text.as_str()) {
            Some(signature) => Some(self.url_with_signature(object, expires, signature.as_str())),
            None => None,
        }
    }

    /// The presigned URL of `object` that expires at `expires`, given its
    /// signature.
    pub fn url_with_signature(&self, object: &str, expires: u64, signature: &str) -> (r: String)
        ensures
            r@ == host_text(
                self.schema,
                self.bucket@,
                self.endpoint@,
                object@,
                presigned_query(self.access_key_id@, expires, signature@),
            ),
    {
        let mut query = String::from_str("OSSAccessKeyId=");
        query.append(self.access_key_id.as_str());
        query.append("&Expires=");
        let expires_text = decimal_string(expires);
        query.append(expires_text.as_str());
        query.append("&Signature=");
        let encoded = url_encode(signature);
        query.append(encoded.as_str());
        self.host(object, query.as_str())
    }
}

} // verus!
