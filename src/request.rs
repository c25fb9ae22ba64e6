//! The signable request: target, credentials, headers and query parameters,
//! with the mutators that keep header keys lowercase and both lists ordered.

use vstd::prelude::*;
use crate::keyed::{drop_entry, entry_map, keys_sorted, put_entry};
use crate::resource::{get_params_str, query_text};
use crate::text::{ascii_lower, cat, is_prefix, lower, starts_with, to_lower};

verus! {

/// The prefix that turns a metadata key into a header name.
pub const OSS_PREFIX: &'static str = "x-oss-meta-";

/// The URL scheme a request is sent with.
#[derive(Clone, Copy, Debug, PartialEq, Eq, Structural)]
pub enum Schema {
    Http,
    Https,
}

/// The scheme that `name` names: `https`, else plain `http`.
pub open spec fn schema_named(name: Seq<char>) -> Schema {
    if name == "https"@ {
        Schema::Https
    } else {
        Schema::Http
    }
}

impl Schema {
    /// The scheme's name as it stands in a URL.
    pub open spec fn spec_text(self) -> Seq<char> {
        match self {
            Schema::Http => "http"@,
            Schema::Https => "https"@,
        }
    }

    /// The scheme named `name`; plain `http` for any name but `https`.
    pub fn from_name(name: &str) -> (r: Schema)
        ensures
            r == schema_named(name@),
    {
        if crate::text::str_eq(name, "https") {
            Schema::Https
        } else {
            Schema::Http
        }
    }

    /// The scheme's name.
    pub fn as_str(&self) -> (r: &'static str)
        ensures
            r@ == self.spec_text(),
    {
        match self {
            Schema::Http => "http",
            Schema::Https => "https",
        }
    }
}

impl Default for Schema {
    fn default() -> (r: Schema)
        ensures
            r == Schema::Http,
    {
        Schema::Http
    }
}

/// Lowercase of a string is lowercase.
pub proof fn lemma_lower_idempotent(s: Seq<char>)
    ensures
        lower(lower(s)) == lower(s),
{
    assert forall|i: int| 0 <= i < s.len() implies ascii_lower(ascii_lower(#[trigger] s[i])) == ascii_lower(s[i]) by {
        let c = s[i];
        if 'A' <= c && c <= 'Z' {
            assert(('A' as u32) <= (c as u32) <= ('Z' as u32));
        }
    }
    assert(lower(lower(s)) =~= lower(s));
}

proof fn lemma_lower_concat(a: Seq<char>, b: Seq<char>)
    ensures
        lower(a + b) == lower(a) + lower(b),
{
    assert(lower(a + b) =~= lower(a) + lower(b));
}

/// The header name that metadata key `k` is sent under: lowercase, and with
/// the metadata prefix in front unless it already begins with it.
pub open spec fn meta_key(k: Seq<char>) -> Seq<char> {
    if is_prefix(OSS_PREFIX@, lower(k)) {
        lower(k)
    } else {
        OSS_PREFIX@ + lower(k)
    }
}

/// `m` after setting each header of `s` in turn, under its lowercase name.
pub open spec fn with_headers(m: Map<Seq<char>, Seq<char>>, s: Seq<(Seq<char>, Seq<char>)>) -> Map<Seq<char>, Seq<char>>
    decreases s.len(),
{
    if s.len() == 0 {
        m
    } else {
        with_headers(m, s.drop_last()).insert(lower(s.last().0), s.last().1)
    }
}

/// `m` after setting each metadata entry of `s` in turn, as a header.
pub open spec fn with_meta(m: Map<Seq<char>, Seq<char>>, s: Seq<(Seq<char>, Seq<char>)>) -> Map<Seq<char>, Seq<char>>
    decreases s.len(),
{
    if s.len() == 0 {
        m
    } else {
        with_meta(m, s.drop_last()).insert(meta_key(s.last().0), s.last().1)
    }
}

/// `m` after setting each parameter of `s` in turn.
pub open spec fn with_params(
    m: Map<Seq<char>, Option<Seq<char>>>,
    s: Seq<(Seq<char>, Option<Seq<char>>)>,
) -> Map<Seq<char>, Option<Seq<char>>>
    decreases s.len(),
{
    if s.len() == 0 {
        m
    } else {
        with_params(m, s.drop_last()).insert(s.last().0, s.last().1)
    }
}

/// The view of an optional string.
pub open spec fn opt_view(o: Option<&str>) -> Option<Seq<char>> {
    match o {
        Some(v) => Some(v@),
        None => None,
    }
}

/// The unsigned URL of a request.
pub open spec fn url_text(
    schema: Schema,
    bucket: Seq<char>,
    endpoint: Seq<char>,
    object: Seq<char>,
    params: Seq<(String, Option<String>)>,
) -> Seq<char> {
    schema.spec_text() + seq![':', '/', '/'] + (if bucket.len() == 0 {
        Seq::empty()
    } else {
        bucket + seq!['.']
    }) + endpoint + seq!['/'] + object + query_text(params)
}

/// A request to one object (or to a bucket), built up before it is signed
/// and sent. It holds the secret key, so it is not printable.
#[derive(Clone)]
pub struct SignedRequest {
    pub method: String,
    pub endpoint: String,
    pub bucket: String,
    pub object: String,
    /// Ordered by name; names are lowercase and unique.
    pub headers: Vec<(String, String)>,
    /// Ordered by key; keys are unique.
    pub params: Vec<(String, Option<String>)>,
    pub payload: Option<Vec<u8>>,
    pub access_key_id: String,
    pub access_key_secret: String,
    pub schema: Schema,
}

impl SignedRequest {
    /// The headers, by lowercase name.
    pub open spec fn header_view(&self) -> Map<Seq<char>, Seq<char>> {
        entry_map(self.headers@)
    }

    /// The query parameters, by key.
    pub open spec fn param_view(&self) -> Map<Seq<char>, Option<Seq<char>>> {
        entry_map(self.params@)
    }

    pub open spec fn wf(&self) -> bool {
        &&& keys_sorted(self.headers@)
        &&& keys_sorted(self.params@)
        &&& forall|k: Seq<char>| #[trigger] self.header_view().contains_key(k) ==> lower(k) == k
    }

    /// `self` and `o` are requests of one method on one target, with the
    /// same credentials.
    pub open spec fn same_target(&self, o: &SignedRequest) -> bool {
        &&& self.method == o.method
        &&& self.endpoint == o.endpoint
        &&& self.bucket == o.bucket
        &&& self.object == o.object
        &&& self.access_key_id == o.access_key_id
        &&& self.access_key_secret == o.access_key_secret
        &&& self.schema == o.schema
    }

    /// A request with no headers, parameters or payload.
    pub fn new(
        method: &str,
        endpoint: &str,
        bucket: &str,
        object: &str,
        access_key_id: &str,
        access_key_secret: &str,
        schema: Schema,
    ) -> (r: SignedRequest)
        ensures
            r.wf(),
            r.method@ == method@,
            r.endpoint@ == endpoint@,
            r.bucket@ == bucket@,
            r.object@ == object@,
            r.access_key_id@ == access_key_id@,
            r.access_key_secret@ == access_key_secret@,
            r.schema == schema,
            r.headers@.len() == 0,
            r.params@.len() == 0,
            r.payload.is_none(),
    {
        SignedRequest {
            method: String::from_str(method),
            endpoint: String::from_str(endpoint),
            bucket: String::from_str(bucket),
            object: String::from_str(object),
            headers: Vec::new(),
            params: Vec::new(),
            payload: None,
            access_key_id: String::from_str(access_key_id),
            access_key_secret: String::from_str(access_key_secret),
            schema,
        }
    }

    /// Sets header `key`, lowercased, to `value`; an earlier value of that
    /// header, under any casing, is replaced.
    pub fn add_header(&mut self, key: &str, value: &str)
        requires
            old(self).wf(),
        ensures
            final(self).wf(),
            final(self).same_target(old(self)),
            final(self).params == old(self).params,
            final(self).payload == old(self).payload,
            final(self).header_view() == old(self).header_view().insert(lower(key@), value@),
    {
        let k = to_lower(key);
        proof {
            lemma_lower_idempotent(key@);
        }
        put_entry(&mut self.headers, k, String::from_str(value));
        assert forall|q: Seq<char>| #[trigger] self.header_view().contains_key(q) implies lower(q) == q by {
            if q != lower(key@) {
                assert(old(self).header_view().contains_key(q));
            }
        }
    }

    /// Sets each header of `headers` in turn, as `add_header` does.
    pub fn add_headers(&mut self, headers: &Vec<(String, String)>)
        requires
            old(self).wf(),
        ensures
            final(self).wf(),
            final(self).same_target(old(self)),
            final(self).params == old(self).params,
            final(self).payload == old(self).payload,
            final(self).header_view() == with_headers(old(self).header_view(), headers.deep_view()),
    {
        let mut i: usize = 0;
        while i < headers.len()
            invariant
                self.wf(),
                self.same_target(old(self)),
                self.params == old(self).params,
                self.payload == old(self).payload,
                i <= headers@.len(),
                self.header_view() == with_headers(old(self).header_view(), headers.deep_view().subrange(0, i as int)),
            decreases headers@.len() - i,
        {
            self.add_header(headers[i].0.as_str(), headers[i].1.as_str());
            assert(headers.deep_view().subrange(0, i + 1).drop_last() =~= headers.deep_view().subrange(0, i as int));
            i = i + 1;
        }
        assert(headers.deep_view().subrange(0, i as int) =~= headers.deep_view());
    }

    /// Removes header `key`, matched without regard to ASCII case.
    pub fn remove_header(&mut self, key: &str)
        requires
            old(self).wf(),
        ensures
            final(self).wf(),
            final(self).same_target(old(self)),
            final(self).params == old(self).params,
            final(self).payload == old(self).payload,
            final(self).header_view() == old(self).header_view().remove(lower(key@)),
    {
        let k = to_lower(key);
        drop_entry(&mut self.headers, k.as_str());
        assert forall|q: Seq<char>| #[trigger] self.header_view().contains_key(q) implies lower(q) == q by {
            assert(old(self).header_view().contains_key(q));
        }
    }

    /// Replaces the query parameters by those of `params`; of two with one
    /// key, the later is kept.
    pub fn set_params(&mut self, params: &Vec<(String, Option<String>)>)
        requires
            old(self).wf(),
        ensures
            final(self).wf(),
            final(self).same_target(old(self)),
            final(self).headers == old(self).headers,
            final(self).payload == old(self).payload,
            final(self).param_view() == with_params(Map::empty(), params.deep_view()),
    {
        self.params = Vec::new();
        assert(self.param_view() =~= Map::empty());
        assert(self.header_view() == old(self).header_view());
        let mut i: usize = 0;
        while i < params.len()
            invariant
                old(self).wf(),
                self.wf(),
                self.same_target(old(self)),
                self.headers == old(self).headers,
                self.payload == old(self).payload,
                i <= params@.len(),
                self.param_view() == with_params(Map::empty(), params.deep_view().subrange(0, i as int)),
            decreases params@.len() - i,
        {
            let v = match &params[i].1 {
                Some(s) => Some(s.clone()),
                None => None,
            };
            put_entry(&mut self.params, params[i].0.clone(), v);
            assert(self.header_view() == old(self).header_view());
            assert(params.deep_view().subrange(0, i + 1).drop_last() =~= params.deep_view().subrange(0, i as int));
            i = i + 1;
        }
        assert(params.deep_view().subrange(0, i as int) =~= params.deep_view());
    }

    /// Sets query parameter `key` to `val`; `None` makes it a bare flag.
    pub fn add_params(&mut self, key: &str, val: Option<&str>)
        requires
            old(self).wf(),
        ensures
            final(self).wf(),
            final(self).same_target(old(self)),
            final(self).headers == old(self).headers,
            final(self).payload == old(self).payload,
            final(self).param_view() == old(self).param_view().insert(key@, opt_view(val)),
    {
        let v = match val {
            Some(s) => Some(String::from_str(s)),
            None => None,
        };
        put_entry(&mut self.params, String::from_str(key), v);
        assert(self.header_view() == old(self).header_view());
    }

    /// Stores `payload` as the body and returns its length.
    pub fn load(&mut self, payload: Vec<u8>) -> (n: usize)
        ensures
            final(self).same_target(old(self)),
            final(self).headers == old(self).headers,
            final(self).params == old(self).params,
            final(self).payload == Some(payload),
            n == payload@.len(),
    {
        let n = payload.len();
        self.payload = Some(payload);
        n
    }

    /// Takes the body out, leaving none.
    pub fn unload(&mut self) -> (r: Option<Vec<u8>>)
        ensures
            final(self).same_target(old(self)),
            final(self).headers == old(self).headers,
            final(self).params == old(self).params,
            final(self).payload.is_none(),
            r == old(self).payload,
    {
        self.payload.take()
    }

    /// Sets the `content-type` header.
    pub fn set_content_type(&mut self, content_type: &str)
        requires
            old(self).wf(),
        ensures
            final(self).wf(),
            final(self).same_target(old(self)),
            final(self).params == old(self).params,
            final(self).payload == old(self).payload,
            final(self).header_view() == old(self).header_view().insert("content-type"@, content_type@),
    {
        proof {
            reveal_strlit("content-type");
            assert(lower("content-type"@) =~= "content-type"@);
        }
        self.add_header("content-type", content_type);
    }

    /// Sets the scheme by name: see `schema_named`.
    pub fn set_schema(&mut self, schema: &str)
        ensures
            final(self).schema == schema_named(schema@),
            final(self).method == old(self).method,
            final(self).endpoint == old(self).endpoint,
            final(self).bucket == old(self).bucket,
            final(self).object == old(self).object,
            final(self).access_key_id == old(self).access_key_id,
            final(self).access_key_secret == old(self).access_key_secret,
            final(self).headers == old(self).headers,
            final(self).params == old(self).params,
            final(self).payload == old(self).payload,
    {
        self.schema = Schema::from_name(schema);
    }

    /// The scheme's name.
    pub fn get_schema(&self) -> (r: String)
        ensures
            r@ == self.schema.spec_text(),
    {
        String::from_str(self.schema.as_str())
    }

    /// The unsigned URL: the bucket as a subdomain of the endpoint where
    /// there is a bucket, then the object, then every query parameter.
    pub fn generate_url(&self) -> (r: String)
        ensures
            r@ == url_text(self.schema, self.bucket@, self.endpoint@, self.object@, self.params@),
    {
        proof {
            reveal_strlit("://");
            reveal_strlit(".");
            reveal_strlit("/");
        }
        let mut r = self.get_schema();
        r.append("://");
        if self.bucket.as_str().unicode_len() != 0 {
            r.append(self.bucket.as_str());
            r.append(".");
        }
        r.append(self.endpoint.as_str());
        r.append("/");
        r.append(self.object.as_str());
        let q = get_params_str(&self.params);
        r.append(q.as_str());
        r
    }

    /// Sets metadata entry `key` as a header: see `meta_key`.
    fn add_meta_entry(&mut self, key: &str, value: &str)
        requires
            old(self).wf(),
        ensures
            final(self).wf(),
            final(self).same_target(old(self)),
            final(self).params == old(self).params,
            final(self).payload == old(self).payload,
            final(self).header_view() == old(self).header_view().insert(meta_key(key@), value@),
    {
        proof {
            reveal_strlit("x-oss-meta-");
            assert(lower(OSS_PREFIX@) =~= OSS_PREFIX@);
            lemma_lower_idempotent(key@);
            lemma_lower_concat(OSS_PREFIX@, lower(key@));
        }
        let k = to_lower(key);
        if starts_with(k.as_str(), OSS_PREFIX) {
            self.add_header(k.as_str(), value);
        } else {
            let full = cat(OSS_PREFIX, k.as_str());
            self.add_header(full.as_str(), value);
        }
    }

    /// Sets each metadata entry of `meta` in turn as a header.
    pub fn add_meta(&mut self, meta: &Vec<(String, String)>)
        requires
            old(self).wf(),
        ensures
            final(self).wf(),
            final(self).same_target(old(self)),
            final(self).params == old(self).params,
            final(self).payload == old(self).payload,
            final(self).header_view() == with_meta(old(self).header_view(), meta.deep_view()),
    {
        let mut i: usize = 0;
        while i < meta.len()
            invariant
                self.wf(),
                self.same_target(old(self)),
                self.params == old(self).params,
                self.payload == old(self).payload,
                i <= meta@.len(),
                self.header_view() == with_meta(old(self).header_view(), meta.deep_view().subrange(0, i as int)),
            decreases meta@.len() - i,
        {
            self.add_meta_entry(meta[i].0.as_str(), meta[i].1.as_str());
            assert(meta.deep_view().subrange(0, i + 1).drop_last() =~= meta.deep_view().subrange(0, i as int));
            i = i + 1;
        }
        assert(meta.deep_view().subrange(0, i as int) =~= meta.deep_view());
    }
}

} // verus!
