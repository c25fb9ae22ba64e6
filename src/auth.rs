//! Request signing: the string to sign, its HMAC-SHA1 digest under the
//! secret key, and the `Authorization` header built from it.

use vstd::prelude::*;
use vstd::string::*;
use vstd::utf8::*;
use crate::dispatch::DispatchError;
use crate::keyed::{find_entry, put_entry};
use crate::request::SignedRequest;
use crate::resource::{canonical_resource, get_oss_resource_str};
use crate::text::{contains, is_infix, lower, occurs_at};

use crypto::hmac::Hmac;
use crypto::mac::Mac;
use crypto::sha1::Sha1;

verus! {

/// The longest input, in bytes, that the digest takes: SHA-1 counts the
/// bits of its input in 64 bits.
pub const DIGEST_INPUT_LIMIT: u64 = 0x1000_0000_0000_0000;

/// The HMAC-SHA1 code of `msg` under `key`.
pub uninterp spec fn hmac_sha1_of(key: Seq<u8>, msg: Seq<u8>) -> Seq<u8>;

/// The standard, padded base64 text of `bytes`.
pub uninterp spec fn base64_of(bytes: Seq<u8>) -> Seq<char>;

/// Relies on rust-crypto's `Hmac<Sha1>` (`Hmac::new`, `Mac::input`,
/// `Mac::result`): the code depends on key and message alone, and is as long
/// as a SHA-1 digest, 20 bytes. The digest panics on inputs whose length in
/// bits overflows 64 bits, hence the bounds.
#[verifier::external_body]
fn hmac_sha1(key: &str, msg: &str) -> (r: Vec<u8>)
    requires
        key.spec_bytes().len() < DIGEST_INPUT_LIMIT,
        msg.spec_bytes().len() < DIGEST_INPUT_LIMIT,
    ensures
        r@ == hmac_sha1_of(key.spec_bytes(), msg.spec_bytes()),
        r@.len() == 20,
{
    let mut mac = Hmac::new(Sha1::new(), key.as_bytes());
    mac.input(msg.as_bytes());
    mac.result().code().to_vec()
}

/// Relies on base64's `encode` (standard alphabet, with padding): the text
/// depends on the bytes alone, and has four characters for each started
/// group of three bytes. It panics where that length overflows `usize`.
#[verifier::external_body]
fn base64_encode(bytes: &[u8]) -> (r: String)
    requires
        bytes@.len() < DIGEST_INPUT_LIMIT,
    ensures
        r@ == base64_of(bytes@),
        r@.len() == 4 * ((bytes@.len() + 2) / 3),
{
    base64::encode(bytes)
}

/// The form every HTTP date written as `%a, %d %b %Y %T GMT` has: day name,
/// comma and space, then at least 24 more characters, the last ` GMT`.
pub open spec fn is_http_date(d: Seq<char>) -> bool {
    &&& d.len() >= 29
    &&& d.subrange(3, 5) == seq![',', ' ']
    &&& d.subrange(d.len() - 4, d.len() as int) == seq![' ', 'G', 'M', 'T']
}

/// Relies on chrono's `Utc::now` and `format` with `%a, %d %b %Y %T GMT`:
/// a three-letter day name, `, `, two-digit day, month name, a year of at
/// least four digits, `%T` as `hh:mm:ss`, then ` GMT`.
#[verifier::external_body]
fn now_http_date() -> (r: String)
    ensures
        is_http_date(r@),
{
    chrono::Utc::now().format("%a, %d %b %Y %T GMT").to_string()
}

/// Headers whose name holds this marker are signed.
pub open spec fn is_oss_header(k: Seq<char>) -> bool {
    is_infix("x-oss-"@, k)
}

/// The signed headers of `h`, in order, each as `name:value` and a newline.
pub open spec fn oss_header_block(h: Seq<(String, String)>) -> Seq<char>
    decreases h.len(),
{
    if h.len() == 0 {
        Seq::empty()
    } else {
        oss_header_block(h.drop_last()) + (if is_oss_header(h.last().0@) {
            h.last().0@ + seq![':'] + h.last().1@ + seq!['\n']
        } else {
            Seq::empty()
        })
    }
}

/// The string to sign: method, content digest, content type and date (or
/// expiry time), each followed by a newline, then the signed headers and the
/// canonical resource.
pub open spec fn sign_text(
    verb: Seq<char>,
    md5: Seq<char>,
    content_type: Seq<char>,
    date: Seq<char>,
    oss_headers: Seq<char>,
    resource: Seq<char>,
) -> Seq<char> {
    verb + seq!['\n'] + md5 + seq!['\n'] + content_type + seq!['\n'] + date + seq!['\n'] + oss_headers
        + resource
}

/// The value of header `k` in `m`, or the empty string.
pub open spec fn header_or_empty(m: Map<Seq<char>, Seq<char>>, k: Seq<char>) -> Seq<char> {
    if m.contains_key(k) {
        m[k]
    } else {
        Seq::empty()
    }
}

/// The digest part of the string to sign: the base64 text of the
/// `content-md5` header's bytes, where there is that header. The header's
/// value is encoded as given, not recomputed from the payload, as the
/// deployed services expect: setting a correct digest is the caller's part.
pub open spec fn md5_text(m: Map<Seq<char>, Seq<char>>) -> Seq<char> {
    if m.contains_key("content-md5"@) {
        base64_of(encode_utf8(m["content-md5"@]))
    } else {
        Seq::empty()
    }
}

/// The signature of `text` under `secret`: base64 of its HMAC-SHA1 code.
pub open spec fn signature_of(secret: Seq<char>, text: Seq<char>) -> Seq<char> {
    base64_of(hmac_sha1_of(encode_utf8(secret), encode_utf8(text)))
}

/// The `content-md5` header, if any, is short enough to encode.
pub open spec fn md5_fits(m: Map<Seq<char>, Seq<char>>) -> bool {
    m.contains_key("content-md5"@) ==> encode_utf8(m["content-md5"@]).len() < DIGEST_INPUT_LIMIT
}

/// The digest takes both inputs.
pub open spec fn signable(secret: Seq<char>, text: Seq<char>) -> bool {
    encode_utf8(secret).len() < DIGEST_INPUT_LIMIT && encode_utf8(text).len() < DIGEST_INPUT_LIMIT
}

/// The `Authorization` value: `OSS {id}:{signature}`.
pub open spec fn authorization_text(id: Seq<char>, signature: Seq<char>) -> Seq<char> {
    "OSS "@ + id + seq![':'] + signature
}

/// The headers after stamping `date`, where no date was set.
pub open spec fn dated(m: Map<Seq<char>, Seq<char>>, date: Seq<char>) -> Map<Seq<char>, Seq<char>> {
    if m.contains_key("date"@) {
        m
    } else {
        m.insert("date"@, date)
    }
}

impl SignedRequest {
    /// The string that signs this request.
    pub open spec fn spec_sign_text(&self) -> Seq<char> {
        sign_text(
            self.method@,
            md5_text(self.header_view()),
            header_or_empty(self.header_view(), "content-type"@),
            header_or_empty(self.header_view(), "date"@),
            oss_header_block(self.headers@),
            canonical_resource(self.bucket@, self.object@, self.params@),
        )
    }

    /// The `Authorization` value of this request, where it can be signed.
    pub open spec fn spec_authorization(&self) -> Seq<char> {
        authorization_text(self.access_key_id@, signature_of(self.access_key_secret@, self.spec_sign_text()))
    }
}

/// The signed headers of `headers`, in order, each as `name:value` and a
/// newline.
pub fn canonicalized_oss_headers(headers: &Vec<(String, String)>) -> (r: String)
    ensures
        r@ == oss_header_block(headers@),
{
    proof {
        reveal_strlit(":");
        reveal_strlit("\n");
        assert(":"@ =~= seq![':']);
        assert("\n"@ =~= seq!['\n']);
    }
    let mut r = String::new();
    let mut i: usize = 0;
    while i < headers.len()
        invariant
            ":"@ == seq![':'],
            "\n"@ == seq!['\n'],
            i <= headers@.len(),
            r@ == oss_header_block(headers@.subrange(0, i as int)),
        decreases headers@.len() - i,
    {
        let ghost before = r@;
        if contains(headers[i].0.as_str(), "x-oss-") {
            r.append(headers[i].0.as_str());
            r.append(":");
            r.append(headers[i].1.as_str());
            r.append("\n");
            assert(r@ =~= before + (headers@[i as int].0@ + seq![':'] + headers@[i as int].1@ + seq!['\n']));
        } else {
            assert(r@ =~= before + Seq::<char>::empty());
        }
        assert(headers@.subrange(0, i + 1).drop_last() =~= headers@.subrange(0, i as int));
        assert(headers@.subrange(0, i + 1).last() == headers@[i as int]);
        i = i + 1;
    }
    assert(headers@.subrange(0, i as int) =~= headers@);
    r
}

/// The string to sign, from its parts.
pub fn build_sign_str(
    verb: &str,
    content_md5: &str,
    content_type: &str,
    date: &str,
    oss_headers: &str,
    resource: &str,
) -> (r: String)
    ensures
        r@ == sign_text(verb@, content_md5@, content_type@, date@, oss_headers@, resource@),
{
    proof {
        reveal_strlit("\n");
    }
    let mut r = String::from_str(verb);
    r.append("\n");
    r.append(content_md5);
    r.append("\n");
    r.append(content_type);
    r.append("\n");
    r.append(date);
    r.append("\n");
    r.append(oss_headers);
    r.append(resource);
    r
}

/// The signature of `text` under `secret`, where the digest takes both.
pub fn sign(secret: &str, text: &str) -> (r: Option<String>)
    ensures
        r.is_some() == signable(secret@, text@),
        r.is_some() ==> r.unwrap()@ == signature_of(secret@, text@),
        r.is_some() ==> signature_of(secret@, text@).len() == 28,
{
    if (secret.as_bytes().len() as u64) < DIGEST_INPUT_LIMIT && (text.as_bytes().len() as u64)
        < DIGEST_INPUT_LIMIT {
        let code = hmac_sha1(secret, text);
        Some(base64_encode(code.as_slice()))
    } else {
        None
    }
}

/// The `Authorization` value for key `access_key_id` and `signature`.
pub fn authorization_value(access_key_id: &str, signature: &str) -> (r: String)
    ensures
        r@ == authorization_text(access_key_id@, signature@),
{
    proof {
        reveal_strlit(":");
    }
    let mut r = String::from_str("OSS ");
    r.append(access_key_id);
    r.append(":");
    r.append(signature);
    r
}

fn header_value(req: &SignedRequest, name: &str) -> (r: String)
    requires
        req.wf(),
    ensures
        r@ == header_or_empty(req.header_view(), name@),
{
    match find_entry(&req.headers, name) {
        Some(v) => v.clone(),
        None => String::new(),
    }
}

impl SignedRequest {
    /// The string that signs this request; none where the `content-md5`
    /// header is too long to encode.
    pub fn string_to_sign(&self) -> (r: Option<String>)
        requires
            self.wf(),
        ensures
            r.is_some() == md5_fits(self.header_view()),
            r.is_some() ==> r.unwrap()@ == self.spec_sign_text(),
    {
        let md5 = match find_entry(&self.headers, "content-md5") {
            Some(v) => {
                let b = v.as_str().as_bytes();
                if (b.len() as u64) < DIGEST_INPUT_LIMIT {
                    base64_encode(b)
                } else {
                    return None;
                }
            },
            None => String::new(),
        };
        let content_type = header_value(self, "content-type");
        let date = header_value(self, "date");
        let oss_headers = canonicalized_oss_headers(&self.headers);
        let resource = get_oss_resource_str(self.bucket.as_str(), self.object.as_str(), &self.params);
        Some(
            build_sign_str(
                self.method.as_str(),
                md5.as_str(),
                content_type.as_str(),
                date.as_str(),
                oss_headers.as_str(),
                resource.as_str(),
            ),
        )
    }
}

proof fn lemma_block_insert(s: Seq<(String, String)>, p: int, e: (String, String))
    requires
        0 <= p <= s.len(),
        !is_oss_header(e.0@),
    ensures
        oss_header_block(s.insert(p, e)) == oss_header_block(s),
    decreases s.len(),
{
    let t = s.insert(p, e);
    if p == s.len() {
        assert(t.drop_last() =~= s);
    } else {
        assert(t.drop_last() =~= s.drop_last().insert(p, e));
        assert(t.last() == s.last());
        lemma_block_insert(s.drop_last(), p, e);
    }
}

proof fn lemma_block_update(s: Seq<(String, String)>, p: int, e: (String, String))
    requires
        0 <= p < s.len(),
        !is_oss_header(e.0@),
        !is_oss_header(s[p].0@),
    ensures
        oss_header_block(s.update(p, e)) == oss_header_block(s),
    decreases s.len(),
{
    let t = s.update(p, e);
    if p == s.len() - 1 {
        assert(t.drop_last() =~= s.drop_last());
    } else {
        assert(t.drop_last() =~= s.drop_last().update(p, e));
        assert(t.last() == s.last());
        lemma_block_update(s.drop_last(), p, e);
    }
}

proof fn lemma_authorization_not_signed()
    ensures
        !is_oss_header("authorization"@),
        "authorization"@ != "date"@,
        "authorization"@ != "content-type"@,
        "authorization"@ != "content-md5"@,
{
    reveal_strlit("authorization");
    reveal_strlit("x-oss-");
    reveal_strlit("date");
    reveal_strlit("content-type");
    reveal_strlit("content-md5");
    let a = "authorization"@;
    assert(a.len() == 13 && "date"@.len() == 4 && "content-type"@.len() == 12 && "content-md5"@.len()
        == 11);
    assert forall|i: int| !occurs_at(a, "x-oss-"@, i) by {
        if occurs_at(a, "x-oss-"@, i) {
            assert(a.subrange(i, i + 6)[0] == "x-oss-"@[0]);
            assert(a[i] == 'x');
        }
    }
}

impl SignedRequest {
    /// The `Authorization` header of this request, where it can be signed.
    pub fn authorization_header(&self) -> (r: Option<(String, String)>)
        requires
            self.wf(),
        ensures
            r.is_some() == (md5_fits(self.header_view()) && signable(
                self.access_key_secret@,
                self.spec_sign_text(),
            )),
            r.is_some() ==> r.unwrap().0@ == "authorization"@ && r.unwrap().1@
                == self.spec_authorization(),
            r.is_some() ==> signature_of(self.access_key_secret@, self.spec_sign_text()).len() == 28,
    {
        let text = match self.string_to_sign() {
            Some(t) => t,
            None => return None,
        };
        match sign(self.access_key_secret.as_str(), text.as_str()) {
            Some(signature) => Some(
                (
                    String::from_str("authorization"),
                    authorization_value(self.access_key_id.as_str(), signature.as_str()),
                ),
            ),
            None => None,
        }
    }

    /// Signs the request as sent at `date`: stamps the `date` header where
    /// none is set, then sets the `authorization` header. Fails, with only
    /// the date stamped, where the request cannot be signed.
    pub fn sign_at(&mut self, date: &str) -> (r: Result<(), DispatchError>)
        requires
            old(self).wf(),
        ensures
            final(self).wf(),
            final(self).same_target(old(self)),
            final(self).params == old(self).params,
            final(self).payload == old(self).payload,
            r.is_ok() == (md5_fits(final(self).header_view()) && signable(
                final(self).access_key_secret@,
                final(self).spec_sign_text(),
            )),
            r.is_ok() ==> signature_of(final(self).access_key_secret@, final(self).spec_sign_text()).len()
                == 28,
            final(self).header_view() == (if r.is_ok() {
                dated(old(self).header_view(), date@).insert(
                    "authorization"@,
                    final(self).spec_authorization(),
                )
            } else {
                dated(old(self).header_view(), date@)
            }),
    {
        proof {
            reveal_strlit("date");
        }
        if find_entry(&self.headers, "date").is_none() {
            self.add_header("date", date);
            assert(lower("date"@) =~= "date"@);
        }
        assert(self.header_view() == dated(old(self).header_view(), date@));
        match self.authorization_header() {
            Some(auth) => {
                let ghost mid = *self;
                proof {
                    lemma_authorization_not_signed();
                    reveal_strlit("authorization");
                    assert(lower("authorization"@) =~= "authorization"@);
                }
                put_entry(&mut self.headers, auth.0, auth.1);
                proof {
                    let p = choose|p: int|
                        0 <= p <= mid.headers@.len() && (self.headers@ == mid.headers@.insert(
                            p,
                            (auth.0, auth.1),
                        ) || (p < mid.headers@.len() && mid.headers@[p].0@ == auth.0@
                            && self.headers@ == mid.headers@.update(p, (auth.0, auth.1))));
                    if self.headers@ == mid.headers@.insert(p, (auth.0, auth.1)) {
                        lemma_block_insert(mid.headers@, p, (auth.0, auth.1));
                    } else {
                        lemma_block_update(mid.headers@, p, (auth.0, auth.1));
                    }
                    assert(self.spec_sign_text() == mid.spec_sign_text());
                    assert forall|q: Seq<char>| #[trigger] self.header_view().contains_key(q) implies lower(q)
                        == q by {
                        if q != "authorization"@ {
                            assert(mid.header_view().contains_key(q));
                        }
                    }
                }
                Ok(())
            },
            None => Err(DispatchError::Unknown(String::from_str("request too large to sign"))),
        }
    }

    /// Signs the request as sent now: see `sign_at`.
    pub fn oss_sign(&mut self) -> (r: Result<(), DispatchError>)
        requires
            old(self).wf(),
        ensures
            final(self).wf(),
            final(self).same_target(old(self)),
            final(self).params == old(self).params,
            final(self).payload == old(self).payload,
            final(self).header_view().contains_key("date"@),
            old(self).header_view().contains_key("date"@) ==> final(self).header_view()["date"@]
                == old(self).header_view()["date"@],
            !old(self).header_view().contains_key("date"@) ==> is_http_date(
                final(self).header_view()["date"@],
            ),
            r.is_ok() == (md5_fits(final(self).header_view()) && signable(
                final(self).access_key_secret@,
                final(self).spec_sign_text(),
            )),
            final(self).header_view() == (if r.is_ok() {
                dated(old(self).header_view(), final(self).header_view()["date"@]).insert(
                    "authorization"@,
                    final(self).spec_authorization(),
                )
            } else {
                dated(old(self).header_view(), final(self).header_view()["date"@])
            }),
    {
        let now = now_http_date();
        let r = self.sign_at(now.as_str());
        proof {
            lemma_authorization_not_signed();
        }
        r
    }
}

} // verus!
