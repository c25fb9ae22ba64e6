//! Properties that relate the library's operations to one another.

use vstd::prelude::*;
use crate::auth::oss_header_block;
use crate::client::{host_text, presigned_query, OSSClient};
use crate::text::{decimal, is_unreserved, percent_bytes, percent_encode};
use vstd::utf8::encode_utf8;
use crate::keyed::{keys_sorted, lemma_sorted_unique, same_entries};
use crate::request::{lemma_lower_idempotent, meta_key, with_meta, SignedRequest, OSS_PREFIX};
use crate::resource::{canonical_resource, is_sub_resource, param_text, query_text, sub_resources};
use crate::text::{is_prefix, key_lt, lower};

verus! {

proof fn lemma_block_same(s: Seq<(String, String)>, t: Seq<(String, String)>)
    requires
        same_entries(s, t),
    ensures
        oss_header_block(s) == oss_header_block(t),
    decreases s.len(),
{
    if s.len() > 0 {
        assert(s.last().0@ == t.last().0@ && s.last().1.deep_view() == t.last().1.deep_view());
        assert(same_entries(s.drop_last(), t.drop_last()));
        lemma_block_same(s.drop_last(), t.drop_last());
    }
}

proof fn lemma_resources_same(s: Seq<(String, Option<String>)>, t: Seq<(String, Option<String>)>)
    requires
        same_entries(s, t),
    ensures
        same_entries(sub_resources(s), sub_resources(t)),
    decreases s.len(),
{
    if s.len() > 0 {
        assert(s.last().0@ == t.last().0@ && s.last().1.deep_view() == t.last().1.deep_view());
        assert(same_entries(s.drop_last(), t.drop_last()));
        lemma_resources_same(s.drop_last(), t.drop_last());
        let a = sub_resources(s.drop_last());
        let b = sub_resources(t.drop_last());
        if crate::resource::is_sub_resource(s.last().0@) {
            assert forall|i: int| 0 <= i < a.len() + 1 implies #[trigger] a.push(s.last())[i].0@ == b.push(
                t.last(),
            )[i].0@ && a.push(s.last())[i].1.deep_view() == b.push(t.last())[i].1.deep_view() by {
                if i < a.len() {
                    assert(a[i].0@ == b[i].0@);
                }
            }
        }
    }
}

proof fn lemma_query_same(s: Seq<(String, Option<String>)>, t: Seq<(String, Option<String>)>)
    requires
        same_entries(s, t),
    ensures
        query_text(s) == query_text(t),
    decreases s.len(),
{
    if s.len() > 0 {
        assert(s.last().0@ == t.last().0@ && s.last().1.deep_view() == t.last().1.deep_view());
        assert(param_text(s.last()) == param_text(t.last()));
        assert(same_entries(s.drop_last(), t.drop_last()));
        lemma_query_same(s.drop_last(), t.drop_last());
    }
}

/// The signature is a function of what the request holds: two requests
/// with the same method, target, credentials, headers and parameters have
/// the same string to sign and the same `Authorization` value, in whatever
/// order their headers and parameters were set.
pub proof fn law_signature_determined(a: SignedRequest, b: SignedRequest)
    requires
        a.wf(),
        b.wf(),
        a.method@ == b.method@,
        a.bucket@ == b.bucket@,
        a.object@ == b.object@,
        a.access_key_id@ == b.access_key_id@,
        a.access_key_secret@ == b.access_key_secret@,
        a.header_view() == b.header_view(),
        a.param_view() == b.param_view(),
    ensures
        a.spec_sign_text() == b.spec_sign_text(),
        a.spec_authorization() == b.spec_authorization(),
{
    lemma_sorted_unique(a.headers@, b.headers@);
    lemma_sorted_unique(a.params@, b.params@);
    lemma_block_same(a.headers@, b.headers@);
    lemma_resources_same(a.params@, b.params@);
    lemma_query_same(sub_resources(a.params@), sub_resources(b.params@));
}

/// Setting a header twice, under two casings of one name, leaves a single
/// entry for that name: under the lowercase name, with the later value.
pub proof fn law_header_casing(
    m: Map<Seq<char>, Seq<char>>,
    k1: Seq<char>,
    v1: Seq<char>,
    k2: Seq<char>,
    v2: Seq<char>,
)
    requires
        forall|k: Seq<char>| #[trigger] m.contains_key(k) ==> lower(k) == k,
        lower(k1) == lower(k2),
    ensures
        m.insert(lower(k1), v1).insert(lower(k2), v2) == m.insert(lower(k1), v2),
        m.insert(lower(k1), v1).insert(lower(k2), v2)[lower(k1)] == v2,
        forall|k: Seq<char>|
            #[trigger] m.insert(lower(k1), v1).insert(lower(k2), v2).contains_key(k) && lower(k) == lower(k1)
                ==> k == lower(k1),
{
    lemma_lower_idempotent(k1);
    assert(m.insert(lower(k1), v1).insert(lower(k2), v2) =~= m.insert(lower(k1), v2));
}

proof fn lemma_sub_resources_from(s: Seq<(String, Option<String>)>)
    ensures
        forall|i: int| 0 <= i < sub_resources(s).len() ==> exists|j: int| 0 <= j < s.len() && #[trigger] s[j] == #[trigger] sub_resources(s)[i],
    decreases s.len(),
{
    if s.len() > 0 {
        lemma_sub_resources_from(s.drop_last());
        let r = sub_resources(s.drop_last());
        assert forall|i: int| 0 <= i < sub_resources(s).len() implies exists|j: int| 0 <= j < s.len() && #[trigger] s[j] == #[trigger] sub_resources(s)[i] by {
            if i < r.len() {
                let j = choose|j: int| 0 <= j < s.drop_last().len() && #[trigger] s.drop_last()[j] == r[i];
                assert(s[j] == s.drop_last()[j]);
            } else {
                assert(s[s.len() - 1] == sub_resources(s)[i]);
            }
        }
    }
}

/// The sub-resources of ordered parameters come in key order: in the
/// canonical resource a key is preceded only by smaller keys.
pub proof fn law_sub_resources_ordered(params: Seq<(String, Option<String>)>)
    requires
        keys_sorted(params),
    ensures
        keys_sorted(sub_resources(params)),
    decreases params.len(),
{
    if params.len() > 0 {
        let s = params.drop_last();
        assert(keys_sorted(s)) by {
            assert forall|i: int, j: int| 0 <= i < j < s.len() implies key_lt(#[trigger] s[i].0@, #[trigger] s[j].0@) by {
                assert(s[i] == params[i] && s[j] == params[j]);
            }
        }
        law_sub_resources_ordered(s);
        lemma_sub_resources_from(s);
        let r = sub_resources(s);
        if crate::resource::is_sub_resource(params.last().0@) {
            let t = r.push(params.last());
            assert forall|i: int, j: int| 0 <= i < j < t.len() implies key_lt(#[trigger] t[i].0@, #[trigger] t[j].0@) by {
                if j == r.len() {
                    let k = choose|k: int| 0 <= k < s.len() && #[trigger] s[k] == r[i];
                    assert(params[k] == s[k]);
                    assert(key_lt(params[k].0@, params[params.len() - 1].0@));
                } else {
                    assert(t[i] == r[i] && t[j] == r[j]);
                }
            }
        }
    }
}

/// Metadata comes back as a header: after setting entry `(k, v)`, the
/// header named `meta_key(k)` holds `v`; that name begins with the metadata
/// prefix, and for a lowercase key without it, it is the prefix followed by
/// the key.
pub proof fn law_meta_header(m: Map<Seq<char>, Seq<char>>, k: Seq<char>, v: Seq<char>)
    ensures
        with_meta(m, seq![(k, v)]).contains_key(meta_key(k)),
        with_meta(m, seq![(k, v)])[meta_key(k)] == v,
        is_prefix(OSS_PREFIX@, meta_key(k)),
        lower(k) == k && !is_prefix(OSS_PREFIX@, k) ==> meta_key(k) == OSS_PREFIX@ + k,
{
    assert(seq![(k, v)].drop_last() =~= Seq::<(Seq<char>, Seq<char>)>::empty());
    let n = OSS_PREFIX@.len() as int;
    if !is_prefix(OSS_PREFIX@, lower(k)) {
        assert((OSS_PREFIX@ + lower(k)).subrange(0, n) =~= OSS_PREFIX@);
    }
}

proof fn lemma_sub_resources_insert(s: Seq<(String, Option<String>)>, p: int, e: (String, Option<String>))
    requires
        0 <= p <= s.len(),
        !is_sub_resource(e.0@),
    ensures
        sub_resources(s.insert(p, e)) == sub_resources(s),
    decreases s.len(),
{
    let t = s.insert(p, e);
    if p == s.len() {
        assert(t.drop_last() =~= s);
    } else {
        assert(t.drop_last() =~= s.drop_last().insert(p, e));
        assert(t.last() == s.last());
        lemma_sub_resources_insert(s.drop_last(), p, e);
    }
}

/// Parameters that name no sub-resource (listing filters such as `prefix`
/// or `marker`) are not signed: adding one, anywhere, leaves the canonical
/// resource as it was.
pub proof fn law_filters_not_signed(
    bucket: Seq<char>,
    object: Seq<char>,
    params: Seq<(String, Option<String>)>,
    p: int,
    e: (String, Option<String>),
)
    requires
        0 <= p <= params.len(),
        !is_sub_resource(e.0@),
    ensures
        canonical_resource(bucket, object, params.insert(p, e)) == canonical_resource(bucket, object, params),
{
    lemma_sub_resources_insert(params, p, e);
}

proof fn lemma_percent_bytes_len(b: Seq<u8>)
    ensures
        percent_bytes(b).len() == 3 * b.len(),
    decreases b.len(),
{
    if b.len() > 0 {
        lemma_percent_bytes_len(b.drop_last());
    }
}

/// Percent-encoding never shortens a text.
pub proof fn lemma_percent_encode_len(s: Seq<char>)
    ensures
        percent_encode(s).len() >= s.len(),
    decreases s.len(),
{
    if s.len() > 0 {
        lemma_percent_encode_len(s.drop_last());
        let c = s.last();
        if !is_unreserved(c) {
            assert(seq![c].drop_first() =~= Seq::<char>::empty());
            assert(encode_utf8(seq![c]).len() >= 1);
            lemma_percent_bytes_len(encode_utf8(seq![c]));
        }
    }
}

/// A presigned URL is the bucket host and object, `?OSSAccessKeyId=`, the
/// key id, `&Expires=`, the expiry time, `&Signature=`, then the encoded
/// signature, which is no shorter than the signature itself.
pub proof fn law_presigned_url_shape(c: OSSClient, object: Seq<char>, expires: u64, signature: Seq<char>)
    ensures
        host_text(c.schema, c.bucket@, c.endpoint@, object, presigned_query(c.access_key_id@, expires, signature))
            == host_text(
            c.schema,
            c.bucket@,
            c.endpoint@,
            object,
            "OSSAccessKeyId="@ + c.access_key_id@ + "&Expires="@ + decimal(expires as nat) + "&Signature="@,
        ) + percent_encode(signature),
        percent_encode(signature).len() >= signature.len(),
{
    assert(host_text(c.schema, c.bucket@, c.endpoint@, object, presigned_query(c.access_key_id@, expires, signature))
        =~= host_text(
        c.schema,
        c.bucket@,
        c.endpoint@,
        object,
        "OSSAccessKeyId="@ + c.access_key_id@ + "&Expires="@ + decimal(expires as nat) + "&Signature="@,
    ) + percent_encode(signature));
    lemma_percent_encode_len(signature);
}

} // verus!
