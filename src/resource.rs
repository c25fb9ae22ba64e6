//! The canonical resource that a signature covers, and the query string of
//! a request URL.

use vstd::prelude::*;
use crate::text::str_eq;

verus! {

/// Query keys that name a sub-resource of an OSS bucket or object: only
/// these take part in the canonical resource.
pub open spec fn is_sub_resource(k: Seq<char>) -> bool {
    ||| k == "acl"@ ||| k == "uploads"@ ||| k == "location"@ ||| k == "cors"@
    ||| k == "logging"@ ||| k == "website"@ ||| k == "referer"@ ||| k == "lifecycle"@
    ||| k == "delete"@ ||| k == "append"@ ||| k == "tagging"@ ||| k == "objectMeta"@
    ||| k == "uploadId"@ ||| k == "partNumber"@ ||| k == "security-token"@
    ||| k == "position"@ ||| k == "img"@ ||| k == "style"@ ||| k == "styleName"@
    ||| k == "replication"@ ||| k == "replicationProgress"@ ||| k == "replicationLocation"@
    ||| k == "cname"@ ||| k == "bucketInfo"@ ||| k == "comp"@ ||| k == "qos"@
    ||| k == "live"@ ||| k == "status"@ ||| k == "vod"@ ||| k == "startTime"@
    ||| k == "endTime"@ ||| k == "symlink"@ ||| k == "x-oss-process"@
    ||| k == "response-content-type"@ ||| k == "response-content-language"@
    ||| k == "response-expires"@ ||| k == "response-cache-control"@
    ||| k == "response-content-disposition"@ ||| k == "response-content-encoding"@
    ||| k == "udf"@ ||| k == "udfName"@ ||| k == "udfImage"@ ||| k == "udfId"@
    ||| k == "udfImageDesc"@ ||| k == "udfApplication"@ ||| k == "udfApplicationLog"@
    ||| k == "restore"@ ||| k == "callback"@ ||| k == "callback-var"@
    ||| k == "continuation-token"@
}

/// Whether `k` names a sub-resource.
pub fn sub_resource(k: &str) -> (r: bool)
    ensures
        r == is_sub_resource(k@),
{
    str_eq(k, "acl") || str_eq(k, "uploads") || str_eq(k, "location") || str_eq(k, "cors")
        || str_eq(k, "logging") || str_eq(k, "website") || str_eq(k, "referer")
        || str_eq(k, "lifecycle") || str_eq(k, "delete") || str_eq(k, "append")
        || str_eq(k, "tagging") || str_eq(k, "objectMeta") || str_eq(k, "uploadId")
        || str_eq(k, "partNumber") || str_eq(k, "security-token") || str_eq(k, "position")
        || str_eq(k, "img") || str_eq(k, "style") || str_eq(k, "styleName")
        || str_eq(k, "replication") || str_eq(k, "replicationProgress")
        || str_eq(k, "replicationLocation") || str_eq(k, "cname") || str_eq(k, "bucketInfo")
        || str_eq(k, "comp") || str_eq(k, "qos") || str_eq(k, "live") || str_eq(k, "status")
        || str_eq(k, "vod") || str_eq(k, "startTime") || str_eq(k, "endTime")
        || str_eq(k, "symlink") || str_eq(k, "x-oss-process")
        || str_eq(k, "response-content-type") || str_eq(k, "response-content-language")
        || str_eq(k, "response-expires") || str_eq(k, "response-cache-control")
        || str_eq(k, "response-content-disposition")
        || str_eq(k, "response-content-encoding") || str_eq(k, "udf") || str_eq(k, "udfName")
        || str_eq(k, "udfImage") || str_eq(k, "udfId") || str_eq(k, "udfImageDesc")
        || str_eq(k, "udfApplication") || str_eq(k, "udfApplicationLog")
        || str_eq(k, "restore") || str_eq(k, "callback") || str_eq(k, "callback-var")
        || str_eq(k, "continuation-token")
}

/// One query parameter as written: `key=value`, or the bare key.
pub open spec fn param_text(p: (String, Option<String>)) -> Seq<char> {
    match p.1 {
        Some(v) => p.0@ + seq!['='] + v@,
        None => p.0@,
    }
}

/// The parameters joined in order, the first after `?`, the others after `&`;
/// empty for no parameters.
pub open spec fn query_text(s: Seq<(String, Option<String>)>) -> Seq<char>
    decreases s.len(),
{
    if s.len() == 0 {
        Seq::empty()
    } else {
        query_text(s.drop_last()) + (if s.len() == 1 {
            seq!['?']
        } else {
            seq!['&']
        }) + param_text(s.last())
    }
}

/// The parameters whose key names a sub-resource, in their order.
pub open spec fn sub_resources(s: Seq<(String, Option<String>)>) -> Seq<(String, Option<String>)>
    decreases s.len(),
{
    if s.len() == 0 {
        Seq::empty()
    } else if is_sub_resource(s.last().0@) {
        sub_resources(s.drop_last()).push(s.last())
    } else {
        sub_resources(s.drop_last())
    }
}

/// The path part of a canonical resource.
pub open spec fn resource_path(bucket: Seq<char>, object: Seq<char>) -> Seq<char> {
    if bucket.len() == 0 {
        seq!['/'] + object
    } else {
        seq!['/'] + bucket + seq!['/'] + object
    }
}

/// The canonical resource of a request: its path, then its sub-resource
/// parameters.
pub open spec fn canonical_resource(
    bucket: Seq<char>,
    object: Seq<char>,
    params: Seq<(String, Option<String>)>,
) -> Seq<char> {
    resource_path(bucket, object) + query_text(sub_resources(params))
}

/// The canonical resource of a presigned URL: its path, then the caller's
/// sub-resource text after `?` where that is not empty.
pub open spec fn presigned_resource(bucket: Seq<char>, object: Seq<char>, sub: Seq<char>) -> Seq<char> {
    resource_path(bucket, object) + (if sub.len() == 0 {
        Seq::empty()
    } else {
        seq!['?'] + sub
    })
}

fn append_param(r: &mut String, first: bool, p: &(String, Option<String>))
    ensures
        final(r)@ == old(r)@ + (if first {
            seq!['?']
        } else {
            seq!['&']
        }) + param_text(*p),
{
    proof {
        reveal_strlit("?");
        reveal_strlit("&");
        reveal_strlit("=");
    }
    if first {
        r.append("?");
    } else {
        r.append("&");
    }
    r.append(p.0.as_str());
    match &p.1 {
        Some(v) => {
            r.append("=");
            r.append(v.as_str());
        },
        None => {},
    }
}

/// The query string of a request URL: every parameter, in order.
pub fn get_params_str(params: &Vec<(String, Option<String>)>) -> (r: String)
    ensures
        r@ == query_text(params@),
{
    let mut r = String::new();
    let mut i: usize = 0;
    while i < params.len()
        invariant
            i <= params@.len(),
            r@ == query_text(params@.subrange(0, i as int)),
        decreases params@.len() - i,
    {
        append_param(&mut r, i == 0, &params[i]);
        proof {
            assert(params@.subrange(0, i + 1).drop_last() =~= params@.subrange(0, i as int));
        }
        i = i + 1;
    }
    assert(params@.subrange(0, i as int) =~= params@);
    r
}

/// The sub-resource part of a canonical resource: the sub-resource
/// parameters, in order.
pub fn get_resources_str(params: &Vec<(String, Option<String>)>) -> (r: String)
    ensures
        r@ == query_text(sub_resources(params@)),
{
    let mut r = String::new();
    let ghost mut taken: Seq<(String, Option<String>)> = Seq::empty();
    let mut first = true;
    let mut i: usize = 0;
    while i < params.len()
        invariant
            i <= params@.len(),
            first == (taken.len() == 0),
            taken == sub_resources(params@.subrange(0, i as int)),
            r@ == query_text(taken),
        decreases params@.len() - i,
    {
        let p = &params[i];
        proof {
            assert(params@.subrange(0, i + 1).drop_last() =~= params@.subrange(0, i as int));
        }
        if sub_resource(p.0.as_str()) {
            append_param(&mut r, first, p);
            first = false;
            proof {
                taken = taken.push(*p);
                assert(taken.drop_last() =~= sub_resources(params@.subrange(0, i as int)));
            }
        }
        i = i + 1;
    }
    assert(params@.subrange(0, i as int) =~= params@);
    r
}

/// The canonical resource of a request on `object` in `bucket`.
pub fn get_oss_resource_str(bucket: &str, object: &str, params: &Vec<(String, Option<String>)>) -> (r: String)
    ensures
        r@ == canonical_resource(bucket@, object@, params@),
{
    proof {
        reveal_strlit("/");
    }
    let resources = get_resources_str(params);
    let mut r = String::from_str("/");
    if bucket.unicode_len() != 0 {
        r.append(bucket);
        r.append("/");
    }
    r.append(object);
    r.append(resources.as_str());
    r
}

/// The canonical resource of a presigned URL for `object` in `bucket`.
pub fn get_oss_subresource_signed_str(bucket: &str, object: &str, oss_resources: &str) -> (r: String)
    ensures
        r@ == presigned_resource(bucket@, object@, oss_resources@),
{
    proof {
        reveal_strlit("/");
        reveal_strlit("?");
    }
    let mut r = String::from_str("/");
    if bucket.unicode_len() != 0 {
        r.append(bucket);
        r.append("/");
    }
    r.append(object);
    if oss_resources.unicode_len() != 0 {
        r.append("?");
        r.append(oss_resources);
    }
    r
}

} // verus!
