use awos_rust::ops::{expiry, get_result, head_result, status_result};
use awos_rust::text::{decimal_string, trim_start_matches, url_encode};
use awos_rust::{
    DispatchError, Error, HttpError, HttpResponse, IoKind, ListBuilder, ListOptions, OSSClient,
    ParseError, PutOrCopyOptions, Schema, SignedRequest,
};

#[test]
fn http_error_test() {
    let not_found = HttpError::from(404u16);
    println!("{}", not_found.to_text());
    println!("{:#?}", not_found);
    assert_eq!(not_found.to_text(), "404 Not Found");
    assert_eq!(HttpError::from(599u16).info(), None);
    assert_eq!(HttpError::from(599u16).to_text(), "599");
}

#[test]
fn header_casing_keeps_one_entry() {
    let mut r = SignedRequest::new("GET", "e", "b", "o", "", "", Schema::Http);
    r.add_header("Content-Type", "a");
    r.add_header("CONTENT-type", "b");
    assert_eq!(r.headers, vec![("content-type".to_string(), "b".to_string())]);
    r.remove_header("Content-TYPE");
    assert!(r.headers.is_empty());
}

#[test]
fn headers_are_ordered() {
    let mut r = SignedRequest::new("GET", "e", "b", "o", "", "", Schema::Http);
    r.add_headers(&vec![
        ("Zeta".to_string(), "1".to_string()),
        ("alpha".to_string(), "2".to_string()),
        ("Mid".to_string(), "3".to_string()),
    ]);
    let names: Vec<&str> = r.headers.iter().map(|h| h.0.as_str()).collect();
    assert_eq!(names, vec!["alpha", "mid", "zeta"]);
}

#[test]
fn metadata_becomes_prefixed_header() {
    let c = OSSClient::new("e", None, Some("b"), "id", "secret");
    let mut r = c.put_request("rust_oss_sdk_test", Some(b"This is just a put test".to_vec()));
    r.add_meta(&vec![("test-key".to_string(), "test-val".to_string())]);
    let h = r.headers.iter().find(|h| h.0 == "x-oss-meta-test-key").unwrap();
    assert_eq!(h.1, "test-val");
    r.add_meta(&vec![("X-OSS-META-Other".to_string(), "v".to_string())]);
    assert!(r.headers.iter().any(|h| h.0 == "x-oss-meta-other" && h.1 == "v"));
    let len = r.headers.iter().find(|h| h.0 == "content-length").unwrap();
    assert_eq!(len.1, "23");
}

#[test]
fn requests_of_a_client() {
    let c = OSSClient::new("e", None, None, "id", "secret");
    let g = c.get_request(None);
    assert_eq!(g.method, "GET");
    assert_eq!(g.object, "");
    assert_eq!(g.headers, vec![("content-length".to_string(), "0".to_string())]);
    assert_eq!(c.head_request("k").method, "HEAD");
    assert_eq!(c.del_request("k").method, "DELETE");
    let mut p = c.put_request("k", Some(vec![1, 2, 3]));
    assert_eq!(p.unload(), Some(vec![1, 2, 3]));
    assert_eq!(p.unload(), None);
    assert_eq!(p.load(vec![9; 10]), 10);
    assert_eq!(c.get_access_key(), ("id", "secret"));
}

#[test]
fn schema_by_name() {
    let mut r = SignedRequest::new("GET", "e", "b", "o", "", "", Schema::Http);
    r.set_schema("https");
    assert_eq!(r.get_schema(), "https");
    r.set_schema("ftp");
    assert_eq!(r.get_schema(), "http");
}

#[test]
fn endpoint_url_is_split() {
    let c = OSSClient::from_endpoint("https://oss-cn-beijing.aliyuncs.com", Some("bk"), "id", "s");
    assert_eq!(c.schema, Schema::Https);
    assert_eq!(c.endpoint, "oss-cn-beijing.aliyuncs.com");
    let c = OSSClient::from_endpoint("http://127.0.0.1:9000", None, "id", "s");
    assert_eq!(c.schema, Schema::Http);
    assert_eq!(c.endpoint, "127.0.0.1:9000");
    assert_eq!(c.bucket, "");
}

#[test]
fn list_request_parameters() {
    let c = OSSClient::new("e", None, Some("b"), "id", "secret");
    let opts = ListOptions::new(Some("prefix"), None, None, None);
    let r = c.list_request(Some(&opts));
    assert_eq!(
        r.params,
        vec![
            ("max-keys".to_string(), Some("1000".to_string())),
            ("prefix".to_string(), Some("prefix".to_string())),
        ]
    );
    let opts = ListOptions::new(Some("p"), Some("m"), Some("/"), Some(2021));
    assert_eq!(
        opts.to_params(),
        vec![
            ("prefix".to_string(), Some("p".to_string())),
            ("marker".to_string(), Some("m".to_string())),
            ("delimiter".to_string(), Some("/".to_string())),
            ("max-keys".to_string(), Some("2021".to_string())),
        ]
    );
}

#[test]
fn upload_and_copy_requests() {
    let c = OSSClient::new("e", None, Some("b"), "id", "secret");
    let opts = PutOrCopyOptions::new(
        Some(vec![("test-key".to_string(), "test-val".to_string())]),
        Some("text/plain"),
        Some("no-cache"),
        None,
        None,
    );
    assert_eq!(
        opts.as_headers(),
        vec![
            ("cache-control".to_string(), "no-cache".to_string()),
            ("content-type".to_string(), "text/plain".to_string()),
        ]
    );
    let r = c.put_object_request("k", b"abc".to_vec(), Some(&opts));
    let names: Vec<&str> = r.headers.iter().map(|h| h.0.as_str()).collect();
    assert_eq!(names, vec!["cache-control", "content-length", "content-type", "x-oss-meta-test-key"]);
    let r = c.copy_object_request("/b/src", "dst", None);
    assert!(r.headers.iter().any(|h| h.0 == "x-oss-copy-source" && h.1 == "/b/src"));
    assert_eq!(r.method, "PUT");
}

#[test]
fn error_status_is_a_service_error() {
    let body = b"<?xml version=\"1.0\"?><Error><Code>NoSuchKey</Code></Error>".to_vec();
    let resp = HttpResponse { status: 404, headers: vec![], body: body.clone() };
    let r = awos_rust::response::check_status(resp);
    assert_eq!(r.clone().unwrap_err(), Error::Service { status: 404, body: body.clone() });
    assert_eq!(r.unwrap_err().io_kind(), Some(IoKind::NotFound));
    let ok = HttpResponse { status: 200, headers: vec![], body: vec![] };
    assert!(status_result(ok).is_ok());
    let forbidden = HttpResponse { status: 403, headers: vec![], body: vec![] };
    assert_eq!(status_result(forbidden).unwrap_err().io_kind(), Some(IoKind::PermissionDenied));
    let e = Error::Service { status: 408, body: vec![] };
    assert_eq!(e.io_kind(), Some(IoKind::TimedOut));
    assert_eq!(Error::Service { status: 500, body: vec![] }.io_kind(), None);
    let e = Error::Io { kind: IoKind::Other, msg: "x".to_string() };
    assert_eq!(e.io_kind(), Some(IoKind::Other));
}

fn sample_response() -> HttpResponse {
    HttpResponse {
        status: 200,
        headers: vec![
            ("x-oss-meta-test-key".to_string(), "test-val".to_string()),
            ("etag".to_string(), "\"abc\"".to_string()),
            ("x-oss-meta-other".to_string(), "o".to_string()),
        ],
        body: b"This is just a put test".to_vec(),
    }
}

#[test]
fn read_result_splits_metadata() {
    let got = get_result(sample_response(), None).unwrap();
    assert_eq!(got.content, b"This is just a put test".to_vec());
    assert_eq!(
        got.meta,
        vec![
            ("other".to_string(), "o".to_string()),
            ("test-key".to_string(), "test-val".to_string()),
        ]
    );
    assert_eq!(got.headers, vec![("etag".to_string(), "\"abc\"".to_string())]);
    let got = get_result(sample_response(), Some(&vec!["test-key".to_string()])).unwrap();
    assert_eq!(got.meta, vec![("test-key".to_string(), "test-val".to_string())]);
    let got = get_result(sample_response(), Some(&vec![])).unwrap();
    assert!(got.meta.is_empty());
    let text = awos_rust::GetResp::from_buffer(get_result(sample_response(), None).unwrap()).unwrap();
    assert_eq!(text.content, "This is just a put test");
}

#[test]
fn read_result_rejects_bad_utf8() {
    let mut resp = sample_response();
    resp.body = vec![b'a', 0xff, b'b'];
    let got = get_result(resp, None).unwrap();
    let err = awos_rust::GetResp::from_buffer(got).unwrap_err();
    assert_eq!(err, Error::Parse(ParseError::UTF8 { valid_up_to: 1 }));
}

#[test]
fn head_result_merges_metadata() {
    let h = head_result(sample_response()).unwrap();
    assert_eq!(
        h,
        vec![
            ("etag".to_string(), "\"abc\"".to_string()),
            ("other".to_string(), "o".to_string()),
            ("test-key".to_string(), "test-val".to_string()),
        ]
    );
}

#[test]
fn listing_is_assembled() {
    let mut b = ListBuilder::new();
    assert!(ListBuilder::wants_text("Key"));
    assert!(!ListBuilder::wants_text("Contents"));
    b.on_text("Key", "a.txt").unwrap();
    b.on_text("Size", "3").unwrap();
    b.on_text("ETag", "e1").unwrap();
    b.on_text("LastModified", "2024").unwrap();
    b.on_end("Contents");
    b.on_text("Key", "b.txt").unwrap();
    b.on_end("Contents");
    b.on_text("IsTruncated", "true").unwrap();
    b.on_text("NextContinuationToken", "tok").unwrap();
    let err = b.on_text("IsTruncated", "yes").unwrap_err();
    assert!(matches!(err, Error::Parse(ParseError::InvalidFormat { .. })));
    let page = b.finish();
    assert!(page.is_truncated);
    assert_eq!(page.next_marker, "tok");
    assert_eq!(page.objects.len(), 2);
    assert_eq!(page.objects[0].size, "3");
    assert_eq!(page.objects[1].size, "");
    assert_eq!(page.to_obj_names(), vec!["a.txt".to_string(), "b.txt".to_string()]);
}

#[test]
fn wire_check() {
    let mut r = SignedRequest::new("GET", "e", "b", "o", "", "", Schema::Http);
    assert_eq!(r.check_wire(), Ok(()));
    r.add_header("bad name", "v");
    assert_eq!(
        r.check_wire(),
        Err(DispatchError::HeaderError("InvalidKeyinvalid HTTP header name".to_string()))
    );
    r.remove_header("bad name");
    r.add_header("x", "line\nbreak");
    assert_eq!(
        r.check_wire(),
        Err(DispatchError::HeaderError("InvalidValuefailed to parse header value".to_string()))
    );
    let r = SignedRequest::new("G E T", "e", "b", "o", "", "", Schema::Http);
    assert_eq!(r.check_wire(), Err(DispatchError::InvalidMethod));
}

#[test]
fn text_helpers() {
    assert_eq!(url_encode("a+b/c=~"), "a%2Bb%2Fc%3D~");
    assert_eq!(url_encode("é"), "%C3%A9");
    assert_eq!(decimal_string(0), "0");
    assert_eq!(decimal_string(1700000000), "1700000000");
    let mut r = SignedRequest::new("GET", "e", "b", "o", "", "", Schema::Http);
    r.add_header("AbC-é", "v");
    assert_eq!(r.headers[0].0, "abc-é");
    assert_eq!(trim_start_matches("httphttp://x", "http"), "://x");
    assert_eq!(expiry(Some(5), 100), 5);
    assert_eq!(expiry(None, 100), 3700);
    assert_eq!(expiry(None, -7), 3600);
}

#[test]
fn metadata_prefix_is_stripped_wholly() {
    let resp = HttpResponse {
        status: 200,
        headers: vec![("x-oss-meta-x-oss-meta-a".to_string(), "1".to_string())],
        body: vec![],
    };
    let got = get_result(resp, Some(&vec!["a".to_string()])).unwrap();
    assert_eq!(got.meta, vec![("a".to_string(), "1".to_string())]);
}

#[test]
fn body_text_is_decoded_or_rejected() {
    assert_eq!(awos_rust::response::text_of(b"abc".to_vec()), Ok("abc".to_string()));
    assert_eq!(
        awos_rust::response::text_of(vec![0xc3]),
        Err(Error::Parse(ParseError::UTF8 { valid_up_to: 0 }))
    );
}
