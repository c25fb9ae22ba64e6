use awos_rust::auth::{authorization_value, build_sign_str, sign};
use awos_rust::resource::{get_oss_resource_str, get_oss_subresource_signed_str, get_params_str, get_resources_str};
use awos_rust::{OSSClient, Schema, SignedRequest};

fn put_request() -> SignedRequest {
    SignedRequest::new("PUT", "e", "b", "o", "id", "secret", Schema::Http)
}

#[test]
fn signed_request_test() {
    let sr = SignedRequest::new(
        "GET",
        "oss-cn-beijing.aliyuncs.com",
        "dev-sheet-calced",
        "A",
        "",
        "",
        Schema::Http,
    );
    println!("{}", sr.generate_url());
    assert_eq!(sr.generate_url(), "http://dev-sheet-calced.oss-cn-beijing.aliyuncs.com/A");
}

#[test]
fn sign_string_of_fixed_put() {
    let mut r = put_request();
    r.add_header("Date", "Mon, 01 Jan 2024 00:00:00 GMT");
    assert_eq!(
        r.string_to_sign().unwrap(),
        "PUT\n\n\nMon, 01 Jan 2024 00:00:00 GMT\n/b/o"
    );
    let (name, value) = r.authorization_header().unwrap();
    assert_eq!(name, "authorization");
    assert_eq!(value, "OSS id:QgkgclncuZBZ8I5QMkbX+sbzedk=");
}

#[test]
fn sign_at_stamps_date_and_authorization() {
    let mut r = put_request();
    assert!(r.sign_at("Mon, 01 Jan 2024 00:00:00 GMT").is_ok());
    let names: Vec<&str> = r.headers.iter().map(|h| h.0.as_str()).collect();
    assert_eq!(names, vec!["authorization", "date"]);
    assert_eq!(r.headers[0].1, "OSS id:QgkgclncuZBZ8I5QMkbX+sbzedk=");
    assert_eq!(r.headers[1].1, "Mon, 01 Jan 2024 00:00:00 GMT");
}

#[test]
fn sign_at_keeps_an_existing_date() {
    let mut r = put_request();
    r.add_header("date", "Mon, 01 Jan 2024 00:00:00 GMT");
    assert!(r.sign_at("Tue, 02 Jan 2024 00:00:00 GMT").is_ok());
    assert_eq!(r.headers[1].1, "Mon, 01 Jan 2024 00:00:00 GMT");
    assert_eq!(r.headers[0].1, "OSS id:QgkgclncuZBZ8I5QMkbX+sbzedk=");
}

#[test]
fn oss_sign_uses_the_clock() {
    let mut r = put_request();
    assert!(r.oss_sign().is_ok());
    let date = r.headers.iter().find(|h| h.0 == "date").unwrap().1.clone();
    assert_eq!(date.len(), 29);
    assert!(date.ends_with(" GMT"));
    let auth = r.headers.iter().find(|h| h.0 == "authorization").unwrap().1.clone();
    assert!(auth.starts_with("OSS id:"));
    assert_eq!(auth.len(), "OSS id:".len() + 28);
}

#[test]
fn signature_is_deterministic() {
    let mut a = put_request();
    a.add_header("x-oss-meta-b", "2");
    a.add_header("x-oss-meta-a", "1");
    a.add_header("date", "Mon, 01 Jan 2024 00:00:00 GMT");
    a.add_params("acl", None);
    a.add_params("uploadId", Some("5"));
    let mut b = put_request();
    b.add_params("uploadId", Some("5"));
    b.add_header("DATE", "Mon, 01 Jan 2024 00:00:00 GMT");
    b.add_header("X-OSS-META-A", "1");
    b.add_params("acl", None);
    b.add_header("x-oss-meta-b", "2");
    assert_eq!(a.string_to_sign(), b.string_to_sign());
    assert_eq!(a.authorization_header(), b.authorization_header());
    assert_eq!(
        a.string_to_sign().unwrap(),
        "PUT\n\n\nMon, 01 Jan 2024 00:00:00 GMT\nx-oss-meta-a:1\nx-oss-meta-b:2\n/b/o?acl&uploadId=5"
    );
}

#[test]
fn content_md5_and_type_are_signed() {
    let mut r = put_request();
    r.add_header("Content-MD5", "abc");
    r.set_content_type("text/plain");
    r.add_header("date", "Mon, 01 Jan 2024 00:00:00 GMT");
    r.add_header("x-oss-meta-a", "1");
    r.add_params("acl", None);
    r.add_params("prefix", Some("p"));
    assert_eq!(
        r.string_to_sign().unwrap(),
        "PUT\nYWJj\ntext/plain\nMon, 01 Jan 2024 00:00:00 GMT\nx-oss-meta-a:1\n/b/o?acl"
    );
    assert_eq!(
        r.authorization_header().unwrap().1,
        "OSS id:/xGqfUT4mfuM9n3Rr7piWGVNSHs="
    );
}

#[test]
fn sign_and_authorization_value() {
    let text = build_sign_str("PUT", "", "", "Mon, 01 Jan 2024 00:00:00 GMT", "", "/b/o");
    assert_eq!(text, "PUT\n\n\nMon, 01 Jan 2024 00:00:00 GMT\n/b/o");
    let s = sign("secret", &text).unwrap();
    assert_eq!(s, "QgkgclncuZBZ8I5QMkbX+sbzedk=");
    assert_eq!(authorization_value("id", &s), "OSS id:QgkgclncuZBZ8I5QMkbX+sbzedk=");
}

#[test]
fn resolver_keeps_only_sub_resources() {
    let params = vec![("acl".to_string(), None), ("prefix".to_string(), Some("a".to_string()))];
    assert_eq!(get_oss_resource_str("b", "o", &params), "/b/o?acl");
    let params = vec![("marker".to_string(), Some("x".to_string())), ("uploadId".to_string(), Some("5".to_string()))];
    assert_eq!(get_resources_str(&params), "?uploadId=5");
    assert_eq!(get_oss_resource_str("b", "o", &params), "/b/o?uploadId=5");
}

#[test]
fn resolver_without_sub_resources_or_bucket() {
    let params = vec![("max-keys".to_string(), Some("10".to_string()))];
    assert_eq!(get_oss_resource_str("b", "o", &params), "/b/o");
    assert_eq!(get_oss_resource_str("", "o", &Vec::new()), "/o");
}

#[test]
fn resolver_orders_by_key() {
    let mut r = put_request();
    r.add_params("z-param", Some("1"));
    r.add_params("acl", None);
    assert_eq!(r.params[0].0, "acl");
    assert_eq!(get_oss_resource_str("b", "o", &r.params), "/b/o?acl");
    r.add_params("uploadId", Some("5"));
    r.add_params("partNumber", Some("2"));
    assert_eq!(
        get_oss_resource_str("b", "o", &r.params),
        "/b/o?acl&partNumber=2&uploadId=5"
    );
}

#[test]
fn params_string_and_url() {
    let mut r = SignedRequest::new("GET", "e", "", "o", "", "", Schema::Https);
    assert_eq!(r.generate_url(), "https://e/o");
    r.add_params("prefix", Some("a"));
    r.add_params("acl", None);
    assert_eq!(get_params_str(&r.params), "?acl&prefix=a");
    assert_eq!(r.generate_url(), "https://e/o?acl&prefix=a");
}

#[test]
fn presigned_resource() {
    assert_eq!(get_oss_subresource_signed_str("b", "o", ""), "/b/o");
    assert_eq!(get_oss_subresource_signed_str("b", "o", "acl"), "/b/o?acl");
    assert_eq!(get_oss_subresource_signed_str("", "o", "acl"), "/o?acl");
}

#[test]
fn presigned_url_shape() {
    let c = OSSClient::new("e", None, Some("b"), "ID", "secret");
    let url = c.get_signed_url("obj", "GET", 1700000000, "", &Vec::new()).unwrap();
    assert_eq!(
        url,
        "http://b.e/obj?OSSAccessKeyId=ID&Expires=1700000000&Signature=nbtdYuCiuROcsK8m18jop9Ajo4s%3D"
    );
}

#[test]
fn presigned_url_headers_in_caller_order() {
    let c = OSSClient::new("e", Some("https"), Some("b"), "ID", "secret");
    let headers = vec![
        ("x-oss-meta-b".to_string(), "2".to_string()),
        ("content-type".to_string(), "text/plain".to_string()),
        ("x-oss-meta-a".to_string(), "1".to_string()),
        ("other".to_string(), "x".to_string()),
    ];
    let url = c.get_signed_url("obj", "PUT", 5, "acl", &headers).unwrap();
    assert!(url.starts_with("https://b.e/obj?OSSAccessKeyId=ID&Expires=5&Signature="));
}

#[test]
fn sign_url_defaults() {
    let c = OSSClient::new("e", None, Some("b"), "ID", "secret");
    let url = c.sign_url("obj", None).unwrap();
    assert!(url.starts_with("http://b.e/obj?OSSAccessKeyId=ID&Expires="));
    let opts = awos_rust::SignedUrlOptions::new(Some("GET"), Some(1700000000));
    assert_eq!(
        c.sign_url("obj", Some(&opts)).unwrap(),
        "http://b.e/obj?OSSAccessKeyId=ID&Expires=1700000000&Signature=nbtdYuCiuROcsK8m18jop9Ajo4s%3D"
    );
}

#[test]
fn s3_presigned_url() {
    let c = awos_rust::S3Config {
        endpoint: "http://127.0.0.1:9000".to_string(),
        bucket: "s3-test-bucket".to_string(),
        access_key_id: "minioadmin".to_string(),
        access_key_secret: "minioadmin".to_string(),
    };
    assert_eq!(c.object_path("s3_test_file"), "/s3-test-bucket/s3_test_file");
    let url = c.sign_url("s3_test_file", None);
    assert!(url.contains("/s3-test-bucket/s3_test_file?"));
    assert!(url.contains("X-Amz-Expires=3600"));
    assert!(url.contains("X-Amz-Signature="));
    let opts = awos_rust::SignedUrlOptions::new(Some("PUT"), Some(60));
    assert_eq!(awos_rust::s3::url_terms(Some(&opts)), ("PUT".to_string(), 60));
    assert_eq!(awos_rust::s3::url_terms(None), ("GET".to_string(), 3600));
}
