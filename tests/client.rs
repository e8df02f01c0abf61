use oss_sdk::oss::{
    get_complete_str, part_resources, set_header, upload_id_resources, CompleteMultipartUpload, Part, OSS,
};
use oss_sdk::text::{decimal_str, remove_first, starts_with, str_lt};

fn client(endpoint: &str) -> OSS {
    OSS::new("id".to_string(), "secret".to_string(), endpoint.to_string(), "bkt".to_string())
}

#[test]
fn test_get_complete_str() {
    let complete = CompleteMultipartUpload::new(vec![
        Part::new(2, r#""test""#.to_string()),
        Part::new(2, r#""123""#.to_string()),
    ]);
    let str = get_complete_str(&complete);
    assert_eq!(str, "<CompleteMultipartUpload><Part><PartNumber>2</PartNumber><ETag>\"test\"</ETag></Part><Part><PartNumber>2</PartNumber><ETag>\"123\"</ETag></Part></CompleteMultipartUpload>");
}

#[test]
fn completion_body_two_parts() {
    let complete = CompleteMultipartUpload::new(vec![
        Part::new(1, "etag1".to_string()),
        Part::new(2, "etag2".to_string()),
    ]);
    assert_eq!(
        get_complete_str(&complete),
        "<CompleteMultipartUpload><Part><PartNumber>1</PartNumber><ETag>etag1</ETag></Part><Part><PartNumber>2</PartNumber><ETag>etag2</ETag></Part></CompleteMultipartUpload>"
    );
}

#[test]
fn completion_body_no_parts() {
    assert_eq!(
        get_complete_str(&CompleteMultipartUpload::new(Vec::new())),
        "<CompleteMultipartUpload></CompleteMultipartUpload>"
    );
}

#[test]
fn client_accessors() {
    let mut c = client("oss-cn-hangzhou.aliyuncs.com");
    assert_eq!(c.key_id(), "id");
    assert_eq!(c.key_secret(), "secret");
    assert_eq!(c.endpoint(), "oss-cn-hangzhou.aliyuncs.com");
    assert_eq!(c.bucket(), "bkt");
    c.set_bucket("other");
    assert_eq!(c.bucket(), "other");
}

#[test]
fn host_urls() {
    let c = client("https://oss.example.com");
    assert_eq!(c.host("bkt", "obj", "acl"), "https://bkt.oss.example.com/obj?acl");
    let c = client("http://oss.example.com");
    assert_eq!(c.host("bkt", "obj", ""), "http://bkt.oss.example.com/obj?");
    let c = client("oss.example.com");
    assert_eq!(c.host("b", "o", "uploads"), "http://b.oss.example.com/o?uploads");
}

#[test]
fn client_resources_and_signature() {
    let c = client("oss.example.com");
    let params = vec![("uploads".to_string(), None), ("acl".to_string(), Some("1".to_string()))];
    assert_eq!(c.get_resources_str(&params), "acl=1&uploads");
    let hs = vec![("date".to_string(), "Thu, 17 Nov 2005 18:49:58 GMT".to_string())];
    assert_eq!(
        c.oss_sign("GET", "id", "secret", "bucket", "object", "", &hs),
        "OSS id:zBIVs8sO3Mvpc6pe/dl/ZsIe5t0="
    );
}

#[test]
fn signing_headers_stamps_date_and_authorization() {
    let c = OSS::new("id".to_string(), "secret".to_string(), "e".to_string(), "bucket".to_string());
    let mut hs = vec![("date".to_string(), "old".to_string()), ("x".to_string(), "y".to_string())];
    c.sign_headers("GET", "bucket", "object", "", &mut hs, "Thu, 17 Nov 2005 18:49:58 GMT");
    assert_eq!(
        hs,
        vec![
            ("x".to_string(), "y".to_string()),
            ("date".to_string(), "Thu, 17 Nov 2005 18:49:58 GMT".to_string()),
            ("authorization".to_string(), "OSS id:zBIVs8sO3Mvpc6pe/dl/ZsIe5t0=".to_string()),
        ]
    );
}

#[test]
fn setting_a_header_replaces_it() {
    let mut hs = vec![("a".to_string(), "1".to_string()), ("b".to_string(), "2".to_string())];
    set_header(&mut hs, "a", "3");
    assert_eq!(hs, vec![("b".to_string(), "2".to_string()), ("a".to_string(), "3".to_string())]);
    set_header(&mut hs, "c", "4");
    assert_eq!(hs.len(), 3);
}

#[test]
fn part_queries() {
    assert_eq!(part_resources(12, "abc"), "partNumber=12&uploadId=abc");
    assert_eq!(upload_id_resources("abc"), "uploadId=abc");
}

#[test]
fn decimal_rendering() {
    assert_eq!(decimal_str(0), "0");
    assert_eq!(decimal_str(9), "9");
    assert_eq!(decimal_str(10), "10");
    assert_eq!(decimal_str(102400), "102400");
    assert_eq!(decimal_str(u64::MAX), u64::MAX.to_string());
}

#[test]
fn text_helpers() {
    assert!(starts_with("https://x", "https"));
    assert!(!starts_with("http", "https"));
    assert_eq!(remove_first("a-https://-b-https://", "https://"), "a--b-https://");
    assert_eq!(remove_first("abc", "x"), "abc");
    assert_eq!(remove_first("abc", ""), "abc");
    assert!(str_lt("a", "b"));
    assert!(str_lt("ab", "abc"));
    assert!(!str_lt("abc", "abc"));
    assert!(str_lt("Z", "a"));
}

