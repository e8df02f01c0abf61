use oss_sdk::auth::{
    authorization_header, build_string_to_sign, canonicalize_headers, find_header,
    is_oss_header_name, resource_path_str, sign,
};
use oss_sdk::resources::{canonicalize_resources, is_resource_key};

fn params(items: &[(&str, Option<&str>)]) -> Vec<(String, Option<String>)> {
    items.iter().map(|(k, v)| (k.to_string(), v.map(|s| s.to_string()))).collect()
}

fn headers(items: &[(&str, &str)]) -> Vec<(String, String)> {
    items.iter().map(|(k, v)| (k.to_string(), v.to_string())).collect()
}

const DATE: &str = "Thu, 17 Nov 2005 18:49:58 GMT";

#[test]
fn canonical_resources_sorted_and_order_independent() {
    let a = canonicalize_resources(&params(&[("uploads", None), ("acl", Some("1"))]));
    let b = canonicalize_resources(&params(&[("acl", Some("1")), ("uploads", None)]));
    assert_eq!(a, "acl=1&uploads");
    assert_eq!(a, b);
}

#[test]
fn canonical_resources_drop_unknown_keys() {
    assert_eq!(canonicalize_resources(&params(&[("not-a-resource", Some("x"))])), "");
    assert_eq!(canonicalize_resources(&params(&[("b", None), ("a", Some("1"))])), "");
    assert_eq!(
        canonicalize_resources(&params(&[("foo", Some("1")), ("uploadId", Some("u")), ("partNumber", Some("3"))])),
        "partNumber=3&uploadId=u"
    );
}

#[test]
fn canonical_resources_of_nothing_is_empty() {
    assert_eq!(canonicalize_resources(&Vec::new()), "");
}

#[test]
fn canonical_resources_byte_order() {
    let s = canonicalize_resources(&params(&[
        ("response-expires", Some("0")),
        ("cors", None),
        ("callback-var", Some("v")),
        ("callback", Some("c")),
        ("x-oss-process", Some("p")),
    ]));
    assert_eq!(s, "callback=c&callback-var=v&cors&response-expires=0&x-oss-process=p");
}

#[test]
fn resource_keywords() {
    assert!(is_resource_key("acl"));
    assert!(is_resource_key("udfApplicationLog"));
    assert!(is_resource_key("comp"));
    assert!(!is_resource_key("Acl"));
    assert!(!is_resource_key(""));
}

#[test]
fn resource_path_forms() {
    assert_eq!(resource_path_str("bkt", "obj", ""), "/bkt/obj");
    assert_eq!(resource_path_str("bkt", "obj", "acl"), "/bkt/obj?acl");
    assert_eq!(resource_path_str("", "", ""), "/");
    assert_eq!(resource_path_str("", "ignored", "uploads"), "/?uploads");
}

#[test]
fn header_lookup_and_canonical_headers() {
    let hs = headers(&[("x-oss-b", "2"), ("date", DATE), ("x-oss-a", "1"), ("host", "h")]);
    assert_eq!(find_header(&hs, "date"), DATE);
    assert_eq!(find_header(&hs, "content-md5"), "");
    assert_eq!(canonicalize_headers(&hs), "x-oss-a:1\nx-oss-b:2\n");
    assert!(is_oss_header_name("x-oss-meta"));
    assert!(!is_oss_header_name("x-os"));
}

#[test]
fn string_to_sign_layout() {
    let hs = headers(&[
        ("x-oss-b", "2"),
        ("content-type", "text/plain"),
        ("date", DATE),
        ("x-oss-a", "1"),
        ("content-md5", "md5"),
    ]);
    let s = build_string_to_sign("PUT", "bkt", "obj", "acl", &hs);
    assert_eq!(s, format!("PUT\nmd5\ntext/plain\n{}\nx-oss-a:1\nx-oss-b:2\n/bkt/obj?acl", DATE));
}

#[test]
fn signature_known_value() {
    let hs = headers(&[("date", DATE)]);
    assert_eq!(sign("GET", "id", "secret", "bucket", "object", "", &hs), "OSS id:zBIVs8sO3Mvpc6pe/dl/ZsIe5t0=");
    let hs = headers(&[
        ("x-oss-b", "2"),
        ("content-type", "text/plain"),
        ("date", DATE),
        ("x-oss-a", "1"),
        ("content-md5", "md5"),
    ]);
    assert_eq!(sign("PUT", "ak", "sk", "bkt", "obj", "acl", &hs), "OSS ak:L1aLIfPVtZ7rIJ5vQP+um19oE4o=");
}

#[test]
fn signature_deterministic_and_sensitive() {
    let hs = headers(&[("date", DATE)]);
    let t1 = sign("GET", "id", "secret", "bucket", "object", "", &hs);
    let t2 = sign("GET", "id", "secret", "bucket", "object", "", &hs);
    assert_eq!(t1, t2);
    assert_ne!(t1, sign("PUT", "id", "secret", "bucket", "object", "", &hs));
    assert_ne!(t1, sign("GET", "id", "secret", "bucket", "other", "", &hs));
    let later = headers(&[("date", "Thu, 17 Nov 2005 18:49:59 GMT")]);
    assert_ne!(t1, sign("GET", "id", "secret", "bucket", "object", "", &later));
}

#[test]
fn authorization_value() {
    assert_eq!(authorization_header("key", "c2ln"), "OSS key:c2ln");
}
