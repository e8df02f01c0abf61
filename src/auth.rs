use base64::Engine;
use hmac::{Hmac, Mac};
use sha1::Sha1;
use vstd::prelude::*;
use vstd::string::*;
use vstd::utf8::encode_utf8;

use crate::sorting::{entries_at, keys_distinct, selected, sorted_listing, sorted_selection};
use crate::text::str_eq;

verus! {

/// A request header: its name, in lower case, and its value.
pub type Header = (Seq<char>, Seq<char>);

/// What HMAC-SHA1 gives for `msg` under `key`.
pub uninterp spec fn hmac_sha1_of(key: Seq<u8>, msg: Seq<u8>) -> Seq<u8>;

/// The standard base64 encoding of `data`, with padding.
pub uninterp spec fn base64_of(data: Seq<u8>) -> Seq<char>;

/// Relies on hmac's `Hmac<Sha1>`: `new_from_slice` accepts a key of any length (it never
/// returns its error for HMAC), `update` feeds the message, `finalize` gives the 20-byte tag.
#[verifier::external_body]
fn hmac_sha1(key: &[u8], msg: &[u8]) -> (r: Vec<u8>)
    ensures
        r@ == hmac_sha1_of(key@, msg@),
        r@.len() == 20,
{
    match <Hmac<Sha1> as Mac>::new_from_slice(key) {
        Ok(mut mac) => {
            mac.update(msg);
            mac.finalize().into_bytes().to_vec()
        },
        Err(_) => Vec::new(),
    }
}

/// Relies on base64's `STANDARD` engine: `encode` writes standard base64 with padding.
#[verifier::external_body]
fn base64_encode(data: &[u8]) -> (r: String)
    ensures
        r@ == base64_of(data@),
{
    base64::engine::general_purpose::STANDARD.encode(data)
}

/// The value of the first header named `name`, or the empty string.
pub open spec fn header_value(hs: Seq<Header>, name: Seq<char>) -> Seq<char>
    decreases hs.len(),
{
    if hs.len() == 0 {
        Seq::empty()
    } else if hs[0].0 == name {
        hs[0].1
    } else {
        header_value(hs.drop_first(), name)
    }
}

/// Provider-specific headers, those named `x-oss-...`, take part in the signature.
pub open spec fn is_oss_header(k: Seq<char>) -> bool {
    k.len() >= 6 && k.take(6) == "x-oss-"@
}

/// `is_oss_header` as a predicate value.
pub open spec fn oss_header_selector() -> spec_fn(Seq<char>) -> bool {
    |k: Seq<char>| is_oss_header(k)
}

/// Headers written `name:value`, each followed by a line feed.
pub open spec fn render_headers(es: Seq<Header>) -> Seq<char>
    decreases es.len(),
{
    if es.len() == 0 {
        Seq::empty()
    } else {
        render_headers(es.drop_last()) + es.last().0 + ":"@ + es.last().1 + "\n"@
    }
}

/// The provider-specific headers, sorted by name and rendered.
pub open spec fn canonical_headers(hs: Seq<Header>) -> Seq<char> {
    render_headers(sorted_listing(selected(hs, oss_header_selector())))
}

/// The resource part of the signed string: `/bucket/object`, or `/` alone where there is
/// no bucket, then `?` and the sub-resources where there are any.
pub open spec fn resource_path(bucket: Seq<char>, object: Seq<char>, resources: Seq<char>) -> Seq<
    char,
> {
    let query = if resources.len() > 0 {
        "?"@ + resources
    } else {
        Seq::empty()
    };
    if bucket.len() == 0 {
        "/"@ + query
    } else {
        "/"@ + bucket + "/"@ + object + query
    }
}

/// The string that a request's signature is computed over.
pub open spec fn string_to_sign(
    verb: Seq<char>,
    content_md5: Seq<char>,
    content_type: Seq<char>,
    date: Seq<char>,
    canonical_headers: Seq<char>,
    resource: Seq<char>,
) -> Seq<char> {
    verb + "\n"@ + content_md5 + "\n"@ + content_type + "\n"@ + date + "\n"@ + canonical_headers
        + resource
}

/// The signed string of a request.
pub open spec fn request_string_to_sign(
    verb: Seq<char>,
    bucket: Seq<char>,
    object: Seq<char>,
    resources: Seq<char>,
    hs: Seq<Header>,
) -> Seq<char> {
    string_to_sign(
        verb,
        header_value(hs, "content-md5"@),
        header_value(hs, "content-type"@),
        header_value(hs, "date"@),
        canonical_headers(hs),
        resource_path(bucket, object, resources),
    )
}

/// The base64 of the HMAC-SHA1 of the signed string under the secret key.
pub open spec fn signature_of(key_secret: Seq<char>, to_sign: Seq<char>) -> Seq<char> {
    base64_of(hmac_sha1_of(encode_utf8(key_secret), encode_utf8(to_sign)))
}

/// The `Authorization` header value: `OSS <key_id>:<signature>`.
pub open spec fn authorization_of(key_id: Seq<char>, signature: Seq<char>) -> Seq<char> {
    "OSS "@ + key_id + ":"@ + signature
}

/// The value of the first header named `name`, or the empty string.
pub fn find_header(headers: &Vec<(String, String)>, name: &str) -> (r: String)
    ensures
        r@ == header_value(headers.deep_view(), name@),
{
    let ghost hs = headers.deep_view();
    let mut i: usize = 0;
    assert(hs.skip(0) =~= hs);
    while i < headers.len()
        invariant
            hs == headers.deep_view(),
            i <= hs.len(),
            header_value(hs, name@) == header_value(hs.skip(i as int), name@),
        decreases hs.len() - i,
    {
        if str_eq(headers[i].0.as_str(), name) {
            return headers[i].1.clone();
        }
        assert(hs.skip(i as int).drop_first() =~= hs.skip(i + 1));
        i = i + 1;
    }
    String::new()
}

/// Whether a header name starts with `x-oss-`.
pub fn is_oss_header_name(k: &str) -> (r: bool)
    ensures
        r == is_oss_header(k@),
{
    if k.unicode_len() < 6 {
        return false;
    }
    str_eq(k.substring_char(0, 6), "x-oss-")
}

/// Renders the provider-specific headers of `headers`, sorted by name.
pub fn canonicalize_headers(headers: &Vec<(String, String)>) -> (r: String)
    requires
        keys_distinct(headers.deep_view()),
    ensures
        r@ == canonical_headers(headers.deep_view()),
{
    let ghost hs = headers.deep_view();
    let n = headers.len();
    let mut mask: Vec<bool> = Vec::new();
    let mut i: usize = 0;
    while i < n
        invariant
            n == headers@.len(),
            hs == headers.deep_view(),
            i <= n,
            mask@.len() == i,
            forall|t: int| 0 <= t < i ==> #[trigger] mask@[t] == oss_header_selector()(hs[t].0),
        decreases n - i,
    {
        let m = is_oss_header_name(headers[i].0.as_str());
        mask.push(m);
        i = i + 1;
    }
    let order = sorted_selection(headers, &mask, Ghost(oss_header_selector()));
    let ghost es = entries_at(hs, order@);
    let mut r = String::new();
    let mut k: usize = 0;
    while k < order.len()
        invariant
            hs == headers.deep_view(),
            hs.len() == n,
            es == entries_at(hs, order@),
            forall|t: int| 0 <= t < order@.len() ==> #[trigger] order@[t] < n,
            k <= order@.len(),
            r@ == render_headers(es.take(k as int)),
        decreases order@.len() - k,
    {
        let h = &headers[order[k]];
        r.append(h.0.as_str());
        r.append(":");
        r.append(h.1.as_str());
        r.append("\n");
        proof {
            let t = es.take(k + 1);
            assert(t.drop_last() =~= es.take(k as int));
            assert(t.last() == es[k as int]);
        }
        k = k + 1;
    }
    assert(es.take(order@.len() as int) =~= es);
    r
}

/// The resource part of the signed string.
pub fn resource_path_str(bucket: &str, object: &str, resources: &str) -> (r: String)
    ensures
        r@ == resource_path(bucket@, object@, resources@),
{
    let mut r = String::new();
    r.append("/");
    if !bucket.is_empty() {
        r.append(bucket);
        r.append("/");
        r.append(object);
    }
    if !resources.is_empty() {
        r.append("?");
        r.append(resources);
    }
    proof {
        let query = if resources@.len() > 0 {
            "?"@ + resources@
        } else {
            Seq::empty()
        };
        if bucket@.len() == 0 {
            assert(r@ =~= "/"@ + query);
        } else {
            assert(r@ =~= "/"@ + bucket@ + "/"@ + object@ + query);
        }
    }
    r
}

/// Builds the signed string of a request from its verb, bucket, object, canonical
/// sub-resources and headers.
pub fn build_string_to_sign(
    verb: &str,
    bucket: &str,
    object: &str,
    resources: &str,
    headers: &Vec<(String, String)>,
) -> (r: String)
    requires
        keys_distinct(headers.deep_view()),
    ensures
        r@ == request_string_to_sign(verb@, bucket@, object@, resources@, headers.deep_view()),
{
    let md5 = find_header(headers, "content-md5");
    let content_type = find_header(headers, "content-type");
    let date = find_header(headers, "date");
    let canonical = canonicalize_headers(headers);
    let path = resource_path_str(bucket, object, resources);
    let mut r = String::new();
    r.append(verb);
    r.append("\n");
    r.append(md5.as_str());
    r.append("\n");
    r.append(content_type.as_str());
    r.append("\n");
    r.append(date.as_str());
    r.append("\n");
    r.append(canonical.as_str());
    r.append(path.as_str());
    assert(r@ =~= request_string_to_sign(verb@, bucket@, object@, resources@, headers.deep_view()));
    r
}

/// The `Authorization` header value for a computed signature.
pub fn authorization_header(key_id: &str, signature: &str) -> (r: String)
    ensures
        r@ == authorization_of(key_id@, signature@),
{
    let mut r = String::new();
    r.append("OSS ");
    r.append(key_id);
    r.append(":");
    r.append(signature);
    assert(r@ =~= authorization_of(key_id@, signature@));
    r
}

/// Signs a request: the base64 HMAC-SHA1 of its signed string under `key_secret`, in an
/// `Authorization` value for `key_id`.
pub fn sign(
    verb: &str,
    key_id: &str,
    key_secret: &str,
    bucket: &str,
    object: &str,
    resources: &str,
    headers: &Vec<(String, String)>,
) -> (r: String)
    requires
        keys_distinct(headers.deep_view()),
    ensures
        r@ == authorization_of(
            key_id@,
            signature_of(
                key_secret@,
                request_string_to_sign(verb@, bucket@, object@, resources@, headers.deep_view()),
            ),
        ),
{
    let to_sign = build_string_to_sign(verb, bucket, object, resources, headers);
    let digest = hmac_sha1(key_secret.as_bytes(), to_sign.as_str().as_bytes());
    let signature = base64_encode(digest.as_slice());
    authorization_header(key_id, signature.as_str())
}

proof fn lemma_middle_differs(p: Seq<char>, f1: Seq<char>, f2: Seq<char>, q: Seq<char>)
    requires
        f1 != f2,
    ensures
        p + f1 + q != p + f2 + q,
{
    if f1.len() == f2.len() {
        let k = choose|k: int| 0 <= k < f1.len() && f1[k] != f2[k];
        if !(exists|k: int| 0 <= k < f1.len() && f1[k] != f2[k]) {
            assert(f1 =~= f2);
        }
        assert((p + f1 + q)[p.len() + k] == f1[k]);
        assert((p + f2 + q)[p.len() + k] == f2[k]);
    } else {
        assert((p + f1 + q).len() != (p + f2 + q).len());
    }
}

/// A signature is a function of its inputs: equal inputs give equal tokens.
pub proof fn lemma_sign_deterministic(
    key_id: Seq<char>,
    key_secret: Seq<char>,
    to_sign1: Seq<char>,
    to_sign2: Seq<char>,
)
    requires
        to_sign1 == to_sign2,
    ensures
        authorization_of(key_id, signature_of(key_secret, to_sign1)) == authorization_of(
            key_id,
            signature_of(key_secret, to_sign2),
        ),
{
}

/// Changing only the verb, only the date, or only the resource path changes the string
/// that is signed.
pub proof fn lemma_string_to_sign_distinguishes(
    verb: Seq<char>,
    verb2: Seq<char>,
    content_md5: Seq<char>,
    content_type: Seq<char>,
    date: Seq<char>,
    date2: Seq<char>,
    headers: Seq<char>,
    resource: Seq<char>,
    resource2: Seq<char>,
)
    ensures
        verb != verb2 ==> string_to_sign(verb, content_md5, content_type, date, headers, resource)
            != string_to_sign(verb2, content_md5, content_type, date, headers, resource),
        date != date2 ==> string_to_sign(verb, content_md5, content_type, date, headers, resource)
            != string_to_sign(verb, content_md5, content_type, date2, headers, resource),
        resource != resource2 ==> string_to_sign(
            verb,
            content_md5,
            content_type,
            date,
            headers,
            resource,
        ) != string_to_sign(verb, content_md5, content_type, date, headers, resource2),
{
    let e = Seq::<char>::empty();
    let tail = "\n"@ + content_md5 + "\n"@ + content_type + "\n"@ + date + "\n"@ + headers
        + resource;
    if verb != verb2 {
        lemma_middle_differs(e, verb, verb2, tail);
        assert(string_to_sign(verb, content_md5, content_type, date, headers, resource) =~= e
            + verb + tail);
        assert(string_to_sign(verb2, content_md5, content_type, date, headers, resource) =~= e
            + verb2 + tail);
    }
    let pre = verb + "\n"@ + content_md5 + "\n"@ + content_type + "\n"@;
    let post = "\n"@ + headers + resource;
    if date != date2 {
        lemma_middle_differs(pre, date, date2, post);
        assert(string_to_sign(verb, content_md5, content_type, date, headers, resource) =~= pre
            + date + post);
        assert(string_to_sign(verb, content_md5, content_type, date2, headers, resource) =~= pre
            + date2 + post);
    }
    let pre2 = verb + "\n"@ + content_md5 + "\n"@ + content_type + "\n"@ + date + "\n"@ + headers;
    if resource != resource2 {
        lemma_middle_differs(pre2, resource, resource2, e);
        assert(string_to_sign(verb, content_md5, content_type, date, headers, resource) =~= pre2
            + resource + e);
        assert(string_to_sign(verb, content_md5, content_type, date, headers, resource2) =~= pre2
            + resource2 + e);
    }
}

} // verus!
