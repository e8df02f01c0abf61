use vstd::prelude::*;
use vstd::string::*;

use crate::auth::{authorization_of, request_string_to_sign, sign, signature_of, Header};
use crate::resources::{canonical_resources, canonicalize_resources};
use crate::sorting::keys_distinct;
use crate::text::{decimal, decimal_str, has_prefix, remove_first, replace_first, starts_with};

verus! {

/// A client of one account at one endpoint, with a current bucket.
#[derive(Clone, Debug)]
pub struct OSS {
    key_id: String,
    key_secret: String,
    endpoint: String,
    bucket: String,
}

/// What a client holds: its keys, its endpoint and its current bucket.
pub struct OSSView {
    pub key_id: Seq<char>,
    pub key_secret: Seq<char>,
    pub endpoint: Seq<char>,
    pub bucket: Seq<char>,
}

impl View for OSS {
    type V = OSSView;

    closed spec fn view(&self) -> OSSView {
        OSSView {
            key_id: self.key_id@,
            key_secret: self.key_secret@,
            endpoint: self.endpoint@,
            bucket: self.bucket@,
        }
    }
}

/// The URL of an object: the scheme of the endpoint, the bucket as a sub-domain, the
/// endpoint without its first `https://` (or `http://`), the object and the query.
pub open spec fn host_url(
    endpoint: Seq<char>,
    bucket: Seq<char>,
    object: Seq<char>,
    resources: Seq<char>,
) -> Seq<char> {
    if has_prefix(endpoint, "https"@) {
        "https://"@ + bucket + "."@ + replace_first(endpoint, "https://"@) + "/"@ + object + "?"@
            + resources
    } else {
        "http://"@ + bucket + "."@ + replace_first(endpoint, "http://"@) + "/"@ + object + "?"@
            + resources
    }
}

/// `hs` without any header named `name`, then that header set to `value`.
pub open spec fn with_header(hs: Seq<Header>, name: Seq<char>, value: Seq<char>) -> Seq<Header> {
    hs.filter(not_named(name)).push((name, value))
}

/// Accepts the headers not named `name`.
pub open spec fn not_named(name: Seq<char>) -> spec_fn(Header) -> bool {
    |h: Header| h.0 != name
}

/// Sets the header `name` to `value`, dropping any earlier header of that name.
pub fn set_header(headers: &mut Vec<(String, String)>, name: &str, value: &str)
    requires
        keys_distinct(old(headers).deep_view()),
    ensures
        final(headers).deep_view() == with_header(old(headers).deep_view(), name@, value@),
        keys_distinct(final(headers).deep_view()),
{
    let ghost hs = old(headers).deep_view();
    let ghost pred = not_named(name@);
    let mut kept: Vec<(String, String)> = Vec::new();
    let mut i: usize = 0;
    assert(hs.take(0).filter(pred) =~= Seq::<Header>::empty()) by {
        reveal(Seq::filter);
    }
    while i < headers.len()
        invariant
            hs == headers.deep_view(),
            pred == not_named(name@),
            keys_distinct(hs),
            i <= hs.len(),
            kept.deep_view() == hs.take(i as int).filter(pred),
            keys_distinct(kept.deep_view()),
            forall|k: int|
                0 <= k < kept.deep_view().len() ==> #[trigger] kept.deep_view()[k].0 != name@
                    && exists|j: int| 0 <= j < i && hs[j].0 == kept.deep_view()[k].0,
        decreases hs.len() - i,
    {
        let ghost before = kept.deep_view();
        if !crate::text::str_eq(headers[i].0.as_str(), name) {
            let h = (headers[i].0.clone(), headers[i].1.clone());
            kept.push(h);
            proof {
                let kd = kept.deep_view();
                assert(kd =~= before.push(hs[i as int]));
                assert forall|a: int, b: int| 0 <= a < b < kd.len() implies #[trigger] kd[a].0
                    != #[trigger] kd[b].0 by {
                    if b == kd.len() - 1 {
                        assert(kd[a] == before[a]);
                        let j = choose|j: int| 0 <= j < i && hs[j].0 == before[a].0;
                        assert(hs[j].0 != hs[i as int].0);
                    } else {
                        assert(kd[a] == before[a] && kd[b] == before[b]);
                    }
                }
                assert forall|k: int| 0 <= k < kd.len() implies #[trigger] kd[k].0 != name@
                    && exists|j: int| 0 <= j < i + 1 && hs[j].0 == kd[k].0 by {
                    if k < kd.len() - 1 {
                        assert(kd[k] == before[k]);
                        let j = choose|j: int| 0 <= j < i && hs[j].0 == before[k].0;
                        assert(hs[j].0 == kd[k].0);
                    } else {
                        assert(hs[i as int].0 == kd[k].0);
                    }
                }
            }
        }
        proof {
            assert(hs.take(i + 1) =~= hs.take(i as int) + seq![hs[i as int]]);
            assert(seq![hs[i as int]].filter(pred) =~= if pred(hs[i as int]) {
                seq![hs[i as int]]
            } else {
                Seq::empty()
            }) by {
                reveal(Seq::filter);
                assert(seq![hs[i as int]].drop_last() =~= Seq::<Header>::empty());
                assert(Seq::<Header>::empty().filter(pred) =~= Seq::<Header>::empty());
            }
            Seq::<Header>::filter_distributes_over_add(
                hs.take(i as int),
                seq![hs[i as int]],
                pred,
            );
            assert(hs.take(i + 1).filter(pred) == hs.take(i as int).filter(pred) + seq![
                hs[i as int],
            ].filter(pred));
            assert(pred(hs[i as int]) == (hs[i as int].0 != name@));
            assert(headers.deep_view()[i as int].0 == headers@[i as int].0@);
            assert(kept.deep_view() =~= hs.take(i + 1).filter(pred));
        }
        i = i + 1;
    }
    let ghost before = kept.deep_view();
    kept.push((name.to_owned(), value.to_owned()));
    proof {
        assert(hs.take(hs.len() as int) =~= hs);
        let kd = kept.deep_view();
        assert(kd =~= before.push((name@, value@)));
        assert forall|a: int, b: int| 0 <= a < b < kd.len() implies #[trigger] kd[a].0
            != #[trigger] kd[b].0 by {
            if b == kd.len() - 1 {
                assert(kd[a] == before[a]);
            } else {
                assert(kd[a] == before[a] && kd[b] == before[b]);
            }
        }
    }
    *headers = kept;
}

impl OSS {
    pub fn new(key_id: String, key_secret: String, endpoint: String, bucket: String) -> (r: Self)
        ensures
            r@.key_id == key_id@,
            r@.key_secret == key_secret@,
            r@.endpoint == endpoint@,
            r@.bucket == bucket@,
    {
        OSS { key_id, key_secret, endpoint, bucket }
    }

    pub fn bucket(&self) -> (r: &str)
        ensures
            r@ == self@.bucket,
    {
        self.bucket.as_str()
    }

    pub fn endpoint(&self) -> (r: &str)
        ensures
            r@ == self@.endpoint,
    {
        self.endpoint.as_str()
    }

    pub fn key_id(&self) -> (r: &str)
        ensures
            r@ == self@.key_id,
    {
        self.key_id.as_str()
    }

    pub fn key_secret(&self) -> (r: &str)
        ensures
            r@ == self@.key_secret,
    {
        self.key_secret.as_str()
    }

    pub fn set_bucket(&mut self, bucket: &str)
        ensures
            final(self)@.bucket == bucket@,
            final(self)@.key_id == old(self)@.key_id,
            final(self)@.key_secret == old(self)@.key_secret,
            final(self)@.endpoint == old(self)@.endpoint,
    {
        self.bucket = bucket.to_owned();
    }

    /// The URL of `object` in `bucket` with the query `resources_str`.
    pub fn host(&self, bucket: &str, object: &str, resources_str: &str) -> (r: String)
        ensures
            r@ == host_url(self@.endpoint, bucket@, object@, resources_str@),
    {
        let mut r = String::new();
        let rest;
        if starts_with(self.endpoint.as_str(), "https") {
            r.append("https://");
            rest = remove_first(self.endpoint.as_str(), "https://");
        } else {
            r.append("http://");
            rest = remove_first(self.endpoint.as_str(), "http://");
        }
        r.append(bucket);
        r.append(".");
        r.append(rest.as_str());
        r.append("/");
        r.append(object);
        r.append("?");
        r.append(resources_str);
        assert(r@ =~= host_url(self@.endpoint, bucket@, object@, resources_str@));
        r
    }

    /// The canonical query string of `params` (see `canonicalize_resources`).
    pub fn get_resources_str(&self, params: &Vec<(String, Option<String>)>) -> (r: String)
        requires
            keys_distinct(params.deep_view()),
        ensures
            r@ == canonical_resources(params.deep_view()),
    {
        canonicalize_resources(params)
    }

    /// The `Authorization` value of a request (see `auth::sign`).
    pub fn oss_sign(
        &self,
        verb: &str,
        key_id: &str,
        key_secret: &str,
        bucket: &str,
        object: &str,
        oss_resources: &str,
        headers: &Vec<(String, String)>,
    ) -> (r: String)
        requires
            keys_distinct(headers.deep_view()),
        ensures
            r@ == authorization_of(
                key_id@,
                signature_of(
                    key_secret@,
                    request_string_to_sign(verb@, bucket@, object@, oss_resources@, headers.deep_view()),
                ),
            ),
    {
        sign(verb, key_id, key_secret, bucket, object, oss_resources, headers)
    }

    /// Stamps `headers` with the `date` header, then signs them with this client's keys and
    /// adds the `authorization` header.
    pub fn sign_headers(
        &self,
        verb: &str,
        bucket: &str,
        object: &str,
        resources_str: &str,
        headers: &mut Vec<(String, String)>,
        date: &str,
    )
        requires
            keys_distinct(old(headers).deep_view()),
        ensures
            ({
                let dated = with_header(old(headers).deep_view(), "date"@, date@);
                final(headers).deep_view() == with_header(
                    dated,
                    "authorization"@,
                    authorization_of(
                        self@.key_id,
                        signature_of(
                            self@.key_secret,
                            request_string_to_sign(verb@, bucket@, object@, resources_str@, dated),
                        ),
                    ),
                )
            }),
            keys_distinct(final(headers).deep_view()),
    {
        set_header(headers, "date", date);
        let token = self.oss_sign(
            verb,
            self.key_id.as_str(),
            self.key_secret.as_str(),
            bucket,
            object,
            resources_str,
            headers,
        );
        set_header(headers, "authorization", token.as_str());
    }
}

/// The query of a part upload: `partNumber=<n>&uploadId=<id>`.
pub fn part_resources(number: u64, upload_id: &str) -> (r: String)
    ensures
        r@ == "partNumber="@ + decimal(number as nat) + "&uploadId="@ + upload_id@,
{
    let mut r = String::new();
    r.append("partNumber=");
    r.append(decimal_str(number).as_str());
    r.append("&uploadId=");
    r.append(upload_id);
    assert(r@ =~= "partNumber="@ + decimal(number as nat) + "&uploadId="@ + upload_id@);
    r
}

/// The query of a request on an upload in progress: `uploadId=<id>`.
pub fn upload_id_resources(upload_id: &str) -> (r: String)
    ensures
        r@ == "uploadId="@ + upload_id@,
{
    let mut r = String::new();
    r.append("uploadId=");
    r.append(upload_id);
    r
}

/// One uploaded part: its sequence number and the tag the provider returned for it.
#[derive(Clone, Debug, PartialEq, Eq)]
pub struct Part {
    pub part_number: u64,
    pub etag: String,
}

impl Part {
    pub fn new(part_number: u64, etag: String) -> (r: Part)
        ensures
            r.part_number == part_number,
            r.etag@ == etag@,
    {
        Part { part_number, etag }
    }
}

/// The parts of a completion request, in upload order.
#[derive(Clone, Debug, PartialEq, Eq)]
pub struct CompleteMultipartUpload {
    pub parts: Vec<Part>,
}

impl CompleteMultipartUpload {
    pub fn new(parts: Vec<Part>) -> (r: CompleteMultipartUpload)
        ensures
            r.parts@ == parts@,
    {
        CompleteMultipartUpload { parts }
    }
}

/// One part element of a completion body.
pub open spec fn part_xml(p: Part) -> Seq<char> {
    "<Part><PartNumber>"@ + decimal(p.part_number as nat) + "</PartNumber><ETag>"@ + p.etag@
        + "</ETag></Part>"@
}

/// The part elements of `parts`, in order, with nothing between them.
pub open spec fn parts_xml(parts: Seq<Part>) -> Seq<char>
    decreases parts.len(),
{
    if parts.len() == 0 {
        Seq::empty()
    } else {
        parts_xml(parts.drop_last()) + part_xml(parts.last())
    }
}

/// The body of a completion request.
pub open spec fn complete_xml(parts: Seq<Part>) -> Seq<char> {
    "<CompleteMultipartUpload>"@ + parts_xml(parts) + "</CompleteMultipartUpload>"@
}

/// Renders the body of a completion request, parts in the order given.
pub fn get_complete_str(complete: &CompleteMultipartUpload) -> (r: String)
    ensures
        r@ == complete_xml(complete.parts@),
{
    let parts = &complete.parts;
    let mut body = String::new();
    let mut i: usize = 0;
    while i < parts.len()
        invariant
            i <= parts@.len(),
            body@ == parts_xml(parts@.take(i as int)),
        decreases parts@.len() - i,
    {
        let p = &parts[i];
        body.append("<Part><PartNumber>");
        body.append(decimal_str(p.part_number).as_str());
        body.append("</PartNumber><ETag>");
        body.append(p.etag.as_str());
        body.append("</ETag></Part>");
        proof {
            let t = parts@.take(i + 1);
            assert(t.drop_last() =~= parts@.take(i as int));
            assert(t.last() == parts@[i as int]);
        }
        i = i + 1;
    }
    assert(parts@.take(parts@.len() as int) =~= parts@);
    let mut r = String::new();
    r.append("<CompleteMultipartUpload>");
    r.append(body.as_str());
    r.append("</CompleteMultipartUpload>");
    assert(r@ =~= complete_xml(complete.parts@));
    r
}

} // verus!
