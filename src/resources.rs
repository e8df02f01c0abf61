use vstd::prelude::*;
use vstd::string::*;

use crate::sorting::{entries_at, keys_distinct, lemma_sorted_unique, selected, sorted_listing, sorted_selection};
use crate::text::str_eq;

verus! {

/// A sub-resource parameter: its name, and its value if it has one.
pub type Param = (Seq<char>, Option<Seq<char>>);

/// The sub-resource keywords that the provider recognises; only these take part in a
/// query string and in a signature.
pub open spec fn is_resource(k: Seq<char>) -> bool {
    k == "acl"@
        || k == "uploads"@
        || k == "location"@
        || k == "cors"@
        || k == "logging"@
        || k == "website"@
        || k == "referer"@
        || k == "lifecycle"@
        || k == "delete"@
        || k == "append"@
        || k == "tagging"@
        || k == "objectMeta"@
        || k == "uploadId"@
        || k == "partNumber"@
        || k == "security-token"@
        || k == "position"@
        || k == "img"@
        || k == "style"@
        || k == "styleName"@
        || k == "replication"@
        || k == "replicationProgress"@
        || k == "replicationLocation"@
        || k == "cname"@
        || k == "bucketInfo"@
        || k == "comp"@
        || k == "qos"@
        || k == "live"@
        || k == "status"@
        || k == "vod"@
        || k == "startTime"@
        || k == "endTime"@
        || k == "symlink"@
        || k == "x-oss-process"@
        || k == "response-content-type"@
        || k == "response-content-language"@
        || k == "response-expires"@
        || k == "response-cache-control"@
        || k == "response-content-disposition"@
        || k == "response-content-encoding"@
        || k == "udf"@
        || k == "udfName"@
        || k == "udfImage"@
        || k == "udfId"@
        || k == "udfImageDesc"@
        || k == "udfApplication"@
        || k == "udfApplicationLog"@
        || k == "restore"@
        || k == "callback"@
        || k == "callback-var"@
}

/// Whether `k` is a recognised sub-resource keyword.
pub fn is_resource_key(k: &str) -> (r: bool)
    ensures
        r == is_resource(k@),
{
    str_eq(k, "acl")
        || str_eq(k, "uploads")
        || str_eq(k, "location")
        || str_eq(k, "cors")
        || str_eq(k, "logging")
        || str_eq(k, "website")
        || str_eq(k, "referer")
        || str_eq(k, "lifecycle")
        || str_eq(k, "delete")
        || str_eq(k, "append")
        || str_eq(k, "tagging")
        || str_eq(k, "objectMeta")
        || str_eq(k, "uploadId")
        || str_eq(k, "partNumber")
        || str_eq(k, "security-token")
        || str_eq(k, "position")
        || str_eq(k, "img")
        || str_eq(k, "style")
        || str_eq(k, "styleName")
        || str_eq(k, "replication")
        || str_eq(k, "replicationProgress")
        || str_eq(k, "replicationLocation")
        || str_eq(k, "cname")
        || str_eq(k, "bucketInfo")
        || str_eq(k, "comp")
        || str_eq(k, "qos")
        || str_eq(k, "live")
        || str_eq(k, "status")
        || str_eq(k, "vod")
        || str_eq(k, "startTime")
        || str_eq(k, "endTime")
        || str_eq(k, "symlink")
        || str_eq(k, "x-oss-process")
        || str_eq(k, "response-content-type")
        || str_eq(k, "response-content-language")
        || str_eq(k, "response-expires")
        || str_eq(k, "response-cache-control")
        || str_eq(k, "response-content-disposition")
        || str_eq(k, "response-content-encoding")
        || str_eq(k, "udf")
        || str_eq(k, "udfName")
        || str_eq(k, "udfImage")
        || str_eq(k, "udfId")
        || str_eq(k, "udfImageDesc")
        || str_eq(k, "udfApplication")
        || str_eq(k, "udfApplicationLog")
        || str_eq(k, "restore")
        || str_eq(k, "callback")
        || str_eq(k, "callback-var")
}

/// `is_resource` as a predicate value.
pub open spec fn resource_selector() -> spec_fn(Seq<char>) -> bool {
    |k: Seq<char>| is_resource(k)
}

/// The parameters of `ps` whose name is recognised.
pub open spec fn resource_entries(ps: Seq<Param>) -> Set<Param> {
    selected(ps, resource_selector())
}

/// One parameter as it stands in a query: `key`, or `key=value`.
pub open spec fn render_param(p: Param) -> Seq<char> {
    match p.1 {
        None => p.0,
        Some(v) => p.0 + "="@ + v,
    }
}

/// Parameters joined by `&`.
pub open spec fn render(es: Seq<Param>) -> Seq<char>
    decreases es.len(),
{
    if es.len() == 0 {
        Seq::empty()
    } else if es.len() == 1 {
        render_param(es[0])
    } else {
        render(es.drop_last()) + "&"@ + render_param(es.last())
    }
}

/// The canonical string of a parameter list: the recognised parameters, sorted by name,
/// rendered and joined by `&`.
pub open spec fn canonical_resources(ps: Seq<Param>) -> Seq<char> {
    render(sorted_listing(resource_entries(ps)))
}

/// Builds the canonical string of `params`: names outside the recognised keywords are
/// dropped, the rest sorted by name and written `key` or `key=value`, joined by `&`.
pub fn canonicalize_resources(params: &Vec<(String, Option<String>)>) -> (r: String)
    requires
        keys_distinct(params.deep_view()),
    ensures
        r@ == canonical_resources(params.deep_view()),
{
    let ghost ps = params.deep_view();
    let n = params.len();
    let mut mask: Vec<bool> = Vec::new();
    let mut i: usize = 0;
    while i < n
        invariant
            n == params@.len(),
            ps == params.deep_view(),
            i <= n,
            mask@.len() == i,
            forall|t: int| 0 <= t < i ==> #[trigger] mask@[t] == resource_selector()(ps[t].0),
        decreases n - i,
    {
        let m = is_resource_key(params[i].0.as_str());
        mask.push(m);
        i = i + 1;
    }
    let order = sorted_selection(params, &mask, Ghost(resource_selector()));
    let ghost es = entries_at(ps, order@);
    let mut r = String::new();
    let mut k: usize = 0;
    while k < order.len()
        invariant
            ps == params.deep_view(),
            ps.len() == n,
            es == entries_at(ps, order@),
            forall|t: int| 0 <= t < order@.len() ==> #[trigger] order@[t] < n,
            k <= order@.len(),
            r@ == render(es.take(k as int)),
        decreases order@.len() - k,
    {
        let p = &params[order[k]];
        let ghost before = r@;
        if k > 0 {
            r.append("&");
        }
        r.append(p.0.as_str());
        match &p.1 {
            Some(v) => {
                r.append("=");
                r.append(v.as_str());
            },
            None => {},
        }
        proof {
            let t = es.take(k + 1);
            assert(t.drop_last() =~= es.take(k as int));
            assert(t.last() == es[k as int]);
            assert(es[k as int] == ps[order@[k as int] as int]);
            if k == 0 {
                assert(r@ =~= render_param(es[0]));
            } else {
                assert(r@ =~= before + "&"@ + render_param(es[k as int]));
            }
        }
        k = k + 1;
    }
    assert(es.take(order@.len() as int) =~= es);
    r
}

/// The canonical string depends only on which parameters are given, not on the order in
/// which they are listed.
pub proof fn lemma_canonical_order_independent(p1: Seq<Param>, p2: Seq<Param>)
    requires
        p1.to_set() == p2.to_set(),
    ensures
        canonical_resources(p1) == canonical_resources(p2),
{
    assert forall|q: Param| p1.contains(q) == p2.contains(q) by {
        assert(p1.to_set().contains(q) == p1.contains(q));
        assert(p2.to_set().contains(q) == p2.contains(q));
    }
    assert(resource_entries(p1) =~= resource_entries(p2));
}

/// Parameters whose names are all unrecognised canonicalize to the empty string.
pub proof fn lemma_unrecognised_dropped(ps: Seq<Param>)
    requires
        forall|i: int| 0 <= i < ps.len() ==> !is_resource(#[trigger] ps[i].0),
    ensures
        canonical_resources(ps) == Seq::<char>::empty(),
{
    let e = Seq::<Param>::empty();
    assert(resource_entries(ps) =~= Set::empty());
    assert(e.to_set() =~= Set::empty());
    lemma_sorted_unique(e, sorted_listing(resource_entries(ps)));
}

} // verus!
