use vstd::prelude::*;

use crate::text::{lemma_seq_lt_irreflexive, lemma_seq_lt_total, lemma_seq_lt_transitive, seq_lt, str_lt};

verus! {

/// No two entries share a name.
pub open spec fn keys_distinct<T>(ps: Seq<(Seq<char>, T)>) -> bool {
    forall|i: int, j: int| 0 <= i < j < ps.len() ==> #[trigger] ps[i].0 != #[trigger] ps[j].0
}

/// Names strictly ascend.
pub open spec fn sorted_by_key<T>(es: Seq<(Seq<char>, T)>) -> bool {
    forall|i: int, j: int| 0 <= i < j < es.len() ==> seq_lt(#[trigger] es[i].0, #[trigger] es[j].0)
}

/// The entries of `ps` whose name `sel` accepts.
pub open spec fn selected<T>(ps: Seq<(Seq<char>, T)>, sel: spec_fn(Seq<char>) -> bool) -> Set<(Seq<char>, T)> {
    Set::new(|p: (Seq<char>, T)| ps.contains(p) && sel(p.0))
}

/// The entries of `s` listed by strictly ascending name.
pub open spec fn sorted_listing<T>(s: Set<(Seq<char>, T)>) -> Seq<(Seq<char>, T)> {
    choose|es: Seq<(Seq<char>, T)>| sorted_by_key(es) && es.to_set() == s
}

/// The entries that `order` points at, in that order.
pub open spec fn entries_at<T>(ps: Seq<(Seq<char>, T)>, order: Seq<usize>) -> Seq<(Seq<char>, T)> {
    order.map_values(|k: usize| ps[k as int])
}

/// Two lists sorted by strictly ascending names that hold the same entries are equal.
pub proof fn lemma_sorted_unique<T>(a: Seq<(Seq<char>, T)>, b: Seq<(Seq<char>, T)>)
    requires
        sorted_by_key(a),
        sorted_by_key(b),
        a.to_set() == b.to_set(),
    ensures
        a == b,
    decreases a.len(),
{
    if a.len() == 0 {
        if b.len() > 0 {
            assert(b.to_set().contains(b[0]));
        }
        assert(a =~= b);
    } else {
        assert(a.to_set().contains(a[0]));
        assert(b.to_set().contains(a[0]));
        let j = choose|j: int| 0 <= j < b.len() && b[j] == a[0];
        assert(b.to_set().contains(b[0]));
        assert(a.to_set().contains(b[0]));
        let i = choose|i: int| 0 <= i < a.len() && a[i] == b[0];
        if i > 0 {
            assert(seq_lt(a[0].0, a[i].0));
            if j > 0 {
                assert(seq_lt(b[0].0, b[j].0));
                lemma_seq_lt_transitive(a[0].0, a[i].0, a[0].0);
            }
            lemma_seq_lt_irreflexive(a[0].0);
        }
        assert(a[0] == b[0]);
        let ta = a.drop_first();
        let tb = b.drop_first();
        assert forall|x: (Seq<char>, T)| ta.to_set().contains(x) implies tb.to_set().contains(x) by {
            let m = choose|m: int| 0 <= m < ta.len() && ta[m] == x;
            assert(a[m + 1] == x);
            assert(b.to_set().contains(x));
            let k = choose|k: int| 0 <= k < b.len() && b[k] == x;
            if k == 0 {
                assert(seq_lt(a[0].0, a[m + 1].0));
                lemma_seq_lt_irreflexive(x.0);
            }
            assert(tb[k - 1] == x);
        }
        assert forall|x: (Seq<char>, T)| tb.to_set().contains(x) implies ta.to_set().contains(x) by {
            let m = choose|m: int| 0 <= m < tb.len() && tb[m] == x;
            assert(b[m + 1] == x);
            assert(a.to_set().contains(x));
            let k = choose|k: int| 0 <= k < a.len() && a[k] == x;
            if k == 0 {
                assert(seq_lt(b[0].0, b[m + 1].0));
                lemma_seq_lt_irreflexive(x.0);
            }
            assert(ta[k - 1] == x);
        }
        assert(ta.to_set() =~= tb.to_set());
        lemma_sorted_unique(ta, tb);
        assert(a =~= seq![a[0]] + ta);
        assert(b =~= seq![b[0]] + tb);
    }
}

/// Positions of the entries of `items` that `mask` marks, ordered by ascending name.
pub fn sorted_selection<V: DeepView>(
    items: &Vec<(String, V)>,
    mask: &Vec<bool>,
    Ghost(sel): Ghost<spec_fn(Seq<char>) -> bool>,
) -> (order: Vec<usize>)
    requires
        keys_distinct(items.deep_view()),
        mask@.len() == items@.len(),
        forall|t: int| 0 <= t < mask@.len() ==> #[trigger] mask@[t] == sel(items.deep_view()[t].0),
    ensures
        forall|t: int| 0 <= t < order@.len() ==> #[trigger] order@[t] < items@.len(),
        entries_at(items.deep_view(), order@) == sorted_listing(selected(items.deep_view(), sel)),
{
    let ghost ps = items.deep_view();
    let n = items.len();
    let mut order: Vec<usize> = Vec::new();
    let mut i: usize = 0;
    assert(ps.take(0).to_set() =~= Set::empty());
    assert(entries_at(ps, order@).to_set() =~= selected(ps.take(0), sel));
    while i < n
        invariant
            n == items@.len(),
            ps == items.deep_view(),
            ps.len() == n,
            keys_distinct(ps),
            mask@.len() == n,
            forall|t: int| 0 <= t < n ==> #[trigger] mask@[t] == sel(ps[t].0),
            i <= n,
            forall|k: int| 0 <= k < order@.len() ==> #[trigger] order@[k] < i,
            sorted_by_key(entries_at(ps, order@)),
            entries_at(ps, order@).to_set() == selected(ps.take(i as int), sel),
        decreases n - i,
    {
        let ghost pre = ps.take(i as int);
        let ghost pre1 = ps.take(i + 1);
        let key = items[i].0.as_str();
        assert(key@ == ps[i as int].0);
        if mask[i] {
            let mut j: usize = 0;
            while j < order.len() && str_lt(items[order[j]].0.as_str(), key)
                invariant
                    ps == items.deep_view(),
                    ps.len() == n,
                    i < n,
                    key@ == ps[i as int].0,
                    j <= order@.len(),
                    forall|k: int| 0 <= k < order@.len() ==> #[trigger] order@[k] < i,
                    forall|k: int| 0 <= k < j ==> seq_lt(#[trigger] ps[order@[k] as int].0, key@),
                decreases order@.len() - j,
            {
                j = j + 1;
            }
            let ghost old_es = entries_at(ps, order@);
            let ghost x = ps[i as int];
            proof {
                if j < order@.len() {
                    let o = order@[j as int] as int;
                    assert(ps[o].0 != x.0);
                    assert(!seq_lt(ps[o].0, x.0));
                    lemma_seq_lt_total(ps[o].0, x.0);
                }
            }
            order.insert(j, i);
            let ghost new_es = entries_at(ps, order@);
            assert(new_es =~= old_es.insert(j as int, x));
            assert forall|a: int, b: int| 0 <= a < b < new_es.len() implies seq_lt(
                #[trigger] new_es[a].0,
                #[trigger] new_es[b].0,
            ) by {
                if b == j {
                    assert(new_es[a] == old_es[a]);
                } else if a == j {
                    assert(new_es[b] == old_es[b - 1]);
                    if b - 1 > j {
                        assert(seq_lt(old_es[j as int].0, old_es[b - 1].0));
                        lemma_seq_lt_transitive(x.0, old_es[j as int].0, old_es[b - 1].0);
                    }
                } else if a < j && b > j {
                    assert(new_es[a] == old_es[a]);
                    assert(new_es[b] == old_es[b - 1]);
                    if b - 1 > j {
                        assert(seq_lt(old_es[j as int].0, old_es[b - 1].0));
                        lemma_seq_lt_transitive(x.0, old_es[j as int].0, old_es[b - 1].0);
                    }
                    lemma_seq_lt_transitive(old_es[a].0, x.0, old_es[b - 1].0);
                } else if b < j {
                    assert(new_es[a] == old_es[a] && new_es[b] == old_es[b]);
                } else {
                    assert(new_es[a] == old_es[a - 1] && new_es[b] == old_es[b - 1]);
                }
            }
            assert forall|q: (Seq<char>, V::V)| new_es.to_set().contains(q) == selected(
                pre1,
                sel,
            ).contains(q) by {
                if new_es.to_set().contains(q) {
                    let m = choose|m: int| 0 <= m < new_es.len() && new_es[m] == q;
                    if m == j {
                        assert(pre1[i as int] == q);
                    } else {
                        let m2 = if m < j {
                            m
                        } else {
                            m - 1
                        };
                        assert(old_es[m2] == q);
                        assert(old_es.to_set().contains(q));
                        let t = choose|t: int| 0 <= t < i && pre[t] == q;
                        assert(pre1[t] == q);
                    }
                }
                if selected(pre1, sel).contains(q) {
                    let t = choose|t: int| 0 <= t < i + 1 && pre1[t] == q;
                    if t == i {
                        assert(new_es[j as int] == q);
                    } else {
                        assert(pre[t] == q);
                        assert(selected(pre, sel).contains(q));
                        assert(old_es.to_set().contains(q));
                        let m = choose|m: int| 0 <= m < old_es.len() && old_es[m] == q;
                        if m < j {
                            assert(new_es[m] == q);
                        } else {
                            assert(new_es[m + 1] == q);
                        }
                    }
                }
            }
            assert(new_es.to_set() =~= selected(pre1, sel));
        } else {
            assert forall|q: (Seq<char>, V::V)| selected(pre1, sel).contains(q)
                implies selected(pre, sel).contains(q) by {
                let t = choose|t: int| 0 <= t < i + 1 && pre1[t] == q;
                if t < i {
                    assert(pre[t] == q);
                }
            }
            assert forall|q: (Seq<char>, V::V)| selected(pre, sel).contains(q)
                implies selected(pre1, sel).contains(q) by {
                let t = choose|t: int| 0 <= t < i && pre[t] == q;
                assert(pre1[t] == q);
            }
            assert(selected(pre1, sel) =~= selected(pre, sel));
        }
        i = i + 1;
    }
    let ghost es = entries_at(ps, order@);
    assert(ps.take(n as int) =~= ps);
    proof {
        lemma_sorted_unique(es, sorted_listing(selected(ps, sel)));
    }
    order
}

} // verus!
