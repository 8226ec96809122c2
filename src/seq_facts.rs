use vstd::prelude::*;

verus! {

/// No two positions of `s` share a key.
pub open spec fn unique_by<A, K>(s: Seq<A>, key: spec_fn(A) -> K) -> bool {
    forall|i: int, j: int|
        0 <= i < s.len() && 0 <= j < s.len() && #[trigger] key(s[i]) == #[trigger] key(s[j])
            ==> i == j
}

/// Every element kept by a filter comes from the filtered sequence.
pub proof fn lemma_filter_subset<A>(s: Seq<A>, p: spec_fn(A) -> bool)
    ensures
        forall|k: int|
            0 <= k < s.filter(p).len() ==> exists|j: int|
                0 <= j < s.len() && #[trigger] s.filter(p)[k] == s[j],
    decreases s.len(),
{
    reveal(Seq::filter);
    if s.len() > 0 {
        let d = s.drop_last();
        lemma_filter_subset(d, p);
        let f = d.filter(p);
        assert forall|k: int| 0 <= k < s.filter(p).len() implies exists|j: int|
            0 <= j < s.len() && #[trigger] s.filter(p)[k] == s[j] by {
            if k < f.len() {
                let j = choose|j: int| 0 <= j < d.len() && f[k] == d[j];
                assert(s[j] == d[j]);
            } else {
                assert(s.filter(p)[k] == s[s.len() - 1]);
            }
        }
    }
}

/// Filtering keeps keys unique.
pub proof fn lemma_filter_unique_by<A, K>(s: Seq<A>, p: spec_fn(A) -> bool, key: spec_fn(A) -> K)
    requires
        unique_by(s, key),
    ensures
        unique_by(s.filter(p), key),
    decreases s.len(),
{
    reveal(Seq::filter);
    if s.len() > 0 {
        let d = s.drop_last();
        assert(unique_by(d, key)) by {
            assert forall|i: int, j: int|
                0 <= i < d.len() && 0 <= j < d.len() && #[trigger] key(d[i]) == #[trigger] key(
                    d[j],
                ) implies i == j by {
                assert(d[i] == s[i] && d[j] == s[j]);
            }
        }
        lemma_filter_unique_by(d, p, key);
        lemma_filter_subset(d, p);
        let f = d.filter(p);
        if p(s.last()) {
            let out = f.push(s.last());
            assert forall|i: int, j: int|
                0 <= i < out.len() && 0 <= j < out.len() && #[trigger] key(out[i])
                    == #[trigger] key(out[j]) implies i == j by {
                if i < f.len() && j == f.len() {
                    let k = choose|k: int| 0 <= k < d.len() && f[i] == d[k];
                    assert(s[k] == d[k]);
                    assert(key(s[k]) == key(s[s.len() - 1]));
                } else if j < f.len() && i == f.len() {
                    let k = choose|k: int| 0 <= k < d.len() && f[j] == d[k];
                    assert(s[k] == d[k]);
                    assert(key(s[k]) == key(s[s.len() - 1]));
                } else if i < f.len() && j < f.len() {
                    assert(out[i] == f[i] && out[j] == f[j]);
                }
            }
            assert(s.filter(p) == out);
        }
    }
}

/// What holds of every element holds of every kept element.
pub proof fn lemma_filter_all<A>(s: Seq<A>, p: spec_fn(A) -> bool, q: spec_fn(A) -> bool)
    requires
        forall|j: int| 0 <= j < s.len() ==> #[trigger] q(s[j]),
    ensures
        forall|k: int| 0 <= k < s.filter(p).len() ==> #[trigger] q(s.filter(p)[k]),
{
    lemma_filter_subset(s, p);
    assert forall|k: int| 0 <= k < s.filter(p).len() implies #[trigger] q(s.filter(p)[k]) by {
        let j = choose|j: int| 0 <= j < s.len() && s.filter(p)[k] == s[j];
    }
}

/// Elements whose key is `v`.
pub open spec fn key_is<A, K>(key: spec_fn(A) -> K, v: K) -> spec_fn(A) -> bool {
    |x: A| key(x) == v
}

/// Some element satisfying `p`, if any does.
pub open spec fn find_first<A>(s: Seq<A>, p: spec_fn(A) -> bool) -> Option<A> {
    if exists|i: int| 0 <= i < s.len() && #[trigger] p(s[i]) {
        Some(s[choose|i: int| 0 <= i < s.len() && #[trigger] p(s[i])])
    } else {
        None
    }
}

/// Under unique keys, the element found by key is the one at any position holding it.
pub proof fn lemma_find_by_key<A, K>(s: Seq<A>, key: spec_fn(A) -> K, i: int)
    requires
        unique_by(s, key),
        0 <= i < s.len(),
    ensures
        find_first(s, key_is(key, key(s[i]))) == Some(s[i]),
{
    let p = key_is(key, key(s[i]));
    assert(p(s[i]));
    let c = choose|c: int| 0 <= c < s.len() && #[trigger] p(s[c]);
    assert(key(s[c]) == key(s[i]));
}

/// Appending an element with a fresh key keeps keys unique.
pub proof fn lemma_push_unique_by<A, K>(s: Seq<A>, key: spec_fn(A) -> K, x: A)
    requires
        unique_by(s, key),
        find_first(s, key_is(key, key(x))) is None,
    ensures
        unique_by(s.push(x), key),
{
    let t = s.push(x);
    assert forall|i: int, j: int|
        0 <= i < t.len() && 0 <= j < t.len() && #[trigger] key(t[i]) == #[trigger] key(t[j]) implies i
        == j by {
        if i < s.len() && j == s.len() {
            assert(t[i] == s[i]);
            assert(key_is(key, key(x))(s[i]));
        } else if j < s.len() && i == s.len() {
            assert(t[j] == s[j]);
            assert(key_is(key, key(x))(s[j]));
        } else if i < s.len() && j < s.len() {
            assert(t[i] == s[i] && t[j] == s[j]);
        }
    }
}

} // verus!
