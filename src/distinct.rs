use vstd::prelude::*;

verus! {

/// The elements of `s` whose key has not occurred before them, in their order.
pub open spec fn distinct_by<A, K>(s: Seq<A>, key: spec_fn(A) -> K) -> Seq<A>
    decreases s.len(),
{
    if s.len() == 0 {
        Seq::empty()
    } else {
        let d = distinct_by(s.drop_last(), key);
        if has_key(d, key, key(s.last())) {
            d
        } else {
            d.push(s.last())
        }
    }
}

/// Some element of `s` has key `k`.
pub open spec fn has_key<A, K>(s: Seq<A>, key: spec_fn(A) -> K, k: K) -> bool {
    exists|j: int| 0 <= j < s.len() && key(#[trigger] s[j]) == k
}

/// No two elements of `s` share a key.
pub open spec fn keys_unique<A, K>(s: Seq<A>, key: spec_fn(A) -> K) -> bool {
    forall|i: int, j: int| 0 <= i < j < s.len() ==> key(#[trigger] s[i]) != key(#[trigger] s[j])
}

/// What `distinct_by` keeps: each element comes from `s`, the keys are
/// unique, and every key of `s` is kept.
pub proof fn lemma_distinct_by<A, K>(s: Seq<A>, key: spec_fn(A) -> K)
    ensures
        distinct_by(s, key).len() <= s.len(),
        keys_unique(distinct_by(s, key), key),
        forall|j: int| 0 <= j < distinct_by(s, key).len()
            ==> s.contains(#[trigger] distinct_by(s, key)[j]),
        forall|k: K| has_key(distinct_by(s, key), key, k) <==> has_key(s, key, k),
    decreases s.len(),
{
    if s.len() > 0 {
        let p = s.drop_last();
        lemma_distinct_by(p, key);
        let d = distinct_by(p, key);
        assert forall|j: int| 0 <= j < p.len() implies s.contains(#[trigger] p[j]) by {
            assert(s[j] == p[j]);
        }
        assert(s[s.len() - 1] == s.last());
        assert forall|k: K| has_key(p, key, k) implies has_key(s, key, k) by {
            let j = choose|j: int| 0 <= j < p.len() && key(#[trigger] p[j]) == k;
            assert(s[j] == p[j]);
        }
        assert forall|k: K| has_key(s, key, k) implies has_key(p, key, k) || key(s.last()) == k by {
            let j = choose|j: int| 0 <= j < s.len() && key(#[trigger] s[j]) == k;
            if j < p.len() {
                assert(s[j] == p[j]);
            }
        }
        if !has_key(d, key, key(s.last())) {
            let e = d.push(s.last());
            assert(e[d.len() as int] == s.last());
            assert forall|k: K| has_key(e, key, k) <==> has_key(s, key, k) by {
                if has_key(e, key, k) {
                    let j = choose|j: int| 0 <= j < e.len() && key(#[trigger] e[j]) == k;
                    if j < d.len() {
                        assert(e[j] == d[j]);
                    }
                }
                if has_key(d, key, k) {
                    let j = choose|j: int| 0 <= j < d.len() && key(#[trigger] d[j]) == k;
                    assert(e[j] == d[j]);
                }
            }
            assert forall|i: int, j: int| 0 <= i < j < e.len() implies key(#[trigger] e[i]) != key(
                #[trigger] e[j],
            ) by {
                assert(e[i] == d[i]);
                if j < d.len() {
                    assert(e[j] == d[j]);
                }
            }
        }
    }
}

/// `distinct_by` keeps as many elements as `s` has exactly when no two
/// elements of `s` share a key.
pub proof fn lemma_distinct_by_len<A, K>(s: Seq<A>, key: spec_fn(A) -> K)
    ensures
        distinct_by(s, key).len() == s.len() <==> keys_unique(s, key),
    decreases s.len(),
{
    if s.len() > 0 {
        let p = s.drop_last();
        lemma_distinct_by_len(p, key);
        lemma_distinct_by(p, key);
        lemma_distinct_by(s, key);
        let d = distinct_by(p, key);
        assert forall|j: int| 0 <= j < p.len() implies #[trigger] p[j] == s[j] by {}
        if keys_unique(s, key) {
            assert(keys_unique(p, key)) by {
                assert forall|i: int, j: int| 0 <= i < j < p.len() implies key(#[trigger] p[i]) != key(
                    #[trigger] p[j],
                ) by {
                    assert(s[i] == p[i] && s[j] == p[j]);
                }
            }
            assert(!has_key(p, key, key(s.last()))) by {
                if has_key(p, key, key(s.last())) {
                    let j = choose|j: int| 0 <= j < p.len() && key(#[trigger] p[j]) == key(s.last());
                    assert(s[j] == p[j]);
                    assert(s[s.len() - 1] == s.last());
                }
            }
        }
        if distinct_by(s, key).len() == s.len() {
            assert(!has_key(d, key, key(s.last())));
            assert(keys_unique(p, key));
            assert(!has_key(p, key, key(s.last())));
            assert forall|i: int, j: int| 0 <= i < j < s.len() implies key(#[trigger] s[i]) != key(
                #[trigger] s[j],
            ) by {
                assert(s[i] == p[i]);
                if j < p.len() {
                    assert(s[j] == p[j]);
                } else {
                    assert(s[j] == s.last());
                }
            }
        }
    }
}

} // verus!
