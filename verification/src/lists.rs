//! Sequence helpers: first match, keyed insertion and filtering.

use vstd::prelude::*;

verus! {

/// Index of the first element of `s` that satisfies `p`, if any.
pub open spec fn first_match<A>(s: Seq<A>, p: spec_fn(A) -> bool) -> Option<int>
    decreases s.len(),
{
    if s.len() == 0 {
        None
    } else if p(s[0]) {
        Some(0)
    } else {
        match first_match(s.drop_first(), p) {
            Some(i) => Some(i + 1),
            None => None,
        }
    }
}

/// What `first_match` finds: the least index whose element satisfies `p`.
pub proof fn lemma_first_match<A>(s: Seq<A>, p: spec_fn(A) -> bool)
    ensures
        match first_match(s, p) {
            Some(i) => 0 <= i < s.len() && p(s[i]) && forall|j: int| 0 <= j < i ==> !p(#[trigger] s[j]),
            None => forall|j: int| 0 <= j < s.len() ==> !p(#[trigger] s[j]),
        },
    decreases s.len(),
{
    if s.len() > 0 && !p(s[0]) {
        lemma_first_match(s.drop_first(), p);
        match first_match(s.drop_first(), p) {
            Some(i) => {
                assert forall|j: int| 0 <= j < i + 1 implies !p(#[trigger] s[j]) by {
                    if j > 0 {
                        assert(s[j] == s.drop_first()[j - 1]);
                    }
                }
            },
            None => {
                assert forall|j: int| 0 <= j < s.len() implies !p(#[trigger] s[j]) by {
                    if j > 0 {
                        assert(s[j] == s.drop_first()[j - 1]);
                    }
                }
            },
        }
    }
}

/// The least index whose element satisfies `p` is what `first_match` finds.
pub proof fn lemma_first_match_at<A>(s: Seq<A>, p: spec_fn(A) -> bool, i: int)
    requires
        0 <= i < s.len(),
        p(s[i]),
        forall|j: int| 0 <= j < i ==> !p(#[trigger] s[j]),
    ensures
        first_match(s, p) == Some(i),
{
    lemma_first_match(s, p);
}

/// When no element satisfies `p`, `first_match` finds nothing.
pub proof fn lemma_first_match_none<A>(s: Seq<A>, p: spec_fn(A) -> bool)
    requires
        forall|j: int| 0 <= j < s.len() ==> !p(#[trigger] s[j]),
    ensures
        first_match(s, p) is None,
{
    lemma_first_match(s, p);
}

/// Whether an element's key is `k`.
pub open spec fn same_key<A>(key: spec_fn(A) -> Seq<char>, k: Seq<char>) -> spec_fn(A) -> bool {
    |y: A| key(y) == k
}

/// `s` with `x` in place of the first element whose key equals `x`'s, or with
/// `x` added at the end when there is none: a map insertion.
pub open spec fn upsert<A>(s: Seq<A>, key: spec_fn(A) -> Seq<char>, x: A) -> Seq<A> {
    match first_match(s, same_key(key, key(x))) {
        Some(i) => s.update(i, x),
        None => s.push(x),
    }
}

/// The value a keyed sequence holds for `k`: the first element with that key.
pub open spec fn lookup<A>(s: Seq<A>, key: spec_fn(A) -> Seq<char>, k: Seq<char>) -> Option<A> {
    match first_match(s, same_key(key, k)) {
        Some(i) => Some(s[i]),
        None => None,
    }
}

/// Filtering `s.push(x)` adds `x` to the filtered `s` exactly when `x` passes.
pub proof fn lemma_filter_push<A>(s: Seq<A>, p: spec_fn(A) -> bool, x: A)
    ensures
        p(x) ==> s.push(x).filter(p) == s.filter(p).push(x),
        !p(x) ==> s.push(x).filter(p) == s.filter(p),
{
    reveal(Seq::filter);
    assert(s.push(x).drop_last() =~= s);
}

/// Mapping `s.push(x)` gives the mapped `s` with `f(x)` pushed.
pub proof fn lemma_map_push<A, B>(s: Seq<A>, x: A, f: spec_fn(A) -> B)
    ensures
        s.push(x).map_values(f) == s.map_values(f).push(f(x)),
{
    assert(s.push(x).map_values(f) =~= s.map_values(f).push(f(x)));
}

/// The first `i + 1` elements are the first `i` with element `i` pushed.
pub proof fn lemma_take_next<A>(s: Seq<A>, i: int)
    requires
        0 <= i < s.len(),
    ensures
        s.take(i + 1) == s.take(i).push(s[i]),
{
    assert(s.take(i + 1) =~= s.take(i).push(s[i]));
}

/// Two sequences whose elements pass `p` at the same indices have the same
/// first match.
pub proof fn lemma_first_match_same<A>(s1: Seq<A>, s2: Seq<A>, p: spec_fn(A) -> bool)
    requires
        s1.len() == s2.len(),
        forall|j: int| 0 <= j < s1.len() ==> p(#[trigger] s1[j]) == p(s2[j]),
    ensures
        first_match(s1, p) == first_match(s2, p),
{
    lemma_first_match(s1, p);
    lemma_first_match(s2, p);
    match first_match(s1, p) {
        Some(i) => {
            assert(p(s2[i]));
            assert forall|j: int| 0 <= j < i implies !p(#[trigger] s2[j]) by {
                assert(!p(s1[j]));
            }
            lemma_first_match_at(s2, p, i);
        },
        None => {
            assert forall|j: int| 0 <= j < s2.len() implies !p(#[trigger] s2[j]) by {
                assert(!p(s1[j]));
            }
            lemma_first_match_none(s2, p);
        },
    }
}

/// A lookup after an insertion: the key inserted gives the element
/// inserted, and every other key gives what it gave before.
pub proof fn lemma_upsert_lookup<A>(s: Seq<A>, key: spec_fn(A) -> Seq<char>, x: A, k: Seq<char>)
    ensures
        lookup(upsert(s, key, x), key, key(x)) == Some(x),
        k != key(x) ==> lookup(upsert(s, key, x), key, k) == lookup(s, key, k),
{
    let px = same_key(key, key(x));
    let pk = same_key(key, k);
    let t = upsert(s, key, x);
    lemma_first_match(s, px);
    match first_match(s, px) {
        Some(i) => {
            assert(t == s.update(i, x));
            assert forall|j: int| 0 <= j < i implies !px(#[trigger] t[j]) by {
                assert(t[j] == s[j]);
            }
            lemma_first_match_at(t, px, i);
            if k != key(x) {
                assert forall|j: int| 0 <= j < s.len() implies pk(#[trigger] s[j]) == pk(t[j]) by {
                    if j == i {
                        assert(key(s[j]) == key(x));
                    }
                }
                lemma_first_match_same(s, t, pk);
                lemma_first_match(s, pk);
                match first_match(s, pk) {
                    Some(m) => {
                        if m == i {
                            assert(key(s[i]) == key(x));
                        }
                        assert(t[m] == s[m]);
                    },
                    None => {},
                }
            }
        },
        None => {
            assert(t == s.push(x));
            assert forall|j: int| 0 <= j < s.len() implies !px(#[trigger] t[j]) by {
                assert(t[j] == s[j]);
            }
            lemma_first_match_at(t, px, s.len() as int);
            if k != key(x) {
                lemma_first_match(s, pk);
                match first_match(s, pk) {
                    Some(m) => {
                        assert forall|j: int| 0 <= j < m implies !pk(#[trigger] t[j]) by {
                            assert(t[j] == s[j]);
                        }
                        assert(t[m] == s[m]);
                        lemma_first_match_at(t, pk, m);
                    },
                    None => {
                        assert forall|j: int| 0 <= j < t.len() implies !pk(#[trigger] t[j]) by {
                            if j < s.len() {
                                assert(t[j] == s[j]);
                            }
                        }
                        lemma_first_match_none(t, pk);
                    },
                }
            }
        },
    }
}

/// A lookup in `s.push(x)`: what `s` gives for `k`, or else `x` when its key
/// is `k`.
pub proof fn lemma_lookup_push<A>(s: Seq<A>, key: spec_fn(A) -> Seq<char>, x: A, k: Seq<char>)
    ensures
        lookup(s.push(x), key, k) == (if lookup(s, key, k) is Some {
            lookup(s, key, k)
        } else if key(x) == k {
            Some(x)
        } else {
            None
        }),
{
    let p = same_key(key, k);
    let t = s.push(x);
    lemma_first_match(s, p);
    match first_match(s, p) {
        Some(m) => {
            assert forall|j: int| 0 <= j < m implies !p(#[trigger] t[j]) by {
                assert(t[j] == s[j]);
            }
            assert(t[m] == s[m]);
            lemma_first_match_at(t, p, m);
        },
        None => {
            if key(x) == k {
                assert forall|j: int| 0 <= j < s.len() implies !p(#[trigger] t[j]) by {
                    assert(t[j] == s[j]);
                }
                lemma_first_match_at(t, p, s.len() as int);
            } else {
                assert forall|j: int| 0 <= j < t.len() implies !p(#[trigger] t[j]) by {
                    if j < s.len() {
                        assert(t[j] == s[j]);
                    }
                }
                lemma_first_match_none(t, p);
            }
        },
    }
}

/// Filtering keeps a lookup of `k` when it keeps every element with key
/// `k`, and empties it when it drops every such element.
pub proof fn lemma_lookup_filter<A>(s: Seq<A>, q: spec_fn(A) -> bool, key: spec_fn(A) -> Seq<char>, k: Seq<char>)
    ensures
        (forall|x: A| key(x) == k ==> #[trigger] q(x)) ==> lookup(s.filter(q), key, k) == lookup(s, key, k),
        (forall|x: A| key(x) == k ==> !#[trigger] q(x)) ==> lookup(s.filter(q), key, k) is None,
    decreases s.len(),
{
    if s.len() == 0 {
        assert(s.filter(q) =~= Seq::<A>::empty());
        lemma_first_match_none(s, same_key(key, k));
    } else {
        let r = s.drop_last();
        let x = s.last();
        assert(s =~= r.push(x));
        lemma_lookup_filter(r, q, key, k);
        lemma_filter_push(r, q, x);
        lemma_lookup_push(r, key, x, k);
        lemma_lookup_push(r.filter(q), key, x, k);
    }
}

/// Two sequences whose elements pass `p` and `q` at the same indices have
/// the same first match.
pub proof fn lemma_first_match_related<A, B>(sa: Seq<A>, sb: Seq<B>, p: spec_fn(A) -> bool, q: spec_fn(B) -> bool)
    requires
        sa.len() == sb.len(),
        forall|j: int| 0 <= j < sa.len() ==> p(#[trigger] sa[j]) == q(sb[j]),
    ensures
        first_match(sa, p) == first_match(sb, q),
{
    lemma_first_match(sa, p);
    lemma_first_match(sb, q);
    match first_match(sa, p) {
        Some(i) => {
            assert(q(sb[i]));
            assert forall|j: int| 0 <= j < i implies !q(#[trigger] sb[j]) by {
                assert(!p(sa[j]));
            }
            lemma_first_match_at(sb, q, i);
        },
        None => {
            assert forall|j: int| 0 <= j < sb.len() implies !q(#[trigger] sb[j]) by {
                assert(!p(sa[j]));
            }
            lemma_first_match_none(sb, q);
        },
    }
}

/// Inserting related elements with equal keys into sequences related
/// element by element, with equal keys, keeps them so related.
pub proof fn lemma_upsert_related<A, B>(
    sa: Seq<A>,
    sb: Seq<B>,
    ka: spec_fn(A) -> Seq<char>,
    kb: spec_fn(B) -> Seq<char>,
    x: A,
    y: B,
    rel: spec_fn(A, B) -> bool,
)
    requires
        sa.len() == sb.len(),
        forall|j: int| #![trigger sa[j]] 0 <= j < sa.len() ==> rel(sa[j], sb[j]) && ka(sa[j]) == kb(sb[j]),
        rel(x, y),
        ka(x) == kb(y),
    ensures
        upsert(sa, ka, x).len() == upsert(sb, kb, y).len(),
        forall|j: int|
            #![trigger upsert(sa, ka, x)[j]]
            0 <= j < upsert(sa, ka, x).len() ==> rel(upsert(sa, ka, x)[j], upsert(sb, kb, y)[j]) && ka(
                upsert(sa, ka, x)[j],
            ) == kb(upsert(sb, kb, y)[j]),
{
    let p = same_key(ka, ka(x));
    let q = same_key(kb, kb(y));
    assert forall|j: int| 0 <= j < sa.len() implies p(#[trigger] sa[j]) == q(sb[j]) by {
        assert(rel(sa[j], sb[j]) && ka(sa[j]) == kb(sb[j]));
    }
    lemma_first_match_related(sa, sb, p, q);
    lemma_first_match(sa, p);
    let ua = upsert(sa, ka, x);
    let ub = upsert(sb, kb, y);
    assert forall|j: int| #![trigger ua[j]] 0 <= j < ua.len() implies rel(ua[j], ub[j]) && ka(ua[j]) == kb(ub[j]) by {
        match first_match(sa, p) {
            Some(i) => {
                if j != i {
                    assert(rel(sa[j], sb[j]) && ka(sa[j]) == kb(sb[j]));
                }
            },
            None => {
                if j < sa.len() {
                    assert(rel(sa[j], sb[j]) && ka(sa[j]) == kb(sb[j]));
                }
            },
        }
    }
}

} // verus!
