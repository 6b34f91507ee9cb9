use vstd::prelude::*;

verus! {

/// The map that a list of pairs stands for, keys and values seen through `kf`
/// and `vf`; a later pair overrides an earlier one with the same key.
pub open spec fn pairs_map<K, V, KV, VV>(
    s: Seq<(K, V)>,
    kf: spec_fn(K) -> KV,
    vf: spec_fn(V) -> VV,
) -> Map<KV, VV>
    decreases s.len(),
{
    if s.len() == 0 {
        Map::empty()
    } else {
        pairs_map(s.drop_last(), kf, vf).insert(kf(s.last().0), vf(s.last().1))
    }
}

/// No two pairs of the list have keys that look the same through `kf`.
pub open spec fn keys_distinct<K, V, KV>(s: Seq<(K, V)>, kf: spec_fn(K) -> KV) -> bool {
    forall|i: int, j: int| 0 <= i < j < s.len() ==> kf(#[trigger] s[i].0) != kf(#[trigger] s[j].0)
}

/// `new` is `old` with the pair `(key, val)` put in: in place of the pair with
/// the same key, or at the end where there is none.
pub open spec fn upserted<K, V, KV>(
    old: Seq<(K, V)>,
    new: Seq<(K, V)>,
    key: K,
    val: V,
    kf: spec_fn(K) -> KV,
) -> bool {
    ||| exists|i: int|
        0 <= i < old.len() && kf(#[trigger] old[i].0) == kf(key) && new == old.update(i, (key, val))
    ||| (forall|i: int| 0 <= i < old.len() ==> kf(#[trigger] old[i].0) != kf(key)) && new == old.push(
        (key, val),
    )
}

/// The identity, as a spec function value.
pub open spec fn same<A>() -> spec_fn(A) -> A {
    |a: A| a
}

pub proof fn lemma_pairs_map_dom<K, V, KV, VV>(
    s: Seq<(K, V)>,
    kf: spec_fn(K) -> KV,
    vf: spec_fn(V) -> VV,
    k: KV,
)
    ensures
        pairs_map(s, kf, vf).contains_key(k) <==> exists|i: int|
            0 <= i < s.len() && kf(#[trigger] s[i].0) == k,
        pairs_map(s, kf, vf).dom().finite(),
    decreases s.len(),
{
    if s.len() > 0 {
        let p = s.drop_last();
        lemma_pairs_map_dom(p, kf, vf, k);
        if pairs_map(s, kf, vf).contains_key(k) && kf(s.last().0) != k {
            let i = choose|i: int| 0 <= i < p.len() && kf(#[trigger] p[i].0) == k;
            assert(s[i] == p[i]);
        }
        if exists|i: int| 0 <= i < s.len() && kf(#[trigger] s[i].0) == k {
            let i = choose|i: int| 0 <= i < s.len() && kf(#[trigger] s[i].0) == k;
            if i < s.len() - 1 {
                assert(p[i] == s[i]);
            }
        }
    }
}

pub proof fn lemma_pairs_map_len<K, V, KV, VV>(
    s: Seq<(K, V)>,
    kf: spec_fn(K) -> KV,
    vf: spec_fn(V) -> VV,
)
    requires
        keys_distinct(s, kf),
    ensures
        pairs_map(s, kf, vf).len() == s.len(),
    decreases s.len(),
{
    if s.len() > 0 {
        let p = s.drop_last();
        assert(keys_distinct(p, kf)) by {
            assert forall|i: int, j: int| 0 <= i < j < p.len() implies kf(#[trigger] p[i].0) != kf(
                #[trigger] p[j].0,
            ) by {
                assert(p[i] == s[i] && p[j] == s[j]);
            }
        }
        lemma_pairs_map_len(p, kf, vf);
        lemma_pairs_map_dom(p, kf, vf, kf(s.last().0));
        if pairs_map(p, kf, vf).contains_key(kf(s.last().0)) {
            let i = choose|i: int| 0 <= i < p.len() && kf(#[trigger] p[i].0) == kf(s.last().0);
            assert(p[i] == s[i]);
            assert(false);
        }
    }
}

pub proof fn lemma_pairs_map_index<K, V, KV, VV>(
    s: Seq<(K, V)>,
    kf: spec_fn(K) -> KV,
    vf: spec_fn(V) -> VV,
    i: int,
)
    requires
        keys_distinct(s, kf),
        0 <= i < s.len(),
    ensures
        pairs_map(s, kf, vf).contains_key(kf(s[i].0)),
        pairs_map(s, kf, vf)[kf(s[i].0)] == vf(s[i].1),
    decreases s.len(),
{
    if i < s.len() - 1 {
        let p = s.drop_last();
        assert(keys_distinct(p, kf)) by {
            assert forall|a: int, b: int| 0 <= a < b < p.len() implies kf(#[trigger] p[a].0) != kf(
                #[trigger] p[b].0,
            ) by {
                assert(p[a] == s[a] && p[b] == s[b]);
            }
        }
        assert(p[i] == s[i]);
        lemma_pairs_map_index(p, kf, vf, i);
        assert(kf(s[i].0) != kf(s[s.len() - 1].0));
    }
}

pub proof fn lemma_pairs_map_upsert<K, V, KV, VV>(
    old: Seq<(K, V)>,
    new: Seq<(K, V)>,
    key: K,
    val: V,
    kf: spec_fn(K) -> KV,
    vf: spec_fn(V) -> VV,
)
    requires
        keys_distinct(old, kf),
        upserted(old, new, key, val, kf),
    ensures
        keys_distinct(new, kf),
        pairs_map(new, kf, vf) == pairs_map(old, kf, vf).insert(kf(key), vf(val)),
    decreases old.len(),
{
    if exists|i: int| 0 <= i < old.len() && kf(#[trigger] old[i].0) == kf(key) && new == old.update(i, (key, val)) {
        let i = choose|i: int|
            0 <= i < old.len() && kf(#[trigger] old[i].0) == kf(key) && new == old.update(i, (key, val));
        assert(keys_distinct(new, kf)) by {
            assert forall|a: int, b: int| 0 <= a < b < new.len() implies kf(#[trigger] new[a].0) != kf(
                #[trigger] new[b].0,
            ) by {
                assert(kf(new[a].0) == kf(old[a].0));
                assert(kf(new[b].0) == kf(old[b].0));
            }
        }
        let last = old.len() - 1;
        if i == last {
            assert(new.drop_last() =~= old.drop_last());
            assert(pairs_map(new, kf, vf) =~= pairs_map(old, kf, vf).insert(kf(key), vf(val)));
        } else {
            let op = old.drop_last();
            let np = new.drop_last();
            assert(np =~= op.update(i, (key, val)));
            assert(keys_distinct(op, kf)) by {
                assert forall|a: int, b: int| 0 <= a < b < op.len() implies kf(#[trigger] op[a].0) != kf(
                    #[trigger] op[b].0,
                ) by {
                    assert(op[a] == old[a] && op[b] == old[b]);
                }
            }
            assert(op[i] == old[i]);
            assert(upserted(op, np, key, val, kf));
            lemma_pairs_map_upsert(op, np, key, val, kf, vf);
            assert(new.last() == old.last());
            assert(kf(old[i].0) != kf(old[last].0));
            assert(pairs_map(new, kf, vf) =~= pairs_map(old, kf, vf).insert(kf(key), vf(val)));
        }
    } else {
        assert(new.drop_last() =~= old);
        assert(keys_distinct(new, kf)) by {
            assert forall|a: int, b: int| 0 <= a < b < new.len() implies kf(#[trigger] new[a].0) != kf(
                #[trigger] new[b].0,
            ) by {
                if b == old.len() {
                    assert(new[a] == old[a]);
                } else {
                    assert(new[a] == old[a] && new[b] == old[b]);
                }
            }
        }
    }
}

} // verus!
