//! The metadata mapping: user-defined string key-value pairs attached to a
//! resource, carried either as prefixed headers or as XML child elements.
//! Keys are unique; order carries no meaning.

use vstd::prelude::*;
use crate::text::eq_ci_seq;

verus! {

/// One metadata pair.
#[derive(Debug, Clone)]
pub struct MetaPair {
    pub key: String,
    pub value: String,
}

impl View for MetaPair {
    type V = (Seq<char>, Seq<char>);

    open spec fn view(&self) -> (Seq<char>, Seq<char>) {
        (self.key@, self.value@)
    }
}

/// A metadata mapping with unique keys.
#[derive(Debug, Clone)]
pub struct Metadata {
    pub pairs: Vec<MetaPair>,
}

impl View for Metadata {
    type V = Seq<(Seq<char>, Seq<char>)>;

    open spec fn view(&self) -> Seq<(Seq<char>, Seq<char>)> {
        Seq::new(self.pairs@.len(), |i: int| self.pairs@[i]@)
    }
}

/// The reserved header-name prefix metadata travels under.
pub open spec fn meta_prefix() -> Seq<char> {
    "x-ms-meta-"@
}

/// A header of this name carries a metadata pair: the name starts, up to
/// ASCII case, with the reserved prefix.
pub open spec fn is_meta_name(name: Seq<char>) -> bool {
    name.len() >= 10 && eq_ci_seq(name.subrange(0, 10), meta_prefix())
}

/// The metadata pairs read off a header sequence in order, each key stripped
/// of the reserved prefix.
pub open spec fn meta_pairs_of(h: Seq<(Seq<char>, Seq<char>)>) -> Seq<(Seq<char>, Seq<char>)>
    decreases h.len(),
{
    if h.len() == 0 {
        Seq::empty()
    } else {
        let rest = meta_pairs_of(h.drop_last());
        if is_meta_name(h.last().0) {
            rest.push((h.last().0.skip(10), h.last().1))
        } else {
            rest
        }
    }
}

/// The mapping a pair sequence denotes, a later pair overwriting an earlier
/// one of the same key.
pub open spec fn meta_map(pairs: Seq<(Seq<char>, Seq<char>)>) -> Map<Seq<char>, Seq<char>>
    decreases pairs.len(),
{
    if pairs.len() == 0 {
        Map::empty()
    } else {
        meta_map(pairs.drop_last()).insert(pairs.last().0, pairs.last().1)
    }
}

/// Whether some pair carries this key.
pub open spec fn contains_key(pairs: Seq<(Seq<char>, Seq<char>)>, key: Seq<char>) -> bool {
    exists|i: int| 0 <= i < pairs.len() && #[trigger] pairs[i].0 == key
}

/// All keys pairwise distinct.
pub open spec fn distinct_keys(pairs: Seq<(Seq<char>, Seq<char>)>) -> bool {
    forall|i: int, j: int|
        0 <= i < j < pairs.len() ==> (#[trigger] pairs[i].0) != (#[trigger] pairs[j].0)
}

/// The pairs whose key differs from `key`, in order.
pub open spec fn remove_key(
    pairs: Seq<(Seq<char>, Seq<char>)>,
    key: Seq<char>,
) -> Seq<(Seq<char>, Seq<char>)>
    decreases pairs.len(),
{
    if pairs.len() == 0 {
        Seq::empty()
    } else {
        let rest = remove_key(pairs.drop_last(), key);
        if pairs.last().0 == key {
            rest
        } else {
            rest.push(pairs.last())
        }
    }
}

proof fn lemma_remove_key_no_new(pairs: Seq<(Seq<char>, Seq<char>)>, key: Seq<char>, k: Seq<char>)
    requires
        !contains_key(pairs, k),
    ensures
        !contains_key(remove_key(pairs, key), k),
    decreases pairs.len(),
{
    if pairs.len() > 0 {
        assert(forall|i: int|
            0 <= i < pairs.len() - 1 ==> #[trigger] pairs.drop_last()[i] == pairs[i]);
        lemma_remove_key_no_new(pairs.drop_last(), key, k);
        let rest = remove_key(pairs.drop_last(), key);
        if pairs.last().0 != key {
            assert(forall|i: int|
                0 <= i < rest.len() ==> rest.push(pairs.last())[i] == #[trigger] rest[i]);
            assert(pairs.last() == pairs[pairs.len() - 1]);
        }
    }
}

/// Removing a key keeps the keys pairwise distinct and leaves none equal to
/// the removed key.
pub proof fn lemma_remove_key_wf(pairs: Seq<(Seq<char>, Seq<char>)>, key: Seq<char>)
    requires
        distinct_keys(pairs),
    ensures
        distinct_keys(remove_key(pairs, key)),
        !contains_key(remove_key(pairs, key), key),
    decreases pairs.len(),
{
    if pairs.len() > 0 {
        let prev = pairs.drop_last();
        assert(forall|i: int| 0 <= i < prev.len() ==> #[trigger] prev[i] == pairs[i]);
        lemma_remove_key_wf(prev, key);
        let rest = remove_key(prev, key);
        if pairs.last().0 != key {
            let last = pairs.last();
            assert(last == pairs[pairs.len() - 1]);
            assert(!contains_key(prev, last.0));
            lemma_remove_key_no_new(prev, key, last.0);
            let out = rest.push(last);
            assert(forall|i: int| 0 <= i < rest.len() ==> out[i] == #[trigger] rest[i]);
            assert(out[out.len() - 1] == last);
            assert(distinct_keys(out));
            assert(!contains_key(out, key));
        }
    }
}

/// Removing a key then binding it is, at the mapping level, one insertion.
pub proof fn lemma_meta_map_set(
    pairs: Seq<(Seq<char>, Seq<char>)>,
    key: Seq<char>,
    value: Seq<char>,
)
    ensures
        meta_map(remove_key(pairs, key).push((key, value))) == meta_map(pairs).insert(key, value),
    decreases pairs.len(),
{
    let out = remove_key(pairs, key).push((key, value));
    assert(out.drop_last() =~= remove_key(pairs, key));
    assert(out.last() == (key, value));
    assert(meta_map(out) == meta_map(remove_key(pairs, key)).insert(key, value));
    if pairs.len() == 0 {
        assert(meta_map(out) =~= meta_map(pairs).insert(key, value));
    } else {
        let prev = pairs.drop_last();
        let last = pairs.last();
        let rk_prev = remove_key(prev, key);
        let rk = remove_key(pairs, key);
        lemma_meta_map_set(prev, key, value);
        let mid = rk_prev.push((key, value));
        assert(mid.drop_last() =~= rk_prev);
        assert(mid.last() == (key, value));
        assert(meta_map(rk_prev).insert(key, value) == meta_map(prev).insert(key, value));
        assert(meta_map(pairs) == meta_map(prev).insert(last.0, last.1));
        if last.0 == key {
            assert(rk == rk_prev);
            assert(meta_map(pairs).insert(key, value) =~= meta_map(prev).insert(key, value));
        } else {
            assert(rk == rk_prev.push(last));
            assert(rk.drop_last() =~= rk_prev);
            assert(rk.last() == last);
            assert(meta_map(rk) == meta_map(rk_prev).insert(last.0, last.1));
            let a = meta_map(rk_prev);
            let b = meta_map(prev);
            assert(a.insert(key, value) == b.insert(key, value));
            assert(a.insert(last.0, last.1).insert(key, value) =~= b.insert(
                last.0,
                last.1,
            ).insert(key, value)) by {
                let l = a.insert(last.0, last.1).insert(key, value);
                let r = b.insert(last.0, last.1).insert(key, value);
                assert forall|k: Seq<char>| l.dom().contains(k) <==> r.dom().contains(
                    k,
                ) by {
                    assert(a.insert(key, value).dom().contains(k) <==> b.insert(
                        key,
                        value,
                    ).dom().contains(k));
                }
                assert forall|k: Seq<char>| l.dom().contains(k) implies l[k] == r[k] by {
                    if k != key && k != last.0 {
                        assert(a.insert(key, value)[k] == b.insert(key, value)[k]);
                        assert(l[k] == a[k] && r[k] == b[k]);
                        assert(a.insert(key, value)[k] == a[k]);
                        assert(b.insert(key, value)[k] == b[k]);
                    }
                }
            }
        }
    }
}
impl Metadata {
    /// Keys are pairwise distinct.
    pub open spec fn wf(&self) -> bool {
        distinct_keys(self@)
    }

    /// An empty mapping.
    pub fn new() -> (r: Metadata)
        ensures
            r@ =~= Seq::<(Seq<char>, Seq<char>)>::empty(),
            r.wf(),
            meta_map(r@) =~= Map::<Seq<char>, Seq<char>>::empty(),
    {
        Metadata { pairs: Vec::new() }
    }

    /// Binds `key` to `value`, overwriting an existing pair of the same key.
    pub fn insert(&mut self, key: String, value: String)
        requires
            old(self).wf(),
        ensures
            final(self).wf(),
            final(self)@ =~= remove_key(old(self)@, key@).push((key@, value@)),
            meta_map(final(self)@) == meta_map(old(self)@).insert(key@, value@),
    {
        let n = self.pairs.len();
        let ghost h = old(self)@;
        let mut out: Vec<MetaPair> = Vec::new();
        let mut i: usize = 0;
        while i < n
            invariant
                0 <= i <= n,
                n == self.pairs@.len(),
                self.pairs@ == old(self).pairs@,
                h == old(self)@,
                h.len() == n,
                forall|j: int| 0 <= j < n ==> #[trigger] h[j] == self.pairs@[j]@,
                Seq::new(out@.len(), |k: int| out@[k]@) =~= remove_key(
                    h.subrange(0, i as int),
                    key@,
                ),
            decreases n - i,
        {
            let ghost pre = h.subrange(0, i as int);
            let ghost post = h.subrange(0, i + 1 as int);
            proof {
                assert(post.drop_last() =~= pre);
                assert(post.last() == h[i as int]);
            }
            let p = &self.pairs[i];
            if !crate::text::str_eq(p.key.as_str(), key.as_str()) {
                let ghost before = out@;
                out.push(MetaPair { key: p.key.clone(), value: p.value.clone() });
                proof {
                    assert(forall|k: int|
                        0 <= k < before.len() ==> out@[k]@ == #[trigger] before[k]@);
                }
            }
            proof {
                assert(Seq::new(out@.len(), |k: int| out@[k]@) =~= remove_key(post, key@));
            }
            i = i + 1;
        }
        proof {
            assert(h.subrange(0, n as int) =~= h);
        }
        let ghost kept = Seq::new(out@.len(), |k: int| out@[k]@);
        out.push(MetaPair { key, value });
        proof {
            assert(forall|k: int| 0 <= k < kept.len() ==> out@[k]@ == #[trigger] kept[k]);
        }
        self.pairs = out;
        proof {
            assert(final(self)@ =~= remove_key(h, key@).push((key@, value@)));
            lemma_remove_key_wf(h, key@);
            let r = remove_key(h, key@);
            let whole = r.push((key@, value@));
            assert(forall|k: int| 0 <= k < r.len() ==> whole[k] == #[trigger] r[k]);
            assert(whole[whole.len() - 1] == (key@, value@));
            assert(distinct_keys(whole));
            lemma_meta_map_set(h, key@, value@);
        }
    }
}

} // verus!
