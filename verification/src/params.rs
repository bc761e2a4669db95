//! The map of resolved parameters, and its order-independence: filling it
//! from any permutation of the same distinct-keyed pairs yields the same map.
use vstd::prelude::*;
use vstd::string::StringExecFns;
use crate::text::str_eq;

verus! {

/// The name under which a side parameter write is stored: the parameter's
/// name under the store's fixed prefix.
pub fn prefixed_parameter_name(param: &str) -> (r: String)
    ensures
        r@ == "/onedrive-manager/"@ + param@,
{
    let s = String::from_str("/onedrive-manager/");
    s.concat(param)
}

/// The map described by a sequence of key/value pairs, later pairs winning.
pub open spec fn map_of(pairs: Seq<(Seq<char>, Seq<char>)>) -> Map<Seq<char>, Seq<char>>
    decreases pairs.len(),
{
    if pairs.len() == 0 {
        Map::empty()
    } else {
        map_of(pairs.drop_last()).insert(pairs.last().0, pairs.last().1)
    }
}

/// No two pairs share a key.
pub open spec fn distinct_keys(pairs: Seq<(Seq<char>, Seq<char>)>) -> bool {
    forall|i: int, j: int| 0 <= i < j < pairs.len() ==> pairs[i].0 != pairs[j].0
}

/// A key is in the map exactly when some pair carries it.
pub proof fn lemma_map_of_contains(pairs: Seq<(Seq<char>, Seq<char>)>, k: Seq<char>)
    ensures
        map_of(pairs).contains_key(k) <==> (exists|i: int|
            0 <= i < pairs.len() && pairs[i].0 == k),
    decreases pairs.len(),
{
    if pairs.len() > 0 {
        lemma_map_of_contains(pairs.drop_last(), k);
        if pairs.last().0 == k {
            assert(pairs[pairs.len() - 1].0 == k);
        } else {
            if exists|i: int| 0 <= i < pairs.len() && pairs[i].0 == k {
                let i = choose|i: int| 0 <= i < pairs.len() && pairs[i].0 == k;
                assert(pairs.drop_last()[i].0 == k);
            }
        }
    }
}

/// With distinct keys, each pair's key maps to that pair's value.
pub proof fn lemma_map_of_value(pairs: Seq<(Seq<char>, Seq<char>)>, i: int)
    requires
        distinct_keys(pairs),
        0 <= i < pairs.len(),
    ensures
        map_of(pairs).contains_key(pairs[i].0),
        map_of(pairs)[pairs[i].0] == pairs[i].1,
    decreases pairs.len(),
{
    lemma_map_of_contains(pairs, pairs[i].0);
    if i < pairs.len() - 1 {
        assert(distinct_keys(pairs.drop_last())) by {
            assert(forall|a: int, b: int|
                0 <= a < b < pairs.drop_last().len() ==> pairs[a].0 != pairs[b].0);
        }
        lemma_map_of_value(pairs.drop_last(), i);
        assert(pairs.last().0 != pairs[i].0);
    }
}

/// With distinct keys, the map built from a sequence of pairs does not
/// depend on their order: any permutation gives the same map.
pub proof fn lemma_map_of_permutation(
    a: Seq<(Seq<char>, Seq<char>)>,
    b: Seq<(Seq<char>, Seq<char>)>,
)
    requires
        distinct_keys(a),
        a.to_multiset() == b.to_multiset(),
    ensures
        map_of(a) == map_of(b),
{
    broadcast use vstd::seq_lib::group_to_multiset_ensures;

    assert forall|k: Seq<char>| #[trigger] map_of(a).dom().contains(k) implies map_of(
        b,
    ).dom().contains(k) && map_of(b)[k] == map_of(a)[k] by {
        lemma_map_of_contains(a, k);
        let i = choose|i: int| 0 <= i < a.len() && a[i].0 == k;
        lemma_map_of_value(a, i);
        assert(a.contains(a[i]));
        assert(b.to_multiset().count(a[i]) > 0);
        assert(b.contains(a[i]));
        let j = choose|j: int| 0 <= j < b.len() && b[j] == a[i];
        lemma_distinct_keys_permutation(a, b);
        lemma_map_of_value(b, j);
    }
    assert forall|k: Seq<char>| #[trigger] map_of(b).dom().contains(k) implies map_of(
        a,
    ).dom().contains(k) by {
        lemma_map_of_contains(b, k);
        let j = choose|j: int| 0 <= j < b.len() && b[j].0 == k;
        assert(b.contains(b[j]));
        assert(a.to_multiset().count(b[j]) > 0);
        assert(a.contains(b[j]));
        let i = choose|i: int| 0 <= i < a.len() && a[i] == b[j];
        lemma_map_of_contains(a, k);
    }
    assert(map_of(a).dom() =~= map_of(b).dom());
    assert(map_of(a) =~= map_of(b));
}

/// Distinct keys survive permutation.
pub proof fn lemma_distinct_keys_permutation(
    a: Seq<(Seq<char>, Seq<char>)>,
    b: Seq<(Seq<char>, Seq<char>)>,
)
    requires
        distinct_keys(a),
        a.to_multiset() == b.to_multiset(),
    ensures
        distinct_keys(b),
{
    broadcast use vstd::seq_lib::group_to_multiset_ensures;

    assert forall|i: int, j: int| 0 <= i < j < b.len() implies b[i].0 != b[j].0 by {
        if b[i].0 == b[j].0 {
            if b[i] == b[j] {
                let bi = b[i];
                assert(b.remove(j).to_multiset() =~= b.to_multiset().remove(b[j]));
                assert(b.remove(j)[i] == bi);
                assert(b.remove(j).contains(bi));
                assert(b.remove(j).to_multiset().count(bi) > 0);
                assert(b.to_multiset().count(bi) >= 2);
                assert(a.to_multiset().count(bi) >= 2);
                lemma_distinct_keys_count(a, bi);
            } else {
                assert(b.contains(b[i]));
                assert(a.to_multiset().count(b[i]) > 0);
                assert(a.contains(b[i]));
                assert(b.contains(b[j]));
                assert(a.to_multiset().count(b[j]) > 0);
                assert(a.contains(b[j]));
                let p = choose|p: int| 0 <= p < a.len() && a[p] == b[i];
                let q = choose|q: int| 0 <= q < a.len() && a[q] == b[j];
                assert(p != q);
                assert(a[p].0 != a[q].0);
            }
        }
    }
}

/// A distinct-keyed sequence holds any given pair at most once.
proof fn lemma_distinct_keys_count(s: Seq<(Seq<char>, Seq<char>)>, x: (Seq<char>, Seq<char>))
    requires
        distinct_keys(s),
    ensures
        s.to_multiset().count(x) <= 1,
    decreases s.len(),
{
    broadcast use vstd::seq_lib::group_to_multiset_ensures;

    if s.len() == 0 {
        assert(!s.contains(x));
    } else {
        let rest = s.remove(0);
        lemma_remove_distinct(s, 0);
        lemma_distinct_keys_count(rest, x);
        assert(rest.to_multiset() =~= s.to_multiset().remove(s[0]));
        if s[0] == x {
            assert forall|j: int| 0 <= j < rest.len() implies rest[j] != x by {
                assert(rest[j] == s[j + 1]);
                assert(s[0].0 != s[j + 1].0);
            }
            assert(!rest.contains(x));
            assert(rest.to_multiset().count(x) == 0);
            assert(s.to_multiset().count(x) <= 1);
        } else {
            assert(rest.to_multiset().count(x) == s.to_multiset().count(x));
        }
    }
}

/// The resolved parameters: string keys mapped to string values, keys unique.
pub struct ParameterMap {
    entries: Vec<(String, String)>,
}

impl View for ParameterMap {
    type V = Map<Seq<char>, Seq<char>>;

    closed spec fn view(&self) -> Map<Seq<char>, Seq<char>> {
        map_of(self.entry_views())
    }
}

impl ParameterMap {
    /// The pairs held, as views, in insertion order.
    pub closed spec fn entry_views(&self) -> Seq<(Seq<char>, Seq<char>)> {
        self.entries@.map_values(|p: (String, String)| (p.0@, p.1@))
    }

    /// The internal invariant: no key occurs twice.
    pub closed spec fn wf(&self) -> bool {
        distinct_keys(self.entry_views())
    }

    /// An empty map.
    pub fn new() -> (r: Self)
        ensures
            r@ == Map::<Seq<char>, Seq<char>>::empty(),
            r.wf(),
    {
        let r = ParameterMap { entries: Vec::new() };
        proof {
            assert(r.entry_views() =~= Seq::<(Seq<char>, Seq<char>)>::empty());
        }
        r
    }

    /// Insert a pair, replacing any pair already carrying the key.
    pub fn insert(&mut self, key: String, value: String)
        requires
            old(self).wf(),
        ensures
            final(self).wf(),
            final(self)@ == old(self)@.insert(key@, value@),
    {
        let mut i: usize = 0;
        let n = self.entries.len();
        while i < n
            invariant
                i <= n,
                n == self.entries.len(),
                *self == *old(self),
                old(self).wf(),
                forall|j: int| 0 <= j < i ==> self.entry_views()[j].0 != key@,
            decreases n - i,
        {
            if str_eq(self.entries[i].0.as_str(), key.as_str()) {
                proof {
                    assert(self.entry_views()[i as int].0 == key@);
                }
                let ghost pre = self.entry_views();
                self.entries.remove(i);
                proof {
                    assert(self.entry_views() =~= pre.remove(i as int));
                    lemma_remove_distinct(pre, i as int);
                    lemma_map_of_remove(pre, i as int);
                }
                let ghost mid = self.entry_views();
                self.entries.push((key, value));
                proof {
                    assert(self.entry_views() =~= mid.push((key@, value@)));
                    assert(self.entry_views().drop_last() =~= mid);
                    lemma_push_distinct(mid, key@, value@);
                    assert(self@ =~= old(self)@.insert(key@, value@));
                }
                return ;
            }
            i += 1;
        }
        let ghost pre = self.entry_views();
        self.entries.push((key, value));
        proof {
            assert(self.entry_views() =~= pre.push((key@, value@)));
            assert(self.entry_views().drop_last() =~= pre);
            assert(forall|j: int| 0 <= j < pre.len() ==> pre[j].0 != key@);
            lemma_push_distinct(pre, key@, value@);
            assert(self@ =~= old(self)@.insert(key@, value@));
        }
    }

    /// Look a key up; `Some` exactly when the key is present.
    pub fn get(&self, key: &str) -> (r: Option<&String>)
        requires
            self.wf(),
        ensures
            match r {
                Some(v) => self@.contains_key(key@) && self@[key@] == v@,
                None => !self@.contains_key(key@),
            },
    {
        let mut i: usize = 0;
        let n = self.entries.len();
        while i < n
            invariant
                i <= n,
                n == self.entries.len(),
                self.wf(),
                forall|j: int| 0 <= j < i ==> self.entry_views()[j].0 != key@,
            decreases n - i,
        {
            if str_eq(self.entries[i].0.as_str(), key) {
                proof {
                    assert(self.entry_views()[i as int].0 == key@);
                    lemma_map_of_value(self.entry_views(), i as int);
                }
                return Some(&self.entries[i].1);
            }
            i += 1;
        }
        proof {
            lemma_map_of_contains(self.entry_views(), key@);
        }
        None
    }

    /// Whether the key is present.
    pub fn contains(&self, key: &str) -> (r: bool)
        requires
            self.wf(),
        ensures
            r == self@.contains_key(key@),
    {
        match self.get(key) {
            Some(_) => true,
            None => false,
        }
    }
}

/// Removing a pair keeps the remaining keys distinct.
proof fn lemma_remove_distinct(pairs: Seq<(Seq<char>, Seq<char>)>, i: int)
    requires
        distinct_keys(pairs),
        0 <= i < pairs.len(),
    ensures
        distinct_keys(pairs.remove(i)),
{
    assert forall|a: int, b: int|
        0 <= a < b < pairs.remove(i).len() implies pairs.remove(i)[a].0
        != pairs.remove(i)[b].0 by {
        let a0: int = if a < i { a } else { a + 1 };
        let b0: int = if b < i { b } else { b + 1 };
        assert(pairs.remove(i)[a] == pairs[a0]);
        assert(pairs.remove(i)[b] == pairs[b0]);
    }
}

/// Removing the pair that carries a key removes that key from the map.
proof fn lemma_map_of_remove(pairs: Seq<(Seq<char>, Seq<char>)>, i: int)
    requires
        distinct_keys(pairs),
        0 <= i < pairs.len(),
    ensures
        map_of(pairs.remove(i)) == map_of(pairs).remove(pairs[i].0),
    decreases pairs.len(),
{
    let rest = pairs.remove(i);
    lemma_remove_distinct(pairs, i);
    if i == pairs.len() - 1 {
        assert(rest =~= pairs.drop_last());
        lemma_map_of_contains(pairs.drop_last(), pairs[i].0);
        assert(forall|j: int|
            0 <= j < pairs.drop_last().len() ==> pairs.drop_last()[j] == pairs[j]);
        assert(!map_of(pairs.drop_last()).contains_key(pairs[i].0));
        assert(map_of(pairs.drop_last()) =~= map_of(pairs.drop_last()).insert(
            pairs.last().0,
            pairs.last().1,
        ).remove(pairs[i].0));
    } else {
        assert(distinct_keys(pairs.drop_last())) by {
            assert(forall|a: int, b: int|
                0 <= a < b < pairs.drop_last().len() ==> pairs[a].0 != pairs[b].0);
        }
        lemma_map_of_remove(pairs.drop_last(), i);
        assert(rest.drop_last() =~= pairs.drop_last().remove(i));
        assert(rest.last() == pairs.last());
        assert(map_of(rest) == map_of(pairs.drop_last()).remove(pairs[i].0).insert(
            pairs.last().0,
            pairs.last().1,
        ));
        assert(pairs.last().0 != pairs[i].0);
        assert(map_of(pairs.drop_last()).remove(pairs[i].0).insert(pairs.last().0, pairs.last().1)
            =~= map_of(pairs.drop_last()).insert(pairs.last().0, pairs.last().1).remove(
            pairs[i].0,
        ));
    }
}

/// Appending a pair with a fresh key keeps the keys distinct.
proof fn lemma_push_distinct(pairs: Seq<(Seq<char>, Seq<char>)>, k: Seq<char>, v: Seq<char>)
    requires
        distinct_keys(pairs),
        forall|j: int| 0 <= j < pairs.len() ==> pairs[j].0 != k,
    ensures
        distinct_keys(pairs.push((k, v))),
{
    assert forall|a: int, b: int|
        0 <= a < b < pairs.push((k, v)).len() implies pairs.push((k, v))[a].0 != pairs.push(
        (k, v),
    )[b].0 by {
        if b < pairs.len() {
            assert(pairs.push((k, v))[a] == pairs[a]);
            assert(pairs.push((k, v))[b] == pairs[b]);
        } else {
            assert(pairs.push((k, v))[a] == pairs[a]);
            assert(pairs.push((k, v))[b] == (k, v));
        }
    }
}

} // verus!
