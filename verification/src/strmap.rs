//! A string-to-string mapping kept as a vector of pairs sorted strictly by
//! key, so that every map has exactly one representation. It backs both the
//! label maps a selector is built from and the annotation maps of workload
//! objects.

use vstd::prelude::*;

use crate::text::{lemma_lex_connex, lemma_lex_irrefl, lemma_lex_trans, lex_lt, str_eq_view,
    str_lt};

verus! {

/// The mathematical map a pair sequence denotes: later pairs win.
pub open spec fn map_of(s: Seq<(String, String)>) -> Map<Seq<char>, Seq<char>>
    decreases s.len(),
{
    if s.len() == 0 {
        Map::empty()
    } else {
        map_of(s.drop_last()).insert(s.last().0@, s.last().1@)
    }
}

/// The pairs reduced to their character sequences, in order.
pub open spec fn pair_views(s: Seq<(String, String)>) -> Seq<(Seq<char>, Seq<char>)> {
    Seq::new(s.len(), |i: int| (s[i].0@, s[i].1@))
}

/// Keys appear in strictly increasing lexicographic order.
pub open spec fn sorted_keys(s: Seq<(String, String)>) -> bool {
    forall|i: int, j: int| 0 <= i < j < s.len() ==> lex_lt(#[trigger] s[i].0@, #[trigger] s[j].0@)
}

/// A key is in the denoted map exactly when some pair carries it.
pub proof fn lemma_map_of_contains(s: Seq<(String, String)>, k: Seq<char>)
    ensures
        map_of(s).contains_key(k) <==> exists|i: int| 0 <= i < s.len() && s[i].0@ == k,
    decreases s.len(),
{
    if s.len() == 0 {
    } else {
        lemma_map_of_contains(s.drop_last(), k);
        if map_of(s).contains_key(k) {
            if s.last().0@ == k {
                assert(s[s.len() - 1].0@ == k);
            } else {
                let i = choose|i: int| 0 <= i < s.len() - 1 && s.drop_last()[i].0@ == k;
                assert(s[i].0@ == k);
            }
        }
        if exists|i: int| 0 <= i < s.len() && s[i].0@ == k {
            let i = choose|i: int| 0 <= i < s.len() && s[i].0@ == k;
            if i < s.len() - 1 {
                assert(s.drop_last()[i].0@ == k);
            }
        }
    }
}

/// Strictly sorted pairs carry pairwise distinct keys.
pub proof fn lemma_sorted_distinct(s: Seq<(String, String)>)
    requires
        sorted_keys(s),
    ensures
        forall|i: int, j: int|
            0 <= i < s.len() && 0 <= j < s.len() && i != j ==> #[trigger] s[i].0@ != #[trigger] s[j].0@,
{
    assert forall|i: int, j: int|
        0 <= i < s.len() && 0 <= j < s.len() && i != j implies #[trigger] s[i].0@ != #[trigger] s[j].0@ by {
        if s[i].0@ == s[j].0@ {
            if i < j {
                lemma_lex_irrefl(s[i].0@);
            } else {
                lemma_lex_irrefl(s[j].0@);
            }
        }
    }
}

/// With distinct keys, the denoted map sends each pair's key to its value.
pub proof fn lemma_map_of_value(s: Seq<(String, String)>, i: int)
    requires
        forall|p: int, q: int|
            0 <= p < s.len() && 0 <= q < s.len() && p != q ==> #[trigger] s[p].0@ != #[trigger] s[q].0@,
        0 <= i < s.len(),
    ensures
        map_of(s).contains_key(s[i].0@),
        map_of(s)[s[i].0@] == s[i].1@,
    decreases s.len(),
{
    if i == s.len() - 1 {
    } else {
        assert(s[i].0@ != s[s.len() - 1].0@);
        assert forall|p: int, q: int|
            0 <= p < s.drop_last().len() && 0 <= q < s.drop_last().len() && p != q
            implies #[trigger] s.drop_last()[p].0@ != #[trigger] s.drop_last()[q].0@ by {
            assert(s.drop_last()[p] == s[p]);
            assert(s.drop_last()[q] == s[q]);
        }
        assert(s.drop_last()[i] == s[i]);
        lemma_map_of_value(s.drop_last(), i);
    }
}

/// Replacing the pair that already carries a key denotes `insert` on the map.
proof fn lemma_map_of_update(s: Seq<(String, String)>, p: int, x: (String, String))
    requires
        forall|i: int, j: int|
            0 <= i < s.len() && 0 <= j < s.len() && i != j ==> #[trigger] s[i].0@ != #[trigger] s[j].0@,
        0 <= p < s.len(),
        x.0@ == s[p].0@,
    ensures
        map_of(s.update(p, x)) == map_of(s).insert(x.0@, x.1@),
    decreases s.len(),
{
    let s2 = s.update(p, x);
    if p == s.len() - 1 {
        assert(s2.drop_last() =~= s.drop_last());
        assert(map_of(s2) == map_of(s.drop_last()).insert(x.0@, x.1@));
        assert(map_of(s).insert(x.0@, x.1@) =~= map_of(s.drop_last()).insert(x.0@, x.1@));
    } else {
        assert forall|i: int, j: int|
            0 <= i < s.drop_last().len() && 0 <= j < s.drop_last().len() && i != j
            implies #[trigger] s.drop_last()[i].0@ != #[trigger] s.drop_last()[j].0@ by {
            assert(s.drop_last()[i] == s[i]);
            assert(s.drop_last()[j] == s[j]);
        }
        assert(s.drop_last()[p] == s[p]);
        lemma_map_of_update(s.drop_last(), p, x);
        assert(s2.drop_last() =~= s.drop_last().update(p, x));
        assert(s2.last() == s.last());
        assert(map_of(s2) == map_of(s.drop_last()).insert(x.0@, x.1@).insert(s.last().0@, s.last().1@));
        assert(x.0@ != s[s.len() - 1].0@);
        assert(map_of(s.drop_last()).insert(x.0@, x.1@).insert(s.last().0@, s.last().1@)
            =~= map_of(s.drop_last()).insert(s.last().0@, s.last().1@).insert(x.0@, x.1@));
    }
}

/// Splicing in a pair with a fresh key denotes `insert` on the map.
proof fn lemma_map_of_splice(s: Seq<(String, String)>, p: int, x: (String, String))
    requires
        forall|i: int| 0 <= i < s.len() ==> #[trigger] s[i].0@ != x.0@,
        0 <= p <= s.len(),
    ensures
        map_of(s.insert(p, x)) == map_of(s).insert(x.0@, x.1@),
    decreases s.len() - p,
{
    let s2 = s.insert(p, x);
    if p == s.len() {
        assert(s2 =~= s.push(x));
        assert(s.push(x).drop_last() =~= s);
    } else {
        assert forall|i: int| 0 <= i < s.drop_last().len() implies #[trigger] s.drop_last()[i].0@ != x.0@ by {
            assert(s.drop_last()[i] == s[i]);
        }
        lemma_map_of_splice(s.drop_last(), p, x);
        assert(s2.drop_last() =~= s.drop_last().insert(p, x));
        assert(s2.last() == s.last());
        assert(map_of(s2) == map_of(s.drop_last()).insert(x.0@, x.1@).insert(s.last().0@, s.last().1@));
        assert(s[s.len() - 1].0@ != x.0@);
        assert(map_of(s.drop_last()).insert(x.0@, x.1@).insert(s.last().0@, s.last().1@)
            =~= map_of(s.drop_last()).insert(s.last().0@, s.last().1@).insert(x.0@, x.1@));
    }
}

/// A string-to-string map with a canonical, key-sorted representation.
pub struct StringMap {
    /// The pairs, strictly sorted by key whenever `wf()` holds.
    pub pairs: Vec<(String, String)>,
}

impl View for StringMap {
    type V = Map<Seq<char>, Seq<char>>;

    open spec fn view(&self) -> Map<Seq<char>, Seq<char>> {
        map_of(self.pairs@)
    }
}

impl StringMap {
    /// The underlying pair sequence.
    pub open spec fn spec_pairs(&self) -> Seq<(String, String)> {
        self.pairs@
    }

    /// The pair sequence reduced to character sequences, in key order.
    pub open spec fn spec_pair_views(&self) -> Seq<(Seq<char>, Seq<char>)> {
        pair_views(self.pairs@)
    }

    /// The representation invariant: keys strictly sorted.
    pub open spec fn wf(&self) -> bool {
        sorted_keys(self.pairs@)
    }

    /// The empty map.
    pub fn new() -> (r: StringMap)
        ensures
            r.wf(),
            r@ == Map::<Seq<char>, Seq<char>>::empty(),
            r.spec_pairs().len() == 0,
    {
        StringMap { pairs: Vec::new() }
    }

    /// How many pairs the map holds.
    pub fn pair_count(&self) -> (r: usize)
        ensures
            r == self.spec_pairs().len(),
    {
        self.pairs.len()
    }

    /// The key of the pair at a position, for iteration in key order.
    pub fn key_at(&self, i: usize) -> (r: &String)
        requires
            i < self.spec_pairs().len(),
        ensures
            r@ == self.spec_pair_views()[i as int].0,
    {
        &self.pairs[i].0
    }

    /// The value of the pair at a position, for iteration in key order.
    pub fn value_at(&self, i: usize) -> (r: &String)
        requires
            i < self.spec_pairs().len(),
        ensures
            r@ == self.spec_pair_views()[i as int].1,
    {
        &self.pairs[i].1
    }

    /// The position at which `key` stands or would be spliced in.
    fn find_position(&self, key: &str) -> (p: usize)
        requires
            self.wf(),
        ensures
            p <= self.pairs@.len(),
            forall|j: int| 0 <= j < p ==> lex_lt(#[trigger] self.pairs@[j].0@, key@),
            p < self.pairs@.len() ==> !lex_lt(self.pairs@[p as int].0@, key@),
    {
        let mut p: usize = 0;
        loop
            invariant
                self.wf(),
                p <= self.pairs@.len(),
                forall|j: int| 0 <= j < p ==> lex_lt(#[trigger] self.pairs@[j].0@, key@),
            decreases self.pairs@.len() - p,
        {
            if p == self.pairs.len() {
                return p;
            }
            if !str_lt(self.pairs[p].0.as_str(), key) {
                return p;
            }
            p = p + 1;
        }
    }

    /// Binds `key` to `value`, replacing any earlier binding.
    pub fn insert(&mut self, key: String, value: String)
        requires
            old(self).wf(),
        ensures
            final(self).wf(),
            final(self)@ == old(self)@.insert(key@, value@),
    {
        let ghost s = self.pairs@;
        let p = self.find_position(key.as_str());
        proof {
            lemma_sorted_distinct(s);
        }
        if p < self.pairs.len() && str_eq_view(self.pairs[p].0.as_str(), key.as_str()) {
            // The key is already bound: replace the pair in place.
            proof {
                lemma_map_of_update(s, p as int, (key, value));
            }
            self.pairs.remove(p);
            self.pairs.insert(p, (key, value));
            proof {
                assert(self.pairs@ =~= s.update(p as int, (key, value)));
                assert forall|i: int, j: int| 0 <= i < j < self.pairs@.len()
                    implies lex_lt(#[trigger] self.pairs@[i].0@, #[trigger] self.pairs@[j].0@) by {
                    assert(self.pairs@[i].0@ == s[i].0@);
                    assert(self.pairs@[j].0@ == s[j].0@);
                }
            }
        } else {
            // The key is new: splice it in at its sorted position.
            proof {
                if p < s.len() {
                    assert(!lex_lt(s[p as int].0@, key@));
                    assert(s[p as int].0@ != key@);
                    if !lex_lt(key@, s[p as int].0@) {
                        lemma_lex_connex(s[p as int].0@, key@);
                    }
                    assert(lex_lt(key@, s[p as int].0@));
                }
                assert forall|i: int| 0 <= i < s.len() implies #[trigger] s[i].0@ != key@ by {
                    if i < p {
                        crate::text::lemma_lex_lt_ne(s[i].0@, key@);
                    } else {
                        if i > p {
                            lemma_lex_trans(key@, s[p as int].0@, s[i].0@);
                        }
                        crate::text::lemma_lex_lt_ne(key@, s[i].0@);
                    }
                }
                lemma_map_of_splice(s, p as int, (key, value));
            }
            self.pairs.insert(p, (key, value));
            proof {
                assert(self.pairs@ =~= s.insert(p as int, (key, value)));
                assert forall|i: int, j: int| 0 <= i < j < self.pairs@.len()
                    implies lex_lt(#[trigger] self.pairs@[i].0@, #[trigger] self.pairs@[j].0@) by {
                    let t = self.pairs@;
                    if j < p {
                        assert(t[i] == s[i] && t[j] == s[j]);
                    } else if j == p {
                        assert(t[i] == s[i]);
                        assert(lex_lt(s[i].0@, key@));
                    } else {
                        if i < p {
                            assert(t[i] == s[i] && t[j] == s[j - 1]);
                            assert(i < j - 1);
                            assert(lex_lt(s[i].0@, s[j - 1].0@));
                        } else if i == p {
                            assert(t[j] == s[j - 1]);
                            assert(lex_lt(key@, s[p as int].0@));
                            if j - 1 > p {
                                lemma_lex_trans(key@, s[p as int].0@, s[j - 1].0@);
                            }
                        } else {
                            assert(t[i] == s[i - 1] && t[j] == s[j - 1]);
                        }
                    }
                }
            }
        }
    }

    /// Looks a key up.
    pub fn get(&self, key: &str) -> (r: Option<&String>)
        requires
            self.wf(),
        ensures
            (match r {
                Some(v) => self@.contains_key(key@) && v@ == self@[key@],
                None => !self@.contains_key(key@),
            }),
    {
        let ghost s = self.pairs@;
        let mut i: usize = 0;
        loop
            invariant
                self.pairs@ == s,
                sorted_keys(s),
                i <= s.len(),
                forall|j: int| 0 <= j < i ==> #[trigger] s[j].0@ != key@,
            decreases s.len() - i,
        {
            if i == self.pairs.len() {
                proof {
                    lemma_map_of_contains(s, key@);
                }
                return None;
            }
            if str_eq_view(self.pairs[i].0.as_str(), key) {
                proof {
                    lemma_sorted_distinct(s);
                    lemma_map_of_value(s, i as int);
                }
                return Some(&self.pairs[i].1);
            }
            i = i + 1;
        }
    }

    /// Builds the canonical map from pairs in any order; later pairs win.
    pub fn from_pairs(v: &Vec<(String, String)>) -> (r: StringMap)
        ensures
            r.wf(),
            r@ == map_of(v@),
    {
        let mut m = StringMap::new();
        let mut i: usize = 0;
        proof {
            assert(v@.take(0) =~= Seq::<(String, String)>::empty());
        }
        loop
            invariant
                m.wf(),
                i <= v@.len(),
                m@ == map_of(v@.take(i as int)),
            decreases v@.len() - i,
        {
            if i == v.len() {
                proof {
                    assert(v@.take(v@.len() as int) =~= v@);
                }
                return m;
            }
            let key = v[i].0.clone();
            let value = v[i].1.clone();
            m.insert(key, value);
            proof {
                assert(v@.take(i + 1).drop_last() =~= v@.take(i as int));
                assert(v@.take(i + 1).last() == v@[i as int]);
            }
            i = i + 1;
        }
    }

    /// A copy denoting the same map.
    pub fn duplicate(&self) -> (r: StringMap)
        ensures
            r.spec_pair_views() == self.spec_pair_views(),
            r@ == self@,
            self.wf() ==> r.wf(),
    {
        let mut pairs: Vec<(String, String)> = Vec::new();
        let mut i: usize = 0;
        while i < self.pairs.len()
            invariant
                i <= self.pairs@.len(),
                pairs@.len() == i,
                forall|j: int| 0 <= j < i ==> (#[trigger] pairs@[j]).0@ == self.pairs@[j].0@
                    && pairs@[j].1@ == self.pairs@[j].1@,
            decreases self.pairs@.len() - i,
        {
            let k = self.pairs[i].0.clone();
            let v = self.pairs[i].1.clone();
            pairs.push((k, v));
            proof {
                assert(pairs@[i as int].0@ == self.pairs@[i as int].0@);
                assert(pairs@[i as int].1@ == self.pairs@[i as int].1@);
            }
            i = i + 1;
        }
        let r = StringMap { pairs };
        proof {
            assert(r.spec_pair_views() =~~= self.spec_pair_views());
            lemma_equal_pair_views_equal_map(r.pairs@, self.pairs@);
            if self.wf() {
                assert forall|a: int, b: int| 0 <= a < b < r.pairs@.len()
                    implies lex_lt((#[trigger] r.pairs@[a]).0@, (#[trigger] r.pairs@[b]).0@) by {
                    assert(lex_lt(self.pairs@[a].0@, self.pairs@[b].0@));
                }
            }
        }
        r
    }
}

/// Pair sequences with the same character views denote the same map.
pub proof fn lemma_equal_pair_views_equal_map(a: Seq<(String, String)>, b: Seq<(String, String)>)
    requires
        pair_views(a) == pair_views(b),
    ensures
        map_of(a) == map_of(b),
    decreases a.len(),
{
    assert(pair_views(a).len() == pair_views(b).len());
    if a.len() == 0 {
        assert(map_of(a) =~= map_of(b));
    } else {
        assert(pair_views(a.drop_last()) =~= pair_views(a).drop_last());
        assert(pair_views(b.drop_last()) =~= pair_views(b).drop_last());
        lemma_equal_pair_views_equal_map(a.drop_last(), b.drop_last());
        assert(pair_views(a)[a.len() - 1] == pair_views(b)[b.len() - 1]);
        assert(a.last().0@ == b.last().0@ && a.last().1@ == b.last().1@);
    }
}

} // verus!
