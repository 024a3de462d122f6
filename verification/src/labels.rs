//! The label selector codec: a label map becomes the canonical wire-format
//! selector string `k1=v1,k2=v2,...`, keys in sorted order.

use vstd::prelude::*;

use crate::strmap::{lemma_map_of_contains, lemma_map_of_value, lemma_sorted_distinct, map_of,
    pair_views, sorted_keys, StringMap};
use crate::text::{lemma_lex_irrefl, lemma_lex_trans, lex_lt};

verus! {

/// One `key=value` clause of a selector.
pub open spec fn pair_clause(p: (Seq<char>, Seq<char>)) -> Seq<char> {
    p.0 + "="@ + p.1
}

/// The selector string for pairs taken in the order given.
pub open spec fn selector_of(pv: Seq<(Seq<char>, Seq<char>)>) -> Seq<char>
    decreases pv.len(),
{
    if pv.len() == 0 {
        Seq::empty()
    } else if pv.len() == 1 {
        pair_clause(pv[0])
    } else {
        selector_of(pv.drop_last()) + ","@ + pair_clause(pv.last())
    }
}

/// Joins the map's `key=value` pairs with commas, keys in sorted order.
///
/// The empty map yields the empty string, which the API server reads as
/// "match all".
pub fn build_label_selector(m: &StringMap) -> (r: String)
    ensures
        r@ == selector_of(m.spec_pair_views()),
        m.spec_pairs().len() == 0 ==> r@ == Seq::<char>::empty(),
    {
    let ghost pv = m.spec_pair_views();
    let mut out = String::new();
    let n = m.pair_count();
    let mut i: usize = 0;
    proof {
        assert(selector_of(pv.take(0)) =~= Seq::<char>::empty());
    }
    while i < n
        invariant
            n == pv.len(),
            pv == m.spec_pair_views(),
            i <= n,
            out@ == selector_of(pv.take(i as int)),
        decreases n - i,
    {
        if i > 0 {
            out.append(",");
        }
        out.append(m.key_at(i).as_str());
        out.append("=");
        out.append(m.value_at(i).as_str());
        proof {
            assert(pv.take(i + 1).drop_last() =~= pv.take(i as int));
            assert(pv.take(i + 1).last() == pv[i as int]);
            if i == 0 {
                assert(out@ =~= pair_clause(pv[0]));
            } else {
                assert(out@ =~= selector_of(pv.take(i as int)) + ","@ + pair_clause(pv[i as int]));
            }
        }
        i = i + 1;
    }
    proof {
        assert(pv.take(n as int) =~= pv);
    }
    out
}

/// A well-formed map that denotes the empty mathematical map has no pairs,
/// so its selector is the empty string.
pub proof fn lemma_empty_selector(m: &StringMap)
    requires
        m@ == Map::<Seq<char>, Seq<char>>::empty(),
    ensures
        selector_of(m.spec_pair_views()) == Seq::<char>::empty(),
{
    if m.spec_pairs().len() > 0 {
        lemma_map_of_contains(m.spec_pairs(), m.spec_pairs().last().0@);
        assert(m@.contains_key(m.spec_pairs().last().0@));
    }
    assert(selector_of(m.spec_pair_views()) =~= Seq::<char>::empty());
}

/// Sorted pair sequences that denote the same map have the same views.
proof fn lemma_canonical_views(a: Seq<(String, String)>, b: Seq<(String, String)>)
    requires
        sorted_keys(a),
        sorted_keys(b),
        map_of(a) == map_of(b),
    ensures
        pair_views(a) == pair_views(b),
    decreases a.len(),
{
    lemma_sorted_distinct(a);
    lemma_sorted_distinct(b);
    if a.len() == 0 {
        if b.len() > 0 {
            lemma_map_of_contains(b, b.last().0@);
            assert(map_of(b).contains_key(b.last().0@));
            lemma_map_of_contains(a, b.last().0@);
        }
        assert(pair_views(a) =~~= pair_views(b));
    } else if b.len() == 0 {
        lemma_map_of_contains(a, a.last().0@);
        assert(map_of(a).contains_key(a.last().0@));
        lemma_map_of_contains(b, a.last().0@);
    } else {
        let ka = a.last().0@;
        let kb = b.last().0@;
        // The greatest key of each sequence is its last; the maps agree, so
        // the last keys agree.
        lemma_map_of_contains(a, ka);
        assert(map_of(b).contains_key(ka));
        lemma_map_of_contains(b, ka);
        let j = choose|j: int| 0 <= j < b.len() && b[j].0@ == ka;
        lemma_map_of_contains(b, kb);
        assert(map_of(a).contains_key(kb));
        lemma_map_of_contains(a, kb);
        let i = choose|i: int| 0 <= i < a.len() && a[i].0@ == kb;
        if j < b.len() - 1 {
            assert(lex_lt(ka, kb));
            if i < a.len() - 1 {
                assert(lex_lt(kb, ka));
                lemma_lex_trans(ka, kb, ka);
                lemma_lex_irrefl(ka);
            } else {
                assert(ka == kb);
                lemma_lex_irrefl(ka);
            }
            assert(false);
        }
        assert(ka == kb);
        // Their values agree through the map.
        lemma_map_of_value(a, a.len() - 1);
        lemma_map_of_value(b, b.len() - 1);
        assert(a.last().1@ == map_of(a)[ka]);
        assert(b.last().1@ == map_of(b)[kb]);
        // Dropping the last pair denotes the map without that key, on both
        // sides, so induction applies.
        assert forall|q: int| 0 <= q < a.len() - 1 implies #[trigger] a[q].0@ != ka by {
            assert(a.drop_last()[q] == a[q]);
        }
        assert(map_of(a.drop_last()) =~= map_of(a).remove(ka)) by {
            lemma_map_of_contains(a.drop_last(), ka);
            assert(!map_of(a.drop_last()).contains_key(ka)) by {
                if exists|q: int| 0 <= q < a.len() - 1 && a.drop_last()[q].0@ == ka {
                    let q = choose|q: int| 0 <= q < a.len() - 1 && a.drop_last()[q].0@ == ka;
                    assert(a[q].0@ == ka);
                }
            }
            assert(map_of(a) == map_of(a.drop_last()).insert(ka, a.last().1@));
        }
        assert(map_of(b.drop_last()) =~= map_of(b).remove(kb)) by {
            lemma_map_of_contains(b.drop_last(), kb);
            assert(!map_of(b.drop_last()).contains_key(kb)) by {
                if exists|q: int| 0 <= q < b.len() - 1 && b.drop_last()[q].0@ == kb {
                    let q = choose|q: int| 0 <= q < b.len() - 1 && b.drop_last()[q].0@ == kb;
                    assert(b[q].0@ == kb);
                }
            }
            assert(map_of(b) == map_of(b.drop_last()).insert(kb, b.last().1@));
        }
        assert forall|p: int, q: int| 0 <= p < q < a.drop_last().len()
            implies lex_lt((#[trigger] a.drop_last()[p]).0@, (#[trigger] a.drop_last()[q]).0@) by {
            assert(a.drop_last()[p] == a[p] && a.drop_last()[q] == a[q]);
            assert(lex_lt(a[p].0@, a[q].0@));
        }
        assert forall|p: int, q: int| 0 <= p < q < b.drop_last().len()
            implies lex_lt((#[trigger] b.drop_last()[p]).0@, (#[trigger] b.drop_last()[q]).0@) by {
            assert(b.drop_last()[p] == b[p] && b.drop_last()[q] == b[q]);
            assert(lex_lt(b[p].0@, b[q].0@));
        }
        lemma_canonical_views(a.drop_last(), b.drop_last());
        assert(pair_views(a) =~~= pair_views(b)) by {
            assert(pair_views(a.drop_last()) =~~= pair_views(a).drop_last());
            assert(pair_views(b.drop_last()) =~~= pair_views(b).drop_last());
            assert(pair_views(a).len() == pair_views(b).len());
            assert forall|q: int| 0 <= q < pair_views(a).len()
                implies pair_views(a)[q] == pair_views(b)[q] by {
                if q < pair_views(a).len() - 1 {
                    assert(pair_views(a).drop_last()[q] == pair_views(a)[q]);
                    assert(pair_views(b).drop_last()[q] == pair_views(b)[q]);
                    assert(pair_views(a.drop_last())[q] == pair_views(b.drop_last())[q]);
                } else {
                    assert(pair_views(a)[q] == (ka, a.last().1@));
                    assert(pair_views(b)[q] == (kb, b.last().1@));
                }
            }
        }
    }
}

/// The selector is a function of the map alone: well-formed label maps that
/// denote the same mathematical map yield the same selector, whatever order
/// their entries were inserted in.
pub proof fn lemma_selector_deterministic(a: &StringMap, b: &StringMap)
    requires
        a.wf(),
        b.wf(),
        a@ == b@,
    ensures
        selector_of(a.spec_pair_views()) == selector_of(b.spec_pair_views()),
{
    lemma_canonical_views(a.spec_pairs(), b.spec_pairs());
}

} // verus!
