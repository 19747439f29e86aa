//! Normalising one directory entry into a record with name-ordered attributes.

use vstd::prelude::*;
use crate::text::{
    chars_le, chars_lt, lemma_chars_lt_asymmetric, lemma_chars_lt_total,
    lemma_chars_lt_transitive, name_lt,
};

verus! {

broadcast use vstd::seq_lib::group_to_multiset_ensures;

/// An entry as the protocol layer delivers it: text and binary attributes,
/// each a list of named value lists in no particular order.
#[derive(Debug, PartialEq, Eq)]
pub struct RawEntry {
    pub dn: String,
    pub attrs: Vec<(String, Vec<String>)>,
    pub bin_attrs: Vec<(String, Vec<Vec<u8>>)>,
}

/// An entry whose attribute lists are ordered by name.
#[derive(Debug, PartialEq, Eq)]
pub struct ShapedRecord {
    pub dn: String,
    pub attrs: Vec<(String, Vec<String>)>,
    pub bin_attrs: Vec<(String, Vec<Vec<u8>>)>,
}

/// Each name comes no later than the one after it.
pub open spec fn sorted_by_name<V>(s: Seq<(String, V)>) -> bool {
    forall|i: int| 0 <= i < s.len() - 1 ==> chars_le(#[trigger] s[i].0@, s[i + 1].0@)
}

/// Each name comes strictly before the one after it.
pub open spec fn strictly_sorted_by_name<V>(s: Seq<(String, V)>) -> bool {
    forall|i: int| 0 <= i < s.len() - 1 ==> chars_lt(#[trigger] s[i].0@, s[i + 1].0@)
}

/// No name occurs twice.
pub open spec fn names_unique<V>(s: Seq<(String, V)>) -> bool {
    forall|i: int, j: int| 0 <= i < j < s.len() ==> s[i].0@ != s[j].0@
}

/// `r` holds the same named value lists as `s`, ordered by name.
pub open spec fn is_name_ordering<V>(r: Seq<(String, V)>, s: Seq<(String, V)>) -> bool {
    &&& sorted_by_name(r)
    &&& r.to_multiset() == s.to_multiset()
}

/// `r` is `e` with both attribute lists ordered by name; names, values and
/// the order of values within each list are kept.
pub open spec fn is_shaping_of(r: ShapedRecord, e: RawEntry) -> bool {
    &&& r.dn == e.dn
    &&& is_name_ordering(r.attrs@, e.attrs@)
    &&& is_name_ordering(r.bin_attrs@, e.bin_attrs@)
}

/// Puts `item` into the name-ordered `out`, after any entries of equal name.
fn insert_by_name<V>(out: &mut Vec<(String, V)>, item: (String, V))
    requires
        sorted_by_name(old(out)@),
    ensures
        sorted_by_name(final(out)@),
        final(out)@.to_multiset() == old(out)@.to_multiset().insert(item),
{
    let mut p: usize = out.len();
    while p > 0 && name_lt(item.0.as_str(), out[p - 1].0.as_str())
        invariant
            p <= out.len(),
            forall|k: int| p <= k < out.len() ==> chars_lt(item.0@, #[trigger] out@[k].0@),
        decreases p,
    {
        p = p - 1;
    }
    let ghost before = out@;
    let ghost x = item;
    out.insert(p, item);
    proof {
        assert(out@ =~= before.insert(p as int, x));
        if p < before.len() {
            lemma_chars_lt_asymmetric(x.0@, before[p as int].0@);
        }
        assert forall|i: int| 0 <= i < out@.len() - 1 implies chars_le(
            #[trigger] out@[i].0@,
            out@[i + 1].0@,
        ) by {
            if i + 1 < p {
                assert(out@[i] == before[i] && out@[i + 1] == before[i + 1]);
            } else if i + 1 == p {
                assert(out@[i] == before[i] && out@[i + 1] == x);
            } else if i == p {
                assert(out@[i] == x && out@[i + 1] == before[i]);
            } else {
                assert(out@[i] == before[i - 1] && out@[i + 1] == before[i]);
            }
        }
    }
}

/// The entries of `items`, ordered by name.
pub fn sort_by_name<V>(items: Vec<(String, V)>) -> (r: Vec<(String, V)>)
    ensures
        is_name_ordering(r@, items@),
{
    let ghost orig = items@;
    let mut rest = items;
    let mut out: Vec<(String, V)> = Vec::new();
    while rest.len() > 0
        invariant
            sorted_by_name(out@),
            out@.to_multiset().add(rest@.to_multiset()) == orig.to_multiset(),
        decreases rest.len(),
    {
        let ghost before = rest@;
        let item = rest.pop().unwrap();
        proof {
            assert(before =~= rest@.push(item));
        }
        insert_by_name(&mut out, item);
        assert(out@.to_multiset().add(rest@.to_multiset()) =~= orig.to_multiset());
    }
    assert(out@.to_multiset().add(rest@.to_multiset()) =~= out@.to_multiset());
    out
}

/// Shapes one entry: both attribute lists ordered by name, independently.
pub fn shape_entry(entry: RawEntry) -> (r: ShapedRecord)
    ensures
        is_shaping_of(r, entry),
        names_unique(entry.attrs@) ==> strictly_sorted_by_name(r.attrs@),
        names_unique(entry.bin_attrs@) ==> strictly_sorted_by_name(r.bin_attrs@),
{
    let ghost e = entry;
    let RawEntry { dn, attrs, bin_attrs } = entry;
    let r = ShapedRecord { dn, attrs: sort_by_name(attrs), bin_attrs: sort_by_name(bin_attrs) };
    proof {
        if names_unique(e.attrs@) {
            lemma_distinct_names_strictly_ordered(r.attrs@, e.attrs@);
        }
        if names_unique(e.bin_attrs@) {
            lemma_distinct_names_strictly_ordered(r.bin_attrs@, e.bin_attrs@);
        }
    }
    r
}

/// When the names of an attribute list are distinct, as the protocol layer
/// delivers them, its name ordering is strictly ascending, whatever the
/// order in which the server sent them.
pub proof fn lemma_distinct_names_strictly_ordered<V>(r: Seq<(String, V)>, s: Seq<(String, V)>)
    requires
        is_name_ordering(r, s),
        names_unique(s),
    ensures
        strictly_sorted_by_name(r),
{
    assert(s.no_duplicates());
    s.lemma_multiset_has_no_duplicates();
    r.lemma_multiset_has_no_duplicates_conv();
    assert forall|i: int| 0 <= i < r.len() - 1 implies chars_lt(
        #[trigger] r[i].0@,
        r[i + 1].0@,
    ) by {
        assert(r.contains(r[i]) && r.contains(r[i + 1]));
        assert(r.to_multiset().count(r[i]) > 0 && r.to_multiset().count(r[i + 1]) > 0);
        assert(s.contains(r[i]) && s.contains(r[i + 1]));
        let a = choose|a: int| 0 <= a < s.len() && s[a] == r[i];
        let b = choose|b: int| 0 <= b < s.len() && s[b] == r[i + 1];
        assert(a != b);
        lemma_chars_lt_total(r[i].0@, r[i + 1].0@);
    }
}

/// In a strictly ordered list every earlier name sorts before every later one.
proof fn lemma_strict_order_all_pairs<V>(r: Seq<(String, V)>, i: int, j: int)
    requires
        strictly_sorted_by_name(r),
        0 <= i < j < r.len(),
    ensures
        chars_lt(r[i].0@, r[j].0@),
    decreases j - i,
{
    if j > i + 1 {
        lemma_strict_order_all_pairs(r, i, j - 1);
        assert(chars_lt(r[j - 1].0@, r[j].0@));
        lemma_chars_lt_transitive(r[i].0@, r[j - 1].0@, r[j].0@);
    }
}

/// Two strictly name-ordered lists with the same entries are the same list.
proof fn lemma_strict_order_unique<V>(r1: Seq<(String, V)>, r2: Seq<(String, V)>)
    requires
        strictly_sorted_by_name(r1),
        strictly_sorted_by_name(r2),
        r1.to_multiset() == r2.to_multiset(),
    ensures
        r1 == r2,
    decreases r1.len(),
{
    if r1.len() == 0 {
        assert(r2.to_multiset().len() == 0);
        assert(r2 =~= r1);
    } else {
        assert(r2.len() > 0) by {
            assert(r1.to_multiset().len() > 0);
        }
        assert(r1.contains(r1[0]));
        assert(r1.to_multiset().count(r1[0]) > 0);
        let k = choose|k: int| 0 <= k < r2.len() && r2[k] == r1[0];
        assert(r2.contains(r2[0]));
        assert(r2.to_multiset().count(r2[0]) > 0);
        let m = choose|m: int| 0 <= m < r1.len() && r1[m] == r2[0];
        if k > 0 {
            lemma_strict_order_all_pairs(r2, 0, k);
            if m > 0 {
                lemma_strict_order_all_pairs(r1, 0, m);
                lemma_chars_lt_asymmetric(r1[0].0@, r2[0].0@);
            } else {
                lemma_chars_lt_asymmetric(r2[0].0@, r2[0].0@);
            }
        }
        assert(r1[0] == r2[0]);
        let t1 = r1.drop_first();
        let t2 = r2.drop_first();
        assert(r1.remove(0) =~= t1);
        assert(r2.remove(0) =~= t2);
        assert(t1.to_multiset() == t2.to_multiset());
        assert(strictly_sorted_by_name(t1)) by {
            assert forall|i: int| 0 <= i < t1.len() - 1 implies chars_lt(
                #[trigger] t1[i].0@,
                t1[i + 1].0@,
            ) by {
                assert(t1[i] == r1[i + 1]);
            }
        }
        assert(strictly_sorted_by_name(t2)) by {
            assert forall|i: int| 0 <= i < t2.len() - 1 implies chars_lt(
                #[trigger] t2[i].0@,
                t2[i + 1].0@,
            ) by {
                assert(t2[i] == r2[i + 1]);
            }
        }
        lemma_strict_order_unique(t1, t2);
        assert(r1 =~= r2) by {
            assert(r1 =~= seq![r1[0]] + t1);
            assert(r2 =~= seq![r2[0]] + t2);
        }
    }
}

/// Shaping does not depend on the order in which the server sent the
/// attributes: the same distinctly named attributes, arriving in any two
/// orders, are shaped into the same list.
pub proof fn lemma_shaping_ignores_arrival_order<V>(
    r1: Seq<(String, V)>,
    s1: Seq<(String, V)>,
    r2: Seq<(String, V)>,
    s2: Seq<(String, V)>,
)
    requires
        is_name_ordering(r1, s1),
        is_name_ordering(r2, s2),
        names_unique(s1),
        s1.to_multiset() == s2.to_multiset(),
    ensures
        r1 == r2,
{
    lemma_distinct_names_strictly_ordered(r1, s1);
    assert(names_unique(s2)) by {
        assert forall|i: int, j: int| 0 <= i < j < s2.len() implies s2[i].0@ != s2[j].0@ by {
            if s2[i].0@ == s2[j].0@ {
                assert(s2.contains(s2[i]) && s2.contains(s2[j]));
                assert(s2.to_multiset().count(s2[i]) > 0 && s2.to_multiset().count(s2[j]) > 0);
                let a = choose|a: int| 0 <= a < s1.len() && s1[a] == s2[i];
                let b = choose|b: int| 0 <= b < s1.len() && s1[b] == s2[j];
                if a == b {
                    s1.lemma_multiset_has_no_duplicates();
                    assert(s2.remove(j).contains(s2[i])) by {
                        assert(s2.remove(j)[i] == s2[i]);
                    }
                    assert(s2.remove(j).to_multiset().count(s2[i]) > 0);
                }
            }
        }
    }
    lemma_distinct_names_strictly_ordered(r2, s2);
    lemma_strict_order_unique(r1, r2);
}

} // verus!
