//! The order of strings as `String`'s `Ord` has it, and maps of strings held
//! as lists of entries sorted by key.
use vstd::prelude::*;
use vstd::relations::{sorted_by, total_ordering};
use crate::text::str_chars;

verus! {

/// `a` comes before `b` in the lexicographic order of their characters by
/// code point, the order of `String`'s `Ord` (UTF-8 keeps the order of code
/// points, so comparing bytes and comparing characters agree).
pub open spec fn chars_lt(a: Seq<char>, b: Seq<char>) -> bool
    decreases a.len(),
{
    if a.len() == 0 {
        b.len() > 0
    } else if b.len() == 0 {
        false
    } else if a[0] != b[0] {
        (a[0] as u32) < (b[0] as u32)
    } else {
        chars_lt(a.drop_first(), b.drop_first())
    }
}

pub proof fn lemma_chars_lt_irreflexive(a: Seq<char>)
    ensures
        !chars_lt(a, a),
    decreases a.len(),
{
    if a.len() > 0 {
        lemma_chars_lt_irreflexive(a.drop_first());
    }
}

pub proof fn lemma_chars_lt_asymmetric(a: Seq<char>, b: Seq<char>)
    ensures
        chars_lt(a, b) ==> !chars_lt(b, a),
    decreases a.len(),
{
    if a.len() > 0 && b.len() > 0 && a[0] == b[0] {
        lemma_chars_lt_asymmetric(a.drop_first(), b.drop_first());
    }
}

pub proof fn lemma_chars_lt_transitive(a: Seq<char>, b: Seq<char>, c: Seq<char>)
    ensures
        chars_lt(a, b) && chars_lt(b, c) ==> chars_lt(a, c),
    decreases a.len(),
{
    if a.len() > 0 && b.len() > 0 && c.len() > 0 {
        lemma_chars_lt_transitive(a.drop_first(), b.drop_first(), c.drop_first());
    }
}

pub proof fn lemma_chars_lt_total(a: Seq<char>, b: Seq<char>)
    ensures
        a != b ==> chars_lt(a, b) || chars_lt(b, a),
    decreases a.len(),
{
    if a.len() > 0 && b.len() > 0 {
        if a[0] == b[0] {
            lemma_chars_lt_total(a.drop_first(), b.drop_first());
            if a.drop_first() == b.drop_first() {
                assert(a =~= seq![a[0]] + a.drop_first());
                assert(b =~= seq![b[0]] + b.drop_first());
            }
        } else {
            assert((a[0] as u32) != (b[0] as u32)) by {
                vstd::utf8::char_u32_cast(a[0], a[0] as u32);
                vstd::utf8::char_u32_cast(b[0], b[0] as u32);
            }
        }
    } else if a.len() == 0 && b.len() == 0 {
        assert(a =~= b);
    }
}

/// Compares two strings in the order of `String`'s `Ord`: `a < b`.
pub fn str_less(a: &str, b: &str) -> (r: bool)
    ensures
        r == chars_lt(a@, b@),
{
    let ac = str_chars(a);
    let bc = str_chars(b);
    let mut i: usize = 0;
    assert(a@.skip(0) =~= a@);
    assert(b@.skip(0) =~= b@);
    while i < ac.len() && i < bc.len()
        invariant
            ac@ == a@,
            bc@ == b@,
            i <= ac@.len(),
            i <= bc@.len(),
            chars_lt(a@, b@) == chars_lt(a@.skip(i as int), b@.skip(i as int)),
        decreases ac@.len() - i,
    {
        let x = ac[i];
        let y = bc[i];
        assert(a@.skip(i as int)[0] == x);
        assert(b@.skip(i as int)[0] == y);
        if x != y {
            return (x as u32) < (y as u32);
        }
        assert(a@.skip(i as int).drop_first() =~= a@.skip(i + 1));
        assert(b@.skip(i as int).drop_first() =~= b@.skip(i + 1));
        i = i + 1;
    }
    ac.len() - i < bc.len() - i
}

/// The order of map entries: by key, then by value.
pub open spec fn entry_leq(x: (Seq<char>, Seq<char>), y: (Seq<char>, Seq<char>)) -> bool {
    chars_lt(x.0, y.0) || (x.0 == y.0 && (x.1 == y.1 || chars_lt(x.1, y.1)))
}

pub proof fn lemma_entry_leq_total_ordering()
    ensures
        total_ordering(|x: (Seq<char>, Seq<char>), y: (Seq<char>, Seq<char>)| entry_leq(x, y)),
{
    let leq = |x: (Seq<char>, Seq<char>), y: (Seq<char>, Seq<char>)| entry_leq(x, y);
    assert forall|x: (Seq<char>, Seq<char>)| #[trigger] leq(x, x) by {}
    assert forall|x: (Seq<char>, Seq<char>), y: (Seq<char>, Seq<char>)|
        #[trigger] leq(x, y) && #[trigger] leq(y, x) implies x == y by {
        lemma_chars_lt_asymmetric(x.0, y.0);
        lemma_chars_lt_irreflexive(x.0);
        lemma_chars_lt_asymmetric(x.1, y.1);
        lemma_chars_lt_irreflexive(x.1);
    }
    assert forall|x: (Seq<char>, Seq<char>), y: (Seq<char>, Seq<char>), z: (Seq<char>, Seq<char>)|
        #[trigger] leq(x, y) && #[trigger] leq(y, z) implies leq(x, z) by {
        lemma_chars_lt_transitive(x.0, y.0, z.0);
        lemma_chars_lt_transitive(x.1, y.1, z.1);
    }
    assert forall|x: (Seq<char>, Seq<char>), y: (Seq<char>, Seq<char>)|
        #[trigger] leq(x, y) || #[trigger] leq(y, x) by {
        lemma_chars_lt_total(x.0, y.0);
        lemma_chars_lt_total(x.1, y.1);
    }
}

/// The entries as pairs of character sequences.
pub open spec fn entry_views(s: Seq<(String, String)>) -> Seq<(Seq<char>, Seq<char>)> {
    s.map_values(|e: (String, String)| (e.0@, e.1@))
}

/// No key occurs twice.
pub open spec fn keys_distinct<V>(s: Seq<(String, V)>) -> bool {
    forall|i: int, j: int| 0 <= i < s.len() && 0 <= j < s.len() && i != j ==> #[trigger] s[i].0@ != #[trigger] s[j].0@
}

/// The entries of a byte map as pairs of a character and a byte sequence.
pub open spec fn byte_entry_views(s: Seq<(String, Vec<u8>)>) -> Seq<(Seq<char>, Seq<u8>)> {
    s.map_values(|e: (String, Vec<u8>)| (e.0@, e.1@))
}

/// The one order of a list of entries that `entry_leq` sorts.
pub open spec fn canonical_entries(s: Seq<(Seq<char>, Seq<char>)>) -> Seq<(Seq<char>, Seq<char>)> {
    s.sort_by(|x: (Seq<char>, Seq<char>), y: (Seq<char>, Seq<char>)| entry_leq(x, y))
}

/// The entries are in the order `entry_leq`.
pub open spec fn entries_sorted(s: Seq<(Seq<char>, Seq<char>)>) -> bool {
    sorted_by(s, |x: (Seq<char>, Seq<char>), y: (Seq<char>, Seq<char>)| entry_leq(x, y))
}

/// `x` comes strictly before `y` in the order `entry_leq`.
pub open spec fn entry_lt(x: (Seq<char>, Seq<char>), y: (Seq<char>, Seq<char>)) -> bool {
    chars_lt(x.0, y.0) || (x.0 == y.0 && chars_lt(x.1, y.1))
}

/// Sorted entries are the canonical order of their multiset.
pub proof fn lemma_sorted_is_canonical(s: Seq<(Seq<char>, Seq<char>)>, t: Seq<(Seq<char>, Seq<char>)>)
    requires
        entries_sorted(s),
        s.to_multiset() == t.to_multiset(),
    ensures
        s == canonical_entries(t),
{
    let leq = |x: (Seq<char>, Seq<char>), y: (Seq<char>, Seq<char>)| entry_leq(x, y);
    lemma_entry_leq_total_ordering();
    t.lemma_sort_by_ensures(leq);
    vstd::seq_lib::lemma_sorted_unique(s, t.sort_by(leq), leq);
}

/// Inserting an entry just before the first one that does not come before
/// it keeps a list sorted.
pub proof fn lemma_insert_sorted(s: Seq<(Seq<char>, Seq<char>)>, p: int, e: (Seq<char>, Seq<char>))
    requires
        entries_sorted(s),
        0 <= p <= s.len(),
        forall|q: int| 0 <= q < p ==> entry_lt(#[trigger] s[q], e),
        p < s.len() ==> !entry_lt(s[p], e),
    ensures
        entries_sorted(s.insert(p, e)),
{
    let leq = |x: (Seq<char>, Seq<char>), y: (Seq<char>, Seq<char>)| entry_leq(x, y);
    lemma_entry_leq_total_ordering();
    let t = s.insert(p, e);
    if p < s.len() {
        lemma_chars_lt_total(s[p].0, e.0);
        lemma_chars_lt_total(s[p].1, e.1);
        assert(leq(e, s[p]));
    }
    assert forall|i: int, j: int| 0 <= i < j < t.len() implies #[trigger] leq(t[i], t[j]) by {
        if j < p {
            assert(t[i] == s[i] && t[j] == s[j]);
        } else if j == p {
            assert(t[i] == s[i]);
            assert(entry_lt(s[i], e));
        } else if i < p {
            assert(t[j] == s[j - 1] && t[i] == s[i]);
            assert(entry_lt(s[i], e));
            assert(leq(s[i], e));
            assert(leq(s[p], s[j - 1]) || p == j - 1);
            assert(leq(e, s[j - 1]));
        } else if i == p {
            assert(t[j] == s[j - 1]);
            assert(leq(s[p], s[j - 1]) || p == j - 1);
        } else {
            assert(t[i] == s[i - 1] && t[j] == s[j - 1]);
        }
    }
}

/// The map that inserting the entries one after another, in order, gives:
/// a later entry replaces an earlier one with the same key.
pub open spec fn fold_map(s: Seq<(Seq<char>, Seq<char>)>) -> Map<Seq<char>, Seq<char>>
    decreases s.len(),
{
    if s.len() == 0 {
        Map::empty()
    } else {
        fold_map(s.drop_last()).insert(s.last().0, s.last().1)
    }
}

/// Replacing the value of an entry whose key occurs nowhere else is the same,
/// for the folded map, as inserting the new entry.
pub proof fn lemma_fold_map_update(s: Seq<(Seq<char>, Seq<char>)>, p: int, e: (Seq<char>, Seq<char>))
    requires
        0 <= p < s.len(),
        s[p].0 == e.0,
        forall|q: int| 0 <= q < s.len() && q != p ==> #[trigger] s[q].0 != e.0,
    ensures
        fold_map(s.update(p, e)) == fold_map(s).insert(e.0, e.1),
    decreases s.len(),
{
    let t = s.update(p, e);
    if p == s.len() - 1 {
        assert(t.drop_last() =~= s.drop_last());
        assert(fold_map(t) =~= fold_map(s).insert(e.0, e.1));
    } else {
        assert(t.drop_last() =~= s.drop_last().update(p, e));
        lemma_fold_map_update(s.drop_last(), p, e);
        assert(s.last().0 != e.0);
        assert(fold_map(t) =~= fold_map(s).insert(e.0, e.1));
    }
}

/// The keys of the folded map are the keys of the entries.
pub proof fn lemma_fold_map_dom(s: Seq<(Seq<char>, Seq<char>)>)
    ensures
        forall|k: Seq<char>| #[trigger] fold_map(s).dom().contains(k) <==> exists|j: int| 0 <= j < s.len() && s[j].0 == k,
    decreases s.len(),
{
    if s.len() > 0 {
        lemma_fold_map_dom(s.drop_last());
        assert forall|k: Seq<char>| #[trigger] fold_map(s).dom().contains(k) implies exists|j: int| 0 <= j < s.len() && s[j].0 == k by {
            if k != s.last().0 {
                assert(fold_map(s.drop_last()).dom().contains(k));
                let j = choose|j: int| 0 <= j < s.drop_last().len() && s.drop_last()[j].0 == k;
                assert(s[j].0 == k);
            } else {
                assert(s[s.len() - 1].0 == k);
            }
        }
        assert forall|k: Seq<char>| (exists|j: int| 0 <= j < s.len() && s[j].0 == k) implies #[trigger] fold_map(s).dom().contains(k) by {
            let j = choose|j: int| 0 <= j < s.len() && s[j].0 == k;
            if j < s.len() - 1 {
                assert(s.drop_last()[j].0 == k);
                assert(fold_map(s.drop_last()).dom().contains(k));
            }
        }
    }
}

/// With no key occurring twice, each entry's value is what the folded map holds.
pub proof fn lemma_fold_map_distinct(s: Seq<(Seq<char>, Seq<char>)>)
    requires
        forall|i: int, j: int| 0 <= i < s.len() && 0 <= j < s.len() && i != j ==> #[trigger] s[i].0 != #[trigger] s[j].0,
    ensures
        forall|j: int| 0 <= j < s.len() ==> fold_map(s).dom().contains(#[trigger] s[j].0) && fold_map(s)[s[j].0] == s[j].1,
    decreases s.len(),
{
    if s.len() > 0 {
        let d = s.drop_last();
        assert forall|i: int, j: int| 0 <= i < d.len() && 0 <= j < d.len() && i != j implies #[trigger] d[i].0 != #[trigger] d[j].0 by {
            assert(d[i] == s[i] && d[j] == s[j]);
        }
        lemma_fold_map_distinct(d);
        assert forall|j: int| 0 <= j < s.len() implies fold_map(s).dom().contains(#[trigger] s[j].0) && fold_map(s)[s[j].0] == s[j].1 by {
            if j < s.len() - 1 {
                assert(d[j] == s[j]);
                assert(fold_map(d).dom().contains(d[j].0) && fold_map(d)[d[j].0] == d[j].1);
                assert(s[j].0 != s[s.len() - 1].0);
            }
        }
    }
}

/// Each value of the folded map is the value of an entry with its key.
pub proof fn lemma_fold_map_value(s: Seq<(Seq<char>, Seq<char>)>)
    ensures
        forall|k: Seq<char>| #[trigger] fold_map(s).dom().contains(k) ==> exists|j: int|
            0 <= j < s.len() && s[j].0 == k && s[j].1 == fold_map(s)[k],
    decreases s.len(),
{
    if s.len() > 0 {
        let d = s.drop_last();
        lemma_fold_map_value(d);
        assert forall|k: Seq<char>| #[trigger] fold_map(s).dom().contains(k) implies exists|j: int|
            0 <= j < s.len() && s[j].0 == k && s[j].1 == fold_map(s)[k] by {
            if k == s.last().0 {
                assert(s[s.len() - 1].0 == k && s[s.len() - 1].1 == fold_map(s)[k]);
            } else {
                assert(fold_map(d).dom().contains(k));
                let j = choose|j: int| 0 <= j < d.len() && d[j].0 == k && d[j].1 == fold_map(d)[k];
                assert(s[j] == d[j]);
            }
        }
    }
}

}
