//! Sorting records.
//!
//! Texts are ordered as strings are: character by character, a text before
//! every longer text that begins with it. Records that count as equal keep
//! the order in which they came.
use vstd::prelude::*;
use vstd::seq_lib::{to_multiset_build, to_multiset_insert};
use crate::models::{LanguageStat, ModuleInfo};
use crate::text::to_chars;

verus! {

/// Whether `a` comes before `b` or equals it, from the index `i` on, the
/// texts being equal before `i`.
pub open spec fn lex_le_from(a: Seq<char>, b: Seq<char>, i: int) -> bool
    decreases a.len() - i,
{
    if i < 0 || i >= a.len() {
        true
    } else if i >= b.len() {
        false
    } else if a[i] != b[i] {
        a[i] < b[i]
    } else {
        lex_le_from(a, b, i + 1)
    }
}

/// Whether `a` comes before `b` or equals it.
pub open spec fn lex_le(a: Seq<char>, b: Seq<char>) -> bool {
    lex_le_from(a, b, 0)
}

/// Whether `a` comes before `b` or equals it.
pub fn text_le(a: &Vec<char>, b: &Vec<char>) -> (r: bool)
    ensures
        r == lex_le(a@, b@),
{
    let mut i: usize = 0;
    while i < a.len()
        invariant
            i <= a.len(),
            lex_le(a@, b@) == lex_le_from(a@, b@, i as int),
        decreases a.len() - i,
    {
        if i >= b.len() {
            return false;
        }
        if a[i] != b[i] {
            return a[i] < b[i];
        }
        i += 1;
    }
    true
}

/// Of two texts, one comes before the other or equals it.
pub proof fn lemma_lex_total(a: Seq<char>, b: Seq<char>, i: int)
    requires
        0 <= i,
        !lex_le_from(a, b, i),
    ensures
        lex_le_from(b, a, i),
    decreases a.len() - i,
{
    if i < a.len() && i < b.len() && a[i] == b[i] {
        lemma_lex_total(a, b, i + 1);
    }
}

/// What comes before a text comes before all that the text comes before.
pub proof fn lemma_lex_transitive(a: Seq<char>, b: Seq<char>, c: Seq<char>, i: int)
    requires
        0 <= i,
        lex_le_from(a, b, i),
        lex_le_from(b, c, i),
    ensures
        lex_le_from(a, c, i),
    decreases a.len() - i,
{
    if i < a.len() && i < b.len() && i < c.len() && a[i] == b[i] && b[i] == c[i] {
        lemma_lex_transitive(a, b, c, i + 1);
    }
}

/// A record with an order: `precedes_of` says that a record may stand before
/// another. The order is total, and it is transitive; two records may each
/// precede the other, and then they count as equal.
pub trait Sortable: Sized {
    /// Whether `self` may stand before `other`.
    spec fn precedes_of(&self, other: &Self) -> bool;

    /// Whether `self` may stand before `other`.
    fn precedes(&self, other: &Self) -> (r: bool)
        ensures
            r == self.precedes_of(other),
    ;

    /// Of two records, one may stand before the other.
    proof fn lemma_total(a: &Self, b: &Self)
        ensures
            a.precedes_of(b) || b.precedes_of(a),
    ;

    /// What may stand before a record may stand before all that the record
    /// may stand before.
    proof fn lemma_transitive(a: &Self, b: &Self, c: &Self)
        requires
            a.precedes_of(b),
            b.precedes_of(c),
        ensures
            a.precedes_of(c),
    ;
}

impl Sortable for String {
    open spec fn precedes_of(&self, other: &Self) -> bool {
        lex_le(self@, other@)
    }

    fn precedes(&self, other: &Self) -> (r: bool) {
        text_le(&to_chars(self.as_str()), &to_chars(other.as_str()))
    }

    proof fn lemma_total(a: &Self, b: &Self) {
        if !lex_le(a@, b@) {
            lemma_lex_total(a@, b@, 0);
        }
    }

    proof fn lemma_transitive(a: &Self, b: &Self, c: &Self) {
        lemma_lex_transitive(a@, b@, c@, 0);
    }
}

/// Modules are ordered by their names.
impl Sortable for ModuleInfo {
    open spec fn precedes_of(&self, other: &Self) -> bool {
        lex_le(self.name@, other.name@)
    }

    fn precedes(&self, other: &Self) -> (r: bool) {
        text_le(&to_chars(self.name.as_str()), &to_chars(other.name.as_str()))
    }

    proof fn lemma_total(a: &Self, b: &Self) {
        if !lex_le(a.name@, b.name@) {
            lemma_lex_total(a.name@, b.name@, 0);
        }
    }

    proof fn lemma_transitive(a: &Self, b: &Self, c: &Self) {
        lemma_lex_transitive(a.name@, b.name@, c.name@, 0);
    }
}

/// Languages are ordered by their lines, the language with most lines first.
impl Sortable for LanguageStat {
    open spec fn precedes_of(&self, other: &Self) -> bool {
        self.line_count >= other.line_count
    }

    fn precedes(&self, other: &Self) -> (r: bool) {
        self.line_count >= other.line_count
    }

    proof fn lemma_total(a: &Self, b: &Self) {
    }

    proof fn lemma_transitive(a: &Self, b: &Self, c: &Self) {
    }
}

/// Where the record `x` goes in `s`: behind the last record that may stand
/// before it.
pub open spec fn insert_index<T: Sortable>(s: Seq<T>, x: T) -> int
    decreases s.len(),
{
    if s.len() == 0 {
        0
    } else if s.last().precedes_of(&x) {
        s.len() as int
    } else {
        insert_index(s.drop_last(), x)
    }
}

/// The records of `s` in order, records that count as equal in the order in
/// which they stand in `s`.
pub open spec fn sorted_of<T: Sortable>(s: Seq<T>) -> Seq<T>
    decreases s.len(),
{
    if s.len() == 0 {
        Seq::empty()
    } else {
        let r = sorted_of(s.drop_last());
        r.insert(insert_index(r, s.last()), s.last())
    }
}

/// Whether each record of `s` may stand before all that follow it.
pub open spec fn is_sorted<T: Sortable>(s: Seq<T>) -> bool {
    forall|i: int, j: int| 0 <= i < j < s.len() ==> s[i].precedes_of(&s[j])
}

/// In a sorted list, the records before the place of `x` may stand before
/// `x`, and `x` may stand before the records from that place on, none of
/// which may stand before `x`.
pub proof fn lemma_insert_index<T: Sortable>(s: Seq<T>, x: T)
    requires
        is_sorted(s),
    ensures
        0 <= insert_index(s, x) <= s.len(),
        forall|i: int| 0 <= i < insert_index(s, x) ==> (#[trigger] s[i]).precedes_of(&x),
        forall|i: int|
            insert_index(s, x) <= i < s.len() ==> !(#[trigger] s[i]).precedes_of(&x)
                && x.precedes_of(&s[i]),
    decreases s.len(),
{
    if s.len() == 0 {
    } else if s.last().precedes_of(&x) {
        assert forall|i: int| 0 <= i < s.len() implies (#[trigger] s[i]).precedes_of(&x) by {
            if i < s.len() - 1 {
                assert(s[i].precedes_of(&s[s.len() - 1]));
                T::lemma_transitive(&s[i], &s.last(), &x);
            }
        }
    } else {
        let init = s.drop_last();
        assert(is_sorted(init)) by {
            assert forall|i: int, j: int| 0 <= i < j < init.len() implies init[i].precedes_of(
                &init[j],
            ) by {
                assert(init[i] == s[i] && init[j] == s[j]);
            }
        }
        lemma_insert_index(init, x);
        T::lemma_total(&s.last(), &x);
        assert forall|i: int| insert_index(s, x) <= i < s.len() implies !(
        #[trigger] s[i]).precedes_of(&x) && x.precedes_of(&s[i]) by {
            if i < s.len() - 1 {
                assert(init[i] == s[i]);
            }
        }
        assert forall|i: int| 0 <= i < insert_index(s, x) implies (#[trigger] s[i]).precedes_of(
            &x,
        ) by {
            assert(init[i] == s[i]);
        }
    }
}

/// The sorted records are in order, and they are the records that were
/// given, each as often as it was given.
pub proof fn lemma_sorted_of<T: Sortable>(s: Seq<T>)
    ensures
        is_sorted(sorted_of(s)),
        sorted_of(s).len() == s.len(),
        sorted_of(s).to_multiset() == s.to_multiset(),
    decreases s.len(),
{
    if s.len() == 0 {
        assert(s =~= sorted_of(s));
    } else {
        let init = s.drop_last();
        let x = s.last();
        lemma_sorted_of(init);
        let r = sorted_of(init);
        let p = insert_index(r, x);
        lemma_insert_index(r, x);
        let out = r.insert(p, x);
        assert forall|i: int, j: int| 0 <= i < j < out.len() implies out[i].precedes_of(
            &out[j],
        ) by {
            if j < p {
                assert(out[i] == r[i] && out[j] == r[j]);
            } else if j == p {
                assert(out[i] == r[i]);
            } else if i < p {
                assert(out[i] == r[i] && out[j] == r[j - 1]);
                T::lemma_transitive(&r[i], &x, &r[j - 1]);
            } else if i == p {
                assert(out[j] == r[j - 1]);
            } else {
                assert(out[i] == r[i - 1] && out[j] == r[j - 1]);
            }
        }
        to_multiset_insert(r, p, x);
        assert(init.push(x) =~= s);
        to_multiset_build(init, x);
        assert(out.to_multiset() =~= s.to_multiset());
    }
}

/// Sorts records. Records that count as equal keep their order.
pub fn stable_sort<T: Sortable>(items: Vec<T>) -> (out: Vec<T>)
    ensures
        out@ == sorted_of(items@),
        is_sorted(out@),
        out@.to_multiset() == items@.to_multiset(),
        out@.len() == items@.len(),
{
    let ghost all = items@;
    let mut items = items;
    let mut out: Vec<T> = Vec::new();
    let mut taken: Vec<T> = Vec::new();
    proof {
        lemma_sorted_of(all);
    }
    while items.len() > 0
        invariant
            items@ + taken@.reverse() == all,
        decreases items.len(),
    {
        let ghost before = items@;
        let ghost t = taken@;
        let x = items.pop().unwrap();
        taken.push(x);
        assert(items@ + taken@.reverse() =~= before + t.reverse());
    }
    assert(taken@.reverse() =~= all);
    let mut n: usize = 0;
    let ghost total = taken@.len();
    assert(total == taken.len());
    while taken.len() > 0
        invariant
            taken@.len() + n == total,
            total == all.len(),
            total <= usize::MAX,
            all.take(n as int) + taken@.reverse() == all,
            out@ == sorted_of(all.take(n as int)),
        decreases taken.len(),
    {
        let ghost t = taken@;
        let x = taken.pop().unwrap();
        proof {
            assert(all[n as int] == x) by {
                assert((all.take(n as int) + t.reverse())[n as int] == t.reverse()[0]);
            }
            assert(all.take(n + 1).drop_last() =~= all.take(n as int));
            lemma_sorted_of(all.take(n as int));
            lemma_insert_index(out@, x);
        }
        let mut j: usize = out.len();
        let mut searching = true;
        assert(out@.take(j as int) =~= out@);
        while searching && j > 0
            invariant
                j <= out.len(),
                insert_index(out@, x) == insert_index(out@.take(j as int), x),
                !searching ==> j > 0 && out@[j - 1].precedes_of(&x),
            decreases j + if searching {
                1int
            } else {
                0int
            },
        {
            assert(out@.take(j as int).drop_last() =~= out@.take(j - 1));
            if out[j - 1].precedes(&x) {
                searching = false;
            } else {
                j -= 1;
            }
        }
        assert(insert_index(out@.take(j as int), x) == j) by {
            if j > 0 {
                assert(out@.take(j as int).last() == out@[j - 1]);
            }
        }
        out.insert(j, x);
        n += 1;
        assert(all.take(n as int) + taken@.reverse() =~= all) by {
            assert(all.take(n - 1) + t.reverse() == all);
            assert(t.reverse() =~= seq![x] + taken@.reverse());
        }
    }
    assert(all.take(n as int) =~= all);
    out
}

} // verus!
