//! Vectors of named entries, each name at most once: the entry a name
//! finds, and how setting or adding an entry changes what names find.

use vstd::prelude::*;
use crate::text::{lemma_text_le_antisym, lemma_text_le_total, lemma_text_le_trans, str_eq, text_le, text_le_exec};
use crate::validate::{first_index, lemma_first_index_is, lemma_first_index_none, lemma_first_index_some};

verus! {

/// Entry `i` is called `name`.
pub open spec fn entry_named<V>(es: Seq<(String, V)>, name: Seq<char>) -> spec_fn(int) -> bool {
    |i: int| es[i].0@ == name
}

/// The entry called `name`, if any.
pub open spec fn entry_of<V>(es: Seq<(String, V)>, name: Seq<char>) -> Option<V> {
    match first_index(es.len() as int, entry_named(es, name)) {
        Some(i) => Some(es[i].1),
        None => None,
    }
}

pub open spec fn names_unique<V>(es: Seq<(String, V)>) -> bool {
    forall|i: int, j: int| 0 <= i < j < es.len() ==> (#[trigger] es[i]).0@ != (#[trigger] es[j]).0@
}

/// The index of the entry called `name`, if any.
pub fn position<V>(es: &Vec<(String, V)>, name: &str) -> (r: Option<usize>)
    ensures
        match r {
            Some(i) => first_index(es@.len() as int, entry_named(es@, name@)) == Some(i as int)
                && i < es@.len(),
            None => first_index(es@.len() as int, entry_named(es@, name@)) is None,
        },
{
    let ghost p = entry_named(es@, name@);
    let mut i: usize = 0;
    while i < es.len()
        invariant
            p == entry_named(es@, name@),
            i <= es@.len(),
            forall|k: int| 0 <= k < i ==> !#[trigger] p(k),
        decreases es@.len() - i,
    {
        if str_eq(es[i].0.as_str(), name) {
            proof { lemma_first_index_is(es@.len() as int, p, i as int); }
            return Some(i);
        }
        i = i + 1;
    }
    proof { lemma_first_index_none(es@.len() as int, p); }
    None
}

pub proof fn lemma_entry_of_set<V>(
    es: Seq<(String, V)>,
    es2: Seq<(String, V)>,
    i: int,
    name: Seq<char>,
    entry: V,
)
    requires
        names_unique(es),
        first_index(es.len() as int, entry_named(es, name)) == Some(i),
        es2.len() == es.len(),
        es2[i].0@ == name,
        es2[i].1 == entry,
        forall|k: int| 0 <= k < es.len() && k != i ==> es2[k] == es[k],
    ensures
        names_unique(es2),
        entry_of(es2, name) == Some(entry),
        forall|n: Seq<char>| n != name ==> entry_of(es2, n) == entry_of(es, n),
{
    lemma_first_index_some(es.len() as int, entry_named(es, name));
    assert forall|a: int, b: int| 0 <= a < b < es2.len() implies (#[trigger] es2[a]).0@ != (#[trigger] es2[b]).0@ by {
        if a != i && b != i {
            assert(es[a].0@ != es[b].0@);
        } else if a == i {
            assert(es[a].0@ != es[b].0@);
        } else {
            assert(es[a].0@ != es[b].0@);
        }
    }
    let p2 = entry_named(es2, name);
    assert forall|k: int| 0 <= k < i implies !#[trigger] p2(k) by {
        assert(!entry_named(es, name)(k));
    }
    lemma_first_index_is(es2.len() as int, p2, i);
    assert forall|n: Seq<char>| n != name implies entry_of(es2, n) == entry_of(es, n) by {
        let q = entry_named(es, n);
        let q2 = entry_named(es2, n);
        match first_index(es.len() as int, q) {
            Some(k) => {
                lemma_first_index_some(es.len() as int, q);
                assert(k != i);
                assert forall|j: int| 0 <= j < k implies !#[trigger] q2(j) by {
                    assert(!q(j));
                }
                lemma_first_index_is(es2.len() as int, q2, k);
            },
            None => {
                assert forall|j: int| 0 <= j < es2.len() implies !#[trigger] q2(j) by {
                    if j != i && q(j) {
                        lemma_first_index_is_some_witness(es.len() as int, q, j);
                    }
                }
                lemma_first_index_none(es2.len() as int, q2);
            },
        }
    }
}

pub proof fn lemma_entry_of_push<V>(es: Seq<(String, V)>, es2: Seq<(String, V)>, name: Seq<char>, entry: V)
    requires
        names_unique(es),
        first_index(es.len() as int, entry_named(es, name)) is None,
        es2.len() == es.len() + 1,
        es2.last().0@ == name,
        es2.last().1 == entry,
        forall|k: int| 0 <= k < es.len() ==> es2[k] == es[k],
    ensures
        names_unique(es2),
        entry_of(es2, name) == Some(entry),
        forall|n: Seq<char>| n != name ==> entry_of(es2, n) == entry_of(es, n),
{
    let p = entry_named(es, name);
    assert forall|k: int| 0 <= k < es.len() implies !#[trigger] p(k) by {
        if p(k) {
            lemma_first_index_is_some_witness(es.len() as int, p, k);
        }
    }
    assert forall|a: int, b: int| 0 <= a < b < es2.len() implies (#[trigger] es2[a]).0@ != (#[trigger] es2[b]).0@ by {
        if b < es.len() {
            assert(es[a].0@ != es[b].0@);
        } else {
            assert(!p(a));
        }
    }
    let p2 = entry_named(es2, name);
    assert forall|k: int| 0 <= k < es.len() implies !#[trigger] p2(k) by {
        assert(!p(k));
    }
    lemma_first_index_is(es2.len() as int, p2, es.len() as int);
    assert forall|n: Seq<char>| n != name implies entry_of(es2, n) == entry_of(es, n) by {
        let q = entry_named(es, n);
        let q2 = entry_named(es2, n);
        match first_index(es.len() as int, q) {
            Some(k) => {
                lemma_first_index_some(es.len() as int, q);
                assert forall|j: int| 0 <= j < k implies !#[trigger] q2(j) by {
                    assert(!q(j));
                }
                lemma_first_index_is(es2.len() as int, q2, k);
            },
            None => {
                assert forall|j: int| 0 <= j < es2.len() implies !#[trigger] q2(j) by {
                    if j < es.len() {
                        if q(j) {
                            lemma_first_index_is_some_witness(es.len() as int, q, j);
                        }
                    }
                }
                lemma_first_index_none(es2.len() as int, q2);
            },
        }
    }
}

/// A predicate that holds somewhere below `n` has a first index there.
pub proof fn lemma_first_index_is_some_witness(n: int, p: spec_fn(int) -> bool, k: int)
    requires
        0 <= k < n,
        p(k),
    ensures
        first_index(n, p) is Some,
{
}

// ---------------------------------------------------------------------
// Entries kept in name order
// ---------------------------------------------------------------------

/// The names strictly ascend, as the keys of an ordered map do.
pub open spec fn names_sorted<V>(es: Seq<(String, V)>) -> bool {
    forall|i: int, j: int| 0 <= i < j < es.len() ==> {
        &&& text_le((#[trigger] es[i]).0@, (#[trigger] es[j]).0@)
        &&& es[i].0@ != es[j].0@
    }
}

pub proof fn lemma_sorted_unique<V>(es: Seq<(String, V)>)
    requires
        names_sorted(es),
    ensures
        names_unique(es),
{
    assert forall|i: int, j: int| 0 <= i < j < es.len() implies (#[trigger] es[i]).0@ != (#[trigger] es[j]).0@ by {
        assert(es[i].0@ != es[j].0@);
    }
}

/// Where an absent `name` goes to keep the names ascending: after every
/// name below it.
pub fn insertion_point<V>(es: &Vec<(String, V)>, name: &str) -> (p: usize)
    requires
        names_sorted(es@),
    ensures
        p <= es@.len(),
        forall|k: int| 0 <= k < p ==> text_le((#[trigger] es@[k]).0@, name@),
        p < es@.len() ==> !text_le(es@[p as int].0@, name@),
{
    let mut p: usize = 0;
    while p < es.len() && text_le_exec(es[p].0.as_str(), name)
        invariant
            p <= es@.len(),
            forall|k: int| 0 <= k < p ==> text_le((#[trigger] es@[k]).0@, name@),
        decreases es@.len() - p,
    {
        p = p + 1;
    }
    p
}

/// Inserting an absent name at its insertion point keeps the names
/// ascending, finds the new entry by its name, and changes what no other
/// name finds.
pub proof fn lemma_entry_of_insert<V>(es: Seq<(String, V)>, p: int, name: String, entry: V)
    requires
        names_sorted(es),
        first_index(es.len() as int, entry_named(es, name@)) is None,
        0 <= p <= es.len(),
        forall|k: int| 0 <= k < p ==> text_le((#[trigger] es[k]).0@, name@),
        p < es.len() ==> !text_le(es[p].0@, name@),
    ensures
        names_sorted(es.insert(p, (name, entry))),
        entry_of(es.insert(p, (name, entry)), name@) == Some(entry),
        forall|n: Seq<char>| n != name@ ==> entry_of(es.insert(p, (name, entry)), n) == entry_of(es, n),
{
    let es2 = es.insert(p, (name, entry));
    let nm = name@;
    let q0 = entry_named(es, nm);
    assert forall|k: int| 0 <= k < es.len() implies es[k].0@ != nm by {
        if es[k].0@ == nm {
            assert(q0(k));
            lemma_first_index_is_some_witness(es.len() as int, q0, k);
        }
    }
    if p < es.len() {
        lemma_text_le_total(es[p].0@, nm);
    }
    assert forall|i: int, j: int| 0 <= i < j < es2.len() implies {
        &&& text_le((#[trigger] es2[i]).0@, (#[trigger] es2[j]).0@)
        &&& es2[i].0@ != es2[j].0@
    } by {
        if j < p {
            assert(es2[i] == es[i] && es2[j] == es[j]);
        } else if j == p {
            assert(es2[i] == es[i]);
        } else if i < p {
            assert(es2[i] == es[i] && es2[j] == es[j - 1]);
            assert(text_le(nm, es[p].0@));
            if j - 1 > p {
                lemma_text_le_trans(nm, es[p].0@, es[j - 1].0@);
            }
            lemma_text_le_trans(es[i].0@, nm, es[j - 1].0@);
            if es[i].0@ == es[j - 1].0@ {
                lemma_text_le_antisym(nm, es[j - 1].0@);
            }
        } else if i == p {
            assert(es2[j] == es[j - 1]);
            if j - 1 > p {
                lemma_text_le_trans(nm, es[p].0@, es[j - 1].0@);
            }
        } else {
            assert(es2[i] == es[i - 1] && es2[j] == es[j - 1]);
        }
    }
    let p2 = entry_named(es2, nm);
    assert forall|k: int| 0 <= k < p implies !#[trigger] p2(k) by {
        assert(es2[k] == es[k]);
    }
    assert(p2(p));
    lemma_first_index_is(es2.len() as int, p2, p);
    assert forall|n: Seq<char>| n != nm implies entry_of(es2, n) == entry_of(es, n) by {
        let q = entry_named(es, n);
        let q2 = entry_named(es2, n);
        match first_index(es.len() as int, q) {
            Some(k) => {
                lemma_first_index_some(es.len() as int, q);
                let k2 = if k < p { k } else { k + 1 };
                assert(es2[k2] == es[k]);
                assert forall|j: int| 0 <= j < k2 implies !#[trigger] q2(j) by {
                    if j < p {
                        assert(es2[j] == es[j]);
                        assert(!q(j));
                    } else if j > p {
                        assert(es2[j] == es[j - 1]);
                        assert(!q(j - 1));
                    }
                }
                lemma_first_index_is(es2.len() as int, q2, k2);
            },
            None => {
                assert forall|j: int| 0 <= j < es2.len() implies !#[trigger] q2(j) by {
                    if j < p {
                        assert(es2[j] == es[j]);
                        if q(j) {
                            lemma_first_index_is_some_witness(es.len() as int, q, j);
                        }
                    } else if j > p {
                        assert(es2[j] == es[j - 1]);
                        if q(j - 1) {
                            lemma_first_index_is_some_witness(es.len() as int, q, j - 1);
                        }
                    }
                }
                lemma_first_index_none(es2.len() as int, q2);
            },
        }
    }
}

/// Removing the entry a name finds keeps the names ascending, leaves the
/// name finding nothing, and changes what no other name finds.
pub proof fn lemma_entry_of_remove<V>(es: Seq<(String, V)>, i: int)
    requires
        names_sorted(es),
        0 <= i < es.len(),
    ensures
        names_sorted(es.remove(i)),
        entry_of(es.remove(i), es[i].0@) is None,
        forall|n: Seq<char>| n != es[i].0@ ==> entry_of(es.remove(i), n) == entry_of(es, n),
{
    let es2 = es.remove(i);
    let nm = es[i].0@;
    assert forall|a: int, b: int| 0 <= a < b < es2.len() implies {
        &&& text_le((#[trigger] es2[a]).0@, (#[trigger] es2[b]).0@)
        &&& es2[a].0@ != es2[b].0@
    } by {
        let a0 = if a < i { a } else { a + 1 };
        let b0 = if b < i { b } else { b + 1 };
        assert(es2[a] == es[a0] && es2[b] == es[b0]);
    }
    let p2 = entry_named(es2, nm);
    assert forall|j: int| 0 <= j < es2.len() implies !#[trigger] p2(j) by {
        let j0 = if j < i { j } else { j + 1 };
        assert(es2[j] == es[j0]);
        if j0 < i {
            assert(es[j0].0@ != es[i].0@);
        } else {
            assert(es[i].0@ != es[j0].0@);
        }
    }
    lemma_first_index_none(es2.len() as int, p2);
    assert forall|n: Seq<char>| n != nm implies entry_of(es2, n) == entry_of(es, n) by {
        let q = entry_named(es, n);
        let q2 = entry_named(es2, n);
        match first_index(es.len() as int, q) {
            Some(k) => {
                lemma_first_index_some(es.len() as int, q);
                assert(k != i);
                let k2 = if k < i { k } else { k - 1 };
                assert(es2[k2] == es[k]);
                assert forall|j: int| 0 <= j < k2 implies !#[trigger] q2(j) by {
                    let j0 = if j < i { j } else { j + 1 };
                    assert(es2[j] == es[j0]);
                    assert(!q(j0));
                }
                lemma_first_index_is(es2.len() as int, q2, k2);
            },
            None => {
                assert forall|j: int| 0 <= j < es2.len() implies !#[trigger] q2(j) by {
                    let j0 = if j < i { j } else { j + 1 };
                    assert(es2[j] == es[j0]);
                    if q(j0) {
                        lemma_first_index_is_some_witness(es.len() as int, q, j0);
                    }
                }
                lemma_first_index_none(es2.len() as int, q2);
            },
        }
    }
}

/// Setting the entry a name finds keeps the names ascending.
pub proof fn lemma_set_keeps_sorted<V>(es: Seq<(String, V)>, i: int, name: String, entry: V)
    requires
        names_sorted(es),
        0 <= i < es.len(),
        es[i].0@ == name@,
    ensures
        names_sorted(es.update(i, (name, entry))),
{
    let es2 = es.update(i, (name, entry));
    assert forall|a: int, b: int| 0 <= a < b < es2.len() implies {
        &&& text_le((#[trigger] es2[a]).0@, (#[trigger] es2[b]).0@)
        &&& es2[a].0@ != es2[b].0@
    } by {
        assert(es2[a].0@ == es[a].0@ && es2[b].0@ == es[b].0@);
    }
}

} // verus!
