//! The backends by model id, and the listings of them sorted by id.
//!
//! The registry is generic in the handle it keeps for a backend; the
//! server keeps shared trait objects there.

use vstd::prelude::*;
use vstd::multiset::Multiset;
use crate::anthropic::ModelInfo;
use crate::keyed::{entry_named, entry_of, lemma_entry_of_push, lemma_entry_of_set, names_unique, position};
use crate::error::EngineError;
use crate::text::{copy_string, strings_view, text_le, texts_sorted, text_le_exec, lemma_text_le_total, lemma_text_le_trans, to_string};
use crate::validate::{first_index, lemma_first_index_some};

verus! {

broadcast use vstd::seq_lib::group_to_multiset_ensures;

// ---------------------------------------------------------------------
// The order of ids
// ---------------------------------------------------------------------

/// The ids of a listing, in its order.
pub open spec fn info_ids(s: Seq<ModelInfo>) -> Seq<Seq<char>> {
    s.map_values(|m: ModelInfo| m.id@)
}

// ---------------------------------------------------------------------
// Sorting
// ---------------------------------------------------------------------

/// Insert `x` into a sorted vector after every id at or below it.
fn insert_sorted_text(v: &mut Vec<String>, x: String)
    requires
        texts_sorted(strings_view(old(v)@)),
    ensures
        texts_sorted(strings_view(final(v)@)),
        strings_view(final(v)@).to_multiset() == strings_view(old(v)@).to_multiset().insert(x@),
{
    let ghost s0 = strings_view(v@);
    let mut p: usize = 0;
    while p < v.len() && text_le_exec(v[p].as_str(), x.as_str())
        invariant
            p <= v@.len(),
            s0 == strings_view(v@),
            texts_sorted(s0),
            forall|k: int| 0 <= k < p ==> text_le(#[trigger] s0[k], x@),
        decreases v@.len() - p,
    {
        p = p + 1;
    }
    let ghost xv = x@;
    if p < v.len() {
        proof { lemma_text_le_total(s0[p as int], xv); }
    }
    v.insert(p, x);
    let ghost s1 = strings_view(v@);
    assert(s1 =~= s0.insert(p as int, xv));
    assert forall|i: int, j: int| 0 <= i < j < s1.len() implies text_le(#[trigger] s1[i], #[trigger] s1[j]) by {
        if j < p {
        } else if j == p {
        } else if i < p {
            // s1[i] <= x <= s1[p + 1] <= s1[j]
            assert(text_le(s0[i], xv));
            assert(text_le(xv, s0[p as int]));
            if j - 1 > p {
                lemma_text_le_trans(xv, s0[p as int], s0[j - 1]);
            }
            lemma_text_le_trans(s0[i], xv, s0[j - 1]);
        } else if i == p {
            assert(text_le(xv, s0[p as int]));
            if j - 1 > p {
                lemma_text_le_trans(xv, s0[p as int], s0[j - 1]);
            }
        } else {
            assert(text_le(s0[i - 1], s0[j - 1]));
        }
    }
    proof { vstd::seq_lib::to_multiset_insert(s0, p as int, xv); }
}

/// The strings sorted ascending; the same strings, each as often.
pub fn sort_texts(v: Vec<String>) -> (r: Vec<String>)
    ensures
        texts_sorted(strings_view(r@)),
        strings_view(r@).to_multiset() == strings_view(v@).to_multiset(),
{
    let ghost all = strings_view(v@);
    let mut rest = v;
    let mut out: Vec<String> = Vec::new();
    assert(strings_view(out@).to_multiset() =~= Multiset::empty());
    assert(strings_view(rest@).to_multiset().add(Multiset::empty()) =~= strings_view(rest@).to_multiset());
    while rest.len() > 0
        invariant
            texts_sorted(strings_view(out@)),
            strings_view(rest@).to_multiset().add(strings_view(out@).to_multiset()) == all.to_multiset(),
        decreases rest@.len(),
    {
        let ghost before = strings_view(rest@);
        let x = rest.pop().unwrap();
        assert(before =~= strings_view(rest@).push(x@));
        let ghost mo = strings_view(out@).to_multiset();
        insert_sorted_text(&mut out, x);
        assert(strings_view(rest@).to_multiset().add(strings_view(out@).to_multiset())
            =~= before.to_multiset().add(mo));
    }
    assert(strings_view(rest@) =~= Seq::<Seq<char>>::empty());
    assert(strings_view(rest@).to_multiset() =~= Multiset::empty());
    assert(strings_view(out@).to_multiset() =~= all.to_multiset());
    out
}

/// Insert `x` into a listing sorted by id, after every entry whose id is
/// at or below its id.
fn insert_sorted_info(v: &mut Vec<ModelInfo>, x: ModelInfo)
    requires
        texts_sorted(info_ids(old(v)@)),
    ensures
        texts_sorted(info_ids(final(v)@)),
        final(v)@.to_multiset() == old(v)@.to_multiset().insert(x),
{
    let ghost s0 = info_ids(v@);
    let ghost v0 = v@;
    let mut p: usize = 0;
    while p < v.len() && text_le_exec(v[p].id.as_str(), x.id.as_str())
        invariant
            p <= v@.len(),
            v@ == v0,
            s0 == info_ids(v0),
            texts_sorted(s0),
            forall|k: int| 0 <= k < p ==> text_le(#[trigger] s0[k], x.id@),
        decreases v@.len() - p,
    {
        p = p + 1;
    }
    let ghost xv = x.id@;
    let ghost xi = x;
    if p < v.len() {
        proof { lemma_text_le_total(s0[p as int], xv); }
    }
    v.insert(p, x);
    let ghost s1 = info_ids(v@);
    assert(s1 =~= s0.insert(p as int, xv));
    assert forall|i: int, j: int| 0 <= i < j < s1.len() implies text_le(#[trigger] s1[i], #[trigger] s1[j]) by {
        if j < p {
        } else if j == p {
        } else if i < p {
            assert(text_le(s0[i], xv));
            assert(text_le(xv, s0[p as int]));
            if j - 1 > p {
                lemma_text_le_trans(xv, s0[p as int], s0[j - 1]);
            }
            lemma_text_le_trans(s0[i], xv, s0[j - 1]);
        } else if i == p {
            assert(text_le(xv, s0[p as int]));
            if j - 1 > p {
                lemma_text_le_trans(xv, s0[p as int], s0[j - 1]);
            }
        } else {
            assert(text_le(s0[i - 1], s0[j - 1]));
        }
    }
    proof { vstd::seq_lib::to_multiset_insert(v0, p as int, xi); }
}

/// The listing sorted by id; the same entries, each as often.
pub fn sort_infos_by_id(infos: Vec<ModelInfo>) -> (r: Vec<ModelInfo>)
    ensures
        texts_sorted(info_ids(r@)),
        r@.to_multiset() == infos@.to_multiset(),
{
    let ghost all = infos@;
    let mut rest = infos;
    let mut out: Vec<ModelInfo> = Vec::new();
    assert(out@.to_multiset() =~= Multiset::empty());
    assert(rest@.to_multiset().add(Multiset::empty()) =~= rest@.to_multiset());
    assert(info_ids(out@) =~= Seq::<Seq<char>>::empty());
    while rest.len() > 0
        invariant
            texts_sorted(info_ids(out@)),
            rest@.to_multiset().add(out@.to_multiset()) == all.to_multiset(),
        decreases rest@.len(),
    {
        let ghost before = rest@;
        let x = rest.pop().unwrap();
        assert(before =~= rest@.push(x));
        let ghost mo = out@.to_multiset();
        insert_sorted_info(&mut out, x);
        assert(rest@.to_multiset().add(out@.to_multiset()) =~= before.to_multiset().add(mo));
    }
    assert(rest@.to_multiset() =~= Multiset::empty());
    assert(out@.to_multiset() =~= all.to_multiset());
    out
}

// ---------------------------------------------------------------------
// The registry
// ---------------------------------------------------------------------

/// The backends by model id, each id at most once.
pub struct BackendRegistry<B> {
    entries: Vec<(String, B)>,
}

impl<B> BackendRegistry<B> {
    /// The registered (id, backend) pairs, in insertion order.
    pub closed spec fn entries(self) -> Seq<(String, B)> {
        self.entries@
    }

    /// The backend registered for `id`.
    pub open spec fn lookup(self, id: Seq<char>) -> Option<B> {
        entry_of(self.entries(), id)
    }

    /// The registered ids, in insertion order.
    pub open spec fn keys(self) -> Seq<Seq<char>> {
        self.entries().map_values(|e: (String, B)| e.0@)
    }

    pub open spec fn wf(self) -> bool {
        names_unique(self.entries())
    }

    pub fn new() -> (r: Self)
        ensures
            r.wf(),
            r.entries().len() == 0,
    {
        BackendRegistry { entries: Vec::new() }
    }

    /// Register `backend` for `id`, replacing a backend registered for it.
    pub fn insert(&mut self, id: String, backend: B)
        requires
            old(self).wf(),
        ensures
            final(self).wf(),
            final(self).lookup(id@) == Some(backend),
            forall|o: Seq<char>| o != id@ ==> final(self).lookup(o) == old(self).lookup(o),
    {
        let ghost es = self.entries@;
        let ghost nm = id@;
        proof {
            if first_index(es.len() as int, entry_named(es, nm)) is Some {
                lemma_first_index_some(es.len() as int, entry_named(es, nm));
            }
        }
        match position(&self.entries, id.as_str()) {
            Some(i) => {
                self.entries.set(i, (id, backend));
                proof { lemma_entry_of_set(es, self.entries@, i as int, nm, backend); }
            },
            None => {
                self.entries.push((id, backend));
                proof { lemma_entry_of_push(es, self.entries@, nm, backend); }
            },
        }
    }

    /// The backend registered for `id`.
    pub fn get(&self, id: &str) -> (r: Option<&B>)
        ensures
            match r {
                Some(b) => self.lookup(id@) == Some(*b),
                None => self.lookup(id@) is None,
            },
    {
        proof {
            if first_index(self.entries@.len() as int, entry_named(self.entries@, id@)) is Some {
                lemma_first_index_some(self.entries@.len() as int, entry_named(self.entries@, id@));
            }
        }
        match position(&self.entries, id) {
            Some(i) => Some(&self.entries[i].1),
            None => None,
        }
    }

    /// The registered ids, each once, in strictly ascending order.
    pub fn ids(&self) -> (r: Vec<String>)
        requires
            self.wf(),
        ensures
            texts_sorted(strings_view(r@)),
            strings_view(r@).no_duplicates(),
            strings_view(r@).to_multiset() == self.keys().to_multiset(),
    {
        let mut ks: Vec<String> = Vec::new();
        let mut i: usize = 0;
        while i < self.entries.len()
            invariant
                i <= self.entries@.len(),
                ks@.len() == i,
                forall|k: int| 0 <= k < i ==> (#[trigger] ks@[k])@ == self.entries@[k].0@,
            decreases self.entries@.len() - i,
        {
            ks.push(copy_string(&self.entries[i].0));
            i = i + 1;
        }
        assert(strings_view(ks@) =~= self.keys());
        let r = sort_texts(ks);
        proof {
            law_registry_ids_once(*self, Seq::empty());
            self.keys().lemma_multiset_has_no_duplicates();
            strings_view(r@).lemma_multiset_has_no_duplicates_conv();
        }
        r
    }

    /// The registered backends, in insertion order.
    pub fn backends(&self) -> (r: Vec<&B>)
        ensures
            r@.len() == self.entries().len(),
            forall|i: int| 0 <= i < r@.len() ==> *(#[trigger] r@[i]) == self.entries()[i].1,
    {
        let mut r: Vec<&B> = Vec::new();
        let mut i: usize = 0;
        while i < self.entries.len()
            invariant
                i <= self.entries@.len(),
                r@.len() == i,
                forall|k: int| 0 <= k < i ==> *(#[trigger] r@[k]) == self.entries@[k].1,
            decreases self.entries@.len() - i,
        {
            r.push(&self.entries[i].1);
            i = i + 1;
        }
        r
    }

    /// The listing of the registered backends sorted by id, each entry
    /// read from its backend by `info_of`.
    pub fn model_infos<F: Fn(&B) -> ModelInfo>(&self, info_of: F) -> (r: Vec<ModelInfo>)
        requires
            forall|b: &B| #[trigger] info_of.requires((b,)),
        ensures
            texts_sorted(info_ids(r@)),
            exists|read: Seq<ModelInfo>| {
                &&& read.len() == self.entries().len()
                &&& forall|i: int| 0 <= i < read.len() ==> info_of.ensures((&self.entries()[i].1,), #[trigger] read[i])
                &&& r@.to_multiset() == read.to_multiset()
            },
    {
        let mut read: Vec<ModelInfo> = Vec::new();
        let mut i: usize = 0;
        while i < self.entries.len()
            invariant
                i <= self.entries@.len(),
                read@.len() == i,
                forall|b: &B| #[trigger] info_of.requires((b,)),
                forall|k: int| 0 <= k < i ==> info_of.ensures((&self.entries@[k].1,), #[trigger] read@[k]),
            decreases self.entries@.len() - i,
        {
            let info = info_of(&self.entries[i].1);
            read.push(info);
            i = i + 1;
        }
        let ghost seen = read@;
        let r = sort_infos_by_id(read);
        assert(seen.len() == self.entries().len());
        r
    }

    /// The backend an eviction unloads: the one registered for `model_id`,
    /// or `ModelNotFound` naming the id.
    pub fn unload_target(&self, model_id: &str) -> (r: Result<&B, EngineError>)
        ensures
            match self.lookup(model_id@) {
                Some(b) => r matches Ok(x) && *x == b,
                None => r matches Err(EngineError::ModelNotFound(m)) && m@ == model_id@,
            },
    {
        match self.get(model_id) {
            Some(b) => Ok(b),
            None => Err(EngineError::ModelNotFound(to_string(model_id))),
        }
    }

    pub fn len(&self) -> (r: usize)
        ensures
            r == self.entries().len(),
    {
        self.entries.len()
    }

    pub fn is_empty(&self) -> (r: bool)
        ensures
            r == (self.entries().len() == 0),
    {
        self.entries.len() == 0
    }
}

/// Whatever was registered, each id is held once, and an id is held
/// exactly when a backend can be looked up by it; so `ids()` lists every
/// registered id once, in sorted order.
pub proof fn law_registry_ids_once<B>(r: BackendRegistry<B>, id: Seq<char>)
    requires
        r.wf(),
    ensures
        r.keys().no_duplicates(),
        r.keys().contains(id) <==> r.lookup(id) is Some,
{
    let es = r.entries();
    assert forall|i: int, j: int| 0 <= i < r.keys().len() && 0 <= j < r.keys().len() && i != j implies r.keys()[i]
        != r.keys()[j] by {
        if i < j {
            assert(es[i].0@ != es[j].0@);
        } else {
            assert(es[j].0@ != es[i].0@);
        }
    }
    let p = entry_named(es, id);
    if r.keys().contains(id) {
        let k = choose|k: int| 0 <= k < r.keys().len() && r.keys()[k] == id;
        assert(p(k));
        crate::keyed::lemma_first_index_is_some_witness(es.len() as int, p, k);
    }
    if r.lookup(id) is Some {
        lemma_first_index_some(es.len() as int, p);
        let k = first_index(es.len() as int, p)->0;
        assert(r.keys()[k] == id);
    }
}

} // verus!
