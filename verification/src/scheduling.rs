//! VRAM budget tracking for local model scheduling.
//!
//! A `ResidentSet` records which local models currently hold a VRAM
//! reservation and how many MB each one reserved. A budget of 0 disables
//! accounting entirely.

use vstd::prelude::*;
use crate::text::str_eq;

verus! {

/// One model's reservation plus the metadata used for eviction decisions.
pub struct ResidentEntry {
    pub model_id: String,
    pub cost_mb: u64,
    pub last_used_ms: u64,
    pub in_flight: u32,
    pub pinned: bool,
}

/// What a caller passes to `ResidentSet::try_reserve`.
pub struct ReservationRequest {
    pub model_id: String,
    pub cost_mb: u64,
    pub pinned: bool,
    pub last_used_ms: u64,
    pub in_flight: u32,
}

#[derive(Debug)]
pub enum ResidentError {
    OverBudget { model_id: String, requested_mb: u64, current_mb: u64, budget_mb: u64 },
    Poisoned,
}

pub struct ResidentSet {
    entries: Vec<ResidentEntry>,
    budget_mb: u64,
}

/// Sum of the reserved costs of a sequence of entries.
pub open spec fn sum_costs(s: Seq<ResidentEntry>) -> int
    decreases s.len(),
{
    if s.len() == 0 {
        0
    } else {
        sum_costs(s.drop_last()) + s.last().cost_mb
    }
}

/// The reservations of a sequence of entries, keyed by model id.
pub open spec fn cost_map(s: Seq<ResidentEntry>) -> Map<Seq<char>, u64>
    decreases s.len(),
{
    if s.len() == 0 {
        Map::empty()
    } else {
        cost_map(s.drop_last()).insert(s.last().model_id@, s.last().cost_mb)
    }
}

pub open spec fn ids_unique(s: Seq<ResidentEntry>) -> bool {
    forall|i: int, j: int| 0 <= i < j < s.len() ==> s[i].model_id@ != s[j].model_id@
}

/// The model ids of a sequence of entries, in order.
pub open spec fn ids_of(s: Seq<ResidentEntry>) -> Seq<Seq<char>> {
    s.map_values(|e: ResidentEntry| e.model_id@)
}

/// The sum of the values `m` gives the keys `ids`.
pub open spec fn sum_over(m: Map<Seq<char>, u64>, ids: Seq<Seq<char>>) -> int
    decreases ids.len(),
{
    if ids.len() == 0 { 0 } else { sum_over(m, ids.drop_last()) + m[ids.last()] }
}

proof fn lemma_sum_over_insert_absent(m: Map<Seq<char>, u64>, ids: Seq<Seq<char>>, k: Seq<char>, v: u64)
    requires
        !ids.contains(k),
    ensures
        sum_over(m.insert(k, v), ids) == sum_over(m, ids),
    decreases ids.len(),
{
    if ids.len() > 0 {
        assert(!ids.drop_last().contains(k)) by {
            if ids.drop_last().contains(k) {
                let j = choose|j: int| 0 <= j < ids.drop_last().len() && ids.drop_last()[j] == k;
                assert(ids[j] == k);
            }
        }
        assert(ids.last() != k) by {
            assert(ids[ids.len() - 1] == ids.last());
        }
        lemma_sum_over_insert_absent(m, ids.drop_last(), k, v);
    }
}

/// With unique ids, the summed costs are the sum of the reservations over
/// the ids.
proof fn lemma_sum_costs_over_ids(s: Seq<ResidentEntry>)
    requires
        ids_unique(s),
    ensures
        sum_costs(s) == sum_over(cost_map(s), ids_of(s)),
    decreases s.len(),
{
    if s.len() > 0 {
        let pre = s.drop_last();
        let e = s.last();
        assert(ids_unique(pre));
        lemma_sum_costs_over_ids(pre);
        assert(ids_of(s).drop_last() =~= ids_of(pre));
        assert(!ids_of(pre).contains(e.model_id@)) by {
            if ids_of(pre).contains(e.model_id@) {
                let j = choose|j: int| 0 <= j < ids_of(pre).len() && ids_of(pre)[j] == e.model_id@;
                assert(s[j].model_id@ == s[s.len() - 1].model_id@);
            }
        }
        lemma_sum_over_insert_absent(cost_map(pre), ids_of(pre), e.model_id@, e.cost_mb);
    }
}

pub open spec fn index_of_id(s: Seq<ResidentEntry>, id: Seq<char>) -> int {
    choose|i: int| 0 <= i < s.len() && s[i].model_id@ == id
}

proof fn lemma_cost_map_domain(s: Seq<ResidentEntry>, id: Seq<char>)
    ensures
        cost_map(s).dom().contains(id) <==> exists|i: int| 0 <= i < s.len() && s[i].model_id@ == id,
    decreases s.len(),
{
    if s.len() > 0 {
        lemma_cost_map_domain(s.drop_last(), id);
        if exists|i: int| 0 <= i < s.len() && s[i].model_id@ == id {
            let i = choose|i: int| 0 <= i < s.len() && s[i].model_id@ == id;
            if i < s.len() - 1 {
                assert(s.drop_last()[i].model_id@ == id);
            }
        }
        if exists|i: int| 0 <= i < s.drop_last().len() && s.drop_last()[i].model_id@ == id {
            let i = choose|i: int| 0 <= i < s.drop_last().len() && s.drop_last()[i].model_id@ == id;
            assert(s[i].model_id@ == id);
        }
    }
}

proof fn lemma_cost_map_value(s: Seq<ResidentEntry>, i: int)
    requires
        ids_unique(s),
        0 <= i < s.len(),
    ensures
        cost_map(s).dom().contains(s[i].model_id@),
        cost_map(s)[s[i].model_id@] == s[i].cost_mb,
    decreases s.len(),
{
    if i < s.len() - 1 {
        lemma_cost_map_value(s.drop_last(), i);
    }
}

/// Appending an entry with a fresh id adds its cost to the sum and the map.
proof fn lemma_push_fresh(s: Seq<ResidentEntry>, e: ResidentEntry)
    ensures
        sum_costs(s.push(e)) == sum_costs(s) + e.cost_mb,
        cost_map(s.push(e)) == cost_map(s).insert(e.model_id@, e.cost_mb),
{
    assert(s.push(e).drop_last() =~= s);
}

/// Removing entry `i` subtracts its cost and drops its id from the map.
proof fn lemma_remove(s: Seq<ResidentEntry>, i: int)
    requires
        ids_unique(s),
        0 <= i < s.len(),
    ensures
        sum_costs(s.remove(i)) == sum_costs(s) - s[i].cost_mb,
        cost_map(s.remove(i)) == cost_map(s).remove(s[i].model_id@),
        ids_unique(s.remove(i)),
    decreases s.len(),
{
    let r = s.remove(i);
    if i == s.len() - 1 {
        assert(r =~= s.drop_last());
        lemma_cost_map_domain(s.drop_last(), s[i].model_id@);
        assert(!cost_map(s.drop_last()).dom().contains(s[i].model_id@)) by {
            if cost_map(s.drop_last()).dom().contains(s[i].model_id@) {
                let j = choose|j: int| 0 <= j < s.drop_last().len() && s.drop_last()[j].model_id@ == s[i].model_id@;
                assert(s[j].model_id@ == s[i].model_id@);
            }
        }
        assert(cost_map(s) =~= cost_map(s.drop_last()).insert(s[i].model_id@, s[i].cost_mb));
        assert(cost_map(r) =~= cost_map(s).remove(s[i].model_id@));
    } else {
        let d = s.drop_last();
        lemma_remove(d, i);
        assert(r.drop_last() =~= d.remove(i));
        assert(r.last() == s.last());
        assert(cost_map(r) =~= cost_map(s).remove(s[i].model_id@));
    }
}

/// Replacing the metadata of entry `i` (same id and cost) changes neither
/// the sum nor the map.
proof fn lemma_update_same_cost(s: Seq<ResidentEntry>, i: int, e: ResidentEntry)
    requires
        0 <= i < s.len(),
        e.model_id@ == s[i].model_id@,
        e.cost_mb == s[i].cost_mb,
    ensures
        sum_costs(s.update(i, e)) == sum_costs(s),
        cost_map(s.update(i, e)) == cost_map(s),
    decreases s.len(),
{
    let u = s.update(i, e);
    if i == s.len() - 1 {
        assert(u.drop_last() =~= s.drop_last());
    } else {
        lemma_update_same_cost(s.drop_last(), i, e);
        assert(u.drop_last() =~= s.drop_last().update(i, e));
    }
}

proof fn lemma_sum_nonneg(s: Seq<ResidentEntry>)
    ensures
        sum_costs(s) >= 0,
    decreases s.len(),
{
    if s.len() > 0 {
        lemma_sum_nonneg(s.drop_last());
    }
}

impl ResidentSet {
    /// The reserved MB per model id.
    pub closed spec fn reservations(self) -> Map<Seq<char>, u64> {
        cost_map(self.entries@)
    }

    /// The reserved model ids, each once.
    pub closed spec fn reserved_ids(self) -> Seq<Seq<char>> {
        ids_of(self.entries@)
    }

    /// Total reserved MB across all models.
    pub closed spec fn total(self) -> int {
        sum_costs(self.entries@)
    }

    pub closed spec fn budget(self) -> u64 {
        self.budget_mb
    }

    /// The recorded metadata of a reserved model: (pinned, last_used_ms, in_flight).
    pub closed spec fn metadata(self, id: Seq<char>) -> (bool, u64, u32) {
        let e = self.entries@[index_of_id(self.entries@, id)];
        (e.pinned, e.last_used_ms, e.in_flight)
    }

    /// Ids are unique, the reserved total fits the budget, and a disabled
    /// (zero) budget records nothing.
    pub closed spec fn wf(self) -> bool {
        &&& ids_unique(self.entries@)
        &&& sum_costs(self.entries@) <= self.budget_mb
        &&& (self.budget_mb == 0 ==> self.entries@.len() == 0)
    }

    pub fn new(budget_mb: u64) -> (s: Self)
        ensures
            s.wf(),
            s.budget() == budget_mb,
            s.reservations() == Map::<Seq<char>, u64>::empty(),
            s.total() == 0,
    {
        ResidentSet { entries: Vec::new(), budget_mb }
    }

    pub fn budget_mb(&self) -> (b: u64)
        ensures
            b == self.budget(),
    {
        self.budget_mb
    }

    pub fn total_reserved_mb(&self) -> (t: u64)
        requires
            self.wf(),
        ensures
            t == self.total(),
    {
        let mut t: u64 = 0;
        let mut i: usize = 0;
        while i < self.entries.len()
            invariant
                self.wf(),
                i <= self.entries@.len(),
                t == sum_costs(self.entries@.subrange(0, i as int)),
            decreases self.entries@.len() - i,
        {
            proof {
                let s = self.entries@;
                assert(s.subrange(0, i as int + 1).drop_last() =~= s.subrange(0, i as int));
                lemma_prefix_sum_le(s, i as int + 1);
            }
            t = t + self.entries[i].cost_mb;
            i = i + 1;
        }
        assert(self.entries@.subrange(0, i as int) =~= self.entries@);
        t
    }

    fn find(&self, id: &str) -> (r: Option<usize>)
        requires
            self.wf(),
        ensures
            match r {
                Some(i) => i < self.entries@.len() && self.entries@[i as int].model_id@ == id@,
                None => !self.reservations().dom().contains(id@),
            },
    {
        let mut i: usize = 0;
        while i < self.entries.len()
            invariant
                i <= self.entries@.len(),
                forall|j: int| 0 <= j < i ==> self.entries@[j].model_id@ != id@,
            decreases self.entries@.len() - i,
        {
            if str_eq(self.entries[i].model_id.as_str(), id) {
                return Some(i);
            }
            i = i + 1;
        }
        proof {
            lemma_cost_map_domain(self.entries@, id@);
        }
        None
    }

    /// Reserve `req.cost_mb` for `req.model_id`. Idempotent for an id that
    /// already holds a reservation: only its metadata is refreshed. A zero
    /// budget always succeeds without recording anything.
    pub fn try_reserve(&mut self, req: ReservationRequest) -> (r: Result<(), ResidentError>)
        requires
            old(self).wf(),
        ensures
            final(self).wf(),
            final(self).budget() == old(self).budget(),
            old(self).budget() == 0 ==> r is Ok && final(self).reservations() == old(self).reservations(),
            old(self).budget() > 0 && old(self).reservations().dom().contains(req.model_id@) ==> {
                &&& r is Ok
                &&& final(self).reservations() == old(self).reservations()
                &&& final(self).total() == old(self).total()
                &&& final(self).metadata(req.model_id@) == (req.pinned, req.last_used_ms, req.in_flight)
            },
            old(self).budget() > 0 && !old(self).reservations().dom().contains(req.model_id@)
                && old(self).total() + req.cost_mb <= old(self).budget() ==> {
                &&& r is Ok
                &&& final(self).reservations() == old(self).reservations().insert(req.model_id@, req.cost_mb)
                &&& final(self).total() == old(self).total() + req.cost_mb
                &&& final(self).metadata(req.model_id@) == (req.pinned, req.last_used_ms, req.in_flight)
            },
            old(self).budget() > 0 && !old(self).reservations().dom().contains(req.model_id@)
                && old(self).total() + req.cost_mb > old(self).budget() ==> {
                &&& r matches Err(ResidentError::OverBudget { model_id, requested_mb, current_mb, budget_mb })
                    && model_id@ == req.model_id@ && requested_mb == req.cost_mb
                    && current_mb == old(self).total() && budget_mb == old(self).budget()
                &&& final(self).reservations() == old(self).reservations()
                &&& final(self).total() == old(self).total()
            },
    {
        if self.budget_mb == 0 {
            return Ok(());
        }
        let found = self.find(req.model_id.as_str());
        match found {
            Some(i) => {
                let ghost s = self.entries@;
                let cost = self.entries[i].cost_mb;
                let e = ResidentEntry {
                    model_id: req.model_id,
                    cost_mb: cost,
                    last_used_ms: req.last_used_ms,
                    in_flight: req.in_flight,
                    pinned: req.pinned,
                };
                self.entries.set(i, e);
                proof {
                    lemma_cost_map_value(s, i as int);
                    lemma_update_same_cost(s, i as int, e);
                    let ns = self.entries@;
                    assert(ns =~= s.update(i as int, e));
                    assert(ids_unique(ns));
                    let k = index_of_id(ns, req.model_id@);
                    assert(0 <= i < ns.len() && ns[i as int].model_id@ == req.model_id@);
                    assert(0 <= k < ns.len() && ns[k].model_id@ == req.model_id@);
                    assert(k == i);
                }
                Ok(())
            },
            None => {
                let current = self.total_reserved_mb();
                if current > self.budget_mb || req.cost_mb > self.budget_mb - current {
                    return Err(ResidentError::OverBudget {
                        model_id: req.model_id,
                        requested_mb: req.cost_mb,
                        current_mb: current,
                        budget_mb: self.budget_mb,
                    });
                }
                let ghost s = self.entries@;
                let e = ResidentEntry {
                    model_id: req.model_id,
                    cost_mb: req.cost_mb,
                    last_used_ms: req.last_used_ms,
                    in_flight: req.in_flight,
                    pinned: req.pinned,
                };
                self.entries.push(e);
                proof {
                    lemma_push_fresh(s, e);
                    let ns = self.entries@;
                    lemma_cost_map_domain(s, e.model_id@);
                    assert forall|a: int, b: int| 0 <= a < b < ns.len() implies ns[a].model_id@ != ns[b].model_id@ by {
                        if b == ns.len() - 1 {
                            assert(s[a].model_id@ != e.model_id@);
                        }
                    }
                    let k = index_of_id(ns, req.model_id@);
                    assert(ns[ns.len() - 1].model_id@ == req.model_id@);
                    assert(0 <= k < ns.len() && ns[k].model_id@ == req.model_id@);
                    assert(k == ns.len() - 1);
                }
                Ok(())
            },
        }
    }

    /// Release the reservation for `model_id`. No-op if not reserved.
    pub fn release(&mut self, model_id: &str)
        requires
            old(self).wf(),
        ensures
            final(self).wf(),
            final(self).budget() == old(self).budget(),
            final(self).reservations() == old(self).reservations().remove(model_id@),
            old(self).reservations().dom().contains(model_id@) ==>
                final(self).total() == old(self).total() - old(self).reservations()[model_id@],
            !old(self).reservations().dom().contains(model_id@) ==> final(self).total() == old(self).total(),
    {
        if self.budget_mb == 0 {
            proof {
                assert(self.entries@ =~= Seq::<ResidentEntry>::empty());
                assert(self.reservations() =~= self.reservations().remove(model_id@));
            }
            return;
        }
        match self.find(model_id) {
            Some(i) => {
                let ghost s = self.entries@;
                proof {
                    lemma_remove(s, i as int);
                    lemma_cost_map_value(s, i as int);
                    lemma_sum_nonneg(s.remove(i as int));
                }
                self.entries.remove(i);
            },
            None => {
                proof {
                    assert(self.reservations() =~= self.reservations().remove(model_id@));
                }
            },
        }
    }
}

proof fn lemma_prefix_sum_le(s: Seq<ResidentEntry>, k: int)
    requires
        0 <= k <= s.len(),
    ensures
        sum_costs(s.subrange(0, k)) <= sum_costs(s),
    decreases s.len() - k,
{
    if k < s.len() {
        lemma_prefix_sum_le(s, k + 1);
        assert(s.subrange(0, k + 1).drop_last() =~= s.subrange(0, k));
    } else {
        assert(s.subrange(0, k) =~= s);
    }
}


#[derive(Debug)]
pub enum EstimateError {
    StatFailed { path: String, source: String },
}

/// `len * 6 / 5` (1.2×, the multiplication saturating) converted to MB.
pub open spec fn estimate_from_len(len: u64) -> u64 {
    let padded = if len * 6 > u64::MAX { u64::MAX as int } else { len * 6 };
    ((padded / 5) / 1048576int) as u64
}

/// Estimate a GGUF model's VRAM footprint in MB. An override is returned
/// verbatim without consulting the file; otherwise the footprint is the
/// file size (`file_len`, the outcome of reading the file's metadata) times
/// 1.2, in MB.
pub fn estimate_vram_mb(path: &str, override_mb: Option<u64>, file_len: &Result<u64, String>) -> (r: Result<u64, EstimateError>)
    ensures
        override_mb matches Some(n) ==> r == Ok::<u64, EstimateError>(n),
        override_mb is None ==> match file_len {
            Ok(len) => r == Ok::<u64, EstimateError>(estimate_from_len(*len)),
            Err(msg) => r matches Err(EstimateError::StatFailed { path: p, source }) && p@ == path@ && source@ == msg@,
        },
{
    if let Some(n) = override_mb {
        return Ok(n);
    }
    match file_len {
        Ok(len) => {
            let padded: u64 = if *len > u64::MAX / 6 { u64::MAX } else { *len * 6 };
            Ok(padded / 5 / (1024 * 1024))
        },
        Err(msg) => Err(EstimateError::StatFailed { path: crate::text::to_string(path), source: msg.clone() }),
    }
}

/// Where a local model runs: one device, or a tensor-parallel split over
/// several devices.
pub enum Placement {
    SingleDevice(u32),
    Split(Vec<u32>),
}

/// A model's placement: `Auto` until the scheduler picks a device.
pub enum ResolvedPlacement {
    Auto,
    Resolved(Placement),
}

impl ResolvedPlacement {
    /// `[]` → auto-placement, `[n]` → device n, longer lists → split.
    pub fn from_gpus(gpus: &Vec<u32>) -> (r: Self)
        ensures
            gpus@.len() == 0 ==> r is Auto,
            gpus@.len() == 1 ==> r == ResolvedPlacement::Resolved(Placement::SingleDevice(gpus@[0])),
            gpus@.len() >= 2 ==> (r matches ResolvedPlacement::Resolved(Placement::Split(v)) && v@ == gpus@),
    {
        if gpus.len() == 0 {
            ResolvedPlacement::Auto
        } else if gpus.len() == 1 {
            ResolvedPlacement::Resolved(Placement::SingleDevice(gpus[0]))
        } else {
            ResolvedPlacement::Resolved(Placement::Split(gpus.clone()))
        }
    }
}

/// Each device's share of an estimate split over `n` devices: the
/// estimate divided by `n`, rounded up, so the shares cover the estimate.
pub open spec fn share(estimate_mb: u64, n: nat) -> u64 {
    if n == 0 { 0 } else { ((estimate_mb + n - 1) / (n as int)) as u64 }
}

impl Placement {
    pub open spec fn devices(self) -> Seq<u32> {
        match self {
            Placement::SingleDevice(g) => seq![g],
            Placement::Split(v) => v@,
        }
    }

    /// The devices this placement touches.
    pub fn gpus(&self) -> (r: Vec<u32>)
        ensures
            r@ == self.devices(),
    {
        match self {
            Placement::SingleDevice(g) => {
                let mut v = Vec::new();
                v.push(*g);
                assert(v@ =~= seq![*g]);
                v
            },
            Placement::Split(v) => v.clone(),
        }
    }

    /// The reservation each touched device carries for a model of
    /// `estimate_mb`: the whole estimate on a single device, an even
    /// (rounded-up) share on each device of a split.
    pub fn per_device_cost(&self, estimate_mb: u64) -> (r: Vec<(u32, u64)>)
        ensures
            r@.len() == self.devices().len(),
            forall|i: int| 0 <= i < r@.len() ==> (#[trigger] r@[i]).0 == self.devices()[i],
            self is SingleDevice ==> r@[0].1 == estimate_mb,
            self is Split ==> forall|i: int| 0 <= i < r@.len() ==> (#[trigger] r@[i]).1 == share(estimate_mb, self.devices().len()),
    {
        match self {
            Placement::SingleDevice(g) => {
                let mut v = Vec::new();
                v.push((*g, estimate_mb));
                v
            },
            Placement::Split(gs) => {
                let n = gs.len();
                let mut out: Vec<(u32, u64)> = Vec::new();
                if n == 0 {
                    return out;
                }
                let n64 = n as u64;
                proof {
                    lemma_div_ceil(estimate_mb, n as nat);
                }
                let per = estimate_mb / n64 + if estimate_mb % n64 != 0 { 1u64 } else { 0u64 };
                let mut i: usize = 0;
                while i < n
                    invariant
                        n == gs@.len(),
                        n > 0,
                        i <= n,
                        out@.len() == i,
                        per == share(estimate_mb, n as nat),
                        forall|k: int| 0 <= k < i ==> (#[trigger] out@[k]).0 == gs@[k] && out@[k].1 == per,
                    decreases n - i,
                {
                    out.push((gs[i], per));
                    i = i + 1;
                }
                out
            },
        }
    }
}

proof fn lemma_div_ceil(e: u64, n: nat)
    requires
        n > 0,
        n <= u64::MAX,
    ensures
        e % (n as u64) != 0 ==> e / (n as u64) + 1 <= u64::MAX,
        (e / (n as u64) + if e % (n as u64) != 0 { 1int } else { 0int }) == share(e, n),
{
    let ei = e as int;
    let ni = n as int;
    let q = ei / ni;
    let r = ei % ni;
    vstd::arithmetic::div_mod::lemma_fundamental_div_mod(ei, ni);
    vstd::arithmetic::div_mod::lemma_mod_bound(ei, ni);
    assert(e / (n as u64) == q);
    assert(e % (n as u64) == r);
    if r == 0 {
        assert((ei + ni - 1) / ni == q) by {
            assert(ei == q * ni) by (nonlinear_arith) requires ei == ni * q + r, r == 0;
            vstd::arithmetic::div_mod::lemma_fundamental_div_mod_converse(ei + ni - 1, ni, q, ni - 1);
        }
    } else {
        assert((ei + ni - 1) / ni == q + 1) by {
            assert(ei + ni - 1 == (q + 1) * ni + (r - 1)) by (nonlinear_arith) requires ei == ni * q + r;
            vstd::arithmetic::div_mod::lemma_fundamental_div_mod_converse(ei + ni - 1, ni, q + 1, r - 1);
        }
        assert(ni >= 2);
        assert(q >= 0) by (nonlinear_arith) requires ei >= 0, ni > 0, q == ei / ni;
        assert(ni * q >= q * 2) by (nonlinear_arith)
            requires ni >= 2, q >= 0;
        assert(q + 1 <= ei);
    }
}

// ---------------------------------------------------------------------
// Laws
// ---------------------------------------------------------------------

/// The reserved total never exceeds the budget.
pub proof fn law_total_within_budget(s: ResidentSet)
    requires
        s.wf(),
    ensures
        0 <= s.total() <= s.budget(),
{
    lemma_sum_nonneg(s.entries@);
}

/// Whatever reservations and releases led to it, the reserved total is the
/// sum of the costs of the models reserved, each counted once, and stays
/// within the budget.
pub proof fn law_total_is_sum_of_reservations(s: ResidentSet)
    requires
        s.wf(),
    ensures
        s.reserved_ids().no_duplicates(),
        s.reserved_ids().to_set() == s.reservations().dom(),
        s.total() == sum_over(s.reservations(), s.reserved_ids()),
        s.total() <= s.budget(),
{
    let es = s.entries@;
    lemma_sum_costs_over_ids(es);
    assert(ids_of(es).no_duplicates()) by {
        assert forall|i: int, j: int| 0 <= i < ids_of(es).len() && 0 <= j < ids_of(es).len() && i != j implies
            ids_of(es)[i] != ids_of(es)[j] by {
            if i < j {
                assert(es[i].model_id@ != es[j].model_id@);
            } else {
                assert(es[j].model_id@ != es[i].model_id@);
            }
        }
    }
    assert forall|id: Seq<char>| ids_of(es).to_set().contains(id) <==> #[trigger] cost_map(es).dom().contains(id) by {
        lemma_cost_map_domain(es, id);
        if ids_of(es).to_set().contains(id) {
            assert(ids_of(es).contains(id));
            let j = choose|j: int| 0 <= j < ids_of(es).len() && ids_of(es)[j] == id;
            assert(es[j].model_id@ == id);
        }
        if cost_map(es).dom().contains(id) {
            let i = choose|i: int| 0 <= i < es.len() && es[i].model_id@ == id;
            assert(ids_of(es)[i] == id);
            assert(ids_of(es).contains(id));
        }
    }
    assert(ids_of(es).to_set() =~= cost_map(es).dom());
}

/// A model file's estimated footprint is 1.2 times its size, in whole MB
/// rounded down: the estimate's MB, taken back to bytes, are at most 1.2
/// times the file and within one MB of it; a larger file never gets a
/// smaller estimate.
pub proof fn law_estimate_is_six_fifths(len: u64, other: u64)
    requires
        len * 6 <= u64::MAX,
        other * 6 <= u64::MAX,
    ensures
        estimate_from_len(len) * 5242880 <= len * 6 < (estimate_from_len(len) + 1) * 5242880,
        len <= other ==> estimate_from_len(len) <= estimate_from_len(other),
{
    let x = len * 6;
    vstd::arithmetic::div_mod::lemma_div_denominator(x, 5, 1048576);
    vstd::arithmetic::div_mod::lemma_fundamental_div_mod(x, 5242880);
    vstd::arithmetic::div_mod::lemma_mod_bound(x, 5242880);
    let y = other * 6;
    vstd::arithmetic::div_mod::lemma_div_denominator(y, 5, 1048576);
    if len <= other {
        vstd::arithmetic::div_mod::lemma_div_is_ordered(x, y, 5242880);
    }
}

/// A zero budget disables scheduling: nothing is ever reserved.
pub proof fn law_zero_budget_reserves_nothing(s: ResidentSet)
    requires
        s.wf(),
        s.budget() == 0,
    ensures
        s.reservations() == Map::<Seq<char>, u64>::empty(),
        s.total() == 0,
{
    assert(s.entries@ =~= Seq::<ResidentEntry>::empty());
}

/// Reserving a model that holds no reservation and then releasing it
/// gives back the reservations there were before.
pub proof fn law_release_undoes_reserve(
    before: ResidentSet,
    reserved: ResidentSet,
    released: ResidentSet,
    id: Seq<char>,
    cost: u64,
)
    requires
        !before.reservations().dom().contains(id),
        reserved.reservations() == before.reservations().insert(id, cost),
        released.reservations() == reserved.reservations().remove(id),
    ensures
        released.reservations() == before.reservations(),
{
    assert(released.reservations() =~= before.reservations());
}

/// A second reservation of a model keeps the cost the first one recorded.
pub proof fn law_reserve_idempotent(
    before: ResidentSet,
    once: ResidentSet,
    twice: ResidentSet,
    id: Seq<char>,
    cost: u64,
)
    requires
        !before.reservations().dom().contains(id),
        once.reservations() == before.reservations().insert(id, cost),
        twice.reservations() == once.reservations(),
    ensures
        twice.reservations().dom().contains(id),
        twice.reservations()[id] == cost,
        twice.reservations().remove(id) == before.reservations(),
{
    assert(twice.reservations().remove(id) =~= before.reservations());
}

/// The shares of a split cover the estimate, with less than one MB per
/// device to spare.
pub proof fn law_split_shares_cover(estimate_mb: u64, n: nat)
    requires
        0 < n <= u64::MAX,
    ensures
        n * share(estimate_mb, n) >= estimate_mb,
        n * share(estimate_mb, n) < estimate_mb + n,
{
    let e = estimate_mb as int;
    let ni = n as int;
    let q = (e + ni - 1) / ni;
    vstd::arithmetic::div_mod::lemma_fundamental_div_mod(e + ni - 1, ni);
    vstd::arithmetic::div_mod::lemma_mod_bound(e + ni - 1, ni);
    assert(q <= e) by (nonlinear_arith)
        requires
            e + ni - 1 == ni * q + (e + ni - 1) % ni,
            0 <= (e + ni - 1) % ni,
            ni >= 1,
            e >= 0,
    ;
    assert(q >= 0) by (nonlinear_arith)
        requires
            e + ni - 1 == ni * q + (e + ni - 1) % ni,
            (e + ni - 1) % ni < ni,
            ni >= 1,
            e >= 0,
    ;
    assert(share(estimate_mb, n) == q);
    assert(ni * q >= e) by (nonlinear_arith)
        requires
            e + ni - 1 == ni * q + (e + ni - 1) % ni,
            0 <= (e + ni - 1) % ni < ni,
    ;
    assert(ni * q < e + ni) by (nonlinear_arith)
        requires
            e + ni - 1 == ni * q + (e + ni - 1) % ni,
            0 <= (e + ni - 1) % ni,
    ;
}

} // verus!
