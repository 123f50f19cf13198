//! Request lifecycle events, the bounded log of the most recent ones, and
//! the per-model in-flight counters the admin API reports.

use vstd::prelude::*;
use std::collections::VecDeque;
use crate::text::{copy_opt_string, copy_string, opt_view, str_eq, to_string};
use crate::validate::{first_index, lemma_first_index_is, lemma_first_index_none, lemma_first_index_some};

verus! {

#[allow(inconsistent_fields)]
#[derive(Debug)]
pub enum RequestEvent {
    Started { id: String, ts: String, route: Option<String>, backend: String },
    FirstToken { id: String, ts: String, ttft_ms: u64 },
    Completed {
        id: String,
        ts: String,
        route: Option<String>,
        matched_rule: Option<String>,
        backend: String,
        fallback_count: u32,
        status: String,
        ttft_ms: Option<u64>,
        duration_ms: u64,
        prompt_tokens: u64,
        completion_tokens: u64,
    },
    Failed { id: String, ts: String, backend: String, reason: String, duration_ms: u64 },
    Canceled { id: String, ts: String, backend: String, duration_ms: u64 },
    /// A subscriber fell behind and missed this many events.
    Gap { missed: u64 },
}

/// A `RequestEvent` by the characters of its strings.
#[allow(inconsistent_fields)]
pub enum RequestEventView {
    Started { id: Seq<char>, ts: Seq<char>, route: Option<Seq<char>>, backend: Seq<char> },
    FirstToken { id: Seq<char>, ts: Seq<char>, ttft_ms: u64 },
    Completed {
        id: Seq<char>,
        ts: Seq<char>,
        route: Option<Seq<char>>,
        matched_rule: Option<Seq<char>>,
        backend: Seq<char>,
        fallback_count: u32,
        status: Seq<char>,
        ttft_ms: Option<u64>,
        duration_ms: u64,
        prompt_tokens: u64,
        completion_tokens: u64,
    },
    Failed { id: Seq<char>, ts: Seq<char>, backend: Seq<char>, reason: Seq<char>, duration_ms: u64 },
    Canceled { id: Seq<char>, ts: Seq<char>, backend: Seq<char>, duration_ms: u64 },
    Gap { missed: u64 },
}

impl View for RequestEvent {
    type V = RequestEventView;

    open spec fn view(&self) -> RequestEventView {
        match self {
            RequestEvent::Started { id, ts, route, backend } =>
                RequestEventView::Started { id: id@, ts: ts@, route: opt_view(*route), backend: backend@ },
            RequestEvent::FirstToken { id, ts, ttft_ms } => RequestEventView::FirstToken { id: id@, ts: ts@, ttft_ms: *ttft_ms },
            RequestEvent::Completed {
                id, ts, route, matched_rule, backend, fallback_count, status, ttft_ms, duration_ms, prompt_tokens,
                completion_tokens,
            } => RequestEventView::Completed {
                id: id@,
                ts: ts@,
                route: opt_view(*route),
                matched_rule: opt_view(*matched_rule),
                backend: backend@,
                fallback_count: *fallback_count,
                status: status@,
                ttft_ms: *ttft_ms,
                duration_ms: *duration_ms,
                prompt_tokens: *prompt_tokens,
                completion_tokens: *completion_tokens,
            },
            RequestEvent::Failed { id, ts, backend, reason, duration_ms } => RequestEventView::Failed {
                id: id@,
                ts: ts@,
                backend: backend@,
                reason: reason@,
                duration_ms: *duration_ms,
            },
            RequestEvent::Canceled { id, ts, backend, duration_ms } =>
                RequestEventView::Canceled { id: id@, ts: ts@, backend: backend@, duration_ms: *duration_ms },
            RequestEvent::Gap { missed } => RequestEventView::Gap { missed: *missed },
        }
    }
}

pub fn copy_event(e: &RequestEvent) -> (c: RequestEvent)
    ensures
        c@ == e@,
{
    match e {
        RequestEvent::Started { id, ts, route, backend } => RequestEvent::Started {
            id: copy_string(id),
            ts: copy_string(ts),
            route: copy_opt_string(route),
            backend: copy_string(backend),
        },
        RequestEvent::FirstToken { id, ts, ttft_ms } =>
            RequestEvent::FirstToken { id: copy_string(id), ts: copy_string(ts), ttft_ms: *ttft_ms },
        RequestEvent::Completed {
            id, ts, route, matched_rule, backend, fallback_count, status, ttft_ms, duration_ms, prompt_tokens,
            completion_tokens,
        } => RequestEvent::Completed {
            id: copy_string(id),
            ts: copy_string(ts),
            route: copy_opt_string(route),
            matched_rule: copy_opt_string(matched_rule),
            backend: copy_string(backend),
            fallback_count: *fallback_count,
            status: copy_string(status),
            ttft_ms: *ttft_ms,
            duration_ms: *duration_ms,
            prompt_tokens: *prompt_tokens,
            completion_tokens: *completion_tokens,
        },
        RequestEvent::Failed { id, ts, backend, reason, duration_ms } => RequestEvent::Failed {
            id: copy_string(id),
            ts: copy_string(ts),
            backend: copy_string(backend),
            reason: copy_string(reason),
            duration_ms: *duration_ms,
        },
        RequestEvent::Canceled { id, ts, backend, duration_ms } => RequestEvent::Canceled {
            id: copy_string(id),
            ts: copy_string(ts),
            backend: copy_string(backend),
            duration_ms: *duration_ms,
        },
        RequestEvent::Gap { missed } => RequestEvent::Gap { missed: *missed },
    }
}

pub open spec fn events_view(s: Seq<RequestEvent>) -> Seq<RequestEventView> {
    s.map_values(|e: RequestEvent| e@)
}

// ---------------------------------------------------------------------
// The log
// ---------------------------------------------------------------------

/// The most recent request events, oldest first, and the in-flight count
/// of each model.
pub struct RequestTracker {
    history: VecDeque<RequestEvent>,
    capacity: usize,
    in_flight: Vec<(String, usize)>,
}

pub open spec fn counter_named(v: Seq<(String, usize)>, id: Seq<char>) -> spec_fn(int) -> bool {
    |i: int| v[i].0@ == id
}

/// The in-flight count of `id`: 0 for a model never counted.
pub open spec fn count_of(v: Seq<(String, usize)>, id: Seq<char>) -> usize {
    match first_index(v.len() as int, counter_named(v, id)) {
        Some(i) => v[i].1,
        None => 0,
    }
}

/// The sum of all in-flight counts.
pub open spec fn total_of(v: Seq<(String, usize)>) -> int
    decreases v.len(),
{
    if v.len() == 0 { 0 } else { total_of(v.drop_last()) + v.last().1 }
}

/// The log after recording `e`: the oldest event goes when the log is full.
pub open spec fn recorded(h: Seq<RequestEvent>, capacity: usize, e: RequestEvent) -> Seq<RequestEvent> {
    if h.len() == capacity && h.len() > 0 { h.drop_first().push(e) } else { h.push(e) }
}

impl RequestTracker {
    /// The events held, oldest first.
    pub closed spec fn events(self) -> Seq<RequestEvent> {
        self.history@
    }

    pub closed spec fn cap(self) -> usize {
        self.capacity
    }

    /// The in-flight count of a model.
    pub closed spec fn count(self, id: Seq<char>) -> usize {
        count_of(self.in_flight@, id)
    }

    /// The sum of the in-flight counts.
    pub closed spec fn total(self) -> int {
        total_of(self.in_flight@)
    }

    /// A log with a capacity never holds more events than it.
    pub closed spec fn wf(self) -> bool {
        self.capacity > 0 ==> self.history@.len() <= self.capacity
    }

    pub fn new(capacity: usize) -> (t: Self)
        ensures
            t.wf(),
            t.events() == Seq::<RequestEvent>::empty(),
            t.cap() == capacity,
            forall|id: Seq<char>| t.count(id) == 0,
            t.total() == 0,
    {
        let t = RequestTracker { history: VecDeque::new(), capacity, in_flight: Vec::new() };
        assert forall|id: Seq<char>| t.count(id) == 0 by {
            lemma_first_index_none(0, counter_named(t.in_flight@, id));
        }
        t
    }

    /// Append an event, dropping the oldest when the log is full.
    pub fn record(&mut self, event: RequestEvent)
        requires
            old(self).wf(),
        ensures
            final(self).wf(),
            final(self).events() == recorded(old(self).events(), old(self).cap(), event),
            final(self).cap() == old(self).cap(),
            forall|id: Seq<char>| final(self).count(id) == old(self).count(id),
            final(self).total() == old(self).total(),
    {
        if self.history.len() == self.capacity && self.history.len() > 0 {
            let _ = self.history.pop_front();
        }
        self.history.push_back(event);
        assert(self.history@ =~= recorded(old(self).history@, self.capacity, event));
    }

    /// The `n` most recent events, oldest first.
    pub fn tail(&self, n: usize) -> (r: Vec<RequestEvent>)
        ensures
            ({
                let h = self.events();
                let k = if n < h.len() { n as int } else { h.len() as int };
                events_view(r@) == events_view(h.subrange(h.len() - k, h.len() as int))
            }),
    {
        let len = self.history.len();
        let skip = if n < len { len - n } else { 0 };
        let mut r: Vec<RequestEvent> = Vec::new();
        let mut i: usize = skip;
        while i < len
            invariant
                skip <= i <= len,
                len == self.history@.len(),
                r@.len() == i - skip,
                forall|j: int| 0 <= j < r@.len() ==> (#[trigger] r@[j])@ == self.history@[skip + j]@,
            decreases len - i,
        {
            r.push(copy_event(&self.history[i]));
            i = i + 1;
        }
        assert(events_view(r@) =~= events_view(self.history@.subrange(skip as int, len as int)));
        r
    }

    /// Every event held, oldest first.
    pub fn snapshot_all(&self) -> (r: Vec<RequestEvent>)
        ensures
            events_view(r@) == events_view(self.events()),
    {
        let r = self.tail(self.history.len());
        assert(self.history@.subrange(0, self.history@.len() as int) =~= self.history@);
        r
    }

    fn counter(&self, id: &str) -> (r: Option<usize>)
        ensures
            match r {
                Some(i) => first_index(self.in_flight@.len() as int, counter_named(self.in_flight@, id@)) == Some(i as int)
                    && i < self.in_flight@.len(),
                None => first_index(self.in_flight@.len() as int, counter_named(self.in_flight@, id@)) is None,
            },
    {
        let ghost p = counter_named(self.in_flight@, id@);
        let mut i: usize = 0;
        while i < self.in_flight.len()
            invariant
                p == counter_named(self.in_flight@, id@),
                i <= self.in_flight@.len(),
                forall|k: int| 0 <= k < i ==> !#[trigger] p(k),
            decreases self.in_flight@.len() - i,
        {
            if str_eq(self.in_flight[i].0.as_str(), id) {
                proof { lemma_first_index_is(self.in_flight@.len() as int, p, i as int); }
                return Some(i);
            }
            i = i + 1;
        }
        proof { lemma_first_index_none(self.in_flight@.len() as int, p); }
        None
    }

    /// Count one more request in flight for `id` (wrapping as the atomic
    /// counter does).
    pub fn in_flight_inc(&mut self, id: &str)
        ensures
            old(self).wf() ==> final(self).wf(),
            final(self).events() == old(self).events(),
            final(self).cap() == old(self).cap(),
            final(self).count(id@) == old(self).count(id@).wrapping_add(1),
            forall|o: Seq<char>| o != id@ ==> final(self).count(o) == old(self).count(o),
    {
        self.adjust(id, true);
    }

    /// Count one request fewer in flight for `id` (wrapping as the atomic
    /// counter does).
    pub fn in_flight_dec(&mut self, id: &str)
        ensures
            old(self).wf() ==> final(self).wf(),
            final(self).events() == old(self).events(),
            final(self).cap() == old(self).cap(),
            final(self).count(id@) == old(self).count(id@).wrapping_sub(1),
            forall|o: Seq<char>| o != id@ ==> final(self).count(o) == old(self).count(o),
    {
        self.adjust(id, false);
    }

    fn adjust(&mut self, id: &str, up: bool)
        ensures
            final(self).events() == old(self).events(),
            final(self).cap() == old(self).cap(),
            final(self).count(id@) == (if up { old(self).count(id@).wrapping_add(1) } else {
                old(self).count(id@).wrapping_sub(1)
            }),
            forall|o: Seq<char>| o != id@ ==> final(self).count(o) == old(self).count(o),
    {
        let ghost v0 = self.in_flight@;
        proof {
            if first_index(v0.len() as int, counter_named(v0, id@)) is Some {
                lemma_first_index_some(v0.len() as int, counter_named(v0, id@));
            }
        }
        match self.counter(id) {
            Some(i) => {
                let c = self.in_flight[i].1;
                let nc = if up { c.wrapping_add(1) } else { c.wrapping_sub(1) };
                let name = copy_string(&self.in_flight[i].0);
                self.in_flight.set(i, (name, nc));
                proof { lemma_count_set(v0, self.in_flight@, i as int, id@); }
            },
            None => {
                let nc: usize = if up { 1 } else { 0usize.wrapping_sub(1) };
                self.in_flight.push((to_string(id), nc));
                proof { lemma_count_push(v0, self.in_flight@, id@); }
            },
        }
    }

    /// The in-flight count of `id`.
    pub fn in_flight(&self, id: &str) -> (r: u64)
        ensures
            r == self.count(id@),
    {
        proof {
            if first_index(self.in_flight@.len() as int, counter_named(self.in_flight@, id@)) is Some {
                lemma_first_index_some(self.in_flight@.len() as int, counter_named(self.in_flight@, id@));
            }
        }
        match self.counter(id) {
            Some(i) => self.in_flight[i].1 as u64,
            None => 0,
        }
    }

    /// The sum of the in-flight counts.
    pub fn in_flight_total(&self) -> (r: u64)
        requires
            self.total() <= u64::MAX,
        ensures
            r == self.total(),
    {
        let mut t: u64 = 0;
        let mut i: usize = 0;
        proof { lemma_total_prefix_le(self.in_flight@, 0); }
        while i < self.in_flight.len()
            invariant
                i <= self.in_flight@.len(),
                total_of(self.in_flight@) <= u64::MAX,
                t == total_of(self.in_flight@.subrange(0, i as int)),
            decreases self.in_flight@.len() - i,
        {
            proof {
                lemma_total_prefix_le(self.in_flight@, i + 1);
                assert(self.in_flight@.subrange(0, i + 1).drop_last() =~= self.in_flight@.subrange(0, i as int));
            }
            t = t + self.in_flight[i].1 as u64;
            i = i + 1;
        }
        assert(self.in_flight@.subrange(0, self.in_flight@.len() as int) =~= self.in_flight@);
        t
    }
}

proof fn lemma_total_prefix_le(v: Seq<(String, usize)>, k: int)
    requires
        0 <= k <= v.len(),
    ensures
        0 <= total_of(v.subrange(0, k)) <= total_of(v),
    decreases v.len() - k,
{
    if k < v.len() {
        lemma_total_prefix_le(v, k + 1);
        assert(v.subrange(0, k + 1).drop_last() =~= v.subrange(0, k));
    } else {
        assert(v.subrange(0, k) =~= v);
    }
    lemma_total_nonneg(v.subrange(0, k));
}

proof fn lemma_total_nonneg(v: Seq<(String, usize)>)
    ensures
        total_of(v) >= 0,
    decreases v.len(),
{
    if v.len() > 0 {
        lemma_total_nonneg(v.drop_last());
    }
}

proof fn lemma_count_set(v: Seq<(String, usize)>, v2: Seq<(String, usize)>, i: int, id: Seq<char>)
    requires
        first_index(v.len() as int, counter_named(v, id)) == Some(i),
        v2.len() == v.len(),
        v2[i].0@ == id,
        forall|k: int| 0 <= k < v.len() && k != i ==> v2[k] == v[k],
    ensures
        count_of(v2, id) == v2[i].1,
        forall|o: Seq<char>| o != id ==> count_of(v2, o) == count_of(v, o),
{
    lemma_first_index_some(v.len() as int, counter_named(v, id));
    let p2 = counter_named(v2, id);
    assert forall|k: int| 0 <= k < i implies !#[trigger] p2(k) by {
        assert(!counter_named(v, id)(k));
    }
    lemma_first_index_is(v2.len() as int, p2, i);
    assert forall|o: Seq<char>| o != id implies count_of(v2, o) == count_of(v, o) by {
        let q = counter_named(v, o);
        let q2 = counter_named(v2, o);
        match first_index(v.len() as int, q) {
            Some(k) => {
                lemma_first_index_some(v.len() as int, q);
                assert(k != i);
                assert forall|j: int| 0 <= j < k implies !#[trigger] q2(j) by {
                    assert(!q(j));
                }
                lemma_first_index_is(v2.len() as int, q2, k);
            },
            None => {
                assert forall|j: int| 0 <= j < v2.len() implies !#[trigger] q2(j) by {
                    if j != i && q(j) {
                        lemma_some_below(v.len() as int, q, j);
                    }
                }
                lemma_first_index_none(v2.len() as int, q2);
            },
        }
    }
}

proof fn lemma_count_push(v: Seq<(String, usize)>, v2: Seq<(String, usize)>, id: Seq<char>)
    requires
        first_index(v.len() as int, counter_named(v, id)) is None,
        v2.len() == v.len() + 1,
        v2.last().0@ == id,
        forall|k: int| 0 <= k < v.len() ==> v2[k] == v[k],
    ensures
        count_of(v, id) == 0,
        count_of(v2, id) == v2.last().1,
        forall|o: Seq<char>| o != id ==> count_of(v2, o) == count_of(v, o),
{
    let p = counter_named(v, id);
    let p2 = counter_named(v2, id);
    assert forall|k: int| 0 <= k < v.len() implies !#[trigger] p2(k) by {
        if p(k) {
            lemma_some_below(v.len() as int, p, k);
        }
    }
    lemma_first_index_is(v2.len() as int, p2, v.len() as int);
    assert forall|o: Seq<char>| o != id implies count_of(v2, o) == count_of(v, o) by {
        let q = counter_named(v, o);
        let q2 = counter_named(v2, o);
        match first_index(v.len() as int, q) {
            Some(k) => {
                lemma_first_index_some(v.len() as int, q);
                assert forall|j: int| 0 <= j < k implies !#[trigger] q2(j) by {
                    assert(!q(j));
                }
                lemma_first_index_is(v2.len() as int, q2, k);
            },
            None => {
                assert forall|j: int| 0 <= j < v2.len() implies !#[trigger] q2(j) by {
                    if j < v.len() && q(j) {
                        lemma_some_below(v.len() as int, q, j);
                    }
                }
                lemma_first_index_none(v2.len() as int, q2);
            },
        }
    }
}

proof fn lemma_some_below(n: int, p: spec_fn(int) -> bool, k: int)
    requires
        0 <= k < n,
        p(k),
    ensures
        first_index(n, p) is Some,
{
}

// ---------------------------------------------------------------------
// Laws
// ---------------------------------------------------------------------

/// A log with a capacity holds at most that many events.
pub proof fn law_log_bounded(t: RequestTracker)
    requires
        t.wf(),
        t.cap() > 0,
    ensures
        t.events().len() <= t.cap(),
{
}

/// Recording keeps the most recent events in order: the log after
/// recording `e` is the latest `capacity` events of the old log followed
/// by `e`.
pub proof fn law_record_keeps_latest(h: Seq<RequestEvent>, capacity: usize, e: RequestEvent)
    requires
        capacity > 0,
        h.len() <= capacity,
    ensures
        ({
            let all = h.push(e);
            let keep = if all.len() > capacity { capacity as int } else { all.len() as int };
            recorded(h, capacity, e) == all.subrange(all.len() - keep, all.len() as int)
        }),
        recorded(h, capacity, e).last() == e,
{
    let all = h.push(e);
    if h.len() == capacity {
        assert(recorded(h, capacity, e) =~= all.subrange(1, all.len() as int));
    } else {
        assert(recorded(h, capacity, e) =~= all.subrange(0, all.len() as int));
    }
}

/// The log after recording each of `es` in turn, starting from `h`.
pub open spec fn recorded_all(h: Seq<RequestEvent>, capacity: usize, es: Seq<RequestEvent>) -> Seq<RequestEvent>
    decreases es.len(),
{
    if es.len() == 0 {
        h
    } else {
        recorded(recorded_all(h, capacity, es.drop_last()), capacity, es.last())
    }
}

/// The last `n` elements of `s` (all of it when shorter), oldest first.
pub open spec fn latest(s: Seq<RequestEvent>, n: int) -> Seq<RequestEvent> {
    let k = if n < s.len() { n } else { s.len() as int };
    s.subrange(s.len() - k, s.len() as int)
}

/// A fresh log with a capacity, after any sequence of records, holds the
/// `capacity` most recent events, oldest first; so a tail of `n` is the
/// `n` most recent of them.
pub proof fn law_log_keeps_most_recent(capacity: usize, es: Seq<RequestEvent>, n: int)
    requires
        capacity > 0,
        n >= 0,
    ensures
        recorded_all(Seq::empty(), capacity, es) == latest(es, capacity as int),
        latest(recorded_all(Seq::empty(), capacity, es), n) == latest(es, if n < capacity { n } else { capacity as int }),
    decreases es.len(),
{
    if es.len() > 0 {
        let pre = es.drop_last();
        law_log_keeps_most_recent(capacity, pre, n);
        let h = latest(pre, capacity as int);
        law_record_keeps_latest(h, capacity, es.last());
        let all = h.push(es.last());
        let keep = if all.len() > capacity { capacity as int } else { all.len() as int };
        assert(all.subrange(all.len() - keep, all.len() as int) =~= latest(es, capacity as int));
    }
    let r = latest(es, capacity as int);
    let m = if n < capacity { n } else { capacity as int };
    assert(latest(r, n) =~= latest(es, m));
}

/// Counting a request in and then out leaves the model's count as it was.
pub proof fn law_in_flight_balanced(before: usize, after: usize)
    requires
        after == before.wrapping_add(1).wrapping_sub(1),
    ensures
        after == before,
{
}

// ---------------------------------------------------------------------
// The admin API's tail query
// ---------------------------------------------------------------------

/// The most events one request may ask for.
pub const MAX_TAIL: usize = 1000;

pub struct TailQuery {
    pub tail: usize,
}

/// How many events a request asks for when it does not say.
pub fn default_tail() -> (n: usize)
    ensures
        n == 50,
{
    50
}

/// How many events a tail query returns at most.
pub fn tail_len(q: &TailQuery) -> (n: usize)
    ensures
        n == (if q.tail < MAX_TAIL { q.tail } else { MAX_TAIL }),
{
    if q.tail < MAX_TAIL { q.tail } else { MAX_TAIL }
}

} // verus!
