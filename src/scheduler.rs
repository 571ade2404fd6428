//! The refresh scheduler: one tick counter shared by several sources, each
//! fetched whenever the counter is a multiple of its interval, and the cache
//! cells that keep each source's latest successful value.
use vstd::prelude::*;
use vstd::arithmetic::div_mod::{lemma_fundamental_div_mod, lemma_div_multiples_vanish_fancy};

use crate::fetch::FetchError;

verus! {

/// Smallest refresh interval, in ticks.
pub const MIN_INTERVAL: u64 = 10;

/// The external sources whose data is cached.
#[derive(Clone, Copy, PartialEq, Eq, Structural, Debug)]
pub enum Source {
    /// Cryptocurrency listings.
    CryptoLatest,
    /// The greed and fear index.
    GreedFear,
    /// Global market figures.
    Global,
    /// Ethereum gas price.
    EthereumGasFee,
    /// Bitcoin fee-rate tiers.
    BitcoinGasFee,
    /// Stock market snapshot.
    Market,
}

/// Number of sources.
pub const SOURCE_COUNT: usize = 6;

pub open spec fn source_slot(s: Source) -> int {
    match s {
        Source::CryptoLatest => 0,
        Source::GreedFear => 1,
        Source::Global => 2,
        Source::EthereumGasFee => 3,
        Source::BitcoinGasFee => 4,
        Source::Market => 5,
    }
}

impl Source {
    fn slot(&self) -> (r: usize)
        ensures
            r as int == source_slot(*self),
            r < SOURCE_COUNT,
    {
        match self {
            Source::CryptoLatest => 0,
            Source::GreedFear => 1,
            Source::Global => 2,
            Source::EthereumGasFee => 3,
            Source::BitcoinGasFee => 4,
            Source::Market => 5,
        }
    }
}

pub open spec fn clamped(configured: u64) -> u64 {
    if configured < MIN_INTERVAL {
        MIN_INTERVAL
    } else {
        configured
    }
}

/// Raises a configured interval to the supported minimum.
pub fn clamp_interval(configured: u64) -> (r: u64)
    ensures
        r == clamped(configured),
{
    if configured < MIN_INTERVAL {
        MIN_INTERVAL
    } else {
        configured
    }
}

/// One source and how often, in ticks, it is fetched.
#[derive(Clone, Copy, PartialEq, Eq, Structural, Debug)]
pub struct ScheduleEntry {
    pub source: Source,
    pub interval: u64,
}

impl ScheduleEntry {
    /// An entry whose interval is `configured`, raised to the minimum.
    pub fn new(source: Source, configured: u64) -> (r: ScheduleEntry)
        ensures
            r.source == source,
            r.interval == clamped(configured),
    {
        ScheduleEntry { source, interval: clamp_interval(configured) }
    }
}

/// Whether a source with this interval is due at tick `count`.
pub open spec fn due(count: nat, interval: nat) -> bool {
    count % interval == 0
}

/// Whether an entry fires at tick `count`: it is due and its last fetch has finished.
pub open spec fn fires(e: ScheduleEntry, busy: bool, count: u64) -> bool {
    !busy && due(count as nat, e.interval as nat)
}

/// The sources among the first `n` entries that fire at tick `count`, in entry order.
pub open spec fn fired_prefix(entries: Seq<ScheduleEntry>, busy: Seq<bool>, count: u64, n: int) -> Seq<Source>
    decreases n,
{
    if n <= 0 {
        Seq::empty()
    } else {
        let s = fired_prefix(entries, busy, count, n - 1);
        if fires(entries[n - 1], busy[n - 1], count) {
            s.push(entries[n - 1].source)
        } else {
            s
        }
    }
}

/// No source has two entries, so at most one fetch per source is in flight.
pub open spec fn distinct_sources(entries: Seq<ScheduleEntry>) -> bool {
    forall|i: int, j: int|
        0 <= i < j < entries.len() ==> (#[trigger] entries[i]).source != (#[trigger] entries[j]).source
}

pub open spec fn fired_sources(entries: Seq<ScheduleEntry>, busy: Seq<bool>, count: u64) -> Seq<Source> {
    fired_prefix(entries, busy, count, entries.len() as int)
}

/// The tick loop's state: the counter, the entries, and which entries have a
/// fetch in flight.
pub struct Scheduler {
    count: u64,
    entries: Vec<ScheduleEntry>,
    busy: Vec<bool>,
}

impl Scheduler {
    pub closed spec fn count(&self) -> u64 {
        self.count
    }

    pub closed spec fn entries(&self) -> Seq<ScheduleEntry> {
        self.entries@
    }

    pub closed spec fn busy(&self) -> Seq<bool> {
        self.busy@
    }

    pub open spec fn wf(&self) -> bool {
        &&& self.busy().len() == self.entries().len()
        &&& forall|i: int|
            0 <= i < self.entries().len() ==> (#[trigger] self.entries()[i]).interval >= MIN_INTERVAL
        &&& distinct_sources(self.entries())
    }

    /// A scheduler at tick 0 with nothing in flight.
    pub fn new(entries: Vec<ScheduleEntry>) -> (r: Scheduler)
        requires
            forall|i: int| 0 <= i < entries@.len() ==> (#[trigger] entries@[i]).interval >= MIN_INTERVAL,
            distinct_sources(entries@),
        ensures
            r.wf(),
            r.count() == 0,
            r.entries() == entries@,
            forall|i: int| 0 <= i < r.busy().len() ==> !(#[trigger] r.busy()[i]),
    {
        let mut busy: Vec<bool> = Vec::new();
        let mut i: usize = 0;
        while i < entries.len()
            invariant
                i <= entries.len(),
                busy@.len() == i,
                forall|j: int| 0 <= j < i ==> !(#[trigger] busy@[j]),
            decreases entries.len() - i,
        {
            busy.push(false);
            i = i + 1;
        }
        Scheduler { count: 0, entries, busy }
    }

    /// The current tick.
    pub fn current_tick(&self) -> (r: u64)
        ensures
            r == self.count(),
    {
        self.count
    }

    /// Advances one tick: returns the sources to fetch now, marks them in
    /// flight, and moves the counter on.
    pub fn tick(&mut self) -> (fired: Vec<Source>)
        requires
            old(self).wf(),
            old(self).count() < u64::MAX,
        ensures
            final(self).wf(),
            final(self).count() == old(self).count() + 1,
            final(self).entries() == old(self).entries(),
            fired@ == fired_sources(old(self).entries(), old(self).busy(), old(self).count()),
            forall|i: int|
                0 <= i < final(self).busy().len() ==> #[trigger] final(self).busy()[i] == (old(
                    self,
                ).busy()[i] || due(old(self).count() as nat, old(self).entries()[i].interval as nat)),
    {
        let ghost busy0 = self.busy@;
        let mut fired: Vec<Source> = Vec::new();
        let mut i: usize = 0;
        while i < self.entries.len()
            invariant
                self.wf(),
                i <= self.entries.len(),
                self.count == old(self).count,
                self.entries@ == old(self).entries@,
                busy0 == old(self).busy@,
                fired@ == fired_prefix(self.entries@, busy0, self.count, i as int),
                forall|j: int|
                    0 <= j < self.busy@.len() ==> #[trigger] self.busy@[j] == if j < i {
                        busy0[j] || due(self.count as nat, self.entries@[j].interval as nat)
                    } else {
                        busy0[j]
                    },
            decreases self.entries.len() - i,
        {
            let e = self.entries[i];
            if !self.busy[i] && self.count % e.interval == 0 {
                fired.push(e.source);
                self.busy.set(i, true);
            }
            i = i + 1;
        }
        self.count = self.count + 1;
        fired
    }

    /// Records that the fetch of `source` has finished, whatever its outcome.
    pub fn finish(&mut self, source: Source)
        requires
            old(self).wf(),
        ensures
            final(self).wf(),
            final(self).count() == old(self).count(),
            final(self).entries() == old(self).entries(),
            forall|i: int|
                0 <= i < final(self).busy().len() ==> #[trigger] final(self).busy()[i] == (old(
                    self,
                ).busy()[i] && old(self).entries()[i].source != source),
    {
        let mut i: usize = 0;
        while i < self.entries.len()
            invariant
                self.wf(),
                i <= self.entries.len(),
                self.count == old(self).count,
                self.entries@ == old(self).entries@,
                forall|j: int|
                    0 <= j < self.busy@.len() ==> #[trigger] self.busy@[j] == if j < i {
                        old(self).busy@[j] && self.entries@[j].source != source
                    } else {
                        old(self).busy@[j]
                    },
            decreases self.entries.len() - i,
        {
            if self.entries[i].source == source {
                self.busy.set(i, false);
            }
            i = i + 1;
        }
    }
}

/// The ticks below `n` at which a source with interval `k` is due, in order.
pub open spec fn due_ticks(k: nat, n: nat) -> Seq<nat>
    decreases n,
{
    if n == 0 {
        Seq::empty()
    } else {
        let s = due_ticks(k, (n - 1) as nat);
        if due((n - 1) as nat, k) {
            s.push((n - 1) as nat)
        } else {
            s
        }
    }
}

/// Over ticks `0..n`, a source with interval `k` is due at the multiples of
/// `k` and at no other tick: `0, k, 2k, ...`, which is `(n + k - 1) / k` times.
pub proof fn law_due_at_multiples(k: nat, n: nat)
    requires
        k > 0,
    ensures
        due_ticks(k, n) == Seq::new((n + k - 1) as nat / k, |m: int| (m * k) as nat),
    decreases n,
{
    if n == 0 {
        assert(((k - 1) as nat / k) == 0) by {
            vstd::arithmetic::div_mod::lemma_basic_div(k - 1, k as int);
        }
        assert(due_ticks(k, 0) =~= Seq::new(0, |m: int| (m * k) as nat));
    } else {
        let p = (n - 1) as nat;
        law_due_at_multiples(k, p);
        let q = p as int / k as int;
        let r = p as int % k as int;
        lemma_fundamental_div_mod(p as int, k as int);
        assert(p == k * q + r);
        assert(0 <= r < k);
        let before = (p + k - 1) as nat / k;
        let after = (n + k - 1) as nat / k;
        if r == 0 {
            assert(before == q) by {
                lemma_div_multiples_vanish_fancy(q, k - 1, k as int);
                assert(k * q + (k - 1) == p + k - 1);
            }
            assert(after == q + 1) by {
                lemma_div_multiples_vanish_fancy(q + 1, 0, k as int);
                assert(k * (q + 1) + 0 == n + k - 1) by (nonlinear_arith)
                    requires
                        p == k * q + r,
                        r == 0,
                        n == p + 1,
                ;
            }
            assert(q * k == p) by (nonlinear_arith)
                requires
                    p == k * q + r,
                    r == 0,
            ;
            assert(due_ticks(k, n) =~= Seq::new(after, |m: int| (m * k) as nat));
        } else {
            assert(before == q + 1) by {
                lemma_div_multiples_vanish_fancy(q + 1, r - 1, k as int);
                assert(k * (q + 1) + (r - 1) == p + k - 1) by (nonlinear_arith)
                    requires
                        p == k * q + r,
                ;
            }
            assert(after == q + 1) by {
                lemma_div_multiples_vanish_fancy(q + 1, r, k as int);
                assert(k * (q + 1) + r == n + k - 1) by (nonlinear_arith)
                    requires
                        p == k * q + r,
                        n == p + 1,
                ;
            }
            assert(!due(p, k));
        }
    }
}

/// What a cache cell holds: the latest successful value, whether the latest
/// fetch failed, and the tick of the latest successful refresh.
pub struct CacheView {
    pub value: Option<Seq<char>>,
    pub failed: bool,
    pub last_refresh_tick: u64,
}

/// The cell after the outcome of a fetch made at `tick`: a value replaces the
/// old one, a failure keeps it.
pub open spec fn spec_record(c: CacheView, tick: u64, outcome: Option<Seq<char>>) -> CacheView {
    match outcome {
        Some(v) => CacheView { value: Some(v), failed: false, last_refresh_tick: tick },
        None => CacheView { value: c.value, failed: true, last_refresh_tick: c.last_refresh_tick },
    }
}

pub open spec fn outcome_of(r: Result<String, FetchError>) -> Option<Seq<char>> {
    match r {
        Ok(v) => Some(v@),
        Err(_) => None,
    }
}

/// The latest value of one source.
pub struct CacheCell {
    value: Option<String>,
    last_error: Option<FetchError>,
    last_refresh_tick: u64,
}

impl View for CacheCell {
    type V = CacheView;

    closed spec fn view(&self) -> CacheView {
        CacheView {
            value: match self.value {
                Some(v) => Some(v@),
                None => None,
            },
            failed: self.last_error is Some,
            last_refresh_tick: self.last_refresh_tick,
        }
    }
}

impl CacheCell {
    /// An empty cell: no value yet.
    pub fn new() -> (r: CacheCell)
        ensures
            r@ == (CacheView { value: None, failed: false, last_refresh_tick: 0 }),
    {
        CacheCell { value: None, last_error: None, last_refresh_tick: 0 }
    }

    /// The latest successful value, if any.
    pub fn latest(&self) -> (r: Option<String>)
        ensures
            match r {
                Some(v) => self@.value == Some(v@),
                None => self@.value is None,
            },
    {
        match &self.value {
            Some(v) => Some(v.clone()),
            None => None,
        }
    }

    /// The error of the latest fetch, if it failed.
    pub fn last_error(&self) -> (r: &Option<FetchError>)
        ensures
            r is Some == self@.failed,
    {
        &self.last_error
    }

    /// Records the outcome of a fetch made at `tick`.
    pub fn record(&mut self, tick: u64, result: Result<String, FetchError>)
        ensures
            final(self)@ == spec_record(old(self)@, tick, outcome_of(result)),
    {
        match result {
            Ok(v) => {
                self.value = Some(v);
                self.last_error = None;
                self.last_refresh_tick = tick;
            },
            Err(e) => {
                self.last_error = Some(e);
            },
        }
    }
}

/// The cell after a run of fetch outcomes, `(tick, outcome)` in order.
pub open spec fn run_cell(c: CacheView, run: Seq<(u64, Option<Seq<char>>)>) -> CacheView
    decreases run.len(),
{
    if run.len() == 0 {
        c
    } else {
        spec_record(run_cell(c, run.drop_last()), run.last().0, run.last().1)
    }
}

/// The value of the latest successful outcome of a run, or `init` if none succeeded.
pub open spec fn last_success(init: Option<Seq<char>>, run: Seq<(u64, Option<Seq<char>>)>) -> Option<Seq<char>>
    decreases run.len(),
{
    if run.len() == 0 {
        init
    } else {
        match run.last().1 {
            Some(v) => Some(v),
            None => last_success(init, run.drop_last()),
        }
    }
}

/// After any run of outcomes, a cell holds the value of the latest successful
/// fetch (or what it held before, if none succeeded); a failure at the end of
/// the run leaves the value that the run before it ended with.
pub proof fn law_stale_but_available(c: CacheView, run: Seq<(u64, Option<Seq<char>>)>, tick: u64)
    ensures
        run_cell(c, run).value == last_success(c.value, run),
        run_cell(c, run.push((tick, None))).value == run_cell(c, run).value,
    decreases run.len(),
{
    if run.len() > 0 {
        law_stale_but_available(c, run.drop_last(), tick);
    }
    assert(run.push((tick, None)).drop_last() =~= run);
}

/// One cache cell per source.
pub struct Caches {
    cells: Vec<CacheCell>,
}

impl Caches {
    pub closed spec fn cell(&self, s: Source) -> CacheView {
        self.cells@[source_slot(s)]@
    }

    pub closed spec fn wf(&self) -> bool {
        self.cells@.len() == SOURCE_COUNT
    }

    /// Every cell empty.
    pub fn new() -> (r: Caches)
        ensures
            r.wf(),
            forall|s: Source|
                #[trigger] r.cell(s) == (CacheView { value: None, failed: false, last_refresh_tick: 0 }),
    {
        let mut cells: Vec<CacheCell> = Vec::new();
        let mut i: usize = 0;
        while i < SOURCE_COUNT
            invariant
                i <= SOURCE_COUNT,
                cells@.len() == i,
                forall|j: int|
                    0 <= j < i ==> (#[trigger] cells@[j])@ == (CacheView {
                        value: None,
                        failed: false,
                        last_refresh_tick: 0,
                    }),
            decreases SOURCE_COUNT - i,
        {
            cells.push(CacheCell::new());
            i = i + 1;
        }
        Caches { cells }
    }

    /// The latest successful value of `source`, if any.
    pub fn latest(&self, source: Source) -> (r: Option<String>)
        requires
            self.wf(),
        ensures
            match r {
                Some(v) => self.cell(source).value == Some(v@),
                None => self.cell(source).value is None,
            },
    {
        self.cells[source.slot()].latest()
    }

    /// Records the outcome of the fetch of `source` made at `tick`; other cells
    /// do not change.
    pub fn record(&mut self, source: Source, tick: u64, result: Result<String, FetchError>)
        requires
            old(self).wf(),
        ensures
            final(self).wf(),
            final(self).cell(source) == spec_record(old(self).cell(source), tick, outcome_of(result)),
            forall|o: Source| o != source ==> #[trigger] final(self).cell(o) == old(self).cell(o),
    {
        let k = source.slot();
        let mut cell = CacheCell::new();
        self.cells.set_and_swap(k, &mut cell);
        cell.record(tick, result);
        self.cells.set_and_swap(k, &mut cell);
        assert forall|o: Source| o != source implies #[trigger] self.cell(o) == old(self).cell(o) by {
            assert(source_slot(o) != source_slot(source));
        }
    }
}


proof fn lemma_fired_from(entries: Seq<ScheduleEntry>, busy: Seq<bool>, count: u64, n: int, s: Source)
    requires
        0 <= n <= entries.len(),
        n <= busy.len(),
        fired_prefix(entries, busy, count, n).contains(s),
    ensures
        exists|j: int| 0 <= j < n && (#[trigger] entries[j]).source == s && fires(entries[j], busy[j], count),
    decreases n,
{
    let p = fired_prefix(entries, busy, count, n - 1);
    if fires(entries[n - 1], busy[n - 1], count) && entries[n - 1].source == s {
    } else {
        if fires(entries[n - 1], busy[n - 1], count) {
            let q = p.push(entries[n - 1].source);
            let k = choose|k: int| 0 <= k < q.len() && #[trigger] q[k] == s;
            assert(k < p.len());
            assert(p[k] == s);
        }
        assert(p.contains(s));
        lemma_fired_from(entries, busy, count, n - 1, s);
    }
}

/// A source whose fetch is still in flight is not fetched again: the tick
/// leaves it out, so at most one fetch per source is ever running.
pub proof fn law_in_flight_not_refetched(sched: Scheduler, i: int)
    requires
        sched.wf(),
        0 <= i < sched.entries().len(),
        sched.busy()[i],
    ensures
        !fired_sources(sched.entries(), sched.busy(), sched.count()).contains(sched.entries()[i].source),
{
    let e = sched.entries();
    if fired_sources(e, sched.busy(), sched.count()).contains(e[i].source) {
        lemma_fired_from(e, sched.busy(), sched.count(), e.len() as int, e[i].source);
        let j = choose|j: int| 0 <= j < e.len() && (#[trigger] e[j]).source == e[i].source && fires(e[j], sched.busy()[j], sched.count());
        if j < i {
            assert(e[j].source != e[i].source);
        } else if i < j {
            assert(e[i].source != e[j].source);
        }
    }
}

/// The value of the latest successful fetch survives any run of failures after it.
pub proof fn law_last_success_survives(
    c: CacheView,
    before: Seq<(u64, Option<Seq<char>>)>,
    tick: u64,
    v: Seq<char>,
    failures: Seq<(u64, Option<Seq<char>>)>,
)
    requires
        forall|i: int| 0 <= i < failures.len() ==> (#[trigger] failures[i]).1 is None,
    ensures
        run_cell(c, before.push((tick, Some(v))) + failures).value == Some(v),
    decreases failures.len(),
{
    let run = before.push((tick, Some(v))) + failures;
    if failures.len() > 0 {
        let shorter = failures.drop_last();
        assert forall|i: int| 0 <= i < shorter.len() implies (#[trigger] shorter[i]).1 is None by {
            assert(shorter[i] == failures[i]);
        }
        law_last_success_survives(c, before, tick, v, shorter);
        assert(run.drop_last() =~= before.push((tick, Some(v))) + shorter);
        assert(run.last() == failures[failures.len() - 1]);
    } else {
        assert(run =~= before.push((tick, Some(v))));
        assert(run.drop_last() =~= before);
    }
}

/// A cell that started empty and saw only failed fetches still has no value.
pub proof fn law_no_success_no_value(c: CacheView, run: Seq<(u64, Option<Seq<char>>)>)
    requires
        c.value is None,
        forall|i: int| 0 <= i < run.len() ==> (#[trigger] run[i]).1 is None,
    ensures
        run_cell(c, run).value is None,
    decreases run.len(),
{
    if run.len() > 0 {
        let shorter = run.drop_last();
        assert forall|i: int| 0 <= i < shorter.len() implies (#[trigger] shorter[i]).1 is None by {
            assert(shorter[i] == run[i]);
        }
        law_no_success_no_value(c, shorter);
        assert(run.last() == run[run.len() - 1]);
    }
}

} // verus!
