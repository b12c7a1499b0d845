//! Bounded, age- and date-aware cache of recent snapshots, and the engine
//! that keeps it and the poll state current.
//!
//! [`CachePool`] owns the cached entries, the configured group universe and
//! the client-facing [`Poll`] state. Saving dedups by snapshot uid and by
//! date (at most one entry per date), purging evicts expired entries for
//! past dates while retaining current and future ones, and one update tick
//! folds both categories' observations into the cache and the poll state.
//! Every operation takes the current time and day as plain arguments, so
//! its effect is a function of its inputs.

use vstd::prelude::*;

use crate::model::{Fetch, Snapshot, SnapshotView};
use crate::polling::{
    classify_spec, names_of, opt_snap_view, poll_initial_spec, poll_update_spec, Poll, PollView,
    SnapshotChangesView,
};
use crate::strutil::str_eq;

verus! {

/// Safety margin, in seconds, added past the refresh interval when
/// scheduling the next refresh.
pub const REFRESH_MARGIN_SECS: u64 = 5;

/// A cached snapshot together with the time it entered the cache.
#[derive(Debug)]
pub struct CachedSnapshot {
    /// Unix timestamp in seconds at which the entry was inserted.
    pub added: u64,
    /// The cached document itself.
    pub snapshot: Snapshot,
}

/// Mathematical value of a [`CachedSnapshot`].
#[verifier::ext_equal]
pub struct CachedSnapshotView {
    pub added: int,
    pub snapshot: SnapshotView,
}

impl View for CachedSnapshot {
    type V = CachedSnapshotView;

    open spec fn view(&self) -> CachedSnapshotView {
        CachedSnapshotView { added: self.added as int, snapshot: self.snapshot@ }
    }
}

impl Clone for CachedSnapshot {
    fn clone(&self) -> (r: CachedSnapshot)
        ensures
            r@ == self@,
    {
        CachedSnapshot { added: self.added, snapshot: self.snapshot.clone() }
    }
}

/// Whether some entry holds a snapshot with the given uid.
pub open spec fn has_uid(cached: Seq<CachedSnapshotView>, uid: Seq<char>) -> bool {
    exists|i: int| 0 <= i < cached.len() && cached[i].snapshot.uid == uid
}

/// Whether some entry holds a snapshot dated `date`.
pub open spec fn has_date(cached: Seq<CachedSnapshotView>, date: int) -> bool {
    exists|i: int| 0 <= i < cached.len() && cached[i].snapshot.date == date
}

/// Whether no two entries share a date: the cache keeps at most one entry
/// per calendar day.
pub open spec fn dates_distinct(cached: Seq<CachedSnapshotView>) -> bool {
    forall|i: int, j: int|
        0 <= i < j < cached.len() ==> cached[i].snapshot.date != cached[j].snapshot.date
}

/// The entries that satisfy `pred`, in order.
pub open spec fn kept_entries(
    cached: Seq<CachedSnapshotView>,
    pred: spec_fn(CachedSnapshotView) -> bool,
) -> Seq<CachedSnapshotView>
    decreases cached.len(),
{
    if cached.len() == 0 {
        Seq::empty()
    } else {
        let rest = kept_entries(cached.drop_last(), pred);
        if pred(cached.last()) {
            rest.push(cached.last())
        } else {
            rest
        }
    }
}

/// Keeping entries keeps them in order, introduces no new date, and
/// preserves the one-entry-per-date invariant.
pub proof fn lemma_kept_entries(
    cached: Seq<CachedSnapshotView>,
    pred: spec_fn(CachedSnapshotView) -> bool,
)
    ensures
        kept_entries(cached, pred).len() <= cached.len(),
        forall|k: int|
            0 <= k < kept_entries(cached, pred).len() ==> pred(
                #[trigger] kept_entries(cached, pred)[k],
            ),
        forall|d: int| has_date(kept_entries(cached, pred), d) ==> has_date(cached, d),
        dates_distinct(cached) ==> dates_distinct(kept_entries(cached, pred)),
    decreases cached.len(),
{
    if cached.len() > 0 {
        lemma_kept_entries(cached.drop_last(), pred);
        let rest = kept_entries(cached.drop_last(), pred);
        assert forall|d: int| has_date(kept_entries(cached, pred), d) implies has_date(
            cached,
            d,
        ) by {
            let k = choose|k: int|
                0 <= k < kept_entries(cached, pred).len() && kept_entries(cached, pred)[k]
                    .snapshot.date == d;
            if k < rest.len() {
                assert(has_date(cached.drop_last(), d));
                let m = choose|m: int|
                    0 <= m < cached.drop_last().len() && cached.drop_last()[m].snapshot.date == d;
                assert(cached[m].snapshot.date == d);
            } else {
                assert(cached.last().snapshot.date == d);
            }
        }
        if dates_distinct(cached) {
            assert(dates_distinct(cached.drop_last()));
            if pred(cached.last()) {
                let whole = kept_entries(cached, pred);
                assert forall|i: int, j: int| 0 <= i < j < whole.len() implies whole[i]
                    .snapshot.date != whole[j].snapshot.date by {
                    if j == whole.len() - 1 {
                        let d = whole[i].snapshot.date;
                        assert(has_date(cached.drop_last(), d));
                        let m = choose|m: int|
                            0 <= m < cached.drop_last().len() && cached.drop_last()[m]
                                .snapshot.date == d;
                        assert(cached[m].snapshot.date == d);
                        assert(cached.last().snapshot.date != d);
                    }
                }
            }
        }
    }
}

/// Saving dedups by date: a cache holding at most one entry per date still
/// does after a save, and once a snapshot with a fresh uid is saved, the
/// one entry of its date is that snapshot, newly stamped — every other
/// entry is dated differently.
pub proof fn lemma_save_dedup_by_date(cached: Seq<CachedSnapshotView>, s: SnapshotView, now: int)
    requires
        dates_distinct(cached),
        !has_uid(cached, s.uid),
    ensures
        dates_distinct(save_spec(cached, s, now)),
        save_spec(cached, s, now).last() == (CachedSnapshotView { added: now, snapshot: s }),
        forall|k: int|
            0 <= k < save_spec(cached, s, now).len() - 1 ==> (#[trigger] save_spec(
                cached,
                s,
                now,
            )[k]).snapshot.date != s.date,
{
    let pred = |c: CachedSnapshotView| c.snapshot.date != s.date;
    lemma_kept_entries(cached, pred);
    let filtered = kept_entries(cached, pred);
    let result = save_spec(cached, s, now);
    assert forall|a: int, b: int| 0 <= a < b < result.len() implies result[a].snapshot.date
        != result[b].snapshot.date by {
        if b == result.len() - 1 {
            assert(result[a] == filtered[a]);
            assert(pred(filtered[a]));
        }
    }
}

/// The cache after inserting an observed snapshot: untouched when the uid
/// is already cached; otherwise any entry of the same date leaves and the
/// snapshot enters, stamped with the insertion time.
pub open spec fn save_spec(
    cached: Seq<CachedSnapshotView>,
    s: SnapshotView,
    now: int,
) -> Seq<CachedSnapshotView> {
    if has_uid(cached, s.uid) {
        cached
    } else {
        kept_entries(cached, |c: CachedSnapshotView| c.snapshot.date != s.date).push(
            CachedSnapshotView { added: now, snapshot: s },
        )
    }
}

/// Whether a purge at time `now` on day `today` retains an entry: entries
/// younger than the age limit stay, and entries for the current or a future
/// day stay regardless of age.
pub open spec fn retained(c: CachedSnapshotView, now: int, today: int, limit: int) -> bool {
    now - c.added < limit || c.snapshot.date >= today
}

/// The cache after a purge: untouched while within the size bound, else
/// only the retained entries.
pub open spec fn purge_spec(
    cached: Seq<CachedSnapshotView>,
    size: int,
    now: int,
    today: int,
    limit: int,
) -> Seq<CachedSnapshotView> {
    if cached.len() <= size {
        cached
    } else {
        kept_entries(cached, |c: CachedSnapshotView| retained(c, now, today, limit))
    }
}

/// The most recently inserted entry whose date satisfies the selector, if
/// any: the scan runs from newest insertion to oldest.
pub open spec fn latest_spec(
    cached: Seq<CachedSnapshotView>,
    mode: Fetch,
    today: int,
) -> Option<SnapshotView>
    decreases cached.len(),
{
    if cached.len() == 0 {
        None
    } else if cached.last().snapshot.date_matches_spec(mode, today) {
        Some(cached.last().snapshot)
    } else {
        latest_spec(cached.drop_last(), mode, today)
    }
}

/// The first entry holding the given uid, in insertion order, if any.
pub open spec fn by_uid_spec(
    cached: Seq<CachedSnapshotView>,
    uid: Seq<char>,
) -> Option<SnapshotView>
    decreases cached.len(),
{
    if cached.len() == 0 {
        None
    } else if cached[0].snapshot.uid == uid {
        Some(cached[0].snapshot)
    } else {
        by_uid_spec(cached.drop_first(), uid)
    }
}

/// Well-formedness of one category's change map against the configured
/// universe: one entry per universe name, in universe order.
pub open spec fn changes_wf(c: SnapshotChangesView, names: Seq<Seq<char>>) -> bool {
    c.groups.len() == names.len() && forall|i: int|
        0 <= i < names.len() ==> (#[trigger] c.groups[i]).0 == names[i]
}

/// Mathematical value of a [`CachePool`].
#[verifier::ext_equal]
pub struct CachePoolView {
    pub cached: Seq<CachedSnapshotView>,
    pub poll: PollView,
    pub universe: Seq<Seq<char>>,
    pub cache_size: int,
    pub cache_age_limit: int,
    pub update_interval: int,
}

impl CachePoolView {
    /// Invariant of the pool: at most one cached entry per date, and both
    /// categories' change maps cover exactly the configured universe.
    pub open spec fn wf(self) -> bool {
        &&& dates_distinct(self.cached)
        &&& changes_wf(self.poll.today, self.universe)
        &&& changes_wf(self.poll.next, self.universe)
    }

    /// Whether the two views share configuration: same universe, bounds and
    /// interval.
    pub open spec fn same_config(self, other: CachePoolView) -> bool {
        &&& self.universe == other.universe
        &&& self.cache_size == other.cache_size
        &&& self.cache_age_limit == other.cache_age_limit
        &&& self.update_interval == other.update_interval
    }
}

/// One category's observation folded into the pool: the snapshot (when one
/// was observed) saved into the cache at time `now`, and the category's
/// change map reclassified.
pub open spec fn apply_observed_spec(
    v: CachePoolView,
    fetch: Fetch,
    obs: Option<SnapshotView>,
    now: int,
) -> CachePoolView {
    CachePoolView {
        cached: match obs {
            Some(s) => save_spec(v.cached, s, now),
            None => v.cached,
        },
        poll: poll_update_spec(v.poll, obs, fetch, v.universe, v.poll.next_update),
        ..v
    }
}

/// The next scheduled refresh time: `now` plus the refresh interval plus
/// the safety margin, saturating at the largest representable time.
pub open spec fn next_refresh_time(now: int, interval: int) -> int {
    if now + interval + REFRESH_MARGIN_SECS <= u64::MAX {
        now + interval + REFRESH_MARGIN_SECS
    } else {
        u64::MAX as int
    }
}

/// A full update tick: one purge, both categories' observations applied
/// (the current day's first), then the next refresh scheduled.
pub open spec fn tick_spec(
    v: CachePoolView,
    obs_today: Option<SnapshotView>,
    obs_next: Option<SnapshotView>,
    now: int,
    today: int,
) -> CachePoolView {
    let purged = CachePoolView {
        cached: purge_spec(v.cached, v.cache_size, now, today, v.cache_age_limit),
        ..v
    };
    let a = apply_observed_spec(purged, Fetch::Today, obs_today, now);
    let b = apply_observed_spec(a, Fetch::Next, obs_next, now);
    CachePoolView {
        poll: PollView { next_update: next_refresh_time(now, b.update_interval), ..b.poll },
        ..b
    }
}

/// Bounded cache of recent snapshots plus the poll state, owned by the
/// refresh supervisor and shared with readers.
#[derive(Debug)]
pub struct CachePool {
    cached: Vec<CachedSnapshot>,
    poll: Poll,
    universe: Vec<String>,
    cache_size: usize,
    cache_age_limit: u64,
    update_interval: u64,
}

impl View for CachePool {
    type V = CachePoolView;

    closed spec fn view(&self) -> CachePoolView {
        CachePoolView {
            cached: Seq::new(self.cached@.len(), |i: int| self.cached@[i]@),
            poll: self.poll@,
            universe: names_of(self.universe@),
            cache_size: self.cache_size as int,
            cache_age_limit: self.cache_age_limit as int,
            update_interval: self.update_interval as int,
        }
    }
}

impl CachePool {
    /// An empty pool for the given group universe, cache bounds and refresh
    /// interval (all in seconds).
    pub fn new(
        universe: Vec<String>,
        cache_size: usize,
        cache_age_limit: u64,
        update_interval: u64,
    ) -> (r: CachePool)
        ensures
            r@.cached.len() == 0,
            r@.poll == poll_initial_spec(names_of(universe@)),
            r@.universe == names_of(universe@),
            r@.cache_size == cache_size as int,
            r@.cache_age_limit == cache_age_limit as int,
            r@.update_interval == update_interval as int,
            r@.wf(),
    {
        let poll = Poll::initial(&universe);
        let r = CachePool {
            cached: Vec::new(),
            poll,
            universe,
            cache_size,
            cache_age_limit,
            update_interval,
        };
        proof {
            assert(r@.cached =~= Seq::<CachedSnapshotView>::empty());
        }
        r
    }

    /// Insert an observed snapshot: a no-op when its uid is already cached,
    /// else the entry of the same date (if any) leaves and the snapshot
    /// enters, stamped `now`.
    pub fn save(&mut self, snapshot: &Snapshot, now: u64)
        requires
            old(self)@.wf(),
        ensures
            final(self)@.cached == save_spec(old(self)@.cached, snapshot@, now as int),
            final(self)@.poll == old(self)@.poll,
            final(self)@.same_config(old(self)@),
            final(self)@.wf(),
    {
        let ghost pre = self@;
        let mut i: usize = 0;
        while i < self.cached.len()
            invariant
                i <= self.cached@.len(),
                self@ == pre,
                pre == old(self)@,
                pre.wf(),
                forall|k: int| 0 <= k < i ==> (#[trigger] pre.cached[k]).snapshot.uid
                    != snapshot@.uid,
            decreases self.cached@.len() - i,
        {
            if str_eq(self.cached[i].snapshot.uid.as_str(), snapshot.uid.as_str()) {
                proof {
                    assert(pre.cached[i as int].snapshot.uid == snapshot@.uid);
                    assert(has_uid(pre.cached, snapshot@.uid));
                }
                return;
            }
            i += 1;
        }
        proof {
            assert(!has_uid(pre.cached, snapshot@.uid));
        }
        let ghost pred = |c: CachedSnapshotView| c.snapshot.date != snapshot@.date;
        let mut kept: Vec<CachedSnapshot> = Vec::new();
        let mut j: usize = 0;
        while j < self.cached.len()
            invariant
                j <= self.cached@.len(),
                self@ == pre,
                pred == (|c: CachedSnapshotView| c.snapshot.date != snapshot@.date),
                Seq::new(kept@.len(), |k: int| kept@[k]@) =~= kept_entries(
                    pre.cached.take(j as int),
                    pred,
                ),
            decreases self.cached@.len() - j,
        {
            proof {
                assert(pre.cached.take(j as int + 1).drop_last() =~= pre.cached.take(j as int));
            }
            if self.cached[j].snapshot.date != snapshot.date {
                kept.push(self.cached[j].clone());
            }
            j += 1;
        }
        proof {
            assert(pre.cached.take(pre.cached.len() as int) =~= pre.cached);
        }
        kept.push(CachedSnapshot { added: now, snapshot: snapshot.clone() });
        self.cached = kept;
        proof {
            assert(self@.cached =~= save_spec(pre.cached, snapshot@, now as int));
            lemma_kept_entries(pre.cached, pred);
            let filtered = kept_entries(pre.cached, pred);
            assert forall|a: int, b: int| 0 <= a < b < self@.cached.len() implies self@.cached[a]
                .snapshot.date != self@.cached[b].snapshot.date by {
                if b < filtered.len() {
                } else {
                    assert(self@.cached[a].snapshot.date != snapshot@.date);
                }
            }
        }
    }

    /// Evict expired past-dated entries once the cache exceeds its size
    /// bound; entries for the current or a future day are retained
    /// regardless of age.
    pub fn purge(&mut self, now: u64, today: u64)
        requires
            old(self)@.wf(),
        ensures
            final(self)@.cached == purge_spec(
                old(self)@.cached,
                old(self)@.cache_size,
                now as int,
                today as int,
                old(self)@.cache_age_limit,
            ),
            final(self)@.poll == old(self)@.poll,
            final(self)@.same_config(old(self)@),
            final(self)@.wf(),
    {
        let ghost pre = self@;
        if self.cached.len() <= self.cache_size {
            return;
        }
        let ghost pred = |c: CachedSnapshotView| retained(
            c,
            now as int,
            today as int,
            pre.cache_age_limit,
        );
        let mut kept: Vec<CachedSnapshot> = Vec::new();
        let mut j: usize = 0;
        while j < self.cached.len()
            invariant
                j <= self.cached@.len(),
                self@ == pre,
                pred == (|c: CachedSnapshotView| retained(
                    c,
                    now as int,
                    today as int,
                    pre.cache_age_limit,
                )),
                Seq::new(kept@.len(), |k: int| kept@[k]@) =~= kept_entries(
                    pre.cached.take(j as int),
                    pred,
                ),
            decreases self.cached@.len() - j,
        {
            proof {
                assert(pre.cached.take(j as int + 1).drop_last() =~= pre.cached.take(j as int));
            }
            let c = &self.cached[j];
            let keep = c.snapshot.date >= today || c.added > now || now - c.added
                < self.cache_age_limit;
            if keep {
                kept.push(self.cached[j].clone());
            }
            j += 1;
        }
        proof {
            assert(pre.cached.take(pre.cached.len() as int) =~= pre.cached);
        }
        self.cached = kept;
        proof {
            assert(self@.cached =~= kept_entries(pre.cached, pred));
            lemma_kept_entries(pre.cached, pred);
        }
    }

    /// The most recently inserted snapshot whose date satisfies the
    /// selector for the given day, if any.
    pub fn latest(&self, mode: Fetch, today: u64) -> (r: Option<Snapshot>)
        ensures
            match r {
                Some(s) => latest_spec(self@.cached, mode, today as int) == Some(s@),
                None => latest_spec(self@.cached, mode, today as int) is None,
            },
    {
        proof {
            assert(self@.cached.take(self.cached@.len() as int) =~= self@.cached);
        }
        let mut i: usize = self.cached.len();
        while i > 0
            invariant
                i <= self.cached@.len(),
                latest_spec(self@.cached, mode, today as int) == latest_spec(
                    self@.cached.take(i as int),
                    mode,
                    today as int,
                ),
            decreases i,
        {
            i -= 1;
            proof {
                assert(self@.cached.take(i as int + 1).drop_last() =~= self@.cached.take(
                    i as int,
                ));
                assert(self@.cached.take(i as int + 1).last() == self@.cached[i as int]);
            }
            if self.cached[i].snapshot.date_matches(mode, today) {
                return Some(self.cached[i].snapshot.clone());
            }
        }
        proof {
            assert(self@.cached.take(0) =~= Seq::<CachedSnapshotView>::empty());
        }
        None
    }

    /// The first cached snapshot holding the given uid, if any.
    pub fn by_uid(&self, uid: &str) -> (r: Option<Snapshot>)
        ensures
            match r {
                Some(s) => by_uid_spec(self@.cached, uid@) == Some(s@),
                None => by_uid_spec(self@.cached, uid@) is None,
            },
    {
        proof {
            assert(self@.cached.skip(0) =~= self@.cached);
        }
        let mut i: usize = 0;
        while i < self.cached.len()
            invariant
                i <= self.cached@.len(),
                by_uid_spec(self@.cached, uid@) == by_uid_spec(
                    self@.cached.skip(i as int),
                    uid@,
                ),
            decreases self.cached@.len() - i,
        {
            proof {
                assert(self@.cached.skip(i as int).drop_first() =~= self@.cached.skip(
                    i as int + 1,
                ));
            }
            if str_eq(self.cached[i].snapshot.uid.as_str(), uid) {
                return Some(self.cached[i].snapshot.clone());
            }
            i += 1;
        }
        None
    }

    /// A point-in-time copy of every cached snapshot, in insertion order.
    pub fn collect_all(&self) -> (r: Vec<Snapshot>)
        ensures
            r@.len() == self@.cached.len(),
            forall|i: int| 0 <= i < r@.len() ==> (#[trigger] r@[i])@ == self@.cached[i].snapshot,
    {
        let mut r: Vec<Snapshot> = Vec::new();
        let mut i: usize = 0;
        while i < self.cached.len()
            invariant
                i <= self.cached@.len(),
                r@.len() == i,
                forall|k: int| 0 <= k < i ==> (#[trigger] r@[k])@ == self@.cached[k].snapshot,
            decreases self.cached@.len() - i,
        {
            r.push(self.cached[i].snapshot.clone());
            i += 1;
        }
        r
    }

    /// A copy of the client-facing poll state.
    pub fn poll(&self) -> (r: Poll)
        ensures
            r@ == self@.poll,
    {
        self.poll.clone()
    }

    /// Fold one category's observation into cache and poll state at time
    /// `now`, leaving the scheduled refresh time as it stands.
    pub fn apply_observed(&mut self, fetch: Fetch, observed: Option<&Snapshot>, now: u64)
        requires
            old(self)@.wf(),
        ensures
            final(self)@ == apply_observed_spec(
                old(self)@,
                fetch,
                opt_snap_view(observed),
                now as int,
            ),
            final(self)@.wf(),
    {
        let ghost pre = self@;
        if let Some(s) = observed {
            self.save(s, now);
        }
        let nu = self.poll.next_update;
        self.poll.update(&self.universe, observed, fetch, nu);
        proof {
            assert(self@ =~= apply_observed_spec(pre, fetch, opt_snap_view(observed), now as int));
            let names = pre.universe;
            let obs = opt_snap_view(observed);
            match fetch {
                Fetch::Today => {
                    assert(changes_wf(classify_spec(pre.poll.today, obs, names), names));
                },
                Fetch::Next => {
                    assert(changes_wf(classify_spec(pre.poll.next, obs, names), names));
                },
            }
        }
    }

    /// Record the next scheduled refresh: `now` plus the configured
    /// interval plus the safety margin.
    pub fn finish_tick(&mut self, now: u64)
        requires
            old(self)@.wf(),
        ensures
            final(self)@ == (CachePoolView {
                poll: PollView {
                    next_update: next_refresh_time(now as int, old(self)@.update_interval),
                    ..old(self)@.poll
                },
                ..old(self)@
            }),
            final(self)@.wf(),
    {
        let margin_limit = u64::MAX - REFRESH_MARGIN_SECS;
        let nu = if self.update_interval <= margin_limit && now <= margin_limit
            - self.update_interval {
            now + self.update_interval + REFRESH_MARGIN_SECS
        } else {
            u64::MAX
        };
        self.poll.next_update = nu;
        proof {
            assert(self@ =~= CachePoolView {
                poll: PollView {
                    next_update: next_refresh_time(now as int, old(self)@.update_interval),
                    ..old(self)@.poll
                },
                ..old(self)@
            });
        }
    }

    /// One full refresh tick applied to the in-memory state: purge once,
    /// fold both categories' observations in, and schedule the next
    /// refresh.
    pub fn update_tick(
        &mut self,
        observed_today: Option<&Snapshot>,
        observed_next: Option<&Snapshot>,
        now: u64,
        today: u64,
    )
        requires
            old(self)@.wf(),
        ensures
            final(self)@ == tick_spec(
                old(self)@,
                opt_snap_view(observed_today),
                opt_snap_view(observed_next),
                now as int,
                today as int,
            ),
            final(self)@.wf(),
    {
        self.purge(now, today);
        self.apply_observed(Fetch::Today, observed_today, now);
        self.apply_observed(Fetch::Next, observed_next, now);
        self.finish_tick(now);
        proof {
            assert(self@ =~= tick_spec(
                old(self)@,
                opt_snap_view(observed_today),
                opt_snap_view(observed_next),
                now as int,
                today as int,
            ));
        }
    }

    /// One full refresh tick stamped with the machine's current time: the
    /// current local day is derived from the clock and the time-zone
    /// offset, and the tick applied as of that moment.
    pub fn update_tick_now(
        &mut self,
        observed_today: Option<&Snapshot>,
        observed_next: Option<&Snapshot>,
        tz_offset: u64,
    )
        requires
            old(self)@.wf(),
            tz_offset < crate::clock::SECONDS_PER_DAY,
        ensures
            exists|now: int|
                0 <= now <= crate::clock::MAX_TIMESTAMP && final(self)@ == tick_spec(
                    old(self)@,
                    opt_snap_view(observed_today),
                    opt_snap_view(observed_next),
                    now,
                    crate::clock::local_day_spec(now, tz_offset as int),
                ),
            final(self)@.wf(),
    {
        let now = crate::clock::now_seconds();
        let today = crate::clock::day_of_timestamp(now, tz_offset);
        self.update_tick(observed_today, observed_next, now, today);
        proof {
            assert(self@ == tick_spec(
                old(self)@,
                opt_snap_view(observed_today),
                opt_snap_view(observed_next),
                now as int,
                crate::clock::local_day_spec(now as int, tz_offset as int),
            ));
        }
    }

    /// Drop every recorded observation at a day boundary: the poll state
    /// returns to its initial value; cached entries are untouched.
    pub fn reset(&mut self)
        requires
            old(self)@.wf(),
        ensures
            final(self)@ == (CachePoolView {
                poll: poll_initial_spec(old(self)@.universe),
                ..old(self)@
            }),
            final(self)@.wf(),
    {
        self.poll.reset(&self.universe);
        proof {
            assert(self@ =~= CachePoolView {
                poll: poll_initial_spec(old(self)@.universe),
                ..old(self)@
            });
        }
    }
}

} // verus!
