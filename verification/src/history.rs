//! The bounded rolling history of the two monitored services, and the
//! figures that viewers derive from it.

use crate::status::{ServiceStatus, StatusView};
use vstd::prelude::*;

verus! {

/// How many observations of one service the history keeps.
pub const MAX_HISTORY_ENTRIES: usize = 1440;

/// Seconds between two rounds of checks.
pub const CHECK_INTERVAL_SECS: u64 = 60;

/// How many bars the history chart shows.
pub const CHART_BARS: usize = 48;

/// The observations of both services, oldest first.
#[derive(Clone, Debug, PartialEq)]
pub struct History {
    pub terraria: Vec<ServiceStatus>,
    pub hytale: Vec<ServiceStatus>,
}

/// A `History` as a mathematical value.
pub ghost struct HistoryView {
    pub terraria: Seq<StatusView>,
    pub hytale: Seq<StatusView>,
}

/// The observations of `log` as mathematical values.
pub open spec fn entries_of(log: Seq<ServiceStatus>) -> Seq<StatusView> {
    Seq::new(log.len(), |i: int| log[i]@)
}

/// Whether every observation of `log` carries a valid instant.
pub open spec fn all_timed(log: Seq<StatusView>) -> bool {
    forall|i: int| 0 <= i < log.len() ==> (#[trigger] log[i]).timestamp.is_valid()
}

/// The last `n` of `all`, or all of them where there are fewer.
pub open spec fn latest(all: Seq<StatusView>, n: nat) -> Seq<StatusView> {
    if all.len() <= n {
        all
    } else {
        all.skip(all.len() - n)
    }
}

/// `log` after `entry` is recorded: `entry` is added at the end, and where
/// that makes more than `MAX_HISTORY_ENTRIES` the oldest one leaves.
pub open spec fn pushed(log: Seq<StatusView>, entry: StatusView) -> Seq<StatusView> {
    let grown = log.push(entry);
    if grown.len() > MAX_HISTORY_ENTRIES {
        grown.drop_first()
    } else {
        grown
    }
}

/// Whether the observations of `log` were made one after the other.
pub open spec fn is_ascending(log: Seq<StatusView>) -> bool {
    forall|i: int, j: int|
        0 <= i < j < log.len() ==> (#[trigger] log[i]).timestamp.is_before(
            (#[trigger] log[j]).timestamp,
        )
}

/// Whether `entry` was made after every observation of an ascending
/// `log`: after its last.
pub open spec fn follows(log: Seq<StatusView>, entry: StatusView) -> bool {
    log.len() == 0 || log.last().timestamp.is_before(entry.timestamp)
}

/// A log of observations made one after the other stays one when a later
/// observation is recorded.
pub proof fn lemma_pushed_is_ascending(log: Seq<StatusView>, entry: StatusView)
    requires
        is_ascending(log),
        follows(log, entry),
    ensures
        is_ascending(pushed(log, entry)),
{
    let grown = log.push(entry);
    assert forall|i: int, j: int| 0 <= i < j < grown.len() implies (#[trigger] grown[i]).timestamp.is_before(
        (#[trigger] grown[j]).timestamp,
    ) by {
        if j < log.len() {
            assert(log[i].timestamp.is_before(log[j].timestamp));
        } else if i < log.len() - 1 {
            assert(log[i].timestamp.is_before(log[log.len() - 1].timestamp));
        }
    }
    let after = pushed(log, entry);
    assert forall|i: int, j: int| 0 <= i < j < after.len() implies (#[trigger] after[i]).timestamp.is_before(
        (#[trigger] after[j]).timestamp,
    ) by {
        if grown.len() > MAX_HISTORY_ENTRIES {
            assert(after[i] == grown[i + 1]);
            assert(after[j] == grown[j + 1]);
        }
    }
}

/// `log` after each of `entries` is recorded in turn.
pub open spec fn pushed_all(log: Seq<StatusView>, entries: Seq<StatusView>) -> Seq<StatusView>
    decreases entries.len(),
{
    if entries.len() == 0 {
        log
    } else {
        pushed(pushed_all(log, entries.drop_last()), entries.last())
    }
}

/// However many observations are recorded into a history within its
/// bound, it stays within its bound and holds exactly the most recent
/// ones, oldest first.
pub proof fn lemma_pushed_all_keeps_latest(log: Seq<StatusView>, entries: Seq<StatusView>)
    requires
        log.len() <= MAX_HISTORY_ENTRIES,
    ensures
        pushed_all(log, entries).len() <= MAX_HISTORY_ENTRIES,
        pushed_all(log, entries) == latest(log + entries, MAX_HISTORY_ENTRIES as nat),
    decreases entries.len(),
{
    if entries.len() == 0 {
        assert(log + entries =~= log);
    } else {
        let before = entries.drop_last();
        lemma_pushed_all_keeps_latest(log, before);
        assert((log + before).push(entries.last()) =~= log + entries);
        assert(pushed(latest(log + before, MAX_HISTORY_ENTRIES as nat), entries.last()) =~= latest(
            log + entries,
            MAX_HISTORY_ENTRIES as nat,
        ));
    }
}

/// Records `entry` in `log`, evicting the oldest observation where the log
/// is full.
pub fn push_bounded(log: &mut Vec<ServiceStatus>, entry: ServiceStatus)
    ensures
        entries_of(final(log)@) == pushed(entries_of(old(log)@), entry@),
        old(log)@.len() <= MAX_HISTORY_ENTRIES ==> final(log)@.len() <= MAX_HISTORY_ENTRIES,
        is_ascending(entries_of(old(log)@)) && follows(entries_of(old(log)@), entry@)
            ==> is_ascending(entries_of(final(log)@)),
{
    let ghost before = entries_of(log@);
    let ghost added = entry@;
    proof {
        if is_ascending(before) && follows(before, added) {
            lemma_pushed_is_ascending(before, added);
        }
    }
    log.push(entry);
    assert(entries_of(log@) =~= before.push(added));
    if log.len() > MAX_HISTORY_ENTRIES {
        let ghost grown = log@;
        log.remove(0);
        assert(entries_of(log@) =~= entries_of(grown).drop_first());
    }
}

impl View for History {
    type V = HistoryView;

    open spec fn view(&self) -> HistoryView {
        HistoryView { terraria: entries_of(self.terraria@), hytale: entries_of(self.hytale@) }
    }
}

impl HistoryView {
    /// Neither service has more observations than the history keeps.
    pub open spec fn is_bounded(self) -> bool {
        self.terraria.len() <= MAX_HISTORY_ENTRIES && self.hytale.len() <= MAX_HISTORY_ENTRIES
    }

    /// Every observation carries a valid instant.
    pub open spec fn is_timed(self) -> bool {
        all_timed(self.terraria) && all_timed(self.hytale)
    }

    /// The observations of each service were made one after the other.
    pub open spec fn is_ascending(self) -> bool {
        is_ascending(self.terraria) && is_ascending(self.hytale)
    }

    /// How many rounds both services have an observation of.
    pub open spec fn rounds(self) -> nat {
        if self.terraria.len() <= self.hytale.len() {
            self.terraria.len()
        } else {
            self.hytale.len()
        }
    }
}

impl History {
    /// The history without observations.
    pub fn new() -> (r: History)
        ensures
            r@ == (HistoryView { terraria: Seq::empty(), hytale: Seq::empty() }),
    {
        let r = History { terraria: Vec::new(), hytale: Vec::new() };
        assert(r@.terraria =~= Seq::empty());
        assert(r@.hytale =~= Seq::empty());
        r
    }

    /// Records one round: one observation of each service.
    pub fn record(&mut self, terraria: ServiceStatus, hytale: ServiceStatus)
        ensures
            final(self)@.terraria == pushed(old(self)@.terraria, terraria@),
            final(self)@.hytale == pushed(old(self)@.hytale, hytale@),
            old(self)@.is_bounded() ==> final(self)@.is_bounded(),
            old(self)@.is_ascending() && follows(old(self)@.terraria, terraria@) && follows(
                old(self)@.hytale,
                hytale@,
            ) ==> final(self)@.is_ascending(),
    {
        push_bounded(&mut self.terraria, terraria);
        push_bounded(&mut self.hytale, hytale);
    }

    /// Whether every observation carries a valid instant.
    pub fn is_timed(&self) -> (r: bool)
        ensures
            r == self@.is_timed(),
    {
        let first = log_is_timed(&self.terraria);
        let second = log_is_timed(&self.hytale);
        first && second
    }
}

impl Default for History {
    fn default() -> (r: History)
        ensures
            r@ == (HistoryView { terraria: Seq::empty(), hytale: Seq::empty() }),
    {
        History::new()
    }
}

/// Whether every observation of `log` carries a valid instant.
pub fn log_is_timed(log: &Vec<ServiceStatus>) -> (r: bool)
    ensures
        r == all_timed(entries_of(log@)),
{
    let mut i: usize = 0;
    while i < log.len()
        invariant
            i <= log.len(),
            forall|j: int| 0 <= j < i ==> (#[trigger] entries_of(log@)[j]).timestamp.is_valid(),
        decreases log.len() - i,
    {
        let at = log[i].timestamp;
        if crate::timestamp::Timestamp::new(at.secs, at.nanos).is_none() {
            assert(!entries_of(log@)[i as int].timestamp.is_valid());
            return false;
        }
        i += 1;
    }
    true
}

// ---------------------------------------------------------------------
// Uptime
// ---------------------------------------------------------------------

/// How many of `log` found the service online.
pub open spec fn online_count(log: Seq<StatusView>) -> nat
    decreases log.len(),
{
    if log.len() == 0 {
        0
    } else {
        online_count(log.drop_last()) + if log.last().is_online == Some(true) {
            1nat
        } else {
            0nat
        }
    }
}

/// How many of `log` are completed checks: online or offline, not unknown.
pub open spec fn known_count(log: Seq<StatusView>) -> nat
    decreases log.len(),
{
    if log.len() == 0 {
        0
    } else {
        known_count(log.drop_last()) + if log.last().is_online is Some {
            1nat
        } else {
            0nat
        }
    }
}

/// No more checks found the service online than were completed, and no
/// more were completed than were made.
pub proof fn lemma_counts_bounded(log: Seq<StatusView>)
    ensures
        online_count(log) <= known_count(log) <= log.len(),
    decreases log.len(),
{
    if log.len() > 0 {
        lemma_counts_bounded(log.drop_last());
    }
}

/// Uptime as a ratio: `online` completed checks out of `checks` completed
/// checks. Checks that could not be made count in neither.
#[derive(Clone, Copy, Debug, PartialEq, Eq, Structural)]
pub struct Uptime {
    pub online: u128,
    pub checks: u128,
}

/// The figures of one service that a viewer shows.
#[derive(Clone, Copy, Debug, PartialEq, Eq, Structural)]
pub struct ServiceStats {
    /// Checks that found the service online, out of the completed ones.
    pub uptime: Uptime,
    /// Latency of the latest observation, if there is one.
    pub ping_ms: Option<u128>,
    /// State of the latest observation; offline where there is none.
    pub status: Option<bool>,
}

/// The figures of the service whose observations are `log`.
pub open spec fn stats_of(log: Seq<StatusView>) -> ServiceStats {
    ServiceStats {
        uptime: Uptime { online: online_count(log) as u128, checks: known_count(log) as u128 },
        ping_ms: if log.len() == 0 {
            None
        } else {
            Some(log.last().latency_ms)
        },
        status: if log.len() == 0 {
            Some(false)
        } else {
            log.last().is_online
        },
    }
}

/// Uptime and latest state of one service.
pub fn calculate_service_stats(entries: &Vec<ServiceStatus>) -> (r: ServiceStats)
    ensures
        r == stats_of(entries_of(entries@)),
{
    let ghost log = entries_of(entries@);
    let mut online: u128 = 0;
    let mut checks: u128 = 0;
    let mut i: usize = 0;
    while i < entries.len()
        invariant
            i <= entries.len(),
            log == entries_of(entries@),
            online == online_count(log.take(i as int)),
            checks == known_count(log.take(i as int)),
        decreases entries.len() - i,
    {
        proof {
            lemma_counts_bounded(log.take(i as int));
            assert(log.take(i + 1).drop_last() =~= log.take(i as int));
            assert(log.take(i + 1).last() == entries@[i as int]@);
        }
        match entries[i].is_online {
            Some(true) => {
                online += 1;
                checks += 1;
            },
            Some(false) => {
                checks += 1;
            },
            None => {},
        }
        i += 1;
    }
    assert(log.take(entries.len() as int) =~= log);
    if entries.len() == 0 {
        ServiceStats { uptime: Uptime { online, checks }, ping_ms: None, status: Some(false) }
    } else {
        let last = &entries[entries.len() - 1];
        ServiceStats {
            uptime: Uptime { online, checks },
            ping_ms: Some(last.latency_ms),
            status: last.is_online,
        }
    }
}

/// Uptime over several services together: online checks and completed
/// checks are each added up, so that every check weighs the same.
pub fn combined_uptime(first: Uptime, second: Uptime) -> (r: Option<Uptime>)
    ensures
        r == if first.online + second.online <= u128::MAX && first.checks + second.checks
            <= u128::MAX {
            Some(
                Uptime {
                    online: (first.online + second.online) as u128,
                    checks: (first.checks + second.checks) as u128,
                },
            )
        } else {
            None
        },
{
    match (first.online.checked_add(second.online), first.checks.checked_add(second.checks)) {
        (Some(online), Some(checks)) => Some(Uptime { online, checks }),
        _ => None,
    }
}

// ---------------------------------------------------------------------
// Chart
// ---------------------------------------------------------------------

/// The bar of one round: when it was, by the first service's clock, and
/// whether no service was found offline. A check that could not be made
/// does not count as an outage.
pub open spec fn bar_of(terraria: StatusView, hytale: StatusView) -> (i64, bool) {
    (
        terraria.timestamp.millis() as i64,
        terraria.is_online != Some(false) && hytale.is_online != Some(false),
    )
}

/// The bars of `history`: one for each round that both services have an
/// observation of, oldest first.
pub open spec fn bars_of(history: HistoryView) -> Seq<(i64, bool)> {
    Seq::new(history.rounds(), |i: int| bar_of(history.terraria[i], history.hytale[i]))
}

/// The bars of the history chart, oldest first.
pub fn generate_history_bars(history: &History) -> (bars: Vec<(i64, bool)>)
    requires
        all_timed(history@.terraria),
    ensures
        bars@ == bars_of(history@),
{
    let len: usize = if history.terraria.len() <= history.hytale.len() {
        history.terraria.len()
    } else {
        history.hytale.len()
    };
    let mut bars: Vec<(i64, bool)> = Vec::new();
    let mut i: usize = 0;
    while i < len
        invariant
            i <= len == history@.rounds(),
            len <= history.terraria@.len(),
            len <= history.hytale@.len(),
            all_timed(history@.terraria),
            bars@.len() == i,
            forall|j: int| 0 <= j < i ==> #[trigger] bars@[j] == bar_of(history@.terraria[j], history@.hytale[j]),
        decreases len - i,
    {
        let t = &history.terraria[i];
        let h = &history.hytale[i];
        assert(history@.terraria[i as int] == t@);
        assert(history@.hytale[i as int] == h@);
        let t_status: bool = match t.is_online {
            Some(up) => up,
            None => true,
        };
        let h_status: bool = match h.is_online {
            Some(up) => up,
            None => true,
        };
        let ts: i64 = t.timestamp.timestamp_millis();
        bars.push((ts, t_status && h_status));
        i += 1;
    }
    assert(bars@ =~= bars_of(history@));
    bars
}

/// What the chart shows of `bars`: the latest `CHART_BARS` of them, the
/// latest first. Where there is none, it shows `CHART_BARS` bars without a
/// date and without an outage.
pub open spec fn shown_bars(bars: Seq<(i64, bool)>) -> Seq<(i64, bool)> {
    if bars.len() == 0 {
        Seq::new(CHART_BARS as nat, |i: int| (0i64, true))
    } else {
        Seq::new(
            if bars.len() <= CHART_BARS {
                bars.len()
            } else {
                CHART_BARS as nat
            },
            |i: int| bars[bars.len() - 1 - i],
        )
    }
}

/// The bars that the chart shows.
pub fn chart_bars(bars: &Vec<(i64, bool)>) -> (shown: Vec<(i64, bool)>)
    ensures
        shown@ == shown_bars(bars@),
{
    let mut shown: Vec<(i64, bool)> = Vec::new();
    if bars.len() == 0 {
        let mut i: usize = 0;
        while i < CHART_BARS
            invariant
                i <= CHART_BARS,
                shown@.len() == i,
                forall|j: int| 0 <= j < i ==> #[trigger] shown@[j] == (0i64, true),
            decreases CHART_BARS - i,
        {
            shown.push((0, true));
            i += 1;
        }
        assert(shown@ =~= shown_bars(bars@));
    } else {
        let count: usize = if bars.len() <= CHART_BARS {
            bars.len()
        } else {
            CHART_BARS
        };
        let mut i: usize = 0;
        while i < count
            invariant
                i <= count <= bars.len(),
                shown@.len() == i,
                forall|j: int| 0 <= j < i ==> #[trigger] shown@[j] == bars@[bars.len() - 1 - j],
            decreases count - i,
        {
            shown.push(bars[bars.len() - 1 - i]);
            i += 1;
        }
        assert(shown@ =~= shown_bars(bars@));
    }
    shown
}

} // verus!
