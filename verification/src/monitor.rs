//! One round of the monitor: the results of the two checks become
//! observations, the history takes them in, and the document of the
//! history is written anew.
//!
//! The document is written whole after every round, so that the file
//! always holds exactly the bounded history: what the monitor reads back
//! from a document it wrote is the history it wrote.

use crate::codec::{
    decode_history, decoded, encode_history, encoded, is_aligned, kept, malformed_at, rounds_of,
};
use crate::history::{all_timed, pushed, History, HistoryView, MAX_HISTORY_ENTRIES};
use crate::probe::{entry_of, service_entry, settled, TaskResult};
use crate::status::{ServiceStatus, StatusView};
use crate::text::lines_of;
use crate::timestamp::Timestamp;
use vstd::prelude::*;

verus! {

/// The name under which the history keeps the observations of the
/// Terraria server.
pub open spec fn terraria_name() -> Seq<char> {
    "Terraria"@
}

/// The name under which the history keeps the observations of the Hytale
/// server.
pub open spec fn hytale_name() -> Seq<char> {
    "Hytale"@
}

/// The history without observations.
pub open spec fn empty_history() -> HistoryView {
    HistoryView { terraria: Seq::empty(), hytale: Seq::empty() }
}

/// The history that the monitor starts a round with: that of the
/// document, or the empty one where there is no document or the document
/// has a malformed line.
pub open spec fn loaded(content: Option<Seq<char>>) -> HistoryView {
    match content {
        Some(text) => if exists|i: int| malformed_at(lines_of(text), i) {
            empty_history()
        } else {
            rounds_of(lines_of(text))
        },
        None => empty_history(),
    }
}

/// `history` after a round with these two observations.
pub open spec fn recorded(
    history: HistoryView,
    terraria: StatusView,
    hytale: StatusView,
) -> HistoryView {
    HistoryView {
        terraria: pushed(history.terraria, terraria),
        hytale: pushed(history.hytale, hytale),
    }
}

/// The views of an optional text.
pub open spec fn content_view(content: Option<&str>) -> Option<Seq<char>> {
    match content {
        Some(text) => Some(text@),
        None => None,
    }
}

/// An aligned history stays aligned through a round whose two
/// observations were made at the same instant under the names of the two
/// services.
pub proof fn lemma_recorded_is_aligned(
    history: HistoryView,
    terraria: StatusView,
    hytale: StatusView,
)
    requires
        is_aligned(history),
        terraria.service_name == terraria_name(),
        hytale.service_name == hytale_name(),
        terraria.timestamp == hytale.timestamp,
    ensures
        is_aligned(recorded(history, terraria, hytale)),
{
    let after = recorded(history, terraria, hytale);
    let t_grown = history.terraria.push(terraria);
    let h_grown = history.hytale.push(hytale);
    assert forall|i: int| 0 <= i < t_grown.len() implies {
        &&& (#[trigger] t_grown[i]).service_name == "Terraria"@
        &&& h_grown[i].service_name == "Hytale"@
        &&& t_grown[i].timestamp == h_grown[i].timestamp
    } by {
        if i < history.terraria.len() {
            assert(t_grown[i] == history.terraria[i]);
            assert(h_grown[i] == history.hytale[i]);
        }
    }
    assert forall|i: int| 0 <= i < after.terraria.len() implies {
        &&& (#[trigger] after.terraria[i]).service_name == "Terraria"@
        &&& after.hytale[i].service_name == "Hytale"@
        &&& after.terraria[i].timestamp == after.hytale[i].timestamp
    } by {
        if t_grown.len() > MAX_HISTORY_ENTRIES {
            assert(after.terraria[i] == t_grown[i + 1]);
            assert(after.hytale[i] == h_grown[i + 1]);
        } else {
            assert(after.terraria[i] == t_grown[i]);
            assert(after.hytale[i] == h_grown[i]);
        }
    }
}

/// Recording an observation with a valid instant keeps a log timed.
pub proof fn lemma_pushed_is_timed(log: Seq<StatusView>, entry: StatusView)
    requires
        all_timed(log),
        entry.timestamp.is_valid(),
    ensures
        all_timed(pushed(log, entry)),
{
    let grown = log.push(entry);
    assert forall|i: int| 0 <= i < grown.len() implies (
    #[trigger] grown[i]).timestamp.is_valid() by {
        if i < log.len() {
            assert(grown[i] == log[i]);
        }
    }
    assert forall|i: int| 0 <= i < pushed(log, entry).len() implies (#[trigger] pushed(
        log,
        entry,
    )[i]).timestamp.is_valid() by {
        if grown.len() > MAX_HISTORY_ENTRIES {
            assert(pushed(log, entry)[i] == grown[i + 1]);
        }
    }
}

/// The history that the monitor starts a round with. `content` is what
/// the history file holds, `None` where there is no file or it cannot be
/// read.
pub fn load_history(content: Option<&str>) -> (history: History)
    ensures
        history@ == loaded(content_view(content)),
        history@.is_timed(),
        is_aligned(history@),
{
    match content {
        Some(text) => match decode_history(text) {
            Ok(history) => history,
            Err(_) => History::new(),
        },
        None => History::new(),
    }
}

/// The document after a round: the history of `content` takes in the two
/// observations, and is written anew.
pub fn update_history(
    content: Option<&str>,
    terraria: ServiceStatus,
    hytale: ServiceStatus,
) -> (out: String)
    requires
        terraria@.timestamp.is_valid(),
    ensures
        out@ == encoded(recorded(loaded(content_view(content)), terraria@, hytale@)),
        decoded(out@, Ok(kept(recorded(loaded(content_view(content)), terraria@, hytale@)))),
{
    let mut history = load_history(content);
    proof {
        lemma_pushed_is_timed(history@.terraria, terraria@);
    }
    history.record(terraria, hytale);
    encode_history(&history)
}

/// One round of a monitor that keeps the history in memory: the checks
/// of the two servers ended with `terraria` and `hytale` at `now`; the
/// history takes in what comes of them, and its document is handed back
/// to be written.
pub fn record_round(
    history: &mut History,
    terraria: TaskResult,
    hytale: TaskResult,
    now: Timestamp,
) -> (out: String)
    requires
        old(history)@.is_timed(),
        now.is_valid(),
    ensures
        final(history)@ == recorded(
            old(history)@,
            entry_of(terraria_name(), settled(terraria), now),
            entry_of(hytale_name(), settled(hytale), now),
        ),
        final(history)@.is_timed(),
        old(history)@.is_bounded() ==> final(history)@.is_bounded(),
        is_aligned(old(history)@) ==> is_aligned(final(history)@),
        out@ == encoded(final(history)@),
        old(history)@.is_bounded() ==> lines_of(out@).len() <= MAX_HISTORY_ENTRIES + 1,
        decoded(out@, Ok(kept(final(history)@))),
        is_aligned(old(history)@) ==> decoded(out@, Ok(final(history)@)),
{
    let t = service_entry("Terraria", terraria, now);
    let h = service_entry("Hytale", hytale, now);
    proof {
        lemma_pushed_is_timed(history@.terraria, t@);
        lemma_pushed_is_timed(history@.hytale, h@);
        if is_aligned(history@) {
            lemma_recorded_is_aligned(history@, t@, h@);
        }
    }
    history.record(t, h);
    encode_history(history)
}

} // verus!
