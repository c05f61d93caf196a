//! The board of a viewer of the event stream: the latest state of each
//! server, by name.

use crate::status::{ServerStatus, ServerStatusView};
use crate::text::same_text;
use vstd::prelude::*;

verus! {

/// The latest state of each server that a viewer has heard of, in the
/// order in which the servers were first heard of.
#[derive(Clone, Debug, PartialEq)]
pub struct StatusBoard {
    pub entries: Vec<ServerStatus>,
}

/// Where `entries` holds the state of the server called `name`: the first
/// such position, or the length of `entries` where there is none.
pub open spec fn position_of(entries: Seq<ServerStatus>, name: Seq<char>) -> int
    decreases entries.len(),
{
    if entries.len() == 0 {
        0
    } else if entries[0].name@ == name {
        0
    } else {
        1 + position_of(entries.drop_first(), name)
    }
}

/// Whether no two of `entries` are of a server of the same name.
pub open spec fn names_differ(entries: Seq<ServerStatus>) -> bool {
    forall|i: int, j: int|
        0 <= i < j < entries.len() ==> (#[trigger] entries[i]).name@ != (#[trigger] entries[j]).name@
}

/// `position_of(entries, name)` is the first position that holds a state
/// of the server called `name`.
pub proof fn lemma_position_of(entries: Seq<ServerStatus>, name: Seq<char>, k: int)
    requires
        0 <= k <= entries.len(),
        forall|j: int| 0 <= j < k ==> (#[trigger] entries[j]).name@ != name,
        k == entries.len() || entries[k].name@ == name,
    ensures
        position_of(entries, name) == k,
    decreases entries.len(),
{
    if k > 0 {
        let rest = entries.drop_first();
        assert forall|j: int| 0 <= j < k - 1 implies (#[trigger] rest[j]).name@ != name by {
            assert(rest[j] == entries[j + 1]);
        }
        if k - 1 < rest.len() {
            assert(rest[k - 1] == entries[k]);
        }
        lemma_position_of(rest, name, k - 1);
    }
}

/// The states of `entries` as mathematical values.
pub open spec fn states_of(entries: Seq<ServerStatus>) -> Seq<ServerStatusView> {
    Seq::new(entries.len(), |i: int| entries[i]@)
}

/// `states` after the state `status` came in: it takes the place of the
/// state at `at`, or joins at the end where `at` is the length.
pub open spec fn upserted(states: Seq<ServerStatusView>, at: int, status: ServerStatusView) -> Seq<
    ServerStatusView,
> {
    if 0 <= at < states.len() {
        states.update(at, status)
    } else {
        states.push(status)
    }
}

impl StatusBoard {
    /// The states on the board as mathematical values.
    pub open spec fn states(&self) -> Seq<ServerStatusView> {
        states_of(self.entries@)
    }

    /// No two states on the board are of a server of the same name.
    pub open spec fn well_formed(&self) -> bool {
        names_differ(self.entries@)
    }

    /// The board of a viewer that has heard nothing yet.
    pub fn new() -> (board: StatusBoard)
        ensures
            board.well_formed(),
            board.states() == Seq::<ServerStatusView>::empty(),
    {
        let board = StatusBoard { entries: Vec::new() };
        assert(board.states() =~= Seq::<ServerStatusView>::empty());
        board
    }

    /// Where the board holds the state of the server called `name`, or how
    /// many states it holds where it has none of that server.
    pub fn find(&self, name: &str) -> (at: usize)
        ensures
            at == position_of(self.entries@, name@),
            at <= self.entries@.len(),
            at < self.entries@.len() ==> self.entries@[at as int].name@ == name@,
            forall|j: int| 0 <= j < at ==> (#[trigger] self.entries@[j]).name@ != name@,
    {
        let mut at: usize = 0;
        while at < self.entries.len()
            invariant
                at <= self.entries@.len(),
                forall|j: int| 0 <= j < at ==> (#[trigger] self.entries@[j]).name@ != name@,
            decreases self.entries@.len() - at,
        {
            if same_text(self.entries[at].name.as_str(), name) {
                proof {
                    lemma_position_of(self.entries@, name@, at as int);
                }
                return at;
            }
            at += 1;
        }
        proof {
            lemma_position_of(self.entries@, name@, at as int);
        }
        at
    }

    /// Takes in the state of a server: it replaces the state that the board
    /// has of the server of that name, or is added where it has none.
    pub fn upsert(&mut self, status: ServerStatus)
        requires
            old(self).well_formed(),
        ensures
            final(self).well_formed(),
            final(self).states() == upserted(
                old(self).states(),
                position_of(old(self).entries@, status.name@),
                status@,
            ),
    {
        let at = self.find(status.name.as_str());
        let ghost before = self.entries@;
        let ghost added = status@;
        if at < self.entries.len() {
            self.entries[at] = status;
            proof {
                assert(self.states() =~= states_of(before).update(at as int, added));
                assert forall|i: int, j: int| 0 <= i < j < self.entries@.len() implies (
                #[trigger] self.entries@[i]).name@ != (#[trigger] self.entries@[j]).name@ by {
                    assert(self.entries@[i].name@ == before[i].name@);
                    assert(self.entries@[j].name@ == before[j].name@);
                }
            }
        } else {
            self.entries.push(status);
            proof {
                assert(self.states() =~= states_of(before).push(added));
                assert forall|i: int, j: int| 0 <= i < j < self.entries@.len() implies (
                #[trigger] self.entries@[i]).name@ != (#[trigger] self.entries@[j]).name@ by {
                    if j < before.len() {
                        assert(self.entries@[i] == before[i]);
                        assert(self.entries@[j] == before[j]);
                    } else {
                        assert(self.entries@[i] == before[i]);
                    }
                }
            }
        }
    }
}

} // verus!
