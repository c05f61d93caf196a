//! The watcher of the history file: what to do when the file changes
//! under a server that only serves it.
//!
//! The server reads the file that another process writes. After a change
//! it waits a moment, so as not to read a file half written, reads the
//! whole file, and publishes the whole content if it differs from what
//! was published last. This module holds the decisions; waiting, reading
//! and publishing are the caller's.

use vstd::prelude::*;

verus! {

/// Milliseconds to let a change settle before the file is read.
pub const DEBOUNCE_MILLIS: u64 = 100;

/// What the watcher is doing.
#[derive(Clone, Copy, Debug, PartialEq, Eq, Structural)]
pub enum Phase {
    /// Waiting for the file to change.
    Idle,
    /// Letting a change settle.
    Settling,
    /// Waiting for the content of the file.
    Reading,
}

/// What happened.
#[derive(Clone, Debug, PartialEq, Eq)]
pub enum WatchEvent {
    /// Something changed in the directory of the file. `concerns_file`
    /// says whether it was the file, `is_modify` whether its content was
    /// modified.
    Changed { concerns_file: bool, is_modify: bool },
    /// Watching failed.
    Failed,
    /// The time to let a change settle is over.
    Settled,
    /// The file was read, or could not be read.
    Read { content: Option<String> },
}

/// What to do next.
#[derive(Clone, Debug, PartialEq, Eq)]
pub enum WatchAction {
    /// Wait for the next change.
    Wait,
    /// Wait this many milliseconds, then report `Settled`.
    Debounce { millis: u64 },
    /// Read the file, then report `Read`.
    ReadFile,
    /// Publish the content to every subscriber, then wait for the next
    /// change.
    Publish { content: String },
}

/// A `WatchEvent` as a mathematical value.
pub ghost enum WatchEventView {
    Changed { concerns_file: bool, is_modify: bool },
    Failed,
    Settled,
    Read { content: Option<Seq<char>> },
}

/// A `WatchAction` as a mathematical value.
pub ghost enum WatchActionView {
    Wait,
    Debounce { millis: u64 },
    ReadFile,
    Publish { content: Seq<char> },
}

impl View for WatchEvent {
    type V = WatchEventView;

    open spec fn view(&self) -> WatchEventView {
        match self {
            WatchEvent::Changed { concerns_file, is_modify } => WatchEventView::Changed {
                concerns_file: *concerns_file,
                is_modify: *is_modify,
            },
            WatchEvent::Failed => WatchEventView::Failed,
            WatchEvent::Settled => WatchEventView::Settled,
            WatchEvent::Read { content } => WatchEventView::Read {
                content: match content {
                    Some(text) => Some(text@),
                    None => None,
                },
            },
        }
    }
}

impl View for WatchAction {
    type V = WatchActionView;

    open spec fn view(&self) -> WatchActionView {
        match self {
            WatchAction::Wait => WatchActionView::Wait,
            WatchAction::Debounce { millis } => WatchActionView::Debounce { millis: *millis },
            WatchAction::ReadFile => WatchActionView::ReadFile,
            WatchAction::Publish { content } => WatchActionView::Publish { content: content@ },
        }
    }
}

/// The watcher: what it is doing, and the content that was published
/// last.
#[derive(Clone, Debug, PartialEq, Eq)]
pub struct Watcher {
    pub phase: Phase,
    pub current: String,
}

/// A `Watcher` as a mathematical value.
pub ghost struct WatcherView {
    pub phase: Phase,
    pub current: Seq<char>,
}

impl View for Watcher {
    type V = WatcherView;

    open spec fn view(&self) -> WatcherView {
        WatcherView { phase: self.phase, current: self.current@ }
    }
}

/// The content to start with: that of the file, or an empty document
/// where the file cannot be read.
pub open spec fn initial_content(read: Option<Seq<char>>) -> Seq<char> {
    match read {
        Some(text) => text,
        None => "{}"@,
    }
}

/// The watcher after `event`, and what to do next.
///
/// A change starts the settling time only if it modified the file and
/// nothing is under way. When the time is over the file is read. What
/// was read is published only if it differs from the content published
/// last, and is then the content published last. Everything else
/// changes nothing and asks for nothing.
pub open spec fn reacted(watcher: WatcherView, event: WatchEventView) -> (
    WatcherView,
    WatchActionView,
) {
    match (watcher.phase, event) {
        (Phase::Idle, WatchEventView::Changed { concerns_file: true, is_modify: true }) => (
            WatcherView { phase: Phase::Settling, ..watcher },
            WatchActionView::Debounce { millis: DEBOUNCE_MILLIS },
        ),
        (Phase::Settling, WatchEventView::Settled) => (
            WatcherView { phase: Phase::Reading, ..watcher },
            WatchActionView::ReadFile,
        ),
        (Phase::Reading, WatchEventView::Read { content: Some(text) }) => if text
            == watcher.current {
            (WatcherView { phase: Phase::Idle, ..watcher }, WatchActionView::Wait)
        } else {
            (
                WatcherView { phase: Phase::Idle, current: text },
                WatchActionView::Publish { content: text },
            )
        },
        (Phase::Reading, WatchEventView::Read { content: None }) => (
            WatcherView { phase: Phase::Idle, ..watcher },
            WatchActionView::Wait,
        ),
        _ => (watcher, WatchActionView::Wait),
    }
}

/// Content that was just published is not published again: when the
/// file is read once more and holds the same, the watcher only waits.
pub proof fn lemma_no_redundant_publish(watcher: WatcherView, content: Seq<char>)
    requires
        watcher.phase == Phase::Reading,
    ensures
        ({
            let once = reacted(watcher, WatchEventView::Read { content: Some(content) }).0;
            let settling = reacted(
                once,
                WatchEventView::Changed { concerns_file: true, is_modify: true },
            ).0;
            let reading = reacted(settling, WatchEventView::Settled).0;
            let again = reacted(reading, WatchEventView::Read { content: Some(content) });
            &&& once.current == content
            &&& again.1 == WatchActionView::Wait
            &&& again.0.current == content
        }),
{
}

impl Watcher {
    /// A watcher at rest. `content` is what reading the file gave at the
    /// start, `None` where it could not be read.
    pub fn new(content: Option<String>) -> (watcher: Watcher)
        ensures
            watcher@ == (WatcherView {
                phase: Phase::Idle,
                current: initial_content(
                    match content {
                        Some(text) => Some(text@),
                        None => None,
                    },
                ),
            }),
    {
        let current = match content {
            Some(text) => text,
            None => String::from_str("{}"),
        };
        Watcher { phase: Phase::Idle, current }
    }

    /// Takes in `event` and says what to do next.
    pub fn on_event(&mut self, event: WatchEvent) -> (action: WatchAction)
        ensures
            (final(self)@, action@) == reacted(old(self)@, event@),
    {
        match event {
            WatchEvent::Changed { concerns_file, is_modify } => {
                if concerns_file && is_modify && self.phase == Phase::Idle {
                    self.phase = Phase::Settling;
                    WatchAction::Debounce { millis: DEBOUNCE_MILLIS }
                } else {
                    WatchAction::Wait
                }
            },
            WatchEvent::Failed => WatchAction::Wait,
            WatchEvent::Settled => {
                if self.phase == Phase::Settling {
                    self.phase = Phase::Reading;
                    WatchAction::ReadFile
                } else {
                    WatchAction::Wait
                }
            },
            WatchEvent::Read { content } => {
                if self.phase == Phase::Reading {
                    self.phase = Phase::Idle;
                    match content {
                        Some(text) => {
                            if text == self.current {
                                WatchAction::Wait
                            } else {
                                self.current = text.clone();
                                WatchAction::Publish { content: text }
                            }
                        },
                        None => WatchAction::Wait,
                    }
                } else {
                    WatchAction::Wait
                }
            },
        }
    }
}

} // verus!
