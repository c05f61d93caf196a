//! What a probe found, and what follows from it.
//!
//! The probes themselves talk to the network and are no part of this
//! library. It decides which probe a server gets, what a run of attempts
//! on the addresses of a server amounts to, and which observation comes
//! of it. Throughout, a check that could not be made is kept apart from a
//! check that found the server unreachable.

use crate::status::{
    offline_status, online_status, unknown_status, ServerInfo, ServerStatus, ServerStatusView,
    ServiceStatus, StatusView,
};
use crate::text::{decimal_digits, lowercase_of, push_decimal, same_text, to_lowercase};
use crate::timestamp::Timestamp;
use vstd::prelude::*;

verus! {

/// Seconds that a TCP connection may take to open.
pub const TCP_TIMEOUT_SECS: u64 = 3;

/// Seconds to wait for the answer to a handshake datagram.
pub const HANDSHAKE_TIMEOUT_SECS: u64 = 5;

/// Seconds that one check of the event stream's servers may take.
pub const STREAM_CHECK_TIMEOUT_SECS: u64 = 2;

/// Seconds between two rounds of checks of the event stream's servers.
pub const STREAM_CHECK_INTERVAL_SECS: u64 = 10;

/// The one byte that the UDP probe sends.
pub const UDP_PROBE_BYTE: u8 = 0xFE;

/// Bytes of an answer that the UDP probe makes room for.
pub const UDP_ANSWER_ROOM: usize = 1024;

/// Bytes of an answer that the handshake probe makes room for.
pub const HANDSHAKE_ANSWER_ROOM: usize = 1500;

/// The ways to check a server.
#[derive(Clone, Copy, Debug, PartialEq, Eq, Structural)]
pub enum ProbeKind {
    /// Open a TCP connection.
    TcpReachability,
    /// Send one datagram and wait for any answer.
    UdpProbe,
    /// Ask with the query protocol of the game.
    GameQuery,
    /// Send the first packet of a QUIC handshake and wait for any answer.
    RawHandshake,
}

/// Why a check did not find a server online.
#[derive(Clone, Copy, Debug, PartialEq, Eq, Structural)]
pub enum ProbeError {
    /// The host name gave no address.
    ResolutionFailure,
    /// The server refused, or sending or receiving failed.
    ConnectionFailure,
    /// No answer came in time.
    Timeout,
    /// The check could not run: no socket to send from, or the task that
    /// ran it broke down.
    TransientTaskFailure,
}

/// The state that follows from a failed check: offline where the check
/// was made and found the server unreachable, unknown where it could not
/// be made.
pub open spec fn state_after(error: ProbeError) -> Option<bool> {
    match error {
        ProbeError::ResolutionFailure => None,
        ProbeError::ConnectionFailure => Some(false),
        ProbeError::Timeout => Some(false),
        ProbeError::TransientTaskFailure => None,
    }
}

impl ProbeError {
    /// The state that follows from this failure.
    pub fn state(&self) -> (r: Option<bool>)
        ensures
            r == state_after(*self),
            *self == ProbeError::ResolutionFailure ==> r is None,
    {
        match self {
            ProbeError::ResolutionFailure => None,
            ProbeError::ConnectionFailure => Some(false),
            ProbeError::Timeout => Some(false),
            ProbeError::TransientTaskFailure => None,
        }
    }

    /// The cause in words.
    pub fn describe(&self) -> (r: &'static str)
        ensures
            r@ == match *self {
                ProbeError::ResolutionFailure => "DNS Resolution Failed"@,
                ProbeError::ConnectionFailure => "Connection failed"@,
                ProbeError::Timeout => "No response in time"@,
                ProbeError::TransientTaskFailure => "Check could not run"@,
            },
    {
        match self {
            ProbeError::ResolutionFailure => "DNS Resolution Failed",
            ProbeError::ConnectionFailure => "Connection failed",
            ProbeError::Timeout => "No response in time",
            ProbeError::TransientTaskFailure => "Check could not run",
        }
    }
}

// ---------------------------------------------------------------------
// Which probe
// ---------------------------------------------------------------------

/// The probe for a server of type `server_type` whose protocol reads
/// `lowered_protocol` in lowercase: TCP for Terraria, the game's query for
/// Minecraft; for any other type UDP where the protocol says so, and TCP
/// otherwise.
pub open spec fn kind_for(server_type: Seq<char>, lowered_protocol: Seq<char>) -> ProbeKind {
    if server_type == "Terraria"@ {
        ProbeKind::TcpReachability
    } else if server_type == "Minecraft"@ {
        ProbeKind::GameQuery
    } else if lowered_protocol == "udp"@ {
        ProbeKind::UdpProbe
    } else {
        ProbeKind::TcpReachability
    }
}

/// The probe for a server of type `server_type` whose protocol, already
/// in lowercase, is `lowered_protocol`.
pub fn kind_from(server_type: &str, lowered_protocol: &str) -> (kind: ProbeKind)
    ensures
        kind == kind_for(server_type@, lowered_protocol@),
{
    if same_text(server_type, "Terraria") {
        ProbeKind::TcpReachability
    } else if same_text(server_type, "Minecraft") {
        ProbeKind::GameQuery
    } else if same_text(lowered_protocol, "udp") {
        ProbeKind::UdpProbe
    } else {
        ProbeKind::TcpReachability
    }
}

/// The protocol of a server that names none.
pub open spec fn protocol_or_default(protocol: Option<Seq<char>>) -> Seq<char> {
    match protocol {
        Some(p) => p,
        None => "tcp"@,
    }
}

/// The probe for a server of type `server_type` that names `protocol`,
/// in any letter case, or none.
pub fn probe_kind(server_type: &str, protocol: Option<&str>) -> (kind: ProbeKind)
    ensures
        kind == kind_for(
            server_type@,
            lowercase_of(
                protocol_or_default(
                    match protocol {
                        Some(p) => Some(p@),
                        None => None,
                    },
                ),
            ),
        ),
{
    let named: &str = match protocol {
        Some(p) => p,
        None => "tcp",
    };
    let lowered = to_lowercase(named);
    kind_from(server_type, lowered.as_str())
}

/// The local address that a UDP socket binds to in order to reach an
/// address of the given family: any address, any port.
pub fn wildcard_bind_address(ipv6: bool) -> (r: &'static str)
    ensures
        r@ == if ipv6 {
            "[::]:0"@
        } else {
            "0.0.0.0:0"@
        },
{
    if ipv6 {
        "[::]:0"
    } else {
        "0.0.0.0:0"
    }
}

// ---------------------------------------------------------------------
// A run of attempts
// ---------------------------------------------------------------------

/// What became of the attempt to reach one address of a server.
#[derive(Clone, Copy, Debug, PartialEq, Eq, Structural)]
pub enum Attempt {
    /// The server answered: the connection opened, or a datagram came
    /// back, valid or not.
    Answered { latency_ms: u128 },
    /// The server refused, or sending or receiving failed.
    Failed,
    /// No answer came in time.
    TimedOut,
    /// No socket could be made to send from.
    Unavailable,
}

/// Why an attempt that was not answered failed.
pub open spec fn failure_of(attempt: Attempt) -> ProbeError {
    match attempt {
        Attempt::Answered { .. } => ProbeError::ConnectionFailure,
        Attempt::Failed => ProbeError::ConnectionFailure,
        Attempt::TimedOut => ProbeError::Timeout,
        Attempt::Unavailable => ProbeError::TransientTaskFailure,
    }
}

/// What a run of attempts amounts to when `last` is the failure so far:
/// the first answer, or else the failure of the last attempt.
pub open spec fn concluded_from(last: ProbeError, attempts: Seq<Attempt>) -> Result<
    ServerInfo,
    ProbeError,
>
    decreases attempts.len(),
{
    if attempts.len() == 0 {
        Err(last)
    } else {
        match attempts[0] {
            Attempt::Answered { latency_ms } => Ok(ServerInfo { is_online: true, latency_ms }),
            other => concluded_from(failure_of(other), attempts.drop_first()),
        }
    }
}

/// What a check amounts to that tried the addresses of a server in turn:
/// online with the latency of the first answer; else the failure of the
/// last attempt; and a resolution failure where there was no address to
/// try.
pub open spec fn concluded(attempts: Seq<Attempt>) -> Result<ServerInfo, ProbeError> {
    concluded_from(ProbeError::ResolutionFailure, attempts)
}

/// A check finds a server online if and only if one of its attempts was
/// answered, and then with the latency of the first that was. A check
/// without attempts fails to resolve; any other check without an answer
/// fails as its last attempt did.
pub proof fn lemma_concluded(attempts: Seq<Attempt>)
    ensures
        concluded(attempts) is Ok <==> exists|i: int|
            0 <= i < attempts.len() && #[trigger] attempts[i] is Answered,
        concluded(attempts) matches Ok(info) ==> exists|i: int|
            0 <= i < attempts.len() && #[trigger] attempts[i] == (Attempt::Answered {
                latency_ms: info.latency_ms,
            }) && info.is_online && forall|j: int| 0 <= j < i ==> !(#[trigger] attempts[j] is Answered),
        concluded(attempts) matches Err(error) ==> error == if attempts.len() == 0 {
            ProbeError::ResolutionFailure
        } else {
            failure_of(attempts.last())
        },
{
    lemma_concluded_from(ProbeError::ResolutionFailure, attempts);
}

/// The same of a run that continues after earlier failures.
proof fn lemma_concluded_from(last: ProbeError, attempts: Seq<Attempt>)
    ensures
        concluded_from(last, attempts) is Ok <==> exists|i: int|
            0 <= i < attempts.len() && #[trigger] attempts[i] is Answered,
        concluded_from(last, attempts) matches Ok(info) ==> exists|i: int|
            0 <= i < attempts.len() && #[trigger] attempts[i] == (Attempt::Answered {
                latency_ms: info.latency_ms,
            }) && info.is_online && forall|j: int| 0 <= j < i ==> !(#[trigger] attempts[j] is Answered),
        concluded_from(last, attempts) matches Err(error) ==> error == if attempts.len() == 0 {
            last
        } else {
            failure_of(attempts.last())
        },
    decreases attempts.len(),
{
    if attempts.len() > 0 {
        let rest = attempts.drop_first();
        match attempts[0] {
            Attempt::Answered { latency_ms } => {
                assert(attempts[0] is Answered);
            },
            other => {
                lemma_concluded_from(failure_of(other), rest);
                if rest.len() > 0 {
                    assert(rest.last() == attempts.last());
                }
                if concluded_from(last, attempts) is Ok {
                    let info = concluded_from(last, attempts)->Ok_0;
                    let i = choose|i: int|
                        0 <= i < rest.len() && #[trigger] rest[i] == (Attempt::Answered {
                            latency_ms: info.latency_ms,
                        }) && info.is_online && forall|j: int|
                            0 <= j < i ==> !(#[trigger] rest[j] is Answered);
                    assert(attempts[i + 1] == rest[i]);
                    assert forall|j: int| 0 <= j < i + 1 implies !(#[trigger] attempts[j]
                        is Answered) by {
                        if j > 0 {
                            assert(attempts[j] == rest[j - 1]);
                        }
                    }
                }
                if exists|i: int| 0 <= i < attempts.len() && #[trigger] attempts[i] is Answered {
                    let i = choose|i: int|
                        0 <= i < attempts.len() && #[trigger] attempts[i] is Answered;
                    assert(rest[i - 1] == attempts[i]);
                }
            },
        }
    }
}

/// A check under way: the addresses of a server are tried one after the
/// other until one answers.
#[derive(Clone, Copy, Debug, PartialEq, Eq, Structural)]
pub struct ProbeRun {
    /// The failure to report if no further address is tried.
    pub last: ProbeError,
}

impl ProbeRun {
    /// A check that has not tried any address yet.
    pub fn new() -> (run: ProbeRun)
        ensures
            run.last == ProbeError::ResolutionFailure,
    {
        ProbeRun { last: ProbeError::ResolutionFailure }
    }

    /// Takes in what became of the attempt on the next address. With
    /// `Some`, the check is over and the server is online; with `None`, the
    /// next address is due.
    pub fn on_attempt(&mut self, attempt: Attempt) -> (done: Option<ServerInfo>)
        ensures
            match attempt {
                Attempt::Answered { latency_ms } => {
                    &&& done == Some(ServerInfo { is_online: true, latency_ms })
                    &&& *final(self) == *old(self)
                },
                other => {
                    &&& done is None
                    &&& final(self).last == failure_of(other)
                },
            },
            forall|rest: Seq<Attempt>|
                #![trigger concluded_from(old(self).last, seq![attempt] + rest)]
                concluded_from(old(self).last, seq![attempt] + rest) == match done {
                    Some(info) => Ok(info),
                    None => concluded_from(final(self).last, rest),
                },
    {
        assert forall|rest: Seq<Attempt>| (seq![attempt] + rest).drop_first() == rest by {
            assert((seq![attempt] + rest).drop_first() =~= rest);
        }
        match attempt {
            Attempt::Answered { latency_ms } => Some(ServerInfo { is_online: true, latency_ms }),
            Attempt::Failed => {
                self.last = ProbeError::ConnectionFailure;
                None
            },
            Attempt::TimedOut => {
                self.last = ProbeError::Timeout;
                None
            },
            Attempt::Unavailable => {
                self.last = ProbeError::TransientTaskFailure;
                None
            },
        }
    }

    /// The failure of a check that ran out of addresses.
    pub fn finish(&self) -> (error: ProbeError)
        ensures
            error == self.last,
            concluded_from(self.last, Seq::empty()) == Err::<ServerInfo, ProbeError>(error),
    {
        self.last
    }
}

/// What a check amounts to that made `attempts`, in this order.
pub fn conclude(attempts: &Vec<Attempt>) -> (r: Result<ServerInfo, ProbeError>)
    ensures
        r == concluded(attempts@),
{
    let mut run = ProbeRun::new();
    let mut i: usize = 0;
    assert(attempts@.skip(0) =~= attempts@);
    while i < attempts.len()
        invariant
            i <= attempts.len(),
            concluded(attempts@) == concluded_from(run.last, attempts@.skip(i as int)),
        decreases attempts.len() - i,
    {
        let ghost rest = attempts@.skip(i + 1);
        assert(seq![attempts@[i as int]] + rest =~= attempts@.skip(i as int));
        match run.on_attempt(attempts[i]) {
            Some(info) => {
                return Ok(info);
            },
            None => {},
        }
        i += 1;
    }
    assert(attempts@.skip(attempts.len() as int) =~= Seq::<Attempt>::empty());
    Err(run.finish())
}

// ---------------------------------------------------------------------
// Observations
// ---------------------------------------------------------------------

/// How a probe task ended.
#[derive(Clone, Copy, Debug, PartialEq, Eq)]
pub enum TaskResult {
    /// The probe ran and found this.
    Completed(Result<ServerInfo, ProbeError>),
    /// The task broke down before the probe was through.
    Faulted,
}

/// What a probe found, whichever way its task ended.
pub open spec fn settled(result: TaskResult) -> Result<ServerInfo, ProbeError> {
    match result {
        TaskResult::Completed(found) => found,
        TaskResult::Faulted => Err(ProbeError::TransientTaskFailure),
    }
}

/// The observation that comes of a check: state and latency as found; and
/// after a failure the state that follows from it, with no latency.
pub open spec fn entry_of(
    name: Seq<char>,
    found: Result<ServerInfo, ProbeError>,
    now: Timestamp,
) -> StatusView {
    match found {
        Ok(info) => StatusView {
            service_name: name,
            is_online: Some(info.is_online),
            latency_ms: info.latency_ms,
            timestamp: now,
        },
        Err(error) => StatusView {
            service_name: name,
            is_online: state_after(error),
            latency_ms: 0,
            timestamp: now,
        },
    }
}

/// The observation of the service called `name` that comes of a probe
/// task which ended at `now` with `result`. A name that did not resolve
/// and a task that broke down make the state unknown, never offline.
pub fn service_entry(name: &str, result: TaskResult, now: Timestamp) -> (entry: ServiceStatus)
    ensures
        entry@ == entry_of(name@, settled(result), now),
        settled(result) == Err::<ServerInfo, ProbeError>(ProbeError::ResolutionFailure)
            ==> entry@.is_online is None,
        result is Faulted ==> entry@.is_online is None,
{
    let found: Result<ServerInfo, ProbeError> = match result {
        TaskResult::Completed(found) => found,
        TaskResult::Faulted => Err(ProbeError::TransientTaskFailure),
    };
    match found {
        Ok(info) => ServiceStatus::new(name, Some(info.is_online), info.latency_ms, now),
        Err(error) => ServiceStatus::new(name, error.state(), 0, now),
    }
}

// ---------------------------------------------------------------------
// States for the event stream
// ---------------------------------------------------------------------

/// What the one check of a server of the event stream found.
#[derive(Clone, Debug, PartialEq)]
pub enum CheckResult {
    /// The host name gave no address.
    Unresolved,
    /// The server is reachable.
    Reachable,
    /// The server told how many players it has and can have.
    Players { online: u32, maximum: u32 },
    /// The check was made and failed for the reason `error`.
    Down { error: String },
    /// The task that ran the check broke down.
    Faulted,
}

/// A `CheckResult` as a mathematical value.
pub ghost enum CheckView {
    Unresolved,
    Reachable,
    Players { online: u32, maximum: u32 },
    Down { error: Seq<char> },
    Faulted,
}

impl View for CheckResult {
    type V = CheckView;

    open spec fn view(&self) -> CheckView {
        match self {
            CheckResult::Unresolved => CheckView::Unresolved,
            CheckResult::Reachable => CheckView::Reachable,
            CheckResult::Players { online, maximum } => CheckView::Players {
                online: *online,
                maximum: *maximum,
            },
            CheckResult::Down { error } => CheckView::Down { error: error@ },
            CheckResult::Faulted => CheckView::Faulted,
        }
    }
}

/// What is said of a server that answered a probe of this kind.
pub open spec fn online_details(kind: ProbeKind) -> Seq<char> {
    match kind {
        ProbeKind::TcpReachability => "Online (TCP)"@,
        ProbeKind::UdpProbe => "Online (UDP)"@,
        ProbeKind::GameQuery => "Online"@,
        ProbeKind::RawHandshake => "Online (QUIC)"@,
    }
}

/// What is said of the players of a reachable server that told nothing
/// of them.
pub open spec fn untold_players(server_type: Seq<char>) -> Seq<char> {
    if server_type == "Terraria"@ {
        "?/?"@
    } else {
        "-/-"@
    }
}

/// The state of a server of which nothing is known, for the reason
/// `cause`.
pub open spec fn unknown_of(
    name: Seq<char>,
    server_type: Seq<char>,
    cause: Seq<char>,
    time: Seq<char>,
) -> ServerStatusView {
    ServerStatusView {
        name,
        server_type,
        online: false,
        players: "-/-"@,
        ping: 0,
        details: "Unknown: "@ + cause,
        last_updated: time,
    }
}

/// The state of the server `name` of type `server_type` after a check of
/// kind `kind` that found `found`: online where the server answered;
/// offline, with the error, where the check was made and failed; and
/// unknown where it could not be made.
pub open spec fn status_of(
    name: Seq<char>,
    server_type: Seq<char>,
    kind: ProbeKind,
    found: CheckView,
    time: Seq<char>,
) -> ServerStatusView {
    match found {
        CheckView::Unresolved => unknown_of(name, server_type, "DNS Resolution Failed"@, time),
        CheckView::Faulted => unknown_of(name, server_type, "Check could not run"@, time),
        CheckView::Reachable => ServerStatusView {
            name,
            server_type,
            online: true,
            players: untold_players(server_type),
            ping: 0,
            details: online_details(kind),
            last_updated: time,
        },
        CheckView::Players { online, maximum } => ServerStatusView {
            name,
            server_type,
            online: true,
            players: decimal_digits(online as nat) + seq!['/'] + decimal_digits(maximum as nat),
            ping: 0,
            details: online_details(kind),
            last_updated: time,
        },
        CheckView::Down { error } => ServerStatusView {
            name,
            server_type,
            online: false,
            players: "-/-"@,
            ping: 0,
            details: "Offline: "@ + error,
            last_updated: time,
        },
    }
}

/// What is said of a server that answered a probe of this kind.
fn online_details_text(kind: ProbeKind) -> (r: &'static str)
    ensures
        r@ == online_details(kind),
{
    match kind {
        ProbeKind::TcpReachability => "Online (TCP)",
        ProbeKind::UdpProbe => "Online (UDP)",
        ProbeKind::GameQuery => "Online",
        ProbeKind::RawHandshake => "Online (QUIC)",
    }
}

/// The state of the server `name` of type `server_type` after a check of
/// kind `kind` that found `found`, made at `time`.
pub fn server_status(
    name: String,
    server_type: &str,
    kind: ProbeKind,
    found: CheckResult,
    time: String,
) -> (status: ServerStatus)
    ensures
        status@ == status_of(name@, server_type@, kind, found@, time@),
        found is Unresolved ==> !status@.online && status@.details == "Unknown: "@
            + "DNS Resolution Failed"@,
        status@.online <==> found is Reachable || found is Players,
{
    match found {
        CheckResult::Unresolved => unknown_status(
            name,
            server_type,
            String::from_str(ProbeError::ResolutionFailure.describe()),
            time,
        ),
        CheckResult::Faulted => unknown_status(
            name,
            server_type,
            String::from_str(ProbeError::TransientTaskFailure.describe()),
            time,
        ),
        CheckResult::Reachable => {
            let players = if same_text(server_type, "Terraria") {
                String::from_str("?/?")
            } else {
                String::from_str("-/-")
            };
            online_status(name, server_type, players, online_details_text(kind), time)
        },
        CheckResult::Players { online, maximum } => {
            let mut players = String::new();
            push_decimal(&mut players, online as u128);
            players.append("/");
            push_decimal(&mut players, maximum as u128);
            proof {
                reveal_strlit("/");
                assert(players@ =~= decimal_digits(online as nat) + seq!['/'] + decimal_digits(
                    maximum as nat,
                ));
            }
            online_status(name, server_type, players, online_details_text(kind), time)
        },
        CheckResult::Down { error } => offline_status(name, server_type, error, time),
    }
}

} // verus!
