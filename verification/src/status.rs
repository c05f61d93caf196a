//! The observations that probes produce and viewers receive.

use crate::timestamp::Timestamp;
use vstd::prelude::*;

verus! {

/// What one reachability check of one server found.
#[derive(Clone, Copy, Debug, PartialEq, Eq, Structural)]
pub struct ServerInfo {
    pub is_online: bool,
    pub latency_ms: u128,
}

/// One observation of one monitored service. `is_online` has three
/// states: `Some(true)` is online, `Some(false)` is offline, and `None`
/// says that the check itself could not be made. `latency_ms` means
/// something only when the service is online, and is 0 otherwise.
#[derive(Clone, Debug, PartialEq)]
pub struct ServiceStatus {
    pub service_name: String,
    pub is_online: Option<bool>,
    pub latency_ms: u128,
    pub timestamp: Timestamp,
}

/// A `ServiceStatus` as a mathematical value.
pub ghost struct StatusView {
    pub service_name: Seq<char>,
    pub is_online: Option<bool>,
    pub latency_ms: u128,
    pub timestamp: Timestamp,
}

impl View for ServiceStatus {
    type V = StatusView;

    open spec fn view(&self) -> StatusView {
        StatusView {
            service_name: self.service_name@,
            is_online: self.is_online,
            latency_ms: self.latency_ms,
            timestamp: self.timestamp,
        }
    }
}

impl DeepView for ServiceStatus {
    type V = StatusView;

    open spec fn deep_view(&self) -> StatusView {
        self@
    }
}

impl ServiceStatus {
    /// An observation of the service called `name`.
    pub fn new(
        name: &str,
        is_online: Option<bool>,
        latency_ms: u128,
        timestamp: Timestamp,
    ) -> (r: ServiceStatus)
        ensures
            r@ == (StatusView { service_name: name@, is_online, latency_ms, timestamp }),
    {
        ServiceStatus { service_name: String::from_str(name), is_online, latency_ms, timestamp }
    }

    /// A copy of this observation.
    pub fn duplicate(&self) -> (r: ServiceStatus)
        ensures
            r@ == self@,
    {
        ServiceStatus {
            service_name: self.service_name.clone(),
            is_online: self.is_online,
            latency_ms: self.latency_ms,
            timestamp: self.timestamp,
        }
    }
}

/// What the indicator of a server's card shows.
#[derive(Clone, Copy, Debug, PartialEq, Eq, Structural)]
pub enum Status {
    Online,
    Offline,
    Starting,
    Maintenance,
}

/// What the indicator shows for a state: online or offline after a
/// completed check, and nothing, no data rather than an outage, where
/// the state is unknown.
pub open spec fn shown_status(is_online: Option<bool>) -> Option<Status> {
    match is_online {
        Some(true) => Some(Status::Online),
        Some(false) => Some(Status::Offline),
        None => None,
    }
}

impl Status {
    /// What the indicator shows for the state `is_online`.
    pub fn of(is_online: Option<bool>) -> (shown: Option<Status>)
        ensures
            shown == shown_status(is_online),
            is_online is None ==> shown is None,
    {
        match is_online {
            Some(true) => Some(Status::Online),
            Some(false) => Some(Status::Offline),
            None => None,
        }
    }

    /// The word that the indicator shows.
    pub fn label(&self) -> (word: &'static str)
        ensures
            word@ == match *self {
                Status::Online => "Online"@,
                Status::Offline => "Offline"@,
                Status::Starting => "Starting"@,
                Status::Maintenance => "Maintenance"@,
            },
    {
        match self {
            Status::Online => "Online",
            Status::Offline => "Offline",
            Status::Starting => "Starting",
            Status::Maintenance => "Maintenance",
        }
    }
}

/// The state of one server as the event stream carries it.
#[derive(Clone, Debug, PartialEq)]
pub struct ServerStatus {
    pub name: String,
    pub server_type: String,
    pub online: bool,
    pub players: String,
    pub ping: u32,
    pub details: String,
    pub last_updated: String,
}

/// A `ServerStatus` as a mathematical value.
pub ghost struct ServerStatusView {
    pub name: Seq<char>,
    pub server_type: Seq<char>,
    pub online: bool,
    pub players: Seq<char>,
    pub ping: u32,
    pub details: Seq<char>,
    pub last_updated: Seq<char>,
}

impl View for ServerStatus {
    type V = ServerStatusView;

    open spec fn view(&self) -> ServerStatusView {
        ServerStatusView {
            name: self.name@,
            server_type: self.server_type@,
            online: self.online,
            players: self.players@,
            ping: self.ping,
            details: self.details@,
            last_updated: self.last_updated@,
        }
    }
}

impl ServerStatus {
    /// A copy of this state.
    pub fn duplicate(&self) -> (r: ServerStatus)
        ensures
            r@ == self@,
    {
        ServerStatus {
            name: self.name.clone(),
            server_type: self.server_type.clone(),
            online: self.online,
            players: self.players.clone(),
            ping: self.ping,
            details: self.details.clone(),
            last_updated: self.last_updated.clone(),
        }
    }
}

/// The state of a server that answered: `players` and `details` as given,
/// no ping measured.
pub fn online_status(
    name: String,
    s_type: &str,
    players: String,
    details: &str,
    time: String,
) -> (r: ServerStatus)
    ensures
        r@ == (ServerStatusView {
            name: name@,
            server_type: s_type@,
            online: true,
            players: players@,
            ping: 0,
            details: details@,
            last_updated: time@,
        }),
{
    ServerStatus {
        name,
        server_type: String::from_str(s_type),
        online: true,
        players,
        ping: 0,
        details: String::from_str(details),
        last_updated: time,
    }
}

/// The state of a server that a completed check found unreachable:
/// no players, no ping, and `error` as the cause.
pub fn offline_status(name: String, s_type: &str, error: String, time: String) -> (r: ServerStatus)
    ensures
        r@ == (ServerStatusView {
            name: name@,
            server_type: s_type@,
            online: false,
            players: "-/-"@,
            ping: 0,
            details: "Offline: "@ + error@,
            last_updated: time@,
        }),
{
    ServerStatus {
        name,
        server_type: String::from_str(s_type),
        online: false,
        players: String::from_str("-/-"),
        ping: 0,
        details: String::from_str("Offline: ").concat(error.as_str()),
        last_updated: time,
    }
}

/// The state of a server of which nothing is known because the check could
/// not be made: not reported online, no players, no ping, and `cause` as
/// the reason.
pub fn unknown_status(name: String, s_type: &str, cause: String, time: String) -> (r: ServerStatus)
    ensures
        r@ == (ServerStatusView {
            name: name@,
            server_type: s_type@,
            online: false,
            players: "-/-"@,
            ping: 0,
            details: "Unknown: "@ + cause@,
            last_updated: time@,
        }),
{
    ServerStatus {
        name,
        server_type: String::from_str(s_type),
        online: false,
        players: String::from_str("-/-"),
        ping: 0,
        details: String::from_str("Unknown: ").concat(cause.as_str()),
        last_updated: time,
    }
}

} // verus!
