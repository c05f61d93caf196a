//! Health probing, result distribution and bounded history for a small set
//! of game servers.
//!
//! - [`probe`] says which probe a server gets and what its attempts amount
//!   to; [`handshake`] builds the datagram of the handshake probe.
//! - [`status`] holds the observations; [`history`] keeps the bounded
//!   history of the two monitored services and derives uptime and chart
//!   from it; [`codec`] reads and writes its durable format, with
//!   [`timestamp`] and [`text`] underneath; [`monitor`] is one round of
//!   the monitor.
//! - [`hub`] fans events out to subscribers without ever holding the
//!   producer up; [`watcher`] decides when a changed history file is
//!   published; [`board`] is what a viewer of single results keeps.
//! - [`config`] holds what the monitor is told to watch.
//!
//! Nothing here touches the network, the clock or the file system. All
//! but the random fields of a probe datagram is computed from arguments.

pub mod board;
pub mod codec;
pub mod config;
pub mod handshake;
pub mod history;
pub mod hub;
pub mod monitor;
pub mod probe;
pub mod status;
pub mod text;
pub mod timestamp;
pub mod watcher;
