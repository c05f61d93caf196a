//! What the monitor is told to watch, and what viewers are told of it.

use crate::probe::{kind_for, probe_kind, protocol_or_default, ProbeKind};
use crate::text::{
    chars_of, decimal_digits, lowercase_of, parse_unsigned, push_decimal, unsigned_value,
};
use vstd::prelude::*;

verus! {

/// The port of a Terraria server where none is given.
pub const DEFAULT_TERRARIA_PORT: u16 = 7777;

/// The port of a Hytale server where none is given.
pub const DEFAULT_HYTALE_PORT: u16 = 12345;

/// What the monitor watches, and where it keeps the history.
#[derive(Clone, Debug, PartialEq, Eq)]
pub struct MonitorConfig {
    pub terraria_host: String,
    pub terraria_port: u16,
    pub hytale_host: String,
    pub hytale_port: u16,
    pub history_path: String,
}

/// A `MonitorConfig` as a mathematical value.
pub ghost struct MonitorConfigView {
    pub terraria_host: Seq<char>,
    pub terraria_port: u16,
    pub hytale_host: Seq<char>,
    pub hytale_port: u16,
    pub history_path: Seq<char>,
}

impl View for MonitorConfig {
    type V = MonitorConfigView;

    open spec fn view(&self) -> MonitorConfigView {
        MonitorConfigView {
            terraria_host: self.terraria_host@,
            terraria_port: self.terraria_port,
            hytale_host: self.hytale_host@,
            hytale_port: self.hytale_port,
            history_path: self.history_path@,
        }
    }
}

/// The setting `given`, or `default` where none is given.
pub open spec fn text_or(given: Option<Seq<char>>, default: Seq<char>) -> Seq<char> {
    match given {
        Some(text) => text,
        None => default,
    }
}

/// The port that the setting `given` names, or `default` where none is
/// given or what is given is no port number.
pub open spec fn port_or(given: Option<Seq<char>>, default: u16) -> u16 {
    match given {
        Some(text) => match unsigned_value(text, u16::MAX as nat) {
            Some(port) => port as u16,
            None => default,
        },
        None => default,
    }
}

/// The views of an optional text.
pub open spec fn given_view(given: Option<String>) -> Option<Seq<char>> {
    match given {
        Some(text) => Some(text@),
        None => None,
    }
}

/// The setting `given`, or `default` where none is given.
pub fn setting_or(given: Option<String>, default: &str) -> (r: String)
    ensures
        r@ == text_or(given_view(given), default@),
{
    match given {
        Some(text) => text,
        None => String::from_str(default),
    }
}

/// The port that the setting `given` names, or `default`.
pub fn port_setting_or(given: &Option<String>, default: u16) -> (r: u16)
    ensures
        r == port_or(given_view(*given), default),
{
    match given {
        Some(text) => {
            let chars = chars_of(text.as_str());
            assert(chars@.subrange(0, chars@.len() as int) =~= text@);
            match parse_unsigned(&chars, 0, chars.len()) {
                Some(port) => if port <= u16::MAX as u128 {
                    port as u16
                } else {
                    default
                },
                None => default,
            }
        },
        None => default,
    }
}

/// The configuration that the settings of the environment make: hosts
/// default to the local host, ports to the usual port of each game, and
/// the history to a file in the working directory.
pub fn load_config(
    terraria_host: Option<String>,
    terraria_port: Option<String>,
    hytale_host: Option<String>,
    hytale_port: Option<String>,
    history_file_path: Option<String>,
) -> (config: MonitorConfig)
    ensures
        config@ == (MonitorConfigView {
            terraria_host: text_or(given_view(terraria_host), "127.0.0.1"@),
            terraria_port: port_or(given_view(terraria_port), DEFAULT_TERRARIA_PORT),
            hytale_host: text_or(given_view(hytale_host), "127.0.0.1"@),
            hytale_port: port_or(given_view(hytale_port), DEFAULT_HYTALE_PORT),
            history_path: text_or(given_view(history_file_path), "status-history.csv"@),
        }),
{
    let t_port = port_setting_or(&terraria_port, DEFAULT_TERRARIA_PORT);
    let h_port = port_setting_or(&hytale_port, DEFAULT_HYTALE_PORT);
    MonitorConfig {
        terraria_host: setting_or(terraria_host, "127.0.0.1"),
        terraria_port: t_port,
        hytale_host: setting_or(hytale_host, "127.0.0.1"),
        hytale_port: h_port,
        history_path: setting_or(history_file_path, "status-history.csv"),
    }
}

/// The address `host:port` as text.
pub open spec fn address_of(host: Seq<char>, port: u16) -> Seq<char> {
    host + seq![':'] + decimal_digits(port as nat)
}

/// The address `host:port` as text.
pub fn address_text(host: &str, port: u16) -> (r: String)
    ensures
        r@ == address_of(host@, port),
{
    let mut r = String::from_str(host);
    r.append(":");
    push_decimal(&mut r, port as u128);
    proof {
        reveal_strlit(":");
    }
    r
}

/// The addresses that viewers are told: where players reach each server.
#[derive(Clone, Debug, PartialEq, Eq)]
pub struct PublicConfig {
    pub terraria: String,
    pub hytale: String,
}

impl PublicConfig {
    /// The public addresses of the servers that `config` names.
    pub fn of(config: &MonitorConfig) -> (public: PublicConfig)
        ensures
            public.terraria@ == address_of(config@.terraria_host, config@.terraria_port),
            public.hytale@ == address_of(config@.hytale_host, config@.hytale_port),
    {
        PublicConfig {
            terraria: address_text(config.terraria_host.as_str(), config.terraria_port),
            hytale: address_text(config.hytale_host.as_str(), config.hytale_port),
        }
    }
}

impl Default for PublicConfig {
    fn default() -> (public: PublicConfig)
        ensures
            public.terraria@ == Seq::<char>::empty(),
            public.hytale@ == Seq::<char>::empty(),
    {
        PublicConfig { terraria: String::new(), hytale: String::new() }
    }
}

/// One server of the event stream, as the configuration file names it.
#[derive(Clone, Debug, PartialEq, Eq)]
pub struct ServerConfigItem {
    pub name: String,
    pub host: String,
    pub port: u16,
    pub server_type: String,
    pub protocol: Option<String>,
}

impl ServerConfigItem {
    /// The probe that checks this server.
    pub fn kind(&self) -> (kind: ProbeKind)
        ensures
            kind == kind_for(
                self.server_type@,
                lowercase_of(protocol_or_default(given_view(self.protocol))),
            ),
    {
        match &self.protocol {
            Some(protocol) => probe_kind(self.server_type.as_str(), Some(protocol.as_str())),
            None => probe_kind(self.server_type.as_str(), None),
        }
    }
}

/// How a game's card looks.
#[derive(Clone, Copy, Debug, PartialEq, Eq)]
pub struct GameCardConfig {
    pub name: &'static str,
    pub background_image: &'static str,
    pub border_class: &'static str,
    pub logo: &'static str,
}

/// The card of the Terraria server.
pub fn terraria_card() -> (card: GameCardConfig)
    ensures
        card.name@ == "Terraria Server"@,
        card.background_image@ == "images/terraria-card-bg.jpg"@,
        card.border_class@ == "border-brown"@,
        card.logo@ == "images/terraria-logo.jpg"@,
{
    GameCardConfig {
        name: "Terraria Server",
        background_image: "images/terraria-card-bg.jpg",
        border_class: "border-brown",
        logo: "images/terraria-logo.jpg",
    }
}

/// The card of the Hytale server.
pub fn hytale_card() -> (card: GameCardConfig)
    ensures
        card.name@ == "Hytale Server"@,
        card.background_image@ == "images/hytale-card-bg.jpg"@,
        card.border_class@ == "border-hytale"@,
        card.logo@ == "images/hytale-logo.png"@,
{
    GameCardConfig {
        name: "Hytale Server",
        background_image: "images/hytale-card-bg.jpg",
        border_class: "border-hytale",
        logo: "images/hytale-logo.png",
    }
}

} // verus!
