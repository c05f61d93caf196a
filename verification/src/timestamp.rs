//! Instants in UTC, as plain numbers, and their RFC 3339 text.
//!
//! The text form is chrono's. Its two functions stand behind the two
//! private wrappers at the end of this file; what they return is named
//! by `rfc3339_instant` and `rfc3339_text`.

use vstd::prelude::*;

verus! {

/// Seconds since the epoch of 0000-01-01T00:00:00Z.
pub const MIN_SECONDS: i64 = -62_167_219_200;

/// Seconds since the epoch of 9999-12-31T23:59:59Z.
pub const MAX_SECONDS: i64 = 253_402_300_799;

/// Whether `secs` and `nanos` denote an instant of the years 0000 to 9999:
/// the years that RFC 3339 can write. A nanosecond count of a thousand
/// million or more marks a leap second, and is in order only in the last
/// second of a minute.
pub open spec fn is_instant(secs: int, nanos: int) -> bool {
    &&& MIN_SECONDS <= secs <= MAX_SECONDS
    &&& 0 <= nanos < 2_000_000_000
    &&& (nanos >= 1_000_000_000 ==> secs % 60 == 59)
}

/// Whether RFC 3339 text of an instant in UTC may hold `c`.
pub open spec fn is_instant_char(c: char) -> bool {
    ||| 0x30 <= c as u32 <= 0x39
    ||| c == '-'
    ||| c == ':'
    ||| c == 'T'
    ||| c == '.'
    ||| c == '+'
}

/// An instant in UTC: whole seconds since 1970-01-01T00:00:00Z, leap
/// seconds not counted, and the nanoseconds since the start of that
/// second.
#[derive(Clone, Copy, Debug, PartialEq, Eq, Structural)]
pub struct Timestamp {
    pub secs: i64,
    pub nanos: u32,
}

impl Timestamp {
    /// Whether this is an instant of the years 0000 to 9999.
    pub open spec fn is_valid(self) -> bool {
        is_instant(self.secs as int, self.nanos as int)
    }

    /// Milliseconds since the epoch.
    pub open spec fn millis(self) -> int {
        self.secs * 1000 + self.nanos / 1_000_000
    }

    /// Whether this instant is earlier than `other`.
    pub open spec fn is_before(self, other: Timestamp) -> bool {
        self.secs < other.secs || (self.secs == other.secs && self.nanos < other.nanos)
    }

    /// Whether this instant is earlier than `other`.
    pub fn precedes(&self, other: &Timestamp) -> (r: bool)
        ensures
            r == self.is_before(*other),
    {
        self.secs < other.secs || (self.secs == other.secs && self.nanos < other.nanos)
    }

    /// The instant with these numbers, where they denote one.
    pub fn new(secs: i64, nanos: u32) -> (r: Option<Timestamp>)
        ensures
            r == if is_instant(secs as int, nanos as int) {
                Some(Timestamp { secs, nanos })
            } else {
                None
            },
    {
        if secs < MIN_SECONDS || secs > MAX_SECONDS || nanos >= 2_000_000_000 {
            return None;
        }
        if nanos >= 1_000_000_000 {
            let since_min: i64 = secs - MIN_SECONDS;
            assert(since_min % 60 == secs as int % 60);
            if since_min % 60 != 59 {
                return None;
            }
        }
        Some(Timestamp { secs, nanos })
    }

    /// Milliseconds since the epoch.
    pub fn timestamp_millis(&self) -> (r: i64)
        requires
            self.is_valid(),
        ensures
            r == self.millis(),
    {
        let sub: u32 = self.nanos / 1_000_000;
        self.secs * 1000 + sub as i64
    }

    /// The instant that RFC 3339 `text` denotes, where it denotes one of the
    /// years 0000 to 9999 in UTC.
    pub fn parse_from_rfc3339(text: &str) -> (r: Option<Timestamp>)
        ensures
            r == instant_of(text@),
    {
        Self::from_parsed(chrono_parse_rfc3339(text))
    }

    /// The instant with the numbers that a parser gave, where it gave any
    /// and they denote one.
    pub fn from_parsed(parsed: Option<(i64, u32)>) -> (r: Option<Timestamp>)
        ensures
            r == checked_instant(parsed),
    {
        match parsed {
            Some((secs, nanos)) => Timestamp::new(secs, nanos),
            None => None,
        }
    }

    /// This instant as RFC 3339 text. Reading the text back gives this
    /// instant, and the text holds digits and `- : T . +` only.
    pub fn to_rfc3339(&self) -> (out: String)
        requires
            self.is_valid(),
        ensures
            out@ == rfc3339_text(self.secs, self.nanos),
            instant_of(out@) == Some(*self),
            forall|i: int| 0 <= i < out@.len() ==> is_instant_char(#[trigger] out@[i]),
    {
        chrono_to_rfc3339(self.secs, self.nanos)
    }
}

/// The valid instant with the parsed numbers, if there is one.
pub open spec fn checked_instant(parsed: Option<(i64, u32)>) -> Option<Timestamp> {
    match parsed {
        Some((secs, nanos)) => if is_instant(secs as int, nanos as int) {
            Some(Timestamp { secs, nanos })
        } else {
            None
        },
        None => None,
    }
}

/// The valid instant that `text` denotes, if it denotes one.
pub open spec fn instant_of(text: Seq<char>) -> Option<Timestamp> {
    checked_instant(rfc3339_instant(text))
}

/// What `chrono::DateTime::parse_from_rfc3339` makes of `text`: the
/// instant, moved to UTC, as seconds since the epoch and nanoseconds
/// within the second; `None` where it rejects the text.
pub uninterp spec fn rfc3339_instant(text: Seq<char>) -> Option<(i64, u32)>;

/// The text that `chrono::DateTime::<Utc>::to_rfc3339` writes for the
/// instant with these numbers.
pub uninterp spec fn rfc3339_text(secs: i64, nanos: u32) -> Seq<char>;

/// Calls `chrono::DateTime::parse_from_rfc3339` and hands back the
/// instant as the numbers that `timestamp` and `timestamp_subsec_nanos`
/// give for it in UTC. Nothing is claimed but that the result is a
/// function of the text.
#[verifier::external_body]
fn chrono_parse_rfc3339(text: &str) -> (r: Option<(i64, u32)>)
    ensures
        r == rfc3339_instant(text@),
{
    match chrono::DateTime::parse_from_rfc3339(text) {
        Ok(at) => {
            let utc = at.with_timezone(&chrono::Utc);
            Some((utc.timestamp(), utc.timestamp_subsec_nanos()))
        },
        Err(_) => None,
    }
}

/// Calls `chrono::DateTime::from_timestamp` and then `to_rfc3339` on the
/// instant. Claimed of chrono, for instants of the years 0000 to 9999:
/// `from_timestamp` accepts the numbers; the text is a function of them;
/// `parse_from_rfc3339` reads the text back as the same instant; and the
/// text is made of a four-digit year, two-digit fields, an optional
/// fraction after a dot, and the offset `+00:00`, so of digits and
/// `- : T . +` only.
#[verifier::external_body]
fn chrono_to_rfc3339(secs: i64, nanos: u32) -> (out: String)
    requires
        is_instant(secs as int, nanos as int),
    ensures
        out@ == rfc3339_text(secs, nanos),
        rfc3339_instant(out@) == Some((secs, nanos)),
        forall|i: int| 0 <= i < out@.len() ==> is_instant_char(#[trigger] out@[i]),
{
    chrono::DateTime::from_timestamp(secs, nanos).unwrap().to_rfc3339()
}

} // verus!
