//! The durable format of the history: a header line, then one line per
//! round,
//!
//! ```text
//! timestamp,terraria_online,terraria_latency,hytale_online,hytale_latency
//! ```
//!
//! with the timestamp in RFC 3339, `true`, `false` or nothing for online,
//! offline or unknown, and the latency in milliseconds.

use crate::history::{all_timed, History, HistoryView};
use crate::status::{ServiceStatus, StatusView};
use crate::text::{
    chars_of, cut_as, decimal_digits, is_blank, is_digit, lacks, lemma_decimal_digits,
    lemma_lines_of_concat, lemma_lines_of_one, lemma_not_blank, lemma_split_first,
    lemma_split_last, lemma_trimmed_tight, lemma_unsigned_value_of_digits, line_ranges, lines_of,
    parse_unsigned, push_decimal, range_is, split_on, split_range, text_of_range, trim_range,
    trimmed, unsigned_value,
};
use crate::timestamp::{instant_of, is_instant_char, rfc3339_text, Timestamp};
use vstd::prelude::*;

verus! {

// ---------------------------------------------------------------------
// Fields
// ---------------------------------------------------------------------

/// The state that an online field denotes. Anything but `true` and
/// `false`, an empty field too, is the unknown state.
pub open spec fn tri_state_of(field: Seq<char>) -> Option<bool> {
    let word = trimmed(field);
    if word == "true"@ {
        Some(true)
    } else if word == "false"@ {
        Some(false)
    } else {
        None
    }
}

/// The latency that a latency field denotes: its number, or 0 where it
/// holds none that fits.
pub open spec fn latency_of(field: Seq<char>) -> u128 {
    match unsigned_value(field, u128::MAX as nat) {
        Some(v) => v as u128,
        None => 0,
    }
}

/// The online field of a state.
pub open spec fn tri_state_text(state: Option<bool>) -> Seq<char> {
    match state {
        Some(true) => "true"@,
        Some(false) => "false"@,
        None => Seq::empty(),
    }
}

/// The observation of the service called `name` that a line makes at
/// `timestamp` from an online field and a latency field.
pub open spec fn observed(
    name: Seq<char>,
    timestamp: Timestamp,
    online: Seq<char>,
    latency: Seq<char>,
) -> StatusView {
    StatusView {
        service_name: name,
        is_online: tri_state_of(online),
        latency_ms: latency_of(latency),
        timestamp,
    }
}

// ---------------------------------------------------------------------
// Lines
// ---------------------------------------------------------------------

/// What a line of the format holds.
pub ghost enum LineView {
    /// Nothing: the line is blank or has fewer than five fields.
    Skipped,
    /// Five fields or more, the first of which is no timestamp.
    Malformed,
    /// One round.
    Round { terraria: StatusView, hytale: StatusView },
}

/// What `line` holds.
pub open spec fn line_view(line: Seq<char>) -> LineView {
    let fields = split_on(line, ',');
    if is_blank(line) || fields.len() < 5 {
        LineView::Skipped
    } else {
        match instant_of(fields[0]) {
            None => LineView::Malformed,
            Some(at) => LineView::Round {
                terraria: observed("Terraria"@, at, fields[1], fields[2]),
                hytale: observed("Hytale"@, at, fields[3], fields[4]),
            },
        }
    }
}

/// What a line of the format holds.
#[derive(Clone, Debug, PartialEq)]
pub enum Line {
    /// Nothing: the line is blank or has fewer than five fields.
    Skipped,
    /// Five fields or more, the first of which is no timestamp.
    Malformed,
    /// One round.
    Round { terraria: ServiceStatus, hytale: ServiceStatus },
}

impl View for Line {
    type V = LineView;

    open spec fn view(&self) -> LineView {
        match self {
            Line::Skipped => LineView::Skipped,
            Line::Malformed => LineView::Malformed,
            Line::Round { terraria, hytale } => LineView::Round {
                terraria: terraria@,
                hytale: hytale@,
            },
        }
    }
}

/// The state that the online field `chars[start..end]` denotes.
fn read_tri_state(chars: &Vec<char>, start: usize, end: usize) -> (r: Option<bool>)
    requires
        start <= end <= chars@.len(),
    ensures
        r == tri_state_of(chars@.subrange(start as int, end as int)),
{
    let (lo, hi) = trim_range(chars, start, end);
    if range_is(chars, lo, hi, "true") {
        Some(true)
    } else if range_is(chars, lo, hi, "false") {
        Some(false)
    } else {
        None
    }
}

/// The latency that the latency field `chars[start..end]` denotes.
fn read_latency(chars: &Vec<char>, start: usize, end: usize) -> (r: u128)
    requires
        start <= end <= chars@.len(),
    ensures
        r == latency_of(chars@.subrange(start as int, end as int)),
{
    match parse_unsigned(chars, start, end) {
        Some(v) => v,
        None => 0,
    }
}

/// What the line `chars[start..end]` holds.
pub fn read_line(chars: &Vec<char>, start: usize, end: usize) -> (r: Line)
    requires
        start <= end <= chars@.len(),
    ensures
        r@ == line_view(chars@.subrange(start as int, end as int)),
{
    let ghost line = chars@.subrange(start as int, end as int);
    let (lo, hi) = trim_range(chars, start, end);
    if lo == hi {
        return Line::Skipped;
    }
    let fields = split_range(chars, start, end, ',');
    if fields.len() < 5 {
        return Line::Skipped;
    }
    let ghost parts = split_on(line, ',');
    let stamp = text_of_range(chars, fields[0].0, fields[0].1);
    assert(stamp@ == parts[0]);
    let at = match Timestamp::parse_from_rfc3339(stamp.as_str()) {
        Some(at) => at,
        None => {
            return Line::Malformed;
        },
    };
    let t_online = read_tri_state(chars, fields[1].0, fields[1].1);
    let t_latency = read_latency(chars, fields[2].0, fields[2].1);
    let h_online = read_tri_state(chars, fields[3].0, fields[3].1);
    let h_latency = read_latency(chars, fields[4].0, fields[4].1);
    assert(chars@.subrange(fields[1].0 as int, fields[1].1 as int) == parts[1]);
    assert(chars@.subrange(fields[2].0 as int, fields[2].1 as int) == parts[2]);
    assert(chars@.subrange(fields[3].0 as int, fields[3].1 as int) == parts[3]);
    assert(chars@.subrange(fields[4].0 as int, fields[4].1 as int) == parts[4]);
    Line::Round {
        terraria: ServiceStatus::new("Terraria", t_online, t_latency, at),
        hytale: ServiceStatus::new("Hytale", h_online, h_latency, at),
    }
}

/// What `line` holds.
pub fn parse_line(line: &str) -> (r: Line)
    ensures
        r@ == line_view(line@),
{
    let chars = chars_of(line);
    assert(chars@.subrange(0, chars@.len() as int) =~= line@);
    read_line(&chars, 0, chars.len())
}

// ---------------------------------------------------------------------
// Documents
// ---------------------------------------------------------------------

/// The rounds that `lines` hold, in order. The first line is the header
/// and holds none; nor does a line that is skipped or malformed.
pub open spec fn rounds_of(lines: Seq<Seq<char>>) -> HistoryView
    decreases lines.len(),
{
    if lines.len() <= 1 {
        HistoryView { terraria: Seq::empty(), hytale: Seq::empty() }
    } else {
        let before = rounds_of(lines.drop_last());
        match line_view(lines.last()) {
            LineView::Round { terraria, hytale } => HistoryView {
                terraria: before.terraria.push(terraria),
                hytale: before.hytale.push(hytale),
            },
            _ => before,
        }
    }
}

/// Whether line `i` of `lines` is a malformed line after the header.
pub open spec fn malformed_at(lines: Seq<Seq<char>>, i: int) -> bool {
    1 <= i < lines.len() && line_view(lines[i]) is Malformed
}

/// Why a document cannot be read as a history.
#[derive(Clone, Copy, Debug, PartialEq, Eq, Structural)]
pub enum DecodeError {
    /// The line with this index, counted from 0, has five fields or more
    /// and no timestamp in the first.
    BadTimestamp { line: usize },
}

impl DecodeError {
    /// The error in words.
    pub fn describe(&self) -> (r: String)
        ensures
            r@ == match *self {
                DecodeError::BadTimestamp { line } => "no timestamp in line "@ + decimal_digits(
                    line as nat,
                ),
            },
    {
        match self {
            DecodeError::BadTimestamp { line } => {
                let mut r = String::from_str("no timestamp in line ");
                push_decimal(&mut r, *line as u128);
                r
            },
        }
    }
}

/// What reading a document as a history gives: the rounds of its lines,
/// or the first malformed line.
pub open spec fn decoded(content: Seq<char>, r: Result<HistoryView, DecodeError>) -> bool {
    let lines = lines_of(content);
    match r {
        Ok(history) => {
            &&& forall|i: int| !malformed_at(lines, i)
            &&& history == rounds_of(lines)
        },
        Err(DecodeError::BadTimestamp { line }) => {
            &&& malformed_at(lines, line as int)
            &&& forall|i: int| 0 <= i < line ==> !malformed_at(lines, i)
        },
    }
}

/// Every observation read from a document carries a valid instant.
pub proof fn lemma_rounds_are_timed(lines: Seq<Seq<char>>)
    ensures
        all_timed(rounds_of(lines).terraria),
        all_timed(rounds_of(lines).hytale),
    decreases lines.len(),
{
    if lines.len() > 1 {
        lemma_rounds_are_timed(lines.drop_last());
        let before = rounds_of(lines.drop_last());
        match line_view(lines.last()) {
            LineView::Round { terraria, hytale } => {
                assert forall|i: int| 0 <= i < rounds_of(lines).terraria.len() implies (
                #[trigger] rounds_of(lines).terraria[i]).timestamp.is_valid() by {
                    if i < before.terraria.len() {
                        assert(rounds_of(lines).terraria[i] == before.terraria[i]);
                    }
                }
                assert forall|i: int| 0 <= i < rounds_of(lines).hytale.len() implies (
                #[trigger] rounds_of(lines).hytale[i]).timestamp.is_valid() by {
                    if i < before.hytale.len() {
                        assert(rounds_of(lines).hytale[i] == before.hytale[i]);
                    }
                }
            },
            _ => {},
        }
    }
}

/// What is read from a document is aligned: both services have as many
/// observations, made at the same instants, under their own names.
pub proof fn lemma_rounds_are_aligned(lines: Seq<Seq<char>>)
    ensures
        is_aligned(rounds_of(lines)),
    decreases lines.len(),
{
    if lines.len() > 1 {
        lemma_rounds_are_aligned(lines.drop_last());
        let before = rounds_of(lines.drop_last());
        let after = rounds_of(lines);
        match line_view(lines.last()) {
            LineView::Round { terraria, hytale } => {
                assert forall|i: int| 0 <= i < after.terraria.len() implies {
                    &&& (#[trigger] after.terraria[i]).service_name == "Terraria"@
                    &&& after.hytale[i].service_name == "Hytale"@
                    &&& after.terraria[i].timestamp == after.hytale[i].timestamp
                } by {
                    if i < before.terraria.len() {
                        assert(after.terraria[i] == before.terraria[i]);
                        assert(after.hytale[i] == before.hytale[i]);
                    }
                }
            },
            _ => {},
        }
    }
}

/// The history that `chars` hold, with the index of the first malformed
/// line where there is one. `strict` says whether reading stops there.
fn read_document(chars: &Vec<char>, strict: bool) -> (r: (History, Option<usize>))
    ensures
        match r.1 {
            Some(line) => {
                &&& malformed_at(lines_of(chars@), line as int)
                &&& forall|i: int| 0 <= i < line ==> !malformed_at(lines_of(chars@), i)
            },
            None => forall|i: int| !malformed_at(lines_of(chars@), i),
        },
        !strict || r.1 is None ==> r.0@ == rounds_of(lines_of(chars@)),
{
    let ranges = line_ranges(chars);
    let ghost lines = lines_of(chars@);
    let mut history = History::new();
    let mut first_bad: Option<usize> = None;
    let mut i: usize = 0;
    assert(lines.take(0) =~= Seq::<Seq<char>>::empty());
    while i < ranges.len()
        invariant
            i <= ranges.len(),
            lines == lines_of(chars@),
            cut_as(chars@, ranges@, lines),
            history@ == rounds_of(lines.take(i as int)),
            match first_bad {
                Some(line) => {
                    &&& line < i
                    &&& malformed_at(lines, line as int)
                    &&& forall|j: int| 0 <= j < line ==> !malformed_at(lines, j)
                    &&& !strict
                },
                None => forall|j: int| 0 <= j < i ==> !malformed_at(lines, j),
            },
        decreases ranges.len() - i,
    {
        let ghost before = lines.take(i as int);
        let ghost upto = lines.take(i + 1);
        proof {
            assert(upto.drop_last() =~= before);
            assert(upto.last() == lines[i as int]);
        }
        if i > 0 {
            let (start, end) = ranges[i];
            match read_line(chars, start, end) {
                Line::Round { terraria, hytale } => {
                    let ghost was = history@;
                    history.terraria.push(terraria);
                    history.hytale.push(hytale);
                    proof {
                        assert(history@.terraria =~= was.terraria.push(terraria@));
                        assert(history@.hytale =~= was.hytale.push(hytale@));
                    }
                },
                Line::Malformed => {
                    if first_bad.is_none() {
                        first_bad = Some(i);
                        if strict {
                            return (history, first_bad);
                        }
                    }
                },
                Line::Skipped => {},
            }
        }
        i += 1;
    }
    assert(lines.take(ranges.len() as int) =~= lines);
    (history, first_bad)
}

/// Reads a document as a history. A document with a malformed line is
/// refused; lines that are blank or too short are passed over.
pub fn decode_history(content: &str) -> (r: Result<History, DecodeError>)
    ensures
        decoded(
            content@,
            match r {
                Ok(history) => Ok(history@),
                Err(e) => Err(e),
            },
        ),
        r matches Ok(history) ==> history@.is_timed() && is_aligned(history@),
{
    proof {
        lemma_rounds_are_timed(lines_of(content@));
        lemma_rounds_are_aligned(lines_of(content@));
    }
    let chars = chars_of(content);
    let (history, first_bad) = read_document(&chars, true);
    match first_bad {
        Some(line) => Err(DecodeError::BadTimestamp { line }),
        None => Ok(history),
    }
}

/// Reads a document as a history, passing over every line that holds no
/// round.
pub fn parse_history_from_csv(csv_str: &str) -> (history: History)
    ensures
        history@ == rounds_of(lines_of(csv_str@)),
        history@.is_timed(),
        is_aligned(history@),
{
    proof {
        lemma_rounds_are_timed(lines_of(csv_str@));
        lemma_rounds_are_aligned(lines_of(csv_str@));
    }
    let chars = chars_of(csv_str);
    let (history, _) = read_document(&chars, false);
    history
}

// ---------------------------------------------------------------------
// Writing
// ---------------------------------------------------------------------

/// The header line.
pub open spec fn header() -> Seq<char> {
    "Timestamp,TerrariaOnline,TerrariaLatency,HytaleOnline,HytaleLatency"@
}

/// The line of one round whose timestamp is written `stamp`, without its
/// line feed.
pub open spec fn round_line_with(stamp: Seq<char>, terraria: StatusView, hytale: StatusView) -> Seq<
    char,
> {
    stamp + seq![','] + tri_state_text(terraria.is_online) + seq![','] + decimal_digits(
        terraria.latency_ms as nat,
    ) + seq![','] + tri_state_text(hytale.is_online) + seq![','] + decimal_digits(
        hytale.latency_ms as nat,
    )
}

/// The line of one round, without its line feed. The timestamp is that of
/// the first service's observation.
pub open spec fn round_line(terraria: StatusView, hytale: StatusView) -> Seq<char> {
    round_line_with(
        rfc3339_text(terraria.timestamp.secs, terraria.timestamp.nanos),
        terraria,
        hytale,
    )
}

/// The lines of the first `k` rounds of `history`, each with its line
/// feed.
pub open spec fn rounds_text(history: HistoryView, k: nat) -> Seq<char>
    decreases k,
{
    if k == 0 {
        Seq::empty()
    } else {
        rounds_text(history, (k - 1) as nat) + round_line(
            history.terraria[k - 1],
            history.hytale[k - 1],
        ) + seq!['\n']
    }
}

/// The document of `history`: the header, then a line for each round
/// that both services have an observation of.
pub open spec fn encoded(history: HistoryView) -> Seq<char> {
    header() + seq!['\n'] + rounds_text(history, history.rounds())
}

/// The observation that is read back for the service called `name` from a
/// round written at `timestamp`.
pub open spec fn reread(name: Seq<char>, timestamp: Timestamp, written: StatusView) -> StatusView {
    StatusView {
        service_name: name,
        is_online: written.is_online,
        latency_ms: written.latency_ms,
        timestamp,
    }
}

/// What a document keeps of `history`: the rounds that both services have
/// an observation of, each service under its own name, and for both the
/// instant of the first service's observation.
pub open spec fn kept(history: HistoryView) -> HistoryView {
    HistoryView {
        terraria: Seq::new(
            history.rounds(),
            |i: int| reread("Terraria"@, history.terraria[i].timestamp, history.terraria[i]),
        ),
        hytale: Seq::new(
            history.rounds(),
            |i: int| reread("Hytale"@, history.terraria[i].timestamp, history.hytale[i]),
        ),
    }
}

/// Whether a document keeps all of `history`: both services have as many
/// observations, made at the same instants, under their own names.
pub open spec fn is_aligned(history: HistoryView) -> bool {
    &&& history.terraria.len() == history.hytale.len()
    &&& forall|i: int|
        #![trigger history.terraria[i]]
        #![trigger history.hytale[i]]
        0 <= i < history.terraria.len() ==> {
            &&& history.terraria[i].service_name == "Terraria"@
            &&& history.hytale[i].service_name == "Hytale"@
            &&& history.terraria[i].timestamp == history.hytale[i].timestamp
        }
}

/// Whether the text written for `at` reads back as `at` and holds no
/// character that the format uses otherwise.
pub open spec fn writes_well(at: Timestamp) -> bool {
    let text = rfc3339_text(at.secs, at.nanos);
    &&& instant_of(text) == Some(at)
    &&& forall|i: int| 0 <= i < text.len() ==> is_instant_char(#[trigger] text[i])
}

/// The online field of a state reads back as that state, and holds no
/// comma and no line feed.
proof fn lemma_tri_state_text(state: Option<bool>)
    ensures
        tri_state_of(tri_state_text(state)) == state,
        lacks(tri_state_text(state), ','),
        lacks(tri_state_text(state), '\n'),
{
    reveal_strlit("true");
    reveal_strlit("false");
    let word = tri_state_text(state);
    lemma_trimmed_tight(word);
    assert("true"@.len() != "false"@.len());
}

/// Decimal digits hold no comma, no line feed and no carriage return.
proof fn lemma_digits_plain(n: nat)
    ensures
        lacks(decimal_digits(n), ','),
        lacks(decimal_digits(n), '\n'),
        decimal_digits(n).len() > 0,
        decimal_digits(n).last() != '\r',
{
    lemma_decimal_digits(n);
    let s = decimal_digits(n);
    assert forall|i: int| 0 <= i < s.len() implies s[i] != ',' && s[i] != '\n' by {
        assert(is_digit(s[i]));
    }
    assert(is_digit(s[s.len() - 1]));
}

/// The line written for a round reads back as that round.
proof fn lemma_round_line(terraria: StatusView, hytale: StatusView)
    requires
        writes_well(terraria.timestamp),
    ensures
        line_view(round_line(terraria, hytale)) == (LineView::Round {
            terraria: reread("Terraria"@, terraria.timestamp, terraria),
            hytale: reread("Hytale"@, terraria.timestamp, hytale),
        }),
        lacks(round_line(terraria, hytale), '\n'),
        round_line(terraria, hytale).len() > 0,
        round_line(terraria, hytale).last() != '\r',
{
    let stamp = rfc3339_text(terraria.timestamp.secs, terraria.timestamp.nanos);
    let a = tri_state_text(terraria.is_online);
    let b = decimal_digits(terraria.latency_ms as nat);
    let c = tri_state_text(hytale.is_online);
    let d = decimal_digits(hytale.latency_ms as nat);
    let line = round_line(terraria, hytale);
    lemma_tri_state_text(terraria.is_online);
    lemma_tri_state_text(hytale.is_online);
    lemma_digits_plain(terraria.latency_ms as nat);
    lemma_digits_plain(hytale.latency_ms as nat);
    lemma_unsigned_value_of_digits(terraria.latency_ms as nat, u128::MAX as nat);
    lemma_unsigned_value_of_digits(hytale.latency_ms as nat, u128::MAX as nat);
    assert forall|i: int| 0 <= i < stamp.len() implies stamp[i] != ',' && stamp[i] != '\n' by {
        assert(is_instant_char(stamp[i]));
    }
    let tail3 = c + seq![','] + d;
    let tail2 = b + seq![','] + tail3;
    let tail1 = a + seq![','] + tail2;
    assert(line =~= stamp + seq![','] + tail1);
    lemma_split_first(stamp, tail1, ',');
    lemma_split_first(a, tail2, ',');
    lemma_split_first(b, tail3, ',');
    lemma_split_first(c, d, ',');
    lemma_split_last(d, ',');
    let fields = split_on(line, ',');
    assert(fields =~= seq![stamp, a, b, c, d]);
    assert(line[stamp.len() as int] == ',');
    lemma_not_blank(line, stamp.len() as int);
    assert(line.last() == d.last());
}

/// The rounds of `history` as lines.
pub open spec fn round_lines(history: HistoryView, k: nat) -> Seq<Seq<char>> {
    Seq::new(k, |i: int| round_line(history.terraria[i], history.hytale[i]))
}

/// The header is one line.
proof fn lemma_header_plain()
    ensures
        lacks(header(), '\n'),
        header().len() > 0,
        header().last() != '\r',
{
    reveal_strlit("Timestamp,TerrariaOnline,TerrariaLatency,HytaleOnline,HytaleLatency");
}

/// The lines of a document are its header and the lines of its rounds.
proof fn lemma_lines_of_rounds(history: HistoryView, k: nat)
    requires
        k <= history.rounds(),
        forall|i: int| 0 <= i < k ==> writes_well(#[trigger] history.terraria[i].timestamp),
    ensures
        lines_of(header() + seq!['\n'] + rounds_text(history, k)) == seq![header()] + round_lines(
            history,
            k,
        ),
        (header() + seq!['\n'] + rounds_text(history, k)).last() == '\n',
    decreases k,
{
    let head = header() + seq!['\n'];
    if k == 0 {
        lemma_header_plain();
        lemma_lines_of_one(header());
        assert(head + rounds_text(history, 0) =~= head);
        assert(seq![header()] + round_lines(history, 0) =~= seq![header()]);
    } else {
        let before = (k - 1) as nat;
        lemma_lines_of_rounds(history, before);
        let line = round_line(history.terraria[k - 1], history.hytale[k - 1]);
        assert(writes_well(history.terraria[k - 1].timestamp));
        lemma_round_line(history.terraria[k - 1], history.hytale[k - 1]);
        lemma_lines_of_one(line);
        let sofar = head + rounds_text(history, before);
        lemma_lines_of_concat(sofar, line + seq!['\n']);
        assert(head + rounds_text(history, k) =~= sofar + (line + seq!['\n']));
        assert(seq![header()] + round_lines(history, before) + seq![line] =~= seq![header()]
            + round_lines(history, k));
    }
}

/// The lines of the rounds of a history read back as what a document
/// keeps of them, and none of them is malformed.
proof fn lemma_rounds_of_lines(history: HistoryView, k: nat)
    requires
        k <= history.rounds(),
        forall|i: int| 0 <= i < k ==> writes_well(#[trigger] history.terraria[i].timestamp),
    ensures
        rounds_of(seq![header()] + round_lines(history, k)).terraria == kept(history).terraria.take(
            k as int,
        ),
        rounds_of(seq![header()] + round_lines(history, k)).hytale == kept(history).hytale.take(
            k as int,
        ),
        forall|i: int| !malformed_at(seq![header()] + round_lines(history, k), i),
    decreases k,
{
    let lines = seq![header()] + round_lines(history, k);
    if k == 0 {
        assert(rounds_of(lines).terraria =~= kept(history).terraria.take(0));
        assert(rounds_of(lines).hytale =~= kept(history).hytale.take(0));
    } else {
        let before = (k - 1) as nat;
        lemma_rounds_of_lines(history, before);
        let shorter = seq![header()] + round_lines(history, before);
        assert(lines.drop_last() =~= shorter);
        assert(lines.last() == round_line(history.terraria[k - 1], history.hytale[k - 1]));
        assert(writes_well(history.terraria[k - 1].timestamp));
        lemma_round_line(history.terraria[k - 1], history.hytale[k - 1]);
        assert(rounds_of(lines).terraria =~= kept(history).terraria.take(k as int));
        assert(rounds_of(lines).hytale =~= kept(history).hytale.take(k as int));
        assert forall|i: int| !malformed_at(lines, i) by {
            if 1 <= i < lines.len() - 1 {
                assert(lines[i] == shorter[i]);
                assert(!malformed_at(shorter, i));
            }
        }
    }
}

/// Writing a history and reading the document back gives what a document
/// keeps of the history, whenever the text of each instant written reads
/// back as that instant.
pub proof fn lemma_round_trip(history: HistoryView)
    requires
        forall|i: int|
            0 <= i < history.rounds() ==> writes_well(#[trigger] history.terraria[i].timestamp),
    ensures
        decoded(encoded(history), Ok(kept(history))),
        lines_of(encoded(history)).len() == history.rounds() + 1,
{
    let k = history.rounds();
    lemma_lines_of_rounds(history, k);
    lemma_rounds_of_lines(history, k);
    assert(kept(history).terraria.take(k as int) =~= kept(history).terraria);
    assert(kept(history).hytale.take(k as int) =~= kept(history).hytale);
}

/// A document keeps all of an aligned history.
pub proof fn lemma_kept_aligned(history: HistoryView)
    requires
        is_aligned(history),
    ensures
        kept(history) == history,
{
    assert(kept(history).terraria =~= history.terraria);
    assert(kept(history).hytale =~= history.hytale);
}

/// The online field of a state.
fn tri_state_word(state: Option<bool>) -> (word: &'static str)
    ensures
        word@ == tri_state_text(state),
{
    proof {
        reveal_strlit("");
    }
    let word = match state {
        Some(true) => "true",
        Some(false) => "false",
        None => "",
    };
    assert(word@ =~= tri_state_text(state));
    word
}

/// Appends the line of one round, whose timestamp is written `stamp`, and
/// its line feed.
pub fn push_round(out: &mut String, stamp: &str, terraria: &ServiceStatus, hytale: &ServiceStatus)
    ensures
        final(out)@ == old(out)@ + round_line_with(stamp@, terraria@, hytale@) + seq!['\n'],
{
    proof {
        reveal_strlit("\n");
        reveal_strlit(",");
    }
    out.append(stamp);
    out.append(",");
    out.append(tri_state_word(terraria.is_online));
    out.append(",");
    push_decimal(out, terraria.latency_ms);
    out.append(",");
    out.append(tri_state_word(hytale.is_online));
    out.append(",");
    push_decimal(out, hytale.latency_ms);
    out.append("\n");
    assert(out@ =~= old(out)@ + round_line_with(stamp@, terraria@, hytale@) + seq!['\n']);
}

/// Writes `history` as a document: the header and one line for each
/// round. Reading the document back gives what it keeps of the history:
/// all of it, where the history is aligned.
pub fn encode_history(history: &History) -> (out: String)
    requires
        all_timed(history@.terraria),
    ensures
        out@ == encoded(history@),
        lines_of(out@).len() == history@.rounds() + 1,
        decoded(out@, Ok(kept(history@))),
        is_aligned(history@) ==> decoded(out@, Ok(history@)),
{
    let len: usize = if history.terraria.len() <= history.hytale.len() {
        history.terraria.len()
    } else {
        history.hytale.len()
    };
    let mut out = String::from_str(
        "Timestamp,TerrariaOnline,TerrariaLatency,HytaleOnline,HytaleLatency",
    );
    out.append("\n");
    proof {
        reveal_strlit("\n");
        assert(out@ =~= header() + seq!['\n'] + rounds_text(history@, 0));
    }
    let mut i: usize = 0;
    while i < len
        invariant
            i <= len == history@.rounds(),
            len <= history.terraria@.len(),
            len <= history.hytale@.len(),
            all_timed(history@.terraria),
            out@ == header() + seq!['\n'] + rounds_text(history@, i as nat),
            forall|j: int| 0 <= j < i ==> writes_well(#[trigger] history@.terraria[j].timestamp),
        decreases len - i,
    {
        let t = &history.terraria[i];
        let h = &history.hytale[i];
        let ghost start = out@;
        proof {
            assert(history@.terraria[i as int] == t@);
            assert(history@.hytale[i as int] == h@);
            assert(t@.timestamp.is_valid());
        }
        let stamp = t.timestamp.to_rfc3339();
        push_round(&mut out, stamp.as_str(), t, h);
        proof {
            assert(start + round_line(t@, h@) + seq!['\n'] =~= header() + seq!['\n'] + rounds_text(
                history@,
                (i + 1) as nat,
            ));
            assert(writes_well(t@.timestamp));
        }
        i += 1;
    }
    proof {
        lemma_round_trip(history@);
        if is_aligned(history@) {
            lemma_kept_aligned(history@);
        }
    }
    out
}

} // verus!
