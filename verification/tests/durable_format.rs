use status_monitor::codec::{
    decode_history, encode_history, parse_history_from_csv, parse_line, push_round, read_line,
    DecodeError, Line,
};
use status_monitor::history::History;
use status_monitor::status::ServiceStatus;
use status_monitor::text::chars_of;
use status_monitor::timestamp::Timestamp;

fn at(secs: i64, nanos: u32) -> Timestamp {
    Timestamp::new(secs, nanos).unwrap()
}

fn round(line: &str) -> (ServiceStatus, ServiceStatus) {
    match parse_line(line) {
        Line::Round { terraria, hytale } => (terraria, hytale),
        other => panic!("no round in {:?}: {:?}", line, other),
    }
}

#[test]
fn line_with_empty_online_field_is_unknown() {
    let line = parse_line("2024-01-01T00:00:00Z,true,42,,0");
    let when = at(1_704_067_200, 0);
    assert_eq!(
        line,
        Line::Round {
            terraria: ServiceStatus::new("Terraria", Some(true), 42, when),
            hytale: ServiceStatus::new("Hytale", None, 0, when),
        }
    );
}

#[test]
fn online_field_is_trimmed_and_case_sensitive() {
    let (terraria, hytale) = round("2024-01-01T00:00:00Z, true\t,1,\u{a0}false ,2");
    assert_eq!(terraria.is_online, Some(true));
    assert_eq!(hytale.is_online, Some(false));
    let (terraria, hytale) = round("2024-01-01T00:00:00Z,TRUE,1,fal se,2");
    assert_eq!(terraria.is_online, None);
    assert_eq!(hytale.is_online, None);
}

#[test]
fn latency_field_is_a_plain_number_or_zero() {
    let (terraria, hytale) = round("2024-01-01T00:00:00Z,true,+15,true,007");
    assert_eq!(terraria.latency_ms, 15);
    assert_eq!(hytale.latency_ms, 7);
    let (terraria, hytale) = round("2024-01-01T00:00:00Z,true, 15,true,-3");
    assert_eq!(terraria.latency_ms, 0);
    assert_eq!(hytale.latency_ms, 0);
    let (terraria, hytale) = round(
        "2024-01-01T00:00:00Z,true,340282366920938463463374607431768211455,true,340282366920938463463374607431768211456",
    );
    assert_eq!(terraria.latency_ms, u128::MAX);
    assert_eq!(hytale.latency_ms, 0);
    let (terraria, hytale) = round("2024-01-01T00:00:00Z,true,,true,+");
    assert_eq!(terraria.latency_ms, 0);
    assert_eq!(hytale.latency_ms, 0);
}

#[test]
fn both_services_get_the_instant_of_the_line() {
    let (terraria, hytale) = round("2024-03-05T12:30:15.250+02:00,false,0,true,9,extra,fields");
    let when = at(1_709_634_615, 250_000_000);
    assert_eq!(terraria.timestamp, when);
    assert_eq!(hytale.timestamp, when);
    assert_eq!(terraria.service_name, "Terraria");
    assert_eq!(hytale.service_name, "Hytale");
}

#[test]
fn blank_and_short_lines_hold_nothing() {
    assert_eq!(parse_line(""), Line::Skipped);
    assert_eq!(parse_line(" \t "), Line::Skipped);
    assert_eq!(parse_line("2024-01-01T00:00:00Z,true,42,false"), Line::Skipped);
    assert_eq!(parse_line("not a time,true,42"), Line::Skipped);
}

#[test]
fn line_without_timestamp_is_malformed() {
    assert_eq!(parse_line("yesterday,true,42,false,0"), Line::Malformed);
    assert_eq!(parse_line(" 2024-01-01T00:00:00Z,true,42,false,0"), Line::Malformed);
    assert_eq!(parse_line(",,,,"), Line::Malformed);
}

#[test]
fn read_line_reads_only_its_range() {
    let chars = chars_of("xx2024-01-01T00:00:00Z,true,42,,0yy");
    let when = at(1_704_067_200, 0);
    assert_eq!(
        read_line(&chars, 2, chars.len() - 2),
        Line::Round {
            terraria: ServiceStatus::new("Terraria", Some(true), 42, when),
            hytale: ServiceStatus::new("Hytale", None, 0, when),
        }
    );
}

#[test]
fn history_round_trips_through_document() {
    let mut history = History::new();
    history.record(
        ServiceStatus::new("Terraria", Some(true), 17, at(1_704_067_200, 0)),
        ServiceStatus::new("Hytale", Some(false), 0, at(1_704_067_200, 0)),
    );
    history.record(
        ServiceStatus::new("Terraria", None, 0, at(1_704_067_260, 123_000_000)),
        ServiceStatus::new("Hytale", Some(true), u128::MAX, at(1_704_067_260, 123_000_000)),
    );
    let text = encode_history(&history);
    assert_eq!(
        text,
        "Timestamp,TerrariaOnline,TerrariaLatency,HytaleOnline,HytaleLatency\n\
         2024-01-01T00:00:00+00:00,true,17,false,0\n\
         2024-01-01T00:01:00.123+00:00,,0,true,340282366920938463463374607431768211455\n"
    );
    assert_eq!(decode_history(&text), Ok(history.clone()));
    assert_eq!(parse_history_from_csv(&text), history);
}

#[test]
fn empty_history_is_the_header_alone() {
    let text = encode_history(&History::new());
    assert_eq!(text, "Timestamp,TerrariaOnline,TerrariaLatency,HytaleOnline,HytaleLatency\n");
    assert_eq!(decode_history(&text), Ok(History::new()));
}

#[test]
fn document_keeps_the_rounds_that_both_services_have() {
    let mut history = History::new();
    history.terraria.push(ServiceStatus::new("one", Some(true), 1, at(10, 0)));
    history.terraria.push(ServiceStatus::new("two", Some(true), 2, at(20, 0)));
    history.hytale.push(ServiceStatus::new("three", Some(false), 3, at(99, 0)));
    let text = encode_history(&history);
    let mut kept = History::new();
    kept.terraria.push(ServiceStatus::new("Terraria", Some(true), 1, at(10, 0)));
    kept.hytale.push(ServiceStatus::new("Hytale", Some(false), 3, at(10, 0)));
    assert_eq!(decode_history(&text), Ok(kept));
}

#[test]
fn leap_second_round_trips() {
    let mut history = History::new();
    let leap = at(1_483_228_799, 1_250_000_000);
    history.record(
        ServiceStatus::new("Terraria", Some(true), 1, leap),
        ServiceStatus::new("Hytale", Some(true), 2, leap),
    );
    let text = encode_history(&history);
    assert!(text.ends_with("\n2016-12-31T23:59:60.250+00:00,true,1,true,2\n"));
    assert_eq!(decode_history(&text), Ok(history));
}

#[test]
fn bad_timestamp_is_refused_or_passed_over() {
    let text = "header\n\nshort,line\nnot-a-time,true,1,false,2\n2024-01-01T00:00:00Z, true ,+7,FALSE,x\r\n";
    assert_eq!(decode_history(text), Err(DecodeError::BadTimestamp { line: 3 }));
    let history = parse_history_from_csv(text);
    assert_eq!(
        history.terraria,
        vec![ServiceStatus::new("Terraria", Some(true), 7, at(1_704_067_200, 0))]
    );
    assert_eq!(
        history.hytale,
        vec![ServiceStatus::new("Hytale", None, 0, at(1_704_067_200, 0))]
    );
}

#[test]
fn first_line_is_never_read() {
    let text = "2024-01-01T00:00:00Z,true,1,true,1\n2024-01-01T00:01:00Z,false,0,false,0";
    let history = decode_history(text).unwrap();
    assert_eq!(
        history.terraria,
        vec![ServiceStatus::new("Terraria", Some(false), 0, at(1_704_067_260, 0))]
    );
    assert_eq!(decode_history("bad,bad,bad,bad,bad"), Ok(History::new()));
    assert_eq!(decode_history(""), Ok(History::new()));
}

#[test]
fn carriage_return_ends_a_line_only_before_a_line_feed() {
    let text = "h\r\n2024-01-01T00:00:00Z,true,1,true,5\r\n2024-01-01T00:01:00Z,true,1,true,5\r";
    let history = decode_history(text).unwrap();
    assert_eq!(history.hytale.len(), 2);
    assert_eq!(history.hytale[0].latency_ms, 5);
    assert_eq!(history.hytale[1].latency_ms, 0);
}

#[test]
fn push_round_writes_one_line() {
    let mut out = String::from("x");
    push_round(
        &mut out,
        "stamp",
        &ServiceStatus::new("a", Some(false), 12, at(0, 0)),
        &ServiceStatus::new("b", None, 0, at(5, 0)),
    );
    assert_eq!(out, "xstamp,false,12,,0\n");
}

#[test]
fn decode_error_names_the_line() {
    assert_eq!(DecodeError::BadTimestamp { line: 3 }.describe(), "no timestamp in line 3");
    assert_eq!(DecodeError::BadTimestamp { line: 1440 }.describe(), "no timestamp in line 1440");
}
