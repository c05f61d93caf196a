use status_monitor::codec::decode_history;
use status_monitor::history::{History, MAX_HISTORY_ENTRIES};
use status_monitor::monitor::{load_history, record_round, update_history};
use status_monitor::probe::{ProbeError, TaskResult};
use status_monitor::status::{ServerInfo, ServiceStatus};
use status_monitor::timestamp::Timestamp;

fn at(secs: i64) -> Timestamp {
    Timestamp::new(secs, 0).unwrap()
}

#[test]
fn missing_or_malformed_document_starts_empty() {
    assert_eq!(load_history(None), History::new());
    assert_eq!(load_history(Some("")), History::new());
    assert_eq!(load_history(Some("header\nbad,true,1,true,1\n")), History::new());
    assert_eq!(
        load_history(Some("header\n1970-01-01T00:00:10Z,true,1,true,1\nbad,true,1,true,1\n")),
        History::new()
    );
}

#[test]
fn document_is_loaded() {
    let history = load_history(Some("header\n1970-01-01T00:00:10Z,true,1,false,2\n"));
    assert_eq!(history.terraria, vec![ServiceStatus::new("Terraria", Some(true), 1, at(10))]);
    assert_eq!(history.hytale, vec![ServiceStatus::new("Hytale", Some(false), 2, at(10))]);
}

#[test]
fn update_appends_a_round() {
    let first = update_history(
        None,
        ServiceStatus::new("Terraria", Some(true), 5, at(60)),
        ServiceStatus::new("Hytale", None, 0, at(60)),
    );
    assert_eq!(
        first,
        "Timestamp,TerrariaOnline,TerrariaLatency,HytaleOnline,HytaleLatency\n\
         1970-01-01T00:01:00+00:00,true,5,,0\n"
    );
    let second = update_history(
        Some(&first),
        ServiceStatus::new("Terraria", Some(false), 0, at(120)),
        ServiceStatus::new("Hytale", Some(true), 9, at(120)),
    );
    assert_eq!(
        second,
        "Timestamp,TerrariaOnline,TerrariaLatency,HytaleOnline,HytaleLatency\n\
         1970-01-01T00:01:00+00:00,true,5,,0\n\
         1970-01-01T00:02:00+00:00,false,0,true,9\n"
    );
}

#[test]
fn update_over_a_malformed_document_starts_anew() {
    let out = update_history(
        Some("header\nbroken,,,,\n"),
        ServiceStatus::new("Terraria", Some(true), 5, at(60)),
        ServiceStatus::new("Hytale", Some(true), 6, at(60)),
    );
    assert_eq!(
        out,
        "Timestamp,TerrariaOnline,TerrariaLatency,HytaleOnline,HytaleLatency\n\
         1970-01-01T00:01:00+00:00,true,5,true,6\n"
    );
}

#[test]
fn document_never_outgrows_the_history() {
    let mut content: Option<String> = None;
    for i in 0..(MAX_HISTORY_ENTRIES as i64 + 5) {
        let next = update_history(
            content.as_deref(),
            ServiceStatus::new("Terraria", Some(true), i as u128, at(i * 60)),
            ServiceStatus::new("Hytale", Some(true), i as u128, at(i * 60)),
        );
        content = Some(next);
    }
    let text = content.unwrap();
    assert_eq!(text.lines().count(), MAX_HISTORY_ENTRIES + 1);
    let history = decode_history(&text).unwrap();
    assert_eq!(history.terraria.len(), MAX_HISTORY_ENTRIES);
    assert_eq!(history.terraria[0].latency_ms, 5);
    assert_eq!(history.hytale[MAX_HISTORY_ENTRIES - 1].latency_ms, MAX_HISTORY_ENTRIES as u128 + 4);
}

#[test]
fn round_turns_results_into_a_line() {
    let mut history = History::new();
    let out = record_round(
        &mut history,
        TaskResult::Completed(Ok(ServerInfo { is_online: true, latency_ms: 23 })),
        TaskResult::Completed(Err(ProbeError::Timeout)),
        at(0),
    );
    assert_eq!(
        out,
        "Timestamp,TerrariaOnline,TerrariaLatency,HytaleOnline,HytaleLatency\n\
         1970-01-01T00:00:00+00:00,true,23,false,0\n"
    );
    let out = record_round(
        &mut history,
        TaskResult::Completed(Err(ProbeError::ResolutionFailure)),
        TaskResult::Faulted,
        at(60),
    );
    assert_eq!(
        out,
        "Timestamp,TerrariaOnline,TerrariaLatency,HytaleOnline,HytaleLatency\n\
         1970-01-01T00:00:00+00:00,true,23,false,0\n\
         1970-01-01T00:01:00+00:00,,0,,0\n"
    );
    assert_eq!(history.terraria.len(), 2);
    assert_eq!(history.hytale[1], ServiceStatus::new("Hytale", None, 0, at(60)));
    assert_eq!(load_history(Some(&out)), history);
}

#[test]
fn round_evicts_the_oldest_observation() {
    let mut history = History::new();
    for i in 0..(MAX_HISTORY_ENTRIES as i64 + 1) {
        record_round(
            &mut history,
            TaskResult::Completed(Ok(ServerInfo { is_online: true, latency_ms: i as u128 })),
            TaskResult::Faulted,
            at(i * 60),
        );
    }
    assert_eq!(history.terraria.len(), MAX_HISTORY_ENTRIES);
    assert_eq!(history.terraria[0].latency_ms, 1);
    assert_eq!(history.hytale.len(), MAX_HISTORY_ENTRIES);
}
