use status_monitor::history::{
    calculate_service_stats, chart_bars, combined_uptime, generate_history_bars, log_is_timed,
    push_bounded, History, ServiceStats, Uptime, CHART_BARS, CHECK_INTERVAL_SECS,
    MAX_HISTORY_ENTRIES,
};
use status_monitor::status::ServiceStatus;
use status_monitor::timestamp::Timestamp;

fn entry(state: Option<bool>, latency: u128, secs: i64) -> ServiceStatus {
    ServiceStatus::new("Terraria", state, latency, Timestamp::new(secs, 0).unwrap())
}

#[test]
fn history_keeps_the_most_recent_entries() {
    let mut history = History::new();
    for i in 0..1500i64 {
        history.record(entry(Some(true), i as u128, i * 60), entry(None, 0, i * 60));
        assert!(history.terraria.len() <= MAX_HISTORY_ENTRIES);
        assert!(history.hytale.len() <= MAX_HISTORY_ENTRIES);
    }
    assert_eq!(history.terraria.len(), 1440);
    assert_eq!(history.hytale.len(), 1440);
    for (k, kept) in history.terraria.iter().enumerate() {
        assert_eq!(kept.latency_ms, 60 + k as u128);
        assert_eq!(kept.timestamp.secs, (60 + k as i64) * 60);
    }
}

#[test]
fn full_log_loses_its_oldest_entry() {
    let mut log = Vec::new();
    for i in 0..MAX_HISTORY_ENTRIES {
        push_bounded(&mut log, entry(Some(true), i as u128, 0));
    }
    assert_eq!(log.len(), MAX_HISTORY_ENTRIES);
    assert_eq!(log[0].latency_ms, 0);
    push_bounded(&mut log, entry(Some(false), 5000, 0));
    assert_eq!(log.len(), MAX_HISTORY_ENTRIES);
    assert_eq!(log[0].latency_ms, 1);
    assert_eq!(log[MAX_HISTORY_ENTRIES - 1].latency_ms, 5000);
}

#[test]
fn overlong_log_loses_one_entry_per_push() {
    let mut log = Vec::new();
    for i in 0..(MAX_HISTORY_ENTRIES + 10) {
        log.push(entry(Some(true), i as u128, 0));
    }
    push_bounded(&mut log, entry(Some(true), 9999, 0));
    assert_eq!(log.len(), MAX_HISTORY_ENTRIES + 10);
    assert_eq!(log[0].latency_ms, 1);
}

#[test]
fn constants_of_the_history() {
    assert_eq!(MAX_HISTORY_ENTRIES, 1440);
    assert_eq!(CHECK_INTERVAL_SECS, 60);
    assert_eq!(CHART_BARS, 48);
    assert_eq!(History::default(), History::new());
}

#[test]
fn uptime_leaves_unknown_out() {
    let log = vec![
        entry(Some(true), 10, 0),
        entry(Some(false), 0, 60),
        entry(None, 0, 120),
        entry(Some(true), 30, 180),
    ];
    let stats = calculate_service_stats(&log);
    assert_eq!(stats.uptime, Uptime { online: 2, checks: 3 });
    assert_eq!(stats.ping_ms, Some(30));
    assert_eq!(stats.status, Some(true));
    let ratio = stats.uptime.online as f64 / stats.uptime.checks as f64;
    assert!((ratio - 2.0 / 3.0).abs() < 1e-12);
}

#[test]
fn stats_of_no_entries() {
    let stats = calculate_service_stats(&Vec::new());
    assert_eq!(
        stats,
        ServiceStats { uptime: Uptime { online: 0, checks: 0 }, ping_ms: None, status: Some(false) }
    );
}

#[test]
fn stats_show_the_latest_state() {
    let log = vec![entry(Some(true), 10, 0), entry(None, 0, 60)];
    let stats = calculate_service_stats(&log);
    assert_eq!(stats.uptime, Uptime { online: 1, checks: 1 });
    assert_eq!(stats.ping_ms, Some(0));
    assert_eq!(stats.status, None);
}

#[test]
fn combined_uptime_adds_counts() {
    let first = Uptime { online: 1, checks: 1 };
    let second = Uptime { online: 1, checks: 3 };
    assert_eq!(combined_uptime(first, second), Some(Uptime { online: 2, checks: 4 }));
    let huge = Uptime { online: 1, checks: u128::MAX };
    assert_eq!(combined_uptime(huge, first), None);
}

#[test]
fn bars_pair_the_services_by_index() {
    let mut history = History::new();
    history.terraria.push(entry(Some(true), 1, 1));
    history.terraria.push(entry(None, 1, 2));
    history.terraria.push(entry(Some(false), 1, 3));
    history.terraria.push(entry(Some(true), 1, 4));
    history.hytale.push(entry(Some(true), 1, 100));
    history.hytale.push(entry(Some(true), 1, 200));
    history.hytale.push(entry(None, 1, 300));
    let bars = generate_history_bars(&history);
    assert_eq!(bars, vec![(1000, true), (2000, true), (3000, false)]);
    history.hytale[0].is_online = Some(false);
    assert_eq!(generate_history_bars(&history)[0], (1000, false));
}

#[test]
fn bar_carries_milliseconds() {
    let mut history = History::new();
    let when = Timestamp::new(1_704_067_200, 987_654_321).unwrap();
    history.terraria.push(ServiceStatus::new("Terraria", Some(true), 1, when));
    history.hytale.push(ServiceStatus::new("Hytale", Some(true), 1, when));
    assert_eq!(generate_history_bars(&history), vec![(1_704_067_200_987, true)]);
}

#[test]
fn chart_shows_latest_bars_first() {
    let bars: Vec<(i64, bool)> = (0..60).map(|i| (i as i64, i % 2 == 0)).collect();
    let shown = chart_bars(&bars);
    assert_eq!(shown.len(), 48);
    assert_eq!(shown[0], (59, false));
    assert_eq!(shown[47], (12, true));
    let few = chart_bars(&vec![(1, true), (2, false)]);
    assert_eq!(few, vec![(2, false), (1, true)]);
}

#[test]
fn empty_chart_shows_blank_bars() {
    let shown = chart_bars(&Vec::new());
    assert_eq!(shown, vec![(0, true); 48]);
}

#[test]
fn timed_logs_are_told_apart() {
    let mut history = History::new();
    history.terraria.push(entry(Some(true), 1, 1));
    assert!(history.is_timed());
    history.hytale.push(ServiceStatus::new(
        "Hytale",
        None,
        0,
        Timestamp { secs: i64::MAX, nanos: 0 },
    ));
    assert!(!history.is_timed());
    assert!(log_is_timed(&history.terraria));
    assert!(!log_is_timed(&history.hytale));
}

#[test]
fn later_instants_are_told_from_earlier_ones() {
    let at = |secs: i64, nanos: u32| Timestamp::new(secs, nanos).unwrap();
    assert!(at(1, 0).precedes(&at(2, 0)));
    assert!(at(1, 5).precedes(&at(1, 6)));
    assert!(at(59, 1_500_000_000).precedes(&at(60, 0)));
    assert!(at(59, 999_999_999).precedes(&at(59, 1_000_000_000)));
    assert!(!at(1, 5).precedes(&at(1, 5)));
    assert!(!at(2, 0).precedes(&at(1, 999_999_999)));
    assert!(at(-5, 0).precedes(&at(0, 0)));
}
