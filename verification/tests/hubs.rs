use status_monitor::hub::{Delivery, Hub, STREAM_CAPACITY};

fn item(seq: u64, payload: &str) -> Delivery {
    Delivery::Item { seq, payload: payload.to_string() }
}

#[test]
fn subscriber_gets_events_in_publish_order() {
    let mut hub = Hub::new(4);
    let mut sub = hub.subscribe();
    assert_eq!(hub.poll(&mut sub), Delivery::Empty);
    assert!(hub.publish("a".to_string()));
    assert!(hub.publish("b".to_string()));
    assert_eq!(hub.queued(&sub), 2);
    assert_eq!(hub.poll(&mut sub), item(0, "a"));
    assert_eq!(hub.poll(&mut sub), item(1, "b"));
    assert_eq!(hub.poll(&mut sub), Delivery::Empty);
    assert_eq!(hub.queued(&sub), 0);
    assert_eq!(hub.published(), 2);
    assert_eq!(hub.capacity(), 4);
}

#[test]
fn subscription_starts_with_the_next_event() {
    let mut hub = Hub::new(4);
    hub.publish("old".to_string());
    let mut sub = hub.subscribe();
    assert_eq!(hub.poll(&mut sub), Delivery::Empty);
    hub.publish("new".to_string());
    assert_eq!(hub.poll(&mut sub), item(1, "new"));
}

#[test]
fn stalled_subscriber_is_told_its_gap_and_goes_on() {
    let mut hub = Hub::new(3);
    let mut slow = hub.subscribe();
    hub.publish("e0".to_string());
    assert_eq!(hub.poll(&mut slow), item(0, "e0"));
    for i in 1..=8 {
        assert!(hub.publish(format!("e{}", i)));
        assert!(hub.queued(&slow) <= 3);
    }
    assert_eq!(hub.queued(&slow), 3);
    assert_eq!(hub.poll(&mut slow), Delivery::Lagged { missed: 5 });
    assert_eq!(hub.poll(&mut slow), item(6, "e6"));
    assert_eq!(hub.poll(&mut slow), item(7, "e7"));
    assert_eq!(hub.poll(&mut slow), item(8, "e8"));
    assert_eq!(hub.poll(&mut slow), Delivery::Empty);
    hub.publish("e9".to_string());
    assert_eq!(hub.poll(&mut slow), item(9, "e9"));
}

#[test]
fn slow_subscriber_does_not_disturb_a_fast_one() {
    let mut hub = Hub::new(2);
    let mut slow = hub.subscribe();
    let mut fast = hub.subscribe();
    let mut seen = Vec::new();
    for i in 0..6u64 {
        hub.publish(format!("e{}", i));
        match hub.poll(&mut fast) {
            Delivery::Item { seq, payload } => seen.push((seq, payload)),
            other => panic!("fast subscriber got {:?}", other),
        }
    }
    let expected: Vec<(u64, String)> = (0..6u64).map(|i| (i, format!("e{}", i))).collect();
    assert_eq!(seen, expected);
    assert_eq!(hub.poll(&mut slow), Delivery::Lagged { missed: 4 });
    assert_eq!(hub.poll(&mut slow), item(4, "e4"));
}

#[test]
fn full_queue_is_no_lag() {
    let mut hub = Hub::new(3);
    let mut sub = hub.subscribe();
    for i in 0..3 {
        hub.publish(format!("e{}", i));
    }
    assert_eq!(hub.queued(&sub), 3);
    assert_eq!(hub.poll(&mut sub), item(0, "e0"));
}

#[test]
fn closed_hub_takes_nothing_and_lets_queues_drain() {
    let mut hub = Hub::new(2);
    let mut sub = hub.subscribe();
    hub.publish("last".to_string());
    assert!(!hub.is_closed());
    hub.close();
    assert!(hub.is_closed());
    assert!(!hub.publish("late".to_string()));
    assert_eq!(hub.published(), 1);
    assert_eq!(hub.poll(&mut sub), item(0, "last"));
    assert_eq!(hub.poll(&mut sub), Delivery::Closed);
    assert_eq!(hub.poll(&mut sub), Delivery::Closed);
    let mut late = hub.subscribe();
    assert_eq!(hub.poll(&mut late), Delivery::Closed);
}

#[test]
fn subscription_of_another_hub_gets_nothing() {
    let mut big = Hub::new(2);
    for i in 0..5 {
        big.publish(format!("e{}", i));
    }
    let mut stray = big.subscribe();
    let mut small = Hub::new(2);
    small.publish("x".to_string());
    assert_eq!(small.queued(&stray), 0);
    assert_eq!(small.poll(&mut stray), Delivery::Empty);
}

#[test]
fn event_stream_keeps_a_hundred_events() {
    assert_eq!(STREAM_CAPACITY, 100);
    let mut hub = Hub::new(STREAM_CAPACITY);
    let mut sub = hub.subscribe();
    for i in 0..250 {
        hub.publish(format!("{}", i));
    }
    assert_eq!(hub.poll(&mut sub), Delivery::Lagged { missed: 150 });
    let mut last = None;
    let mut count = 0;
    while let Delivery::Item { seq, payload } = hub.poll(&mut sub) {
        assert_eq!(payload, format!("{}", seq));
        if let Some(before) = last {
            assert!(seq > before);
        }
        last = Some(seq);
        count += 1;
    }
    assert_eq!(count, 100);
    assert_eq!(last, Some(249));
}
