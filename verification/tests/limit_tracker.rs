use std::cell::RefCell;

use lib::limit_tracker::{alert_for, Alert, LimitTracker, Messenger};

struct MockMessenger {
    sent_messages: RefCell<Vec<String>>,
}

impl MockMessenger {
    fn new() -> MockMessenger {
        MockMessenger {
            sent_messages: RefCell::new(vec![]),
        }
    }
}

impl Messenger for MockMessenger {
    // A specification-only predicate with no run-time use; the real record
    // of deliveries is `sent_messages`.
    fn delivered(&self, _msg: vstd::seq::Seq<char>) -> bool {
        true
    }

    fn send(&self, message: &str) {
        self.sent_messages.borrow_mut().push(String::from(message));
    }
}

#[test]
fn it_sends_an_over_75_percent_warning_message() {
    let mock_messenger = MockMessenger::new();
    let mut limit_tracker = LimitTracker::new(&mock_messenger, 100);

    limit_tracker.set_value(80);

    assert_eq!(mock_messenger.sent_messages.borrow().len(), 1);
}

#[test]
fn warning_text_is_the_75_percent_message() {
    let mock = MockMessenger::new();
    let mut tracker = LimitTracker::new(&mock, 100);
    tracker.set_value(80);
    assert_eq!(mock.sent_messages.borrow().len(), 1);
    assert_eq!(
        mock.sent_messages.borrow()[0],
        "警告：割り当ての75%以上を使用してしましました"
    );
}

#[test]
fn ninety_percent_sends_the_urgent_message() {
    let mock = MockMessenger::new();
    let mut tracker = LimitTracker::new(&mock, 100);
    tracker.set_value(90);
    assert_eq!(
        *mock.sent_messages.borrow(),
        vec![String::from("緊急警告：割り当ての90%以上を使用してしまいました")]
    );
}

#[test]
fn reaching_the_limit_sends_the_error_message() {
    let mock = MockMessenger::new();
    let mut tracker = LimitTracker::new(&mock, 100);
    tracker.set_value(100);
    tracker.set_value(250);
    assert_eq!(
        *mock.sent_messages.borrow(),
        vec![
            String::from("エラー：割り当てを超えています"),
            String::from("エラー：割り当てを超えています"),
        ]
    );
}

#[test]
fn below_75_percent_sends_nothing() {
    let mock = MockMessenger::new();
    let mut tracker = LimitTracker::new(&mock, 100);
    tracker.set_value(0);
    tracker.set_value(74);
    assert!(mock.sent_messages.borrow().is_empty());
}

#[test]
fn one_message_per_call() {
    let mock = MockMessenger::new();
    let mut tracker = LimitTracker::new(&mock, 100);
    tracker.set_value(80);
    tracker.set_value(95);
    tracker.set_value(10);
    tracker.set_value(120);
    assert_eq!(mock.sent_messages.borrow().len(), 3);
}

#[test]
fn thresholds_are_exact() {
    // 3/4 of 4 and 9/10 of 10 are reached exactly.
    assert_eq!(alert_for(3, 4), Some(Alert::Warning));
    assert_eq!(alert_for(2, 4), None);
    assert_eq!(alert_for(9, 10), Some(Alert::Critical));
    assert_eq!(alert_for(8, 10), Some(Alert::Warning));
    assert_eq!(alert_for(10, 10), Some(Alert::OverQuota));
    assert_eq!(alert_for(749, 1000), None);
    assert_eq!(alert_for(750, 1000), Some(Alert::Warning));
    assert_eq!(alert_for(899, 1000), Some(Alert::Warning));
    assert_eq!(alert_for(999, 1000), Some(Alert::Critical));
}

#[test]
fn zero_limit() {
    // Zero usage of a zero limit is no usage; any usage of it is over.
    assert_eq!(alert_for(0, 0), None);
    assert_eq!(alert_for(1, 0), Some(Alert::OverQuota));
}

fn float_alert(value: usize, max: usize) -> Option<Alert> {
    let percentage_of_max = value as f64 / max as f64;
    if percentage_of_max >= 1.0 {
        Some(Alert::OverQuota)
    } else if percentage_of_max >= 0.9 {
        Some(Alert::Critical)
    } else if percentage_of_max >= 0.75 {
        Some(Alert::Warning)
    } else {
        None
    }
}

#[test]
fn large_values_follow_f64_rounding() {
    // Both round to 2^64 as doubles, so their ratio is exactly 1.0.
    assert_eq!(alert_for(usize::MAX - 1, usize::MAX), Some(Alert::OverQuota));
    assert_eq!(alert_for(usize::MAX, usize::MAX), Some(Alert::OverQuota));
    // Just under 0.9 of 2^64 rounds onto the double nearest 0.9.
    assert_eq!(alert_for(usize::MAX / 10 * 9, usize::MAX), Some(Alert::Critical));
    assert_eq!(alert_for(0, usize::MAX), None);
}

#[test]
fn agrees_with_f64_ratio() {
    let big = [
        0usize,
        1,
        3,
        4,
        9,
        10,
        1 << 52,
        (1 << 53) - 1,
        1 << 53,
        (1 << 53) + 1,
        (1 << 53) + 3,
        3 << 60,
        usize::MAX / 4 * 3,
        usize::MAX / 4 * 3 - 1,
        usize::MAX / 10 * 9,
        usize::MAX / 10 * 9 + 500,
        usize::MAX / 10 * 9 - 1500,
        usize::MAX - 2048,
        usize::MAX - 1,
        usize::MAX,
    ];
    for &m in big.iter() {
        for &v in big.iter() {
            assert_eq!(alert_for(v, m), float_alert(v, m), "value {} max {}", v, m);
        }
        for d in 0..2000usize {
            let v3 = (m / 4 * 3).wrapping_add(d).wrapping_sub(1000);
            let v9 = (m / 10 * 9).wrapping_add(d).wrapping_sub(1000);
            let v1 = m.wrapping_sub(d);
            for v in [v3, v9, v1] {
                assert_eq!(alert_for(v, m), float_alert(v, m), "value {} max {}", v, m);
            }
        }
    }
    for m in 0..300usize {
        for v in 0..400usize {
            assert_eq!(alert_for(v, m), float_alert(v, m), "value {} max {}", v, m);
        }
    }
}

#[test]
fn alerts_rise_with_usage() {
    fn rank(a: Option<Alert>) -> u8 {
        match a {
            None => 0,
            Some(Alert::Warning) => 1,
            Some(Alert::Critical) => 2,
            Some(Alert::OverQuota) => 3,
        }
    }
    for max in [0usize, 1, 7, 100, 1000] {
        let mut prev = 0;
        for v in 0..(2 * max + 3) {
            let r = rank(alert_for(v, max));
            assert!(r >= prev);
            prev = r;
        }
    }
}

#[test]
fn fresh_tracker_is_quiet() {
    for max in [0usize, 1, 100] {
        assert_eq!(alert_for(0, max), None);
    }
}

#[test]
fn messages_match_alerts() {
    assert_eq!(Alert::OverQuota.message(), "エラー：割り当てを超えています");
    assert_eq!(
        Alert::Critical.message(),
        "緊急警告：割り当ての90%以上を使用してしまいました"
    );
    assert_eq!(
        Alert::Warning.message(),
        "警告：割り当ての75%以上を使用してしましました"
    );
}
