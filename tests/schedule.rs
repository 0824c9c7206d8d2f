use gol::schedule::{update_due, update_period_millis};

#[test]
fn period_is_a_thousand_over_the_rate() {
    assert_eq!(update_period_millis(30), 33);
    assert_eq!(update_period_millis(1), 1000);
    assert_eq!(update_period_millis(1000), 1);
    assert_eq!(update_period_millis(2000), 0);
}

#[test]
fn update_is_due_only_past_the_period() {
    assert!(!update_due(0, 33));
    assert!(!update_due(33_000_000, 33));
    assert!(update_due(33_000_001, 33));
    assert!(update_due(1, 0));
    assert!(!update_due(0, 0));
}
