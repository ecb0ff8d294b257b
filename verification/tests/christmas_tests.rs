use shoplib::christmas::{ChristmasDiscount, Clock};

#[test]
fn christmas_day_is_recognised() {
    assert!(ChristmasDiscount::is_christmas_on(12, 25));
}

#[test]
fn other_days_are_not_christmas() {
    assert!(!ChristmasDiscount::is_christmas_on(12, 24));
    assert!(!ChristmasDiscount::is_christmas_on(11, 25));
    assert!(!ChristmasDiscount::is_christmas_on(1, 1));
}

#[test]
fn clock_reads_a_calendar_date() {
    let clock = Clock;
    let month = clock.month();
    let day = clock.day();
    assert!((1..=12).contains(&month));
    assert!((1..=31).contains(&day));
}

#[test]
fn is_christmas_answers_for_today() {
    let clock = Clock;
    let month = clock.month();
    let day = clock.day();
    let discount = ChristmasDiscount::new(Clock);
    assert_eq!(month == 12 && day == 25, discount.is_christmas());
}
