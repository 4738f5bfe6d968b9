use twitter_stream::Timeout;

#[test]
fn polling_before_the_deadline_never_resolves() {
    let mut timer = Timeout::after(1000, 90);
    assert!(!timer.poll(1000));
    assert!(!timer.poll(1050));
    assert!(!timer.poll(1089));
}

#[test]
fn polling_at_or_after_the_deadline_resolves_exactly_once() {
    let mut timer = Timeout::after(1000, 90);
    assert!(timer.poll(1090));
    assert!(!timer.poll(1090));
    assert!(!timer.poll(5000));

    let mut late = Timeout::after(0, 10);
    assert!(late.poll(10_000));
    assert!(!late.poll(10_001));
}

#[test]
fn cancelling_before_expiry_prevents_any_later_resolution() {
    let mut timer = Timeout::after(1000, 90);
    assert!(!timer.poll(1010));
    timer.cancel();
    assert!(!timer.poll(1090));
    assert!(!timer.poll(u64::MAX));
}

#[test]
fn a_never_timer_never_fires() {
    let mut timer = Timeout::never();
    assert!(!timer.poll(0));
    assert!(!timer.poll(u64::MAX));
}

#[test]
fn reset_moves_the_deadline_forward() {
    let mut timer = Timeout::after(1000, 90);
    timer.reset(1080);
    assert!(!timer.poll(1090));
    assert!(!timer.poll(1169));
    assert!(timer.poll(1170));
}
