use crawler::retry::{AttemptBudget, Step};

#[test]
fn always_failing_sink_gets_exactly_max_attempts() {
    let mut b = AttemptBudget::new(3);
    let mut steps = Vec::new();
    while b.can_attempt() {
        steps.push(b.record(false));
    }
    assert_eq!(steps, vec![Step::Retry, Step::Retry, Step::GiveUp]);
    assert_eq!(b.attempts(), 3);
}

#[test]
fn readiness_after_third_probe() {
    let probes = [false, false, true];
    let mut b = AttemptBudget::new(5);
    let mut last = Step::Retry;
    let mut i = 0;
    while b.can_attempt() && last == Step::Retry {
        last = b.record(probes[i]);
        i += 1;
    }
    assert_eq!(last, Step::Done);
    assert_eq!(b.attempts(), 3);
}

#[test]
fn readiness_fails_with_two_attempts() {
    let mut b = AttemptBudget::new(2);
    assert_eq!(b.record(false), Step::Retry);
    assert_eq!(b.record(false), Step::GiveUp);
    assert!(!b.can_attempt());
}

#[test]
fn zero_attempts_allowed() {
    let b = AttemptBudget::new(0);
    assert!(!b.can_attempt());
    assert_eq!(b.attempts(), 0);
}

#[test]
fn first_success_is_done() {
    let mut b = AttemptBudget::new(1);
    assert_eq!(b.record(true), Step::Done);
}
