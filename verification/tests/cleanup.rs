use std::sync::{Arc, Mutex};

use openvoice::deadline::{settle, CancelToken};
use openvoice::generation::{Generation, MAX_NEW_TOKENS};

#[test]
fn a_result_in_time_is_the_outcome_and_the_work_is_left_alone() {
    let mut token = CancelToken::new();
    assert_eq!(settle(Some(42), &mut token), Some(42));
    assert!(!token.is_cancelled());
}

#[test]
fn work_without_a_result_is_cancelled_for_good() {
    let mut token = CancelToken::new();
    assert_eq!(settle::<i32>(None, &mut token), None);
    assert!(token.is_cancelled());
    assert_eq!(settle(Some(1), &mut token), Some(1));
    assert!(token.is_cancelled());
    let mut other = CancelToken::new();
    other.cancel();
    assert!(other.is_cancelled());
}

#[test]
fn work_that_shares_the_token_sees_the_cancel() {
    let waiting = Arc::new(Mutex::new(CancelToken::new()));
    let working = Arc::clone(&waiting);
    let other = CancelToken::new();
    assert!(!working.lock().unwrap().is_cancelled());
    assert_eq!(settle::<i32>(None, &mut waiting.lock().unwrap()), None);
    assert!(waiting.lock().unwrap().is_cancelled());
    assert!(working.lock().unwrap().is_cancelled());
    assert!(!other.is_cancelled());
}

#[test]
fn pieces_are_put_together_at_consecutive_positions_and_trimmed() {
    let mut generation = Generation::new(17);
    assert_eq!(generation.take(" So"), 17);
    assert_eq!(generation.take(", this."), 18);
    assert_eq!(generation.take("\n"), 19);
    assert_eq!(generation.finish(), "So, this.");
}

#[test]
fn generation_stops_when_cancelled_ended_or_full() {
    let mut generation = Generation::new(0);
    assert!(generation.wants(false, false));
    assert!(!generation.wants(true, false));
    assert!(!generation.wants(false, true));
    for _ in 0..MAX_NEW_TOKENS {
        assert!(generation.wants(false, false));
        generation.take("x");
    }
    assert!(!generation.wants(false, false));
    assert_eq!(generation.finish().len(), 128);
}
