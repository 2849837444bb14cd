use multiverse9core::retry::{Attempt, Move, RETRIES, SLEEP_UNIT};

/// Runs a retry whose tries end as `outcomes` says and gives all its moves.
fn moves(retries: u32, unit: u32, outcomes: &[bool]) -> Vec<Move> {
    let (mut attempt, first) = Attempt::start(retries, unit);
    let mut all = vec![first];
    let mut next = first;
    for outcome in outcomes {
        if !matches!(next, Move::Try { .. }) {
            break;
        }
        next = attempt.report(*outcome);
        all.push(next);
    }
    all
}

#[test]
fn defaults_are_twenty_tries_and_one_second() {
    assert_eq!(RETRIES, 20);
    assert_eq!(SLEEP_UNIT, 1);
}

#[test]
fn first_try_comes_without_a_wait() {
    let (_, first) = Attempt::start(RETRIES, SLEEP_UNIT);
    assert_eq!(first, Move::Try { delay: 0 });
}

#[test]
fn success_at_once_ends_the_retry() {
    assert_eq!(moves(20, 1, &[true]), vec![Move::Try { delay: 0 }, Move::Done]);
}

#[test]
fn success_on_a_later_try_never_runs_the_fallback() {
    let all = moves(20, 3, &[false, false, false, true]);
    assert_eq!(
        all,
        vec![
            Move::Try { delay: 0 },
            Move::Try { delay: 3 },
            Move::Try { delay: 6 },
            Move::Try { delay: 9 },
            Move::Done,
        ]
    );
    assert!(!all.contains(&Move::Fallback));
}

#[test]
fn success_on_the_last_try_never_runs_the_fallback() {
    let mut outcomes = vec![false; 19];
    outcomes.push(true);
    let all = moves(RETRIES, SLEEP_UNIT, &outcomes);
    assert_eq!(all.len(), 21);
    assert_eq!(all[19], Move::Try { delay: 19 });
    assert_eq!(all[20], Move::Done);
    assert!(!all.contains(&Move::Fallback));
}

#[test]
fn failure_on_every_try_runs_the_fallback_once() {
    let all = moves(RETRIES, SLEEP_UNIT, &[false; 40]);
    assert_eq!(all.len(), 21);
    for i in 0..20 {
        assert_eq!(all[i], Move::Try { delay: i as u64 });
    }
    assert_eq!(all[20], Move::Fallback);
    assert_eq!(all.iter().filter(|m| **m == Move::Fallback).count(), 1);
}

#[test]
fn nothing_follows_the_last_move() {
    let (mut attempt, _) = Attempt::start(1, 1);
    assert_eq!(attempt.report(false), Move::Fallback);
    assert_eq!(attempt.report(false), Move::Done);
    assert_eq!(attempt.report(true), Move::Done);
    let (mut attempt, _) = Attempt::start(3, 1);
    assert_eq!(attempt.report(true), Move::Done);
    assert_eq!(attempt.report(false), Move::Done);
}

#[test]
fn no_try_allowed_means_the_fallback_at_once() {
    assert_eq!(moves(0, 1, &[false, false]), vec![Move::Fallback]);
}

#[test]
fn wait_does_not_overflow() {
    let (mut attempt, _) = Attempt::start(u32::MAX, u32::MAX);
    assert_eq!(attempt.report(false), Move::Try { delay: u32::MAX as u64 });
    assert_eq!(attempt.report(false), Move::Try { delay: 2 * (u32::MAX as u64) });
}
