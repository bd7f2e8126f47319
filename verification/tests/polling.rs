use fints::error::FinTSError;
use fints::flow::{ChallengeInfo, PollResult};
use fints::polling::{next_pause, PollAction, TanPoller};
use fints::types::{ChallengeText, SecurityFunction, TanMethod};

type Action = PollAction<u32, &'static str>;

fn polls_until_timeout(max_polls: u32, give_up_after: u32) -> (u32, bool) {
    let (mut poller, action): (TanPoller, Action) = TanPoller::start(0, 5, 2, max_polls);
    match action {
        PollAction::Sleep { seconds, dialog } => {
            assert_eq!(seconds, 5);
            assert_eq!(dialog, 0);
        }
        other => panic!("{:?}", other),
    }
    let mut polls: u32 = 0;
    while polls < give_up_after {
        let action: Action = poller.slept(polls);
        match action {
            PollAction::Poll(dialog) => assert_eq!(dialog, polls),
            PollAction::Fail(FinTSError::TanTimeout) => return (polls, true),
            other => panic!("{:?}", other),
        }
        polls += 1;
        let action: Action = poller.answered(Ok(PollResult::Pending(polls)));
        match action {
            PollAction::Sleep { seconds, dialog } => {
                assert_eq!(seconds, 2);
                assert_eq!(dialog, polls);
            }
            other => panic!("{:?}", other),
        }
    }
    (polls, false)
}

#[test]
fn the_bank_is_polled_up_to_the_limit() {
    assert_eq!(polls_until_timeout(1, 100), (1, true));
    assert_eq!(polls_until_timeout(3, 100), (3, true));
}

#[test]
fn without_a_limit_polling_goes_on() {
    assert_eq!(polls_until_timeout(0, 1000), (1000, false));
}

#[test]
fn answers_of_the_bank() {
    let (poller, _): (TanPoller, Action) = TanPoller::start(0, 5, 2, 3);
    let action: Action = poller.answered(Ok(PollResult::Confirmed("open")));
    match action {
        PollAction::Open(dialog) => assert_eq!(dialog, "open"),
        other => panic!("{:?}", other),
    }
    let action: Action = poller.answered(Err(FinTSError::AccountLocked));
    match action {
        PollAction::Fail(FinTSError::AccountLocked) => {}
        other => panic!("{:?}", other),
    }
}

fn method(decoupled: bool, first: i32, next: i32, max: i32) -> TanMethod {
    TanMethod {
        security_function: SecurityFunction::new("940".to_string()),
        name: "pushTAN".to_string(),
        is_decoupled: decoupled,
        wait_before_first_poll: first,
        wait_before_next_poll: next,
        decoupled_max_polls: max,
        hktan_version: 7,
        needs_tan_medium: false,
    }
}

fn challenge(decoupled: bool, tan_methods: Vec<TanMethod>) -> ChallengeInfo {
    ChallengeInfo {
        challenge: ChallengeText::new("Please confirm".to_string()),
        challenge_hhduc: None,
        decoupled,
        tan_methods,
        allowed_security_functions: Vec::new(),
        no_tan_required: false,
    }
}

/// The seconds at which a user who never confirms is polled for.
fn poll_times(challenge: &ChallengeInfo, timeout: u64) -> Vec<u64> {
    let mut times = Vec::new();
    let started: Option<(TanPoller, Action)> = TanPoller::within(0, challenge, timeout);
    let (mut poller, action) = started.unwrap();
    let mut now = match action {
        PollAction::Sleep { seconds, .. } => seconds,
        other => panic!("{:?}", other),
    };
    loop {
        let action: Action = poller.slept(0);
        match action {
            PollAction::Poll(_) => times.push(now),
            PollAction::Fail(FinTSError::TanTimeout) => return times,
            other => panic!("{:?}", other),
        }
        let action: Action = poller.answered(Ok(PollResult::Pending(0)));
        match action {
            PollAction::Sleep { seconds, .. } => now += seconds,
            other => panic!("{:?}", other),
        }
    }
}

#[test]
fn no_poll_is_made_after_the_timeout() {
    let push = challenge(true, vec![method(false, 9, 9, 9), method(true, 5, 2, 0)]);
    assert_eq!(poll_times(&push, 10), [5, 7, 9]);
    assert_eq!(poll_times(&push, 11), [5, 7, 9, 11]);
    assert_eq!(poll_times(&push, 3), [3]);
    assert_eq!(poll_times(&push, 0), [0]);
    let limited = challenge(true, vec![method(true, 5, 2, 2)]);
    assert_eq!(poll_times(&limited, 120), [5, 7]);
    let untimed = challenge(true, vec![method(true, 0, 0, 0)]);
    assert_eq!(poll_times(&untimed, 2), [0, 1, 2]);
}

#[test]
fn what_is_not_waited_for() {
    let none = |challenge: ChallengeInfo| {
        let started: Option<(TanPoller, Action)> = TanPoller::within(0, &challenge, 120);
        started.is_none()
    };
    assert!(none(challenge(false, vec![method(true, 5, 2, 0)])));
    assert!(none(challenge(true, vec![method(false, 5, 2, 0)])));
    assert!(none(challenge(true, Vec::new())));
}

#[test]
fn only_a_pending_answer_is_polled_again() {
    let push = challenge(true, vec![method(true, 5, 2, 0)]);
    let started: Option<(TanPoller, Action)> = TanPoller::within(0, &push, 10);
    let poller = started.unwrap().0;
    assert_eq!(next_pause::<u8, u8>(Some(&poller), &Ok(PollResult::Pending(0))), Some(2));
    assert_eq!(next_pause::<u8, u8>(Some(&poller), &Ok(PollResult::Confirmed(0))), None);
    assert_eq!(next_pause::<u8, u8>(Some(&poller), &Err(FinTSError::TanTimeout)), None);
    assert_eq!(next_pause::<u8, u8>(None, &Ok(PollResult::Pending(0))), None);
}
