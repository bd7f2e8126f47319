//! Waiting for a decoupled TAN: the user confirms in the banking app while the bank is polled.
//!
//! The caller sleeps and polls; this module says when to do which, and when to give up.
use vstd::prelude::*;

use crate::error::FinTSError;
use crate::flow::{ChallengeInfo, PollResult};
use crate::types::TanMethod;

verus! {

/// What to do next.
#[derive(Debug)]
pub enum PollAction<P, O> {
    /// Sleep for some seconds, then ask the poller again.
    Sleep { seconds: u64, dialog: P },
    /// Poll the bank, and hand the answer to `TanPoller::answered`.
    Poll(P),
    /// The dialog is open.
    Open(O),
    /// There is no open dialog.
    Fail(FinTSError),
}

/// The polling of one decoupled TAN: how long to wait, how often to poll at most (0: without
/// limit), and how often the bank was polled.
#[derive(Debug)]
pub struct TanPoller {
    first_wait: u64,
    next_wait: u64,
    max_polls: u32,
    polls: u32,
}

/// What a poller knows.
pub struct PollerView {
    pub first_wait: u64,
    pub next_wait: u64,
    pub max_polls: nat,
    /// The polls that were started, as far as a limit needs them counted.
    pub polls: nat,
}

/// What a poller knows after one more poll, or nothing where no more polls are allowed.
pub open spec fn poll_again(v: PollerView) -> Option<PollerView> {
    if v.max_polls == 0 {
        Some(v)
    } else if v.polls < v.max_polls {
        Some(PollerView { polls: v.polls + 1, ..v })
    } else {
        None
    }
}

/// What a poller knows after `n` more polls, or nothing where so many are not allowed.
pub open spec fn poll_times(v: PollerView, n: nat) -> Option<PollerView>
    decreases n,
{
    if n == 0 {
        Some(v)
    } else {
        match poll_times(v, (n - 1) as nat) {
            Some(w) => poll_again(w),
            None => None,
        }
    }
}

/// The TAN method that a user confirms a decoupled challenge with: the first decoupled one.
pub open spec fn decoupled_method(methods: Seq<TanMethod>) -> Option<TanMethod>
    decreases methods.len(),
{
    if methods.len() == 0 {
        None
    } else if methods[0].is_decoupled {
        Some(methods[0])
    } else {
        decoupled_method(methods.drop_first())
    }
}

/// How a TAN method is polled within `timeout` seconds: it has its waiting times, of which the
/// first fits into the time and the next is at least a second, and as many polls as it allows and
/// as fit into the time.
pub open spec fn poll_plan(method: TanMethod, timeout: u64) -> PollerView {
    let first = if method.wait_before_first_poll <= 0 {
        0
    } else if method.wait_before_first_poll as int > timeout {
        timeout as int
    } else {
        method.wait_before_first_poll as int
    };
    let next = if method.wait_before_next_poll > 0 {
        method.wait_before_next_poll as int
    } else {
        1
    };
    let fitting = 1 + (timeout - first) / next;
    let allowed = if method.decoupled_max_polls > 0 {
        method.decoupled_max_polls as int
    } else {
        u32::MAX as int
    };
    PollerView {
        first_wait: first as u64,
        next_wait: next as u64,
        max_polls: (if fitting < allowed {
            fitting
        } else {
            allowed
        }) as nat,
        polls: 0,
    }
}

/// The seconds after which the poll `n` is made, counted from 1.
pub open spec fn poll_time(v: PollerView, n: nat) -> int {
    v.first_wait + (n - 1) * v.next_wait
}

/// A decoupled TAN is polled for at least once, and never later than the time allows.
pub proof fn law_no_poll_after_the_timeout(method: TanMethod, timeout: u64, n: nat)
    requires
        n >= 1,
    ensures
        poll_plan(method, timeout).max_polls >= 1,
        n <= poll_plan(method, timeout).max_polls ==> poll_time(poll_plan(method, timeout), n)
            <= timeout,
{
    let v = poll_plan(method, timeout);
    let room = timeout - v.first_wait;
    let next = v.next_wait as int;
    assert(room / next >= 0) by (nonlinear_arith)
        requires
            next >= 1,
            room >= 0,
    ;
    if n <= v.max_polls {
        assert((n - 1) * next <= room) by (nonlinear_arith)
            requires
                next >= 1,
                room >= 0,
                n >= 1,
                n - 1 <= room / next,
        ;
    }
}

/// No poll that fits is left out: where the TAN method sets no limit every poll whose time comes
/// within the timeout is made, and where it sets one every such poll up to the limit.
pub proof fn law_every_poll_that_fits_is_made(method: TanMethod, timeout: u64, n: nat)
    requires
        1 <= n <= u32::MAX,
        poll_plan(method, timeout).first_wait + (n - 1) * poll_plan(method, timeout).next_wait
            <= timeout,
        method.decoupled_max_polls > 0 ==> n <= method.decoupled_max_polls,
    ensures
        n <= poll_plan(method, timeout).max_polls,
        poll_times(poll_plan(method, timeout), n) is Some,
{
    let v = poll_plan(method, timeout);
    let room = timeout - v.first_wait;
    let next = v.next_wait as int;
    assert(n - 1 <= room / next) by (nonlinear_arith)
        requires
            next >= 1,
            room >= 0,
            (n - 1) * next <= room,
    ;
    law_polls_up_to_the_limit(v, n);
}

/// No more polls are made than the TAN method allows, and between two of them the client waits as
/// long as the method says: before the first one as long as fits into the timeout, and before
/// every other one at least a second.
pub proof fn law_waits_are_those_of_the_method(method: TanMethod, timeout: u64)
    ensures
        poll_plan(method, timeout).polls == 0,
        method.decoupled_max_polls > 0 ==> poll_plan(method, timeout).max_polls
            <= method.decoupled_max_polls,
        0 <= method.wait_before_first_poll <= timeout ==> poll_plan(method, timeout).first_wait
            == method.wait_before_first_poll,
        method.wait_before_first_poll > timeout ==> poll_plan(method, timeout).first_wait
            == timeout,
        method.wait_before_first_poll < 0 ==> poll_plan(method, timeout).first_wait == 0,
        method.wait_before_next_poll >= 1 ==> poll_plan(method, timeout).next_wait
            == method.wait_before_next_poll,
        method.wait_before_next_poll < 1 ==> poll_plan(method, timeout).next_wait == 1,
{
}

/// However often the bank was polled, the waiting times and the limit stay what they were.
pub proof fn law_polling_keeps_its_times(v: PollerView, n: nat)
    ensures
        poll_times(v, n) matches Some(w) ==> w.first_wait == v.first_wait && w.next_wait
            == v.next_wait && w.max_polls == v.max_polls,
    decreases n,
{
    if n > 0 {
        law_polling_keeps_its_times(v, (n - 1) as nat);
    }
}

/// A decoupled challenge is confirmed with the first of the bank's methods that is decoupled, and
/// there is none only where no method is.
pub proof fn law_first_decoupled_method(methods: Seq<TanMethod>)
    ensures
        match decoupled_method(methods) {
            Some(m) => exists|i: int|
                0 <= i < methods.len() && m == #[trigger] methods[i] && m.is_decoupled && forall|
                    j: int,
                | 0 <= j < i ==> !(#[trigger] methods[j]).is_decoupled,
            None => forall|i: int| 0 <= i < methods.len() ==> !(#[trigger] methods[i]).is_decoupled,
        },
    decreases methods.len(),
{
    if methods.len() > 0 && !methods[0].is_decoupled {
        let rest = methods.drop_first();
        law_first_decoupled_method(rest);
        assert forall|j: int| 1 <= j < methods.len() implies #[trigger] methods[j] == rest[j - 1] by {}
        if decoupled_method(rest) is Some {
            let i = choose|i: int|
                0 <= i < rest.len() && decoupled_method(rest)->0 == #[trigger] rest[i]
                    && rest[i].is_decoupled && forall|j: int|
                    0 <= j < i ==> !(#[trigger] rest[j]).is_decoupled;
            assert(decoupled_method(methods)->0 == methods[i + 1]);
            assert forall|j: int| 0 <= j < i + 1 implies !(#[trigger] methods[j]).is_decoupled by {
                if j > 0 {
                    assert(!rest[j - 1].is_decoupled);
                }
            }
        }
    }
}

/// How a challenge is waited for within `timeout` seconds, where it is.
pub open spec fn waiting_plan(challenge: ChallengeInfo, timeout: u64) -> Option<PollerView> {
    match decoupled_method(challenge.tan_methods@) {
        Some(method) if challenge.decoupled => Some(poll_plan(method, timeout)),
        _ => None,
    }
}

/// What a poller knows and does after a sleep.
pub open spec fn goes_on_after_sleep<P, O>(
    before: PollerView,
    after: PollerView,
    dialog: P,
    action: PollAction<P, O>,
) -> bool {
    match poll_again(before) {
        Some(v) => action == PollAction::<P, O>::Poll(dialog) && after == v,
        None => action == PollAction::<P, O>::Fail(FinTSError::TanTimeout) && after == before,
    }
}

/// What to do after a poll.
pub open spec fn after_answer<P, O>(
    next_wait: u64,
    polled: Result<PollResult<P, O>, FinTSError>,
) -> PollAction<P, O> {
    match polled {
        Ok(PollResult::Confirmed(open)) => PollAction::<P, O>::Open(open),
        Ok(PollResult::Pending(dialog)) => PollAction::<P, O>::Sleep { seconds: next_wait, dialog },
        Err(e) => PollAction::<P, O>::Fail(e),
    }
}

impl TanPoller {
    #[verifier::type_invariant]
    spec fn inv(self) -> bool {
        self.polls <= self.max_polls
    }

    pub closed spec fn view(&self) -> PollerView {
        PollerView {
            first_wait: self.first_wait,
            next_wait: self.next_wait,
            max_polls: self.max_polls as nat,
            polls: self.polls as nat,
        }
    }

    /// A poller that has not polled yet, and the first thing to do: to sleep.
    pub fn start<P, O>(dialog: P, first_wait: u64, next_wait: u64, max_polls: u32) -> (r: (
        TanPoller,
        PollAction<P, O>,
    ))
        ensures
            r.0@ == (PollerView { first_wait, next_wait, max_polls: max_polls as nat, polls: 0 }),
            r.1 == (PollAction::<P, O>::Sleep { seconds: first_wait, dialog }),
    {
        let poller = TanPoller { first_wait, next_wait, max_polls, polls: 0 };
        (poller, PollAction::Sleep { seconds: first_wait, dialog })
    }

    /// The poller of a decoupled challenge, for at most `timeout` seconds. A challenge that is not
    /// decoupled, or that comes with no decoupled method, is not waited for.
    pub fn within<P, O>(dialog: P, challenge: &ChallengeInfo, timeout: u64) -> (r: Option<
        (TanPoller, PollAction<P, O>),
    >)
        ensures
            match waiting_plan(*challenge, timeout) {
                Some(plan) => {
                    &&& r matches Some((poller, action))
                    &&& poller@ == plan
                    &&& action == (PollAction::<P, O>::Sleep { seconds: plan.first_wait, dialog })
                },
                None => r is None,
            },
    {
        if !challenge.decoupled {
            return None;
        }
        let methods = &challenge.tan_methods;
        let mut i: usize = 0;
        assert(methods@.skip(0) =~= methods@);
        while i < methods.len() && !methods[i].is_decoupled
            invariant
                i <= methods@.len(),
                decoupled_method(methods@.skip(i as int)) == decoupled_method(methods@),
            decreases methods@.len() - i,
        {
            assert(methods@.skip(i as int).drop_first() =~= methods@.skip(i + 1));
            i += 1;
        }
        if i == methods.len() {
            return None;
        }
        let method = &methods[i];
        let first: u64 = if method.wait_before_first_poll <= 0 {
            0
        } else if method.wait_before_first_poll as u64 > timeout {
            timeout
        } else {
            method.wait_before_first_poll as u64
        };
        let next: u64 = if method.wait_before_next_poll > 0 {
            method.wait_before_next_poll as u64
        } else {
            1
        };
        let fitting: u128 = 1 + ((timeout - first) / next) as u128;
        let allowed: u32 = if method.decoupled_max_polls > 0 {
            method.decoupled_max_polls as u32
        } else {
            u32::MAX
        };
        let max_polls: u32 = if fitting < allowed as u128 {
            fitting as u32
        } else {
            allowed
        };
        Some(TanPoller::start(dialog, first, next, max_polls))
    }

    /// After a sleep: poll once more, or give up where the bank was polled as often as is
    /// allowed.
    pub fn slept<P, O>(&mut self, dialog: P) -> (action: PollAction<P, O>)
        ensures
            goes_on_after_sleep(old(self)@, final(self)@, dialog, action),
    {
        proof {
            use_type_invariant(&*self);
        }
        if self.max_polls > 0 {
            if self.polls == self.max_polls {
                return PollAction::Fail(FinTSError::TanTimeout);
            }
            self.polls = self.polls + 1;
        }
        PollAction::Poll(dialog)
    }

    /// After a poll: the dialog is open, or it is still pending and the next sleep is due, or
    /// the poll failed.
    pub fn answered<P, O>(&self, polled: Result<PollResult<P, O>, FinTSError>) -> (action:
        PollAction<P, O>)
        ensures
            action == after_answer(self@.next_wait, polled),
    {
        match polled {
            Ok(PollResult::Confirmed(open)) => PollAction::Open(open),
            Ok(PollResult::Pending(dialog)) => PollAction::Sleep {
                seconds: self.next_wait,
                dialog,
            },
            Err(e) => PollAction::Fail(e),
        }
    }
}

/// The seconds to wait before the bank is polled again.
pub open spec fn pause_after<P, O>(
    poller: Option<&TanPoller>,
    polled: Result<PollResult<P, O>, FinTSError>,
) -> Option<u64> {
    match (poller, polled) {
        (Some(p), Ok(PollResult::Pending(_))) => Some(p@.next_wait),
        _ => None,
    }
}

/// The seconds to wait before the bank is polled again: a poller waits after a pending answer, and
/// nothing else is polled again.
pub fn next_pause<P, O>(
    poller: Option<&TanPoller>,
    polled: &Result<PollResult<P, O>, FinTSError>,
) -> (r: Option<u64>)
    ensures
        r == pause_after(poller, *polled),
{
    match (poller, polled) {
        (Some(p), Ok(PollResult::Pending(_))) => Some(p.next_wait),
        _ => None,
    }
}

/// With a limit the bank is polled at most that often, and every poll up to the limit is made;
/// without one it is polled for as long as the user has not confirmed.
pub proof fn law_polls_up_to_the_limit(v: PollerView, n: nat)
    requires
        v.polls == 0,
    ensures
        poll_times(v, n) is Some <==> (v.max_polls == 0 || n <= v.max_polls),
        poll_times(v, n) matches Some(w) ==> w.polls <= w.max_polls && w.max_polls == v.max_polls
            && w.polls == (if v.max_polls == 0 {
            0
        } else {
            n
        }),
    decreases n,
{
    if n > 0 {
        law_polls_up_to_the_limit(v, (n - 1) as nat);
    }
}

/// A confirmed TAN opens the dialog, a pending one is waited for as long as the poller says, and a
/// poll that failed ends the waiting. Only a pending answer is polled for again, and only where
/// there is a poller.
pub proof fn law_answers_of_the_bank<P, O>(
    poller: Option<&TanPoller>,
    next_wait: u64,
    polled: Result<PollResult<P, O>, FinTSError>,
)
    ensures
        polled matches Ok(PollResult::Confirmed(open)) ==> after_answer(next_wait, polled)
            == PollAction::<P, O>::Open(open),
        polled matches Ok(PollResult::Pending(dialog)) ==> after_answer(next_wait, polled) == (
        PollAction::<P, O>::Sleep { seconds: next_wait, dialog }),
        polled matches Err(e) ==> after_answer(next_wait, polled) == PollAction::<P, O>::Fail(e),
        pause_after(poller, polled) is Some <==> poller is Some && polled is Ok && polled->Ok_0
            is Pending,
        pause_after(poller, polled) matches Some(seconds) ==> seconds == poller->0@.next_wait,
{
}

/// A challenge is waited for exactly where it is decoupled and the bank has a decoupled method, and
/// then as the first such method says.
pub proof fn law_what_is_waited_for(challenge: ChallengeInfo, timeout: u64)
    ensures
        waiting_plan(challenge, timeout) is Some <==> challenge.decoupled && exists|i: int|
            0 <= i < challenge.tan_methods@.len() && (
            #[trigger] challenge.tan_methods@[i]).is_decoupled,
        waiting_plan(challenge, timeout) matches Some(v) ==> exists|i: int|
            0 <= i < challenge.tan_methods@.len() && v == poll_plan(
                #[trigger] challenge.tan_methods@[i],
                timeout,
            ) && challenge.tan_methods@[i].is_decoupled && forall|j: int|
                0 <= j < i ==> !(#[trigger] challenge.tan_methods@[j]).is_decoupled,
{
    law_first_decoupled_method(challenge.tan_methods@);
}

/// After a sleep the bank is polled, and counted where there is a limit; where the limit is reached
/// the user has not confirmed in time, and nothing more is done.
pub proof fn law_after_a_sleep<P, O>(
    before: PollerView,
    after: PollerView,
    dialog: P,
    action: PollAction<P, O>,
)
    requires
        goes_on_after_sleep(before, after, dialog, action),
    ensures
        before.max_polls == 0 || before.polls < before.max_polls ==> action == PollAction::<
            P,
            O,
        >::Poll(dialog),
        before.max_polls > 0 && before.polls >= before.max_polls ==> action == PollAction::<
            P,
            O,
        >::Fail(FinTSError::TanTimeout),
        before.max_polls > 0 && before.polls < before.max_polls ==> after.polls == before.polls + 1,
        after.max_polls == before.max_polls,
        after.next_wait == before.next_wait,
        after.first_wait == before.first_wait,
{
}

} // verus!
