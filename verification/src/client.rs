use vstd::prelude::*;

use crate::errors::Failure;
use crate::ident::is_random;
use crate::packet::Packet;
use crate::policy::{Backoff, RetryPolicy, lemma_window_grows};
use crate::request::{Request, lemma_frame_len};
use crate::types::{Bytes, CorrelationId, Outcome, BUF_SIZE, outcome_view};

verus! {

/// The mathematical content of a [`Call`]: the frame and its correlation id,
/// the policy, and how far the call has come.
pub struct CallState {
    pub frame: Seq<u8>,
    pub id: CorrelationId,
    pub backoff: Backoff,
    /// Outer attempts opened so far.
    pub sent: nat,
    /// Polls asked for within the current attempt.
    pub polled: nat,
}

/// The mathematical content of a [`Step`].
pub enum Move {
    Dispatch(CallState),
    Sleep(CallState, nat),
    Finish(Result<Seq<u8>, Failure>),
}

/// How a call runs when no poll ever finds a result.
pub struct Silence {
    /// Attempts opened.
    pub dispatches: nat,
    /// The sum of all delays slept.
    pub slept: nat,
    /// What the call ends with.
    pub end: Result<Seq<u8>, Failure>,
}

impl CallState {
    /// A call that has done nothing yet.
    pub open spec fn fresh(frame: Seq<u8>, id: CorrelationId, backoff: Backoff) -> CallState {
        CallState { frame, id, backoff, sent: 0, polled: 0 }
    }

    /// The retry rule: what a call does next, given what the last poll of its
    /// waiter found.
    ///
    /// A result ends the call at once. Without one, an attempt that has polls
    /// left sleeps for the next delay; else another attempt is opened if any
    /// is left; else the call times out.
    pub open spec fn step(self, found: Option<Result<Seq<u8>, Failure>>) -> Move {
        match found {
            Some(outcome) => Move::Finish(outcome),
            None => if self.sent > 0 && self.polled < self.backoff.polls {
                Move::Sleep(
                    CallState { polled: self.polled + 1, ..self },
                    self.backoff.delay(self.polled),
                )
            } else if self.sent < self.backoff.attempts {
                Move::Dispatch(CallState { sent: self.sent + 1, polled: 0, ..self })
            } else {
                Move::Finish(Err(Failure::RequestTimeout))
            },
        }
    }

    /// The run of the call from here on if the peer never responds.
    pub open spec fn silent(self) -> Silence
        decreases self.backoff.attempts - self.sent, self.backoff.polls - self.polled,
    {
        match self.step(None) {
            Move::Dispatch(next) => {
                let rest = next.silent();
                Silence { dispatches: rest.dispatches + 1, ..rest }
            },
            Move::Sleep(next, delay) => {
                let rest = next.silent();
                Silence { slept: rest.slept + delay, ..rest }
            },
            Move::Finish(end) => Silence { dispatches: 0, slept: 0, end },
        }
    }
}

/// One call in progress: an encoded request and the state of its retries.
///
/// The request was encoded once, so every attempt sends the same frame under
/// the same correlation id.
#[derive(Debug)]
pub struct Call {
    packet: Packet,
    policy: RetryPolicy,
    sent: u32,
    polled: u32,
    delay: u64,
}

/// What the owner of a call does next.
#[derive(Debug)]
pub enum Step {
    /// Open an attempt: make a fresh waiter, dispatch the call's packet with
    /// it, queue the frame, and advance without a poll.
    Dispatch(Call),
    /// Sleep this many milliseconds, poll the waiter of the current attempt
    /// without blocking, and advance with what was found.
    Sleep(Call, u64),
    /// The call is over; this is its result.
    Finish(Outcome),
}

/// The mathematical content of what a poll found.
pub open spec fn found_view(found: Option<Outcome>) -> Option<Result<Seq<u8>, Failure>> {
    match found {
        Some(outcome) => Some(outcome_view(outcome)),
        None => None,
    }
}

impl View for Call {
    type V = CallState;

    closed spec fn view(&self) -> CallState {
        CallState {
            frame: self.packet.cont@,
            id: self.packet.uuid,
            backoff: self.policy@,
            sent: self.sent as nat,
            polled: self.polled as nat,
        }
    }
}

impl View for Step {
    type V = Move;

    open spec fn view(&self) -> Move {
        match *self {
            Step::Dispatch(call) => Move::Dispatch(call@),
            Step::Sleep(call, delay) => Move::Sleep(call@, delay as nat),
            Step::Finish(outcome) => Move::Finish(outcome_view(outcome)),
        }
    }
}

impl Call {
    #[verifier::type_invariant]
    spec fn inv(self) -> bool {
        &&& self.policy.inv()
        &&& self.sent <= self.policy@.attempts
        &&& self.polled <= self.policy@.polls
        &&& self.polled < self.policy@.polls ==> self.delay == self.policy@.delay(
            self.polled as nat,
        )
        &&& self.packet.cont@.len() <= BUF_SIZE
    }

    /// A call for `packet` under `policy` that has done nothing yet.
    ///
    /// Refused with `KeyTooLong` exactly when the frame is larger than one
    /// datagram can carry.
    pub fn start(packet: Packet, policy: RetryPolicy) -> (r: Result<Call, Failure>)
        ensures
            match r {
                Ok(call) => packet.cont@.len() <= BUF_SIZE && call@ == CallState::fresh(
                    packet.cont@,
                    packet.uuid,
                    policy@,
                ),
                Err(e) => packet.cont@.len() > BUF_SIZE && e == Failure::KeyTooLong,
            },
    {
        if packet.cont.len() > BUF_SIZE {
            return Err(Failure::KeyTooLong);
        }
        proof {
            use_type_invariant(&policy);
        }
        let delay = policy.base();
        Ok(Call { packet, policy, sent: 0, polled: 0, delay })
    }

    /// The packet that every attempt of this call dispatches.
    pub fn packet(&self) -> (p: &Packet)
        ensures
            p.cont@ == self@.frame,
            p.uuid == self@.id,
            p.cont@.len() <= BUF_SIZE,
    {
        proof {
            use_type_invariant(self);
        }
        &self.packet
    }

    /// The policy this call runs under.
    pub fn policy(&self) -> (p: RetryPolicy)
        ensures
            p@ == self@.backoff,
    {
        self.policy
    }

    /// Outer attempts opened so far.
    pub fn attempts_made(&self) -> (n: u32)
        ensures
            n == self@.sent,
            n <= self@.backoff.attempts,
    {
        proof {
            use_type_invariant(self);
        }
        self.sent
    }

    /// Polls asked for within the current attempt.
    pub fn polls_made(&self) -> (n: u32)
        ensures
            n == self@.polled,
            n <= self@.backoff.polls,
    {
        proof {
            use_type_invariant(self);
        }
        self.polled
    }

    /// Decides what the call does next, by the retry rule.
    ///
    /// `found` is what the last poll of the call's waiter produced: `None`
    /// where nothing was there, and where no poll was due.
    pub fn advance(self, found: Option<Outcome>) -> (step: Step)
        ensures
            step@ == self@.step(found_view(found)),
    {
        proof {
            use_type_invariant(&self);
        }
        let Call { packet, policy, sent, polled, delay } = self;
        proof {
            policy.lemma_inv_fits();
        }
        match found {
            Some(outcome) => Step::Finish(outcome),
            None => {
                if sent > 0 && polled < policy.polls() {
                    let next = polled + 1;
                    let doubled = if next < policy.polls() {
                        proof {
                            lemma_window_grows(policy@, next as nat, policy@.polls);
                        }
                        delay * 2
                    } else {
                        delay
                    };
                    Step::Sleep(Call { packet, policy, sent, polled: next, delay: doubled }, delay)
                } else if sent < policy.attempts() {
                    let base = policy.base();
                    Step::Dispatch(Call { packet, policy, sent: sent + 1, polled: 0, delay: base })
                } else {
                    Step::Finish(Err(Failure::RequestTimeout))
                }
            },
        }
    }
}

/// The call surface: turns each operation into a call in progress under one
/// shared retry policy.
#[derive(Clone, Copy, Debug)]
pub struct Client {
    /// The policy every call of this client runs under.
    pub policy: RetryPolicy,
}

/// What starting a call for `request` under `policy` comes to: nothing but
/// `KeyTooLong` if one datagram cannot carry the request's frame, else a call
/// that has done nothing yet, for the frame of the request under a random
/// correlation id.
pub open spec fn started(request: Request, policy: RetryPolicy, r: Result<Call, Failure>) -> bool {
    match r {
        Ok(call) => {
            &&& request@.sendable()
            &&& is_random(call@.id)
            &&& call@ == CallState::fresh(request@.frame(call@.id), call@.id, policy@)
        },
        Err(e) => !request@.sendable() && e == Failure::KeyTooLong,
    }
}

/// Encodes `request` once, which fixes the correlation id for the whole call,
/// and starts the call. Nothing has been sent when this returns.
pub fn send(client: &Client, request: Request) -> (r: Result<Call, Failure>)
    ensures
        started(request, client.policy, r),
{
    let ghost command = request@;
    match request.issue() {
        Err(e) => Err(e),
        Ok(packet) => {
            proof {
                lemma_frame_len(command, packet.uuid);
            }
            Call::start(packet, client.policy)
        },
    }
}

impl Client {
    /// A client whose calls run under `policy`.
    pub fn new(policy: RetryPolicy) -> (c: Self)
        ensures
            c.policy == policy,
    {
        Client { policy }
    }

    /// Starts a `Ping`.
    pub fn ping(&self) -> (r: Result<Call, Failure>)
        ensures
            started(Request::Ping, self.policy, r),
    {
        send(self, Request::Ping)
    }

    /// Starts a `Get` of `key`.
    pub fn get(&self, key: Bytes) -> (r: Result<Call, Failure>)
        ensures
            started(Request::Get(key), self.policy, r),
    {
        send(self, Request::Get(key))
    }

    /// Starts a `Set` of `key` to `val`.
    pub fn set(&self, key: Bytes, val: Bytes) -> (r: Result<Call, Failure>)
        ensures
            started(Request::Put(key, val), self.policy, r),
    {
        send(self, Request::Put(key, val))
    }

    /// Starts an `Unset` of `key`.
    pub fn unset(&self, key: Bytes) -> (r: Result<Call, Failure>)
        ensures
            started(Request::Unset(key), self.policy, r),
    {
        send(self, Request::Unset(key))
    }
}

/// A call keeps its frame, its correlation id and its policy for life:
/// whatever a step leaves to be done is done for the same packet, so all
/// attempts of one call share one correlation id.
pub proof fn lemma_step_keeps_packet(s: CallState, found: Option<Result<Seq<u8>, Failure>>)
    ensures
        match s.step(found) {
            Move::Dispatch(next) => next.frame == s.frame && next.id == s.id && next.backoff
                == s.backoff,
            Move::Sleep(next, _) => next.frame == s.frame && next.id == s.id && next.backoff
                == s.backoff,
            Move::Finish(_) => true,
        },
{
}

/// A result ends the call with that result, at whatever point of whichever
/// attempt it is found: an answer to an earlier attempt completes the call as
/// well as one to the latest.
pub proof fn lemma_result_ends_call(s: CallState, outcome: Result<Seq<u8>, Failure>)
    ensures
        s.step(Some(outcome)) == Move::Finish(outcome),
{
}

/// How a call that is under way runs on in silence: it sleeps out the
/// rest of the current window and the full window of every attempt left,
/// opens each of those attempts, and times out.
proof fn lemma_silent_rest(s: CallState)
    requires
        0 < s.sent <= s.backoff.attempts,
        s.polled <= s.backoff.polls,
    ensures
        s.silent().end == Err::<Seq<u8>, Failure>(Failure::RequestTimeout),
        s.silent().dispatches == s.backoff.attempts - s.sent,
        s.silent().slept == s.backoff.window(s.backoff.polls) - s.backoff.window(s.polled) + (
        s.backoff.attempts - s.sent) * s.backoff.window(s.backoff.polls),
    decreases s.backoff.attempts - s.sent, s.backoff.polls - s.polled,
{
    let b = s.backoff;
    let w = b.window(b.polls) as int;
    if s.polled < b.polls {
        let next = CallState { polled: s.polled + 1, ..s };
        lemma_silent_rest(next);
    } else if s.sent < b.attempts {
        let next = CallState { sent: s.sent + 1, polled: 0, ..s };
        lemma_silent_rest(next);
        let left = b.attempts - s.sent;
        assert(left * w == w + (left - 1) * w) by (nonlinear_arith);
    } else {
        assert((b.attempts - s.sent) * w == 0) by (nonlinear_arith)
            requires
                b.attempts - s.sent == 0,
        ;
    }
}

/// Timeout: if the peer never responds, a call opens each of its attempts
/// once, sleeps for exactly the policy's worst case, the number of attempts
/// times the sum of the doubling delays of one attempt, and fails with
/// `RequestTimeout`.
pub proof fn lemma_silence_times_out(frame: Seq<u8>, id: CorrelationId, backoff: Backoff)
    ensures
        CallState::fresh(frame, id, backoff).silent() == (Silence {
            dispatches: backoff.attempts,
            slept: backoff.worst_case(),
            end: Err(Failure::RequestTimeout),
        }),
{
    let s = CallState::fresh(frame, id, backoff);
    let w = backoff.window(backoff.polls) as int;
    if backoff.attempts > 0 {
        let next = CallState { sent: 1, polled: 0, ..s };
        lemma_silent_rest(next);
        let a = backoff.attempts as int;
        assert(a * w == w + (a - 1) * w) by (nonlinear_arith);
    } else {
        assert(backoff.attempts * w == 0) by (nonlinear_arith)
            requires
                backoff.attempts == 0,
        ;
    }
}

/// Under the design values a call that is never answered sends ten times and
/// gives up after 10 x (1 + 2 + 4 + 8 + 16) = 310 milliseconds of sleep.
pub proof fn lemma_standard_worst_case()
    ensures
        (Backoff { attempts: 10, polls: 5, base: 1 }).window(5) == 31,
        (Backoff { attempts: 10, polls: 5, base: 1 }).worst_case() == 310,
{
    reveal_with_fuel(Backoff::delay, 6);
    reveal_with_fuel(Backoff::window, 6);
}

} // verus!
