use vstd::prelude::*;

verus! {

/// The mathematical content of a [`RetryPolicy`]: how many outer attempts a
/// call makes, how many times it polls within each, and the delay before the
/// first poll of an attempt.
pub struct Backoff {
    pub attempts: nat,
    pub polls: nat,
    pub base: nat,
}

impl Backoff {
    /// The delay before poll `i` of an attempt: the base, doubled `i` times.
    pub open spec fn delay(self, i: nat) -> nat
        decreases i,
    {
        if i == 0 {
            self.base
        } else {
            2 * self.delay((i - 1) as nat)
        }
    }

    /// The sum of the delays before the first `n` polls of an attempt.
    pub open spec fn window(self, n: nat) -> nat
        decreases n,
    {
        if n == 0 {
            0
        } else {
            self.window((n - 1) as nat) + self.delay((n - 1) as nat)
        }
    }

    /// The longest a call sleeps: every attempt's full window.
    pub open spec fn worst_case(self) -> nat {
        self.attempts * self.window(self.polls)
    }

    /// Whether the policy can be held in machine integers: the counts in
    /// `u32`, and the window of one attempt, hence each delay, in `u64`.
    pub open spec fn fits(self) -> bool {
        &&& self.attempts <= u32::MAX
        &&& self.polls <= u32::MAX
        &&& self.base <= u64::MAX
        &&& self.window(self.polls) <= u64::MAX
    }
}

/// The window grows with the number of polls, and holds each of its delays.
pub proof fn lemma_window_grows(b: Backoff, i: nat, n: nat)
    requires
        i <= n,
    ensures
        b.window(i) <= b.window(n),
        i < n ==> b.window(i) + b.delay(i) <= b.window(n),
    decreases n,
{
    if i < n {
        lemma_window_grows(b, i, (n - 1) as nat);
    }
}

/// The doubling delays sum to one less than the next power of two, times the
/// base: the window of `n` polls is the delay of poll `n` less the base.
pub proof fn lemma_window_closed_form(b: Backoff, n: nat)
    ensures
        b.window(n) + b.base == b.delay(n),
    decreases n,
{
    if n > 0 {
        lemma_window_closed_form(b, (n - 1) as nat);
    }
}

/// Without a base nothing is ever waited for.
proof fn lemma_zero_base(b: Backoff, n: nat)
    requires
        b.base == 0,
    ensures
        b.delay(n) == 0,
        b.window(n) == 0,
    decreases n,
{
    if n > 0 {
        lemma_zero_base(b, (n - 1) as nat);
    }
}

/// How often and how patiently a call tries: outer attempts, inner polls per
/// attempt, and the base of the doubling delays, in milliseconds.
#[derive(Clone, Copy, Debug)]
pub struct RetryPolicy {
    attempts: u32,
    polls: u32,
    base: u64,
    window: u64,
}

impl View for RetryPolicy {
    type V = Backoff;

    closed spec fn view(&self) -> Backoff {
        Backoff { attempts: self.attempts as nat, polls: self.polls as nat, base: self.base as nat }
    }
}

impl RetryPolicy {
    /// What holds of every policy in memory: the stored window is the sum of
    /// the delays of one attempt.
    #[verifier::type_invariant]
    pub closed spec fn inv(self) -> bool {
        self.window == self@.window(self.polls as nat)
    }

    /// A policy that keeps its invariant fits machine integers.
    pub proof fn lemma_inv_fits(self)
        requires
            self.inv(),
        ensures
            self@.fits(),
    {
    }

    /// The policy with the given counts and base, if the window of one
    /// attempt fits 64 bits.
    pub fn new(attempts: u32, polls: u32, base: u64) -> (r: Option<Self>)
        ensures
            r is Some <==> (Backoff {
                attempts: attempts as nat,
                polls: polls as nat,
                base: base as nat,
            }).fits(),
            r matches Some(p) ==> p@ == (Backoff {
                attempts: attempts as nat,
                polls: polls as nat,
                base: base as nat,
            }),
    {
        let ghost b = Backoff { attempts: attempts as nat, polls: polls as nat, base: base as nat };
        if base == 0 {
            proof {
                lemma_zero_base(b, polls as nat);
            }
            return Some(RetryPolicy { attempts, polls, base, window: 0 });
        }
        let mut i: u32 = 0;
        let mut delay: u64 = base;
        let mut sum: u64 = 0;
        while i < polls
            invariant
                i <= polls,
                b == (Backoff {
                    attempts: attempts as nat,
                    polls: polls as nat,
                    base: base as nat,
                }),
                sum == b.window(i as nat),
                i < polls ==> delay == b.delay(i as nat),
            decreases polls - i,
        {
            match sum.checked_add(delay) {
                None => {
                    proof {
                        lemma_window_grows(b, i as nat, polls as nat);
                    }
                    return None;
                },
                Some(s) => {
                    sum = s;
                },
            }
            i = i + 1;
            if i < polls {
                match delay.checked_mul(2) {
                    None => {
                        proof {
                            lemma_window_grows(b, i as nat, polls as nat);
                        }
                        return None;
                    },
                    Some(d) => {
                        delay = d;
                    },
                }
            }
        }
        Some(RetryPolicy { attempts, polls, base, window: sum })
    }

    /// The design values: ten attempts of five polls each, after 1, 2, 4, 8
    /// and 16 milliseconds.
    pub fn standard() -> (p: Self)
        ensures
            p@ == (Backoff { attempts: 10, polls: 5, base: 1 }),
    {
        proof {
            reveal_with_fuel(Backoff::delay, 6);
            reveal_with_fuel(Backoff::window, 6);
        }
        RetryPolicy { attempts: 10, polls: 5, base: 1, window: 31 }
    }

    /// The number of outer attempts.
    pub fn attempts(&self) -> (n: u32)
        ensures
            n == self@.attempts,
    {
        self.attempts
    }

    /// The number of polls within one attempt.
    pub fn polls(&self) -> (n: u32)
        ensures
            n == self@.polls,
    {
        self.polls
    }

    /// The delay before the first poll of an attempt.
    pub fn base(&self) -> (n: u64)
        ensures
            n == self@.base,
    {
        self.base
    }

    /// The sum of the delays of one attempt.
    pub fn window(&self) -> (n: u64)
        ensures
            n == self@.window(self@.polls),
    {
        proof {
            use_type_invariant(self);
        }
        self.window
    }

    /// The longest a call under this policy sleeps before it gives up.
    pub fn worst_case(&self) -> (n: u128)
        ensures
            n == self@.worst_case(),
    {
        proof {
            use_type_invariant(self);
            assert(self.attempts as nat * self.window as nat <= 0xffff_ffff * 0xffff_ffff_ffff_ffff)
                by (nonlinear_arith)
                requires
                    self.attempts <= 0xffff_ffff,
                    self.window <= 0xffff_ffff_ffff_ffff,
            ;
        }
        self.attempts as u128 * self.window as u128
    }
}

} // verus!
