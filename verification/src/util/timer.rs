//! The pacing timer of a sender: a leaky bucket with a bounded burst, which goes to
//! sleep after a while without orders and gives up after a longer while.
//!
//! Time is a count of nanoseconds on a clock that the caller reads; the timer itself
//! never looks at a clock. The caller polls it, sends as many symbols as it is
//! permitted, and comes back at the time the timer names.
use vstd::prelude::*;

verus! {

/// How long after the last order the timer stops permitting, in nanoseconds.
pub const STOP_AFTER: u64 = 10_000_000_000;

/// How long after the last order the timer closes, in nanoseconds.
pub const EXIT_AFTER: u64 = 20_000_000_000;

/// The most symbols that one poll permits.
pub const MAX_BURST: usize = 8;

/// What a timer that is ready says.
#[derive(Debug, Clone, Copy, PartialEq, Eq)]
pub enum SenderTimerOutput {
    /// Send this many symbols now.
    Send(usize),
    /// No order has come for too long: stop for good.
    Close,
}

/// What a poll of the timer says.
#[derive(Debug, Clone, Copy, PartialEq, Eq)]
pub enum SenderTimerPoll {
    Ready(SenderTimerOutput),
    /// Nothing to do before `wake_at`: poll again then, or when the rate is set.
    Pending { wake_at: u64 },
}

/// The state of a pacing timer.
pub struct TimerView {
    /// The time between two symbols, which is not zero.
    pub interval: u64,
    pub sleep_after: u64,
    pub exit_after: u64,
    /// The time up to which symbols have been permitted.
    pub last_send: u64,
}

/// The pacing timer of one sender.
#[derive(Debug, Clone, Copy)]
pub struct SenderTimer {
    interval: u64,
    sleep_after: u64,
    exit_after: u64,
    last_send: u64,
}

impl View for SenderTimer {
    type V = TimerView;

    closed spec fn view(&self) -> TimerView {
        TimerView {
            interval: self.interval,
            sleep_after: self.sleep_after,
            exit_after: self.exit_after,
            last_send: self.last_send,
        }
    }
}

/// The greater of two times.
pub open spec fn later(a: int, b: int) -> int {
    if a >= b {
        a
    } else {
        b
    }
}

/// The smaller of two counts.
pub open spec fn at_most(a: int, b: int) -> int {
    if a <= b {
        a
    } else {
        b
    }
}

impl TimerView {
    /// How many intervals have passed between the last permitted symbol and `now`.
    pub open spec fn due(self, now: u64) -> int
        recommends
            self.interval > 0,
    {
        if now >= self.last_send {
            (now - self.last_send) / (self.interval as int)
        } else {
            0
        }
    }

    /// What a poll at `now` says: closed once the exit time has come; asleep till
    /// the exit time once the sleep time has come; else as many symbols as
    /// intervals have passed, but no more than the burst; and where none has
    /// passed, nothing before the next interval ends.
    pub open spec fn poll_output(self, now: u64) -> SenderTimerPoll
        recommends
            self.interval > 0,
    {
        if now >= self.exit_after {
            SenderTimerPoll::Ready(SenderTimerOutput::Close)
        } else if now >= self.sleep_after {
            SenderTimerPoll::Pending { wake_at: self.exit_after }
        } else if self.due(now) >= 1 {
            SenderTimerPoll::Ready(
                SenderTimerOutput::Send(at_most(self.due(now), MAX_BURST as int) as usize),
            )
        } else {
            SenderTimerPoll::Pending {
                wake_at: at_most(self.last_send + self.interval, u64::MAX as int) as u64,
            }
        }
    }

    /// The timer after a poll at `now`: where symbols were permitted, the time up to
    /// which they were moves on by all the intervals that have passed, those over
    /// the burst too.
    pub open spec fn after_poll(self, now: u64) -> TimerView
        recommends
            self.interval > 0,
    {
        if now < self.exit_after && now < self.sleep_after && self.due(now) >= 1 {
            TimerView {
                last_send: (self.last_send + self.due(now) * self.interval) as u64,
                ..self
            }
        } else {
            self
        }
    }

    /// The timer after the rate was set at `timestamp`: a new interval takes the
    /// place of the old one, and then no more than one interval counts as passed;
    /// the sleep and exit times move on to their distance from `timestamp`.
    pub open spec fn after_set_rate(self, timestamp: u64, new_interval: Option<u64>) -> TimerView {
        TimerView {
            interval: match new_interval {
                Some(i) => i,
                None => self.interval,
            },
            last_send: match new_interval {
                Some(i) => later(self.last_send as int, timestamp - i) as u64,
                None => self.last_send,
            },
            sleep_after: later(self.sleep_after as int, timestamp + STOP_AFTER) as u64,
            exit_after: later(self.exit_after as int, timestamp + EXIT_AFTER) as u64,
        }
    }

    /// The number of symbols that a poll at `now` permits.
    pub open spec fn permits(self, now: u64) -> nat {
        match self.poll_output(now) {
            SenderTimerPoll::Ready(SenderTimerOutput::Send(k)) => k as nat,
            _ => 0,
        }
    }

    /// The number of symbols that polls at `times`, one after the other, permit in
    /// all.
    pub open spec fn permits_in_all(self, times: Seq<u64>) -> nat
        decreases times.len(),
    {
        if times.len() == 0 {
            0
        } else {
            self.permits(times[0]) + self.after_poll(times[0]).permits_in_all(
                times.drop_first(),
            )
        }
    }
}

/// One poll permits no more than the burst, and no more symbols than intervals have
/// passed; the time up to which symbols are permitted never runs ahead of the clock.
pub proof fn lemma_poll_bounds(timer: TimerView, now: u64)
    requires
        timer.interval > 0,
    ensures
        timer.permits(now) <= MAX_BURST,
        timer.permits(now) * timer.interval <= timer.after_poll(now).last_send - timer.last_send,
        timer.after_poll(now).interval == timer.interval,
        timer.last_send <= timer.after_poll(now).last_send,
        timer.last_send <= now ==> timer.after_poll(now).last_send <= now,
{
    let due = timer.due(now);
    let i = timer.interval as int;
    if now >= timer.last_send {
        let passed = now - timer.last_send;
        assert(due * i <= passed) by (nonlinear_arith)
            requires
                due == passed / i,
                i > 0,
                passed >= 0,
        ;
        assert(due >= 0) by (nonlinear_arith)
            requires
                due == passed / i,
                i > 0,
                passed >= 0,
        ;
        let k = timer.permits(now) as int;
        assert(k <= due);
        assert(k * i <= due * i) by (nonlinear_arith)
            requires
                0 <= k <= due,
                i > 0,
        ;
    }
}

/// With the rate left alone, polls at times that never go back permit at most one
/// symbol for each interval that has passed since the timer last permitted one.
pub proof fn lemma_pacing(timer: TimerView, times: Seq<u64>)
    requires
        timer.interval > 0,
        times.len() > 0,
        timer.last_send <= times[0],
        forall|i: int, j: int| 0 <= i <= j < times.len() ==> times[i] <= times[j],
    ensures
        timer.permits_in_all(times) * timer.interval <= times.last() - timer.last_send,
    decreases times.len(),
{
    let now = times[0];
    let next = timer.after_poll(now);
    let rest = times.drop_first();
    let i = timer.interval as int;
    lemma_poll_bounds(timer, now);
    if rest.len() == 0 {
        assert(next.permits_in_all(rest) == 0);
        assert(times.last() == now);
        assert(timer.permits_in_all(times) == timer.permits(now));
    } else {
        assert(rest[0] == times[1]);
        assert forall|a: int, b: int| 0 <= a <= b < rest.len() implies rest[a] <= rest[b] by {
            assert(rest[a] == times[a + 1]);
            assert(rest[b] == times[b + 1]);
        }
        lemma_pacing(next, rest);
        assert(rest.last() == times.last());
        let first = timer.permits(now) as int;
        let more = next.permits_in_all(rest) as int;
        assert((first + more) * i == first * i + more * i) by (nonlinear_arith);
    }
}

impl SenderTimer {
    #[verifier::type_invariant]
    spec fn well_formed(&self) -> bool {
        self.interval > 0
    }

    /// A timer made at `now`, which permits one symbol each `interval` nanoseconds.
    pub fn new(interval: u64, now: u64) -> (timer: Self)
        requires
            interval > 0,
            now + EXIT_AFTER <= u64::MAX,
        ensures
            timer@ == (TimerView {
                interval,
                sleep_after: (now + STOP_AFTER) as u64,
                exit_after: (now + EXIT_AFTER) as u64,
                last_send: now,
            }),
    {
        Self {
            interval,
            sleep_after: now + STOP_AFTER,
            exit_after: now + EXIT_AFTER,
            last_send: now,
        }
    }

    /// Takes an order that came at `timestamp`: a new interval, if the order names
    /// one, and a new lease of life.
    pub fn set_rate(&mut self, timestamp: u64, new_interval: Option<u64>)
        requires
            new_interval matches Some(i) ==> i > 0,
            timestamp + EXIT_AFTER <= u64::MAX,
        ensures
            final(self)@ == old(self)@.after_set_rate(timestamp, new_interval),
            final(self)@.interval > 0,
    {
        proof {
            use_type_invariant(&*self);
        }
        let mut interval: u64 = self.interval;
        let mut last_send: u64 = self.last_send;
        match new_interval {
            Some(i) => {
                interval = i;
                let floor: u64 = timestamp.saturating_sub(i);
                if last_send < floor {
                    last_send = floor;
                }
            },
            None => {},
        }
        let sleep: u64 = timestamp + STOP_AFTER;
        let exit: u64 = timestamp + EXIT_AFTER;
        *self = Self {
            interval,
            last_send,
            sleep_after: if self.sleep_after < sleep {
                sleep
            } else {
                self.sleep_after
            },
            exit_after: if self.exit_after < exit {
                exit
            } else {
                self.exit_after
            },
        };
    }

    /// Asks the timer at `now` what to do.
    pub fn poll(&mut self, now: u64) -> (out: SenderTimerPoll)
        ensures
            out == old(self)@.poll_output(now),
            final(self)@ == old(self)@.after_poll(now),
            final(self)@.interval > 0,
            out matches SenderTimerPoll::Ready(SenderTimerOutput::Send(k)) ==> 1 <= k <= MAX_BURST,
    {
        proof {
            use_type_invariant(&*self);
        }
        if now >= self.exit_after {
            return SenderTimerPoll::Ready(SenderTimerOutput::Close);
        }
        if now >= self.sleep_after {
            return SenderTimerPoll::Pending { wake_at: self.exit_after };
        }
        if now >= self.last_send && now - self.last_send >= self.interval {
            let passed: u64 = now - self.last_send;
            let can_send: u64 = passed / self.interval;
            proof {
                let i = self.interval as int;
                assert(can_send * i <= passed) by (nonlinear_arith)
                    requires
                        can_send == passed as int / i,
                        i > 0,
                        passed >= 0,
                ;
                assert(can_send >= 1) by (nonlinear_arith)
                    requires
                        can_send == passed as int / i,
                        i > 0,
                        passed >= i,
                ;
            }
            self.last_send = self.last_send + can_send * self.interval;
            let burst: usize = if can_send > 8 {
                MAX_BURST
            } else {
                can_send as usize
            };
            return SenderTimerPoll::Ready(SenderTimerOutput::Send(burst));
        }
        proof {
            let i = self.interval as int;
            if now >= self.last_send {
                let passed = now - self.last_send;
                assert(passed / i == 0) by (nonlinear_arith)
                    requires
                        0 <= passed < i,
                ;
            }
        }
        SenderTimerPoll::Pending { wake_at: self.last_send.saturating_add(self.interval) }
    }

    /// The time between two symbols.
    pub fn interval(&self) -> (interval: u64)
        ensures
            interval == self@.interval,
            interval > 0,
    {
        proof {
            use_type_invariant(self);
        }
        self.interval
    }
}

} // verus!
