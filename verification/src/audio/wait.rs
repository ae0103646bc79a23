//! Bounded waiting, before and after interrupts are enabled.
//!
//! While interrupts are off the programmable timer counts milliseconds; once
//! they are on the system clock does, and the timer is left alone.
use vstd::prelude::*;
use crate::machine::{Io, Machine, Order, Place, Query};

verus! {

/// Milliseconds the hardware gets for a change of state.
pub const HARDWARE_TIMEOUT_MS: u16 = 10;
/// Polls between two looks at the clock.
pub const FAST_POLLS_PER_MILLISECOND: usize = 256;
pub const NS_PER_MS: u64 = 1_000_000;
/// Looks at a clock that stands still before it is given up.
pub const CLOCK_LOOKS: u64 = 0xffff_ffff_ffff_ffff;

/// Milliseconds that are left.
#[derive(Clone, Copy, Debug, Eq, PartialEq, Structural)]
pub struct MillisecondBudget {
    pub remaining: u16,
}

/// Polls that are left.
#[derive(Clone, Copy, Debug, Eq, PartialEq, Structural)]
pub struct PollingBudget {
    pub milliseconds: MillisecondBudget,
    pub fast_remaining: usize,
    pub monotonic_deadline_ns: Option<u64>,
}

/// The sum of two times, no later than the last one.
pub open spec fn later(now_ns: u64, milliseconds: u16) -> u64 {
    let sum = now_ns + milliseconds * NS_PER_MS;
    if sum > u64::MAX {
        u64::MAX
    } else {
        sum as u64
    }
}

impl MillisecondBudget {
    pub fn new(milliseconds: u16) -> (budget: Self)
        ensures
            budget.remaining == milliseconds,
    {
        MillisecondBudget { remaining: milliseconds }
    }

    /// Take one millisecond, where one is left.
    pub fn consume_one(&mut self) -> (taken: bool)
        ensures
            taken == (old(self).remaining > 0),
            final(self).remaining == (if old(self).remaining > 0 {
                old(self).remaining - 1
            } else {
                0
            }),
    {
        if self.remaining == 0 {
            false
        } else {
            self.remaining = self.remaining - 1;
            true
        }
    }

    /// Take one millisecond and let it pass.
    pub fn wait_one<M: Machine>(&mut self, machine: &mut M) -> (taken: bool)
        ensures
            taken == (old(self).remaining > 0),
            final(self).remaining == (if old(self).remaining > 0 {
                old(self).remaining - 1
            } else {
                0
            }),
            final(machine).io() == (if old(self).remaining > 0 {
                old(machine).io().tell(Order::SleepMs(1))
            } else {
                old(machine).io()
            }),
    {
        if !self.consume_one() {
            return false;
        }
        machine.tell(Order::SleepMs(1));
        true
    }
}

impl PollingBudget {
    /// The budget for some milliseconds, by the state of the clock.
    pub open spec fn of(milliseconds: u16, interrupts_enabled: bool, now_ns: u64) -> PollingBudget {
        PollingBudget {
            milliseconds: MillisecondBudget { remaining: milliseconds },
            fast_remaining: if milliseconds == 0 {
                0
            } else {
                FAST_POLLS_PER_MILLISECOND
            },
            monotonic_deadline_ns: if interrupts_enabled {
                Some(later(now_ns, milliseconds))
            } else {
                None
            },
        }
    }

    pub open spec fn new_run(milliseconds: u16, io: Io) -> (PollingBudget, Io) {
        let (enabled, io) = io.ask(Query::InterruptsEnabled);
        if enabled != 0 {
            let (now_ns, io) = io.ask(Query::UptimeNs);
            (Self::of(milliseconds, true, now_ns), io)
        } else {
            (Self::of(milliseconds, false, 0), io)
        }
    }

    /// Whether another poll is allowed, and the budget behind it.
    pub open spec fn poll_run(self, io: Io) -> (bool, PollingBudget, Io) {
        if self.fast_remaining > 0 {
            (
                true,
                PollingBudget { fast_remaining: (self.fast_remaining - 1) as usize, ..self },
                io,
            )
        } else {
            let refilled = PollingBudget {
                fast_remaining: (FAST_POLLS_PER_MILLISECOND - 1) as usize,
                ..self
            };
            match self.monotonic_deadline_ns {
                Some(deadline) => {
                    let (now_ns, io) = io.ask(Query::UptimeNs);
                    if now_ns >= deadline {
                        (false, self, io)
                    } else {
                        (true, refilled, io)
                    }
                },
                None => if self.milliseconds.remaining == 0 {
                    (false, self, io)
                } else {
                    (
                        true,
                        PollingBudget {
                            milliseconds: MillisecondBudget {
                                remaining: (self.milliseconds.remaining - 1) as u16,
                            },
                            ..refilled
                        },
                        io.tell(Order::SleepMs(1)),
                    )
                },
            }
        }
    }

    pub fn new<M: Machine>(machine: &mut M, milliseconds: u16) -> (budget: Self)
        ensures
            (budget, final(machine).io()) == Self::new_run(milliseconds, old(machine).io()),
    {
        if machine.ask(Query::InterruptsEnabled) != 0 {
            let now_ns: u64 = machine.ask(Query::UptimeNs);
            Self::from_clock_state(milliseconds, true, now_ns)
        } else {
            Self::from_clock_state(milliseconds, false, 0)
        }
    }

    pub fn from_clock_state(milliseconds: u16, interrupts_enabled: bool, now_ns: u64) -> (budget:
        Self)
        ensures
            budget == Self::of(milliseconds, interrupts_enabled, now_ns),
    {
        PollingBudget {
            milliseconds: MillisecondBudget::new(milliseconds),
            fast_remaining: if milliseconds == 0 {
                0
            } else {
                FAST_POLLS_PER_MILLISECOND
            },
            monotonic_deadline_ns: if interrupts_enabled {
                Some(now_ns.saturating_add(milliseconds as u64 * NS_PER_MS))
            } else {
                None
            },
        }
    }

    /// Whether another poll is allowed.
    pub fn poll_again<M: Machine>(&mut self, machine: &mut M) -> (again: bool)
        ensures
            (again, *final(self), final(machine).io()) == old(self).poll_run(old(machine).io()),
    {
        if self.fast_remaining == 0 {
            match self.monotonic_deadline_ns {
                Some(deadline) => {
                    if machine.ask(Query::UptimeNs) >= deadline {
                        return false;
                    }
                },
                None => {
                    if !self.milliseconds.wait_one(machine) {
                        return false;
                    }
                },
            }
            self.fast_remaining = FAST_POLLS_PER_MILLISECOND;
        }
        self.fast_remaining = self.fast_remaining - 1;
        true
    }
}

/// Something that can be waited for.
pub trait Ready {
    /// Whether it is there.
    spec fn ready_run(&self, io: Io) -> (bool, Io);

    /// Whether it is there.
    fn ready<M: Machine>(&self, machine: &mut M) -> (ready: bool)
        ensures
            (ready, final(machine).io()) == self.ready_run(old(machine).io()),
    ;
}

/// Some bits of a register are set, or are clear.
#[derive(Clone, Copy, Debug, Eq, PartialEq, Structural)]
pub enum Bits {
    Byte(Place, u8, bool),
    Word(Place, u16, bool),
    Dword(Place, u32, bool),
}

impl Ready for Bits {
    open spec fn ready_run(&self, io: Io) -> (bool, Io) {
        match *self {
            Bits::Byte(place, mask, set) => {
                let (value, io) = io.r8(place);
                ((value & mask != 0) == set, io)
            },
            Bits::Word(place, mask, set) => {
                let (value, io) = io.r16(place);
                ((value & mask != 0) == set, io)
            },
            Bits::Dword(place, mask, set) => {
                let (value, io) = io.r32(place);
                ((value & mask != 0) == set, io)
            },
        }
    }

    fn ready<M: Machine>(&self, machine: &mut M) -> (ready: bool) {
        match *self {
            Bits::Byte(place, mask, set) => (machine.read8(place) & mask != 0) == set,
            Bits::Word(place, mask, set) => (machine.read16(place) & mask != 0) == set,
            Bits::Dword(place, mask, set) => (machine.read32(place) & mask != 0) == set,
        }
    }
}

/// Poll while the budget lasts, `looks` times at most.
pub open spec fn polls_run<R: Ready>(
    condition: R,
    budget: PollingBudget,
    looks: nat,
    io: Io,
) -> (bool, Io)
    decreases looks,
{
    if looks == 0 {
        (false, io)
    } else {
        let (again, budget, io) = budget.poll_run(io);
        if !again {
            (false, io)
        } else {
            let (ready, io) = condition.ready_run(io);
            if ready {
                (true, io)
            } else {
                polls_run(condition, budget, (looks - 1) as nat, io)
            }
        }
    }
}

/// Whether something came to be within some milliseconds.  It is looked at
/// once before any time is counted.
pub open spec fn until_run<R: Ready>(milliseconds: u16, condition: R, io: Io) -> (bool, Io) {
    let (ready, io) = condition.ready_run(io);
    if ready {
        (true, io)
    } else {
        let (budget, io) = PollingBudget::new_run(milliseconds, io);
        polls_run(condition, budget, CLOCK_LOOKS as nat, io)
    }
}

/// Wait for something, for some milliseconds at most.
pub fn until<R: Ready, M: Machine>(machine: &mut M, milliseconds: u16, condition: R) -> (came: bool)
    ensures
        (came, final(machine).io()) == until_run(milliseconds, condition, old(machine).io()),
{
    if condition.ready(machine) {
        return true;
    }
    let mut budget: PollingBudget = PollingBudget::new(machine, milliseconds);
    let ghost first = budget;
    let ghost start = machine.io();
    let mut looks: u64 = CLOCK_LOOKS;
    while looks > 0
        invariant
            until_run(milliseconds, condition, old(machine).io()) == polls_run(
                condition,
                first,
                CLOCK_LOOKS as nat,
                start,
            ),
            polls_run(condition, first, CLOCK_LOOKS as nat, start) == polls_run(
                condition,
                budget,
                looks as nat,
                machine.io(),
            ),
        decreases looks,
    {
        if !budget.poll_again(machine) {
            return false;
        }
        if condition.ready(machine) {
            return true;
        }
        looks = looks - 1;
    }
    false
}

/// Look at the clock until a deadline.
pub open spec fn clock_run(deadline: u64, looks: nat, io: Io) -> Io
    decreases looks,
{
    if looks == 0 {
        io
    } else {
        let (now_ns, io) = io.ask(Query::UptimeNs);
        if now_ns < deadline {
            clock_run(deadline, (looks - 1) as nat, io)
        } else {
            io
        }
    }
}

/// Let some single milliseconds pass on the timer.
pub open spec fn sleeps_run(milliseconds: nat, io: Io) -> Io
    decreases milliseconds,
{
    if milliseconds == 0 {
        io
    } else {
        sleeps_run((milliseconds - 1) as nat, io.tell(Order::SleepMs(1)))
    }
}

/// Let some milliseconds pass.
pub open spec fn delay_run(milliseconds: u16, io: Io) -> Io {
    if milliseconds == 0 {
        io
    } else {
        let (enabled, io) = io.ask(Query::InterruptsEnabled);
        if enabled != 0 {
            let (now_ns, io) = io.ask(Query::UptimeNs);
            clock_run(later(now_ns, milliseconds), CLOCK_LOOKS as nat, io)
        } else {
            sleeps_run(milliseconds as nat, io)
        }
    }
}

/// Look at the clock until a deadline.
pub fn wait_until<M: Machine>(machine: &mut M, deadline: u64)
    ensures
        final(machine).io() == clock_run(deadline, CLOCK_LOOKS as nat, old(machine).io()),
{
    let mut looks: u64 = CLOCK_LOOKS;
    while looks > 0
        invariant
            clock_run(deadline, CLOCK_LOOKS as nat, old(machine).io()) == clock_run(
                deadline,
                looks as nat,
                machine.io(),
            ),
        decreases looks,
    {
        if machine.ask(Query::UptimeNs) >= deadline {
            return ;
        }
        looks = looks - 1;
    }
}

/// Let some milliseconds pass.
pub fn delay<M: Machine>(machine: &mut M, milliseconds: u16)
    ensures
        final(machine).io() == delay_run(milliseconds, old(machine).io()),
{
    if milliseconds == 0 {
        return ;
    }
    if machine.ask(Query::InterruptsEnabled) != 0 {
        let deadline: u64 = machine.ask(Query::UptimeNs).saturating_add(
            milliseconds as u64 * NS_PER_MS,
        );
        wait_until(machine, deadline);
    } else {
        let ghost start = machine.io();
        let mut left: u16 = milliseconds;
        while left > 0
            invariant
                delay_run(milliseconds, old(machine).io()) == sleeps_run(
                    milliseconds as nat,
                    start,
                ),
                sleeps_run(milliseconds as nat, start) == sleeps_run(left as nat, machine.io()),
            decreases left,
        {
            machine.tell(Order::SleepMs(1));
            left = left - 1;
        }
    }
}

/// Let one millisecond pass.
pub fn one_millisecond<M: Machine>(machine: &mut M)
    ensures
        final(machine).io() == delay_run(1, old(machine).io()),
{
    delay(machine, 1);
}

/// How many milliseconds on the timer a budget can still take.
pub open spec fn slots_left(budget: PollingBudget) -> int {
    budget.milliseconds.remaining as int
}

/// While interrupts are off a wait takes no more milliseconds from the timer
/// than it was given, and it never asks the clock.
pub proof fn lemma_timer_slots_are_bounded(budget: PollingBudget, io: Io)
    requires
        budget.monotonic_deadline_ns is None,
    ensures
        ({
            let (again, after, later_io) = budget.poll_run(io);
            &&& after.monotonic_deadline_ns is None
            &&& slots_left(after) <= slots_left(budget)
            &&& later_io.reads == io.reads
            &&& later_io.trace.len() - io.trace.len() == slots_left(budget) - slots_left(after)
        }),
{
}

/// Waiting for a deadline ends with a look at the clock that shows it passed,
/// unless the looks ran out.
pub proof fn lemma_wait_reaches_deadline(deadline: u64, looks: nat, io: Io)
    ensures
        ({
            let end = clock_run(deadline, looks, io);
            &&& end.replies == io.replies
            &&& io.reads <= end.reads <= io.reads + looks
            &&& end.reads < io.reads + looks ==> end.reads > io.reads && (end.replies)(
                (end.reads - 1) as nat,
            ) >= deadline
        }),
    decreases looks,
{
    if looks > 0 && io.ask(Query::UptimeNs).0 < deadline {
        lemma_wait_reaches_deadline(deadline, (looks - 1) as nat, io.ask(Query::UptimeNs).1);
    }
}

} // verus!
