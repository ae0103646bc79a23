//! The speaker: a timer channel that makes a square wave, and a switch that lets
//! it through.
use vstd::prelude::*;
use crate::audio::wait::{clock_run, wait_until, CLOCK_LOOKS};
use crate::machine::{Access, Io, Machine, Order, Place, Query};

verus! {

pub const PIT_CHANNEL_2: u16 = 0x42;
pub const PIT_MODE: u16 = 0x43;
pub const KBDC_PORT_B: u16 = 0x61;
pub const GATE_ENABLE: u8 = 0x01;
pub const SPEAKER_ENABLE: u8 = 0x02;
/// Channel two, low byte then high byte, square wave, binary.
pub const CMD_CHAN2_MODE3: u8 = 0xB6;
pub const MIN_DIVIDER: u16 = 1;
pub const MAX_DIVIDER: u16 = 0xFFFF;
/// The input clock of the timer in hertz.
pub const PIT_FREQUENCY: u64 = 1_193_182;
pub const NS_PER_MS: u64 = 1_000_000;

/// How far a divider is from a frequency: the distance between what the divider
/// makes of the frequency and the input clock.
pub open spec fn miss(divider: int, freq_hz: u32) -> int {
    let gap = divider * freq_hz - PIT_FREQUENCY;
    if gap < 0 {
        -gap
    } else {
        gap
    }
}

/// Whether no divider the counter takes is nearer to a frequency.
pub open spec fn is_nearest(divider: int, freq_hz: u32) -> bool {
    &&& MIN_DIVIDER <= divider <= MAX_DIVIDER
    &&& forall|other: int|
        MIN_DIVIDER <= other <= MAX_DIVIDER ==> miss(divider, freq_hz) <= #[trigger] miss(
            other,
            freq_hz,
        )
}

/// The whole number nearest to the input clock over a frequency, the upper one
/// of two that are equally near, as far as the counter goes.
pub open spec fn divider_for(freq_hz: u32) -> int {
    let rounded = (2 * PIT_FREQUENCY + freq_hz) / (2 * freq_hz as int);
    if rounded < MIN_DIVIDER {
        MIN_DIVIDER as int
    } else if rounded > MAX_DIVIDER {
        MAX_DIVIDER as int
    } else {
        rounded
    }
}

/// The divider for a frequency, and the frequency it makes; zeros for no tone.
pub fn freq_to_divider(freq_hz: u32) -> (pair: (u16, u32))
    ensures
        freq_hz == 0 ==> pair == (0u16, 0u32),
        freq_hz > 0 ==> pair.0 == divider_for(freq_hz) && is_nearest(pair.0 as int, freq_hz)
            && pair.1 == PIT_FREQUENCY as int / pair.0 as int,
{
    if freq_hz == 0 {
        return (0, 0);
    }
    let rounded: u64 = (2 * PIT_FREQUENCY + freq_hz as u64) / (2 * freq_hz as u64);
    let divider: u16 = if rounded < MIN_DIVIDER as u64 {
        MIN_DIVIDER
    } else if rounded > MAX_DIVIDER as u64 {
        MAX_DIVIDER
    } else {
        rounded as u16
    };
    let achieved: u64 = PIT_FREQUENCY / divider as u64;
    proof {
        lemma_divider_is_nearest(freq_hz);
        vstd::arithmetic::div_mod::lemma_div_is_ordered_by_denominator(
            PIT_FREQUENCY as int,
            1,
            divider as int,
        );
    }
    (divider, achieved as u32)
}

/// No divider that the counter takes is nearer to a frequency than the one that
/// is chosen for it.
pub proof fn lemma_divider_is_nearest(freq_hz: u32)
    requires
        freq_hz > 0,
    ensures
        is_nearest(divider_for(freq_hz), freq_hz),
{
    let f = freq_hz as int;
    let p = PIT_FREQUENCY as int;
    let rounded = (2 * p + f) / (2 * f);
    let chosen = divider_for(freq_hz);
    vstd::arithmetic::div_mod::lemma_fundamental_div_mod(2 * p + f, 2 * f);
    assert((2 * f) * rounded == 2 * (rounded * f)) by (nonlinear_arith);
    assert(0 <= rounded) by (nonlinear_arith)
        requires
            2 * p + f - 2 * f < 2 * (rounded * f),
            p > 0,
            f > 0,
    ;
    assert forall|other: int| MIN_DIVIDER <= other <= MAX_DIVIDER implies miss(chosen, freq_hz)
        <= #[trigger] miss(other, freq_hz) by {
        if other < chosen {
            assert(other * f + f <= chosen * f && chosen * f <= rounded * f) by (nonlinear_arith)
                requires
                    other + 1 <= chosen <= rounded,
                    f > 0,
            ;
        } else if other > chosen {
            assert(chosen * f + f <= other * f && rounded * f <= chosen * f) by (nonlinear_arith)
                requires
                    chosen + 1 <= other,
                    rounded <= chosen,
                    f > 0,
            ;
        }
    }
}

/// Whether a tone sounds.
#[derive(Clone, Copy, Debug, PartialEq, Eq, Structural)]
pub struct Speaker {
    pub beeping: bool,
}

/// Load the divider and open the switch, with interrupts masked; every other bit
/// of the switch's port stays.
pub open spec fn arm_run(divider: u16, io: Io) -> Io {
    let (saved, io) = io.ask(Query::MaskInterrupts);
    let io = io.w8(Place::Port(PIT_MODE), CMD_CHAN2_MODE3);
    let io = io.w8(Place::Port(PIT_CHANNEL_2), (divider & 0xFF) as u8);
    let io = io.w8(Place::Port(PIT_CHANNEL_2), ((divider >> 8) & 0xFF) as u8);
    let (gate, io) = io.r8(Place::Port(KBDC_PORT_B));
    let io = io.w8(Place::Port(KBDC_PORT_B), gate | GATE_ENABLE | SPEAKER_ENABLE);
    io.tell(Order::RestoreInterrupts(saved))
}

/// Close the switch, with interrupts masked; every other bit of its port stays.
pub open spec fn close_run(io: Io) -> Io {
    let (saved, io) = io.ask(Query::MaskInterrupts);
    let (gate, io) = io.r8(Place::Port(KBDC_PORT_B));
    let io = io.w8(Place::Port(KBDC_PORT_B), gate & !(GATE_ENABLE | SPEAKER_ENABLE));
    io.tell(Order::RestoreInterrupts(saved))
}

/// Interrupts are masked before the first access to the speaker and put back to
/// what they were after the last one, whether a tone starts or ends.
pub proof fn lemma_speaker_is_masked(divider: u16, io: Io)
    ensures
        ({
            let saved = io.reply();
            let gate = (io.replies)(io.reads + 1) as u8;
            let port = |port: u16, value: u8| Access::Write8(Place::Port(port), value);
            &&& arm_run(divider, io).trace =~= io.trace + seq![
                Access::Ask(Query::MaskInterrupts),
                port(PIT_MODE, CMD_CHAN2_MODE3),
                port(PIT_CHANNEL_2, (divider & 0xFF) as u8),
                port(PIT_CHANNEL_2, ((divider >> 8) & 0xFF) as u8),
                Access::Read8(Place::Port(KBDC_PORT_B)),
                port(KBDC_PORT_B, gate | GATE_ENABLE | SPEAKER_ENABLE),
                Access::Tell(Order::RestoreInterrupts(saved)),
            ]
            &&& close_run(io).trace =~= io.trace + seq![
                Access::Ask(Query::MaskInterrupts),
                Access::Read8(Place::Port(KBDC_PORT_B)),
                port(KBDC_PORT_B, gate & !(GATE_ENABLE | SPEAKER_ENABLE)),
                Access::Tell(Order::RestoreInterrupts(saved)),
            ]
        }),
{
}

/// The end of a time, no later than the last one there is.
pub open spec fn deadline(start: u64, duration_ms: u64) -> u64 {
    let end = start + duration_ms * NS_PER_MS;
    if end > u64::MAX {
        u64::MAX
    } else {
        end as u64
    }
}

/// Play a tone: open the switch, let the time pass, close the switch.  A clock
/// that reads zero does not run yet, and is not waited for.
pub open spec fn beep_run(freq_hz: u32, duration_ms: u64, io: Io) -> Io {
    if freq_hz == 0 || duration_ms == 0 {
        io
    } else {
        let io = arm_run(divider_for(freq_hz) as u16, io);
        let (start, io) = io.ask(Query::UptimeNs);
        let io = if start != 0 {
            clock_run(deadline(start, duration_ms), CLOCK_LOOKS as nat, io)
        } else {
            io
        };
        close_run(io)
    }
}

fn close_gate<M: Machine>(machine: &mut M)
    ensures
        final(machine).io() == close_run(old(machine).io()),
{
    let saved: u64 = machine.ask(Query::MaskInterrupts);
    let gate: u8 = machine.read8(Place::Port(KBDC_PORT_B));
    machine.write8(Place::Port(KBDC_PORT_B), gate & !(GATE_ENABLE | SPEAKER_ENABLE));
    machine.tell(Order::RestoreInterrupts(saved));
}

impl Speaker {
    pub fn new() -> (speaker: Self)
        ensures
            !speaker.beeping,
    {
        Speaker { beeping: false }
    }

    fn arm<M: Machine>(&mut self, machine: &mut M, divider: u16)
        requires
            divider != 0,
        ensures
            final(self).beeping,
            final(machine).io() == arm_run(divider, old(machine).io()),
    {
        let saved: u64 = machine.ask(Query::MaskInterrupts);
        machine.write8(Place::Port(PIT_MODE), CMD_CHAN2_MODE3);
        machine.write8(Place::Port(PIT_CHANNEL_2), (divider & 0xFF) as u8);
        machine.write8(Place::Port(PIT_CHANNEL_2), ((divider >> 8) & 0xFF) as u8);
        let gate: u8 = machine.read8(Place::Port(KBDC_PORT_B));
        machine.write8(Place::Port(KBDC_PORT_B), gate | GATE_ENABLE | SPEAKER_ENABLE);
        machine.tell(Order::RestoreInterrupts(saved));
        self.beeping = true;
    }
}

/// End a tone, where one sounds.
pub fn silence<M: Machine>(speaker: &mut Speaker, machine: &mut M)
    ensures
        !final(speaker).beeping,
        final(machine).io() == (if old(speaker).beeping {
            close_run(old(machine).io())
        } else {
            old(machine).io()
        }),
{
    if !speaker.beeping {
        return ;
    }
    speaker.beeping = false;
    close_gate(machine);
}

/// Play a tone for some milliseconds.
pub fn beep<M: Machine>(speaker: &mut Speaker, machine: &mut M, freq_hz: u32, duration_ms: u64)
    ensures
        final(machine).io() == beep_run(freq_hz, duration_ms, old(machine).io()),
        final(speaker).beeping == (if freq_hz == 0 || duration_ms == 0 {
            old(speaker).beeping
        } else {
            false
        }),
{
    if freq_hz == 0 || duration_ms == 0 {
        return ;
    }
    let (divider, _achieved): (u16, u32) = freq_to_divider(freq_hz);
    speaker.arm(machine, divider);
    let start: u64 = machine.ask(Query::UptimeNs);
    if start != 0 {
        let duration_ns: u64 = match duration_ms.checked_mul(NS_PER_MS) {
            Some(ns) => ns,
            None => u64::MAX,
        };
        wait_until(machine, start.saturating_add(duration_ns));
    }
    close_gate(machine);
    speaker.beeping = false;
}

/// Whether a tone sounds.
pub fn is_beeping(speaker: &Speaker) -> (beeping: bool)
    ensures
        beeping == speaker.beeping,
{
    speaker.beeping
}

/// Start in silence.
pub fn init<M: Machine>(speaker: &mut Speaker, machine: &mut M)
    ensures
        !final(speaker).beeping,
        final(machine).io() == close_run(old(machine).io()),
{
    close_gate(machine);
    speaker.beeping = false;
}

} // verus!
