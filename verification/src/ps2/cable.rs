//! What comes out of the controller's two ports.
use vstd::prelude::*;
use crate::machine::{Access, Io, Order, Place};
use crate::ps2::keyboard;
use crate::ps2::keyboard::{light_byte, KeyboardModel};
use crate::ps2::mouse;
use crate::ps2::mouse::MouseModel;
use crate::ps2::{first_port_run, get_run, in_empty_run, out_full_run, put_run, POLL_LIMIT};
use crate::trace::{group_observed, observed};

verus! {

/// What the controller was told, and what it passed on.
pub struct CableView {
    /// The command whose data byte comes next.
    pub expects: Option<u8>,
    pub commands: Seq<u8>,
    pub config: Option<u8>,
    pub to_keyboard: Seq<u8>,
    pub to_mouse: Seq<u8>,
}

/// Port 0x64 takes commands.  Port 0x60 takes data: for the configuration behind the
/// command 0x60, for the mouse behind 0xD4, and else for the keyboard.
pub open spec fn cable_step() -> spec_fn(CableView, Access, u64) -> CableView {
    |view: CableView, access: Access, reply: u64|
        match access {
            Access::Write8(Place::Port(0x64), command) => CableView {
                expects: if command == 0x60 || command == 0xD4 {
                    Some(command)
                } else {
                    None
                },
                commands: view.commands.push(command),
                ..view
            },
            Access::Write8(Place::Port(0x60), byte) => if view.expects == Some(0xD4u8) {
                CableView { expects: None, to_mouse: view.to_mouse.push(byte), ..view }
            } else if view.expects == Some(0x60u8) {
                CableView { expects: None, config: Some(byte), ..view }
            } else {
                CableView { expects: None, to_keyboard: view.to_keyboard.push(byte), ..view }
            },
            _ => view,
        }
}

pub open spec fn cable_view(io: Io) -> CableView {
    observed(
        io,
        CableView {
            expects: None,
            commands: Seq::empty(),
            config: None,
            to_keyboard: Seq::empty(),
            to_mouse: Seq::empty(),
        },
        cable_step(),
    )
}

proof fn lemma_in_empty_view(limit: nat, io: Io)
    ensures
        cable_view(in_empty_run(limit, io).1) == cable_view(io),
    decreases limit,
{
    broadcast use group_observed;

    if limit > 0 {
        let next = io.r8(Place::Port(0x64)).1.tell(Order::IoWait);
        assert(cable_view(next) == cable_view(io));
        lemma_in_empty_view((limit - 1) as nat, next);
    }
}

proof fn lemma_out_full_view(limit: nat, io: Io)
    ensures
        cable_view(out_full_run(limit, io).1) == cable_view(io),
    decreases limit,
{
    broadcast use group_observed;

    if limit > 0 {
        let next = io.r8(Place::Port(0x64)).1.tell(Order::IoWait);
        assert(cable_view(next) == cable_view(io));
        lemma_out_full_view((limit - 1) as nat, next);
    }
}

proof fn lemma_get_view(limit: nat, io: Io)
    ensures
        cable_view(get_run(limit, io).2) == cable_view(io),
{
    broadcast use group_observed;

    lemma_out_full_view(limit, io);
}

proof fn lemma_first_port_view(limit: nat, io: Io)
    ensures
        cable_view(first_port_run(limit, io).1) == cable_view(io),
    decreases limit,
{
    broadcast use group_observed;

    if limit > 0 {
        let (status, seen) = io.r8(Place::Port(0x64));
        assert(cable_view(seen) == cable_view(io));
        let waited = seen.tell(Order::IoWait);
        assert(cable_view(waited) == cable_view(io));
        let read = seen.r8(Place::Port(0x60)).1;
        assert(cable_view(read) == cable_view(io));
        lemma_first_port_view((limit - 1) as nat, waited);
        lemma_first_port_view((limit - 1) as nat, read);
    }
}

proof fn lemma_command_view(limit: nat, command: u8, io: Io)
    requires
        put_run(limit, 0x64, command, io).0,
    ensures
        cable_view(put_run(limit, 0x64, command, io).1) == (CableView {
            expects: if command == 0x60 || command == 0xD4 {
                Some(command)
            } else {
                None
            },
            commands: cable_view(io).commands.push(command),
            ..cable_view(io)
        }),
{
    broadcast use group_observed;

    lemma_in_empty_view(limit, io);
}

proof fn lemma_data_view(limit: nat, byte: u8, io: Io)
    requires
        put_run(limit, 0x60, byte, io).0,
    ensures
        ({
            let before = cable_view(io);
            let after = cable_view(put_run(limit, 0x60, byte, io).1);
            &&& after.expects is None
            &&& after.commands == before.commands
            &&& before.expects == Some(0xD4u8) ==> after == (CableView {
                expects: None,
                to_mouse: before.to_mouse.push(byte),
                ..before
            })
            &&& before.expects == Some(0x60u8) ==> after == (CableView {
                expects: None,
                config: Some(byte),
                ..before
            })
            &&& before.expects is None ==> after == (CableView {
                to_keyboard: before.to_keyboard.push(byte),
                ..before
            })
        }),
{
    broadcast use group_observed;

    lemma_in_empty_view(limit, io);
}

proof fn lemma_mouse_byte(byte: u8, io: Io)
    requires
        mouse::mouse_run(byte, io).0 is Ok,
    ensures
        ({
            let before = cable_view(io);
            let after = cable_view(mouse::mouse_run(byte, io).1);
            &&& after.to_mouse == before.to_mouse.push(byte)
            &&& after.to_keyboard == before.to_keyboard
            &&& after.config == before.config
            &&& after.expects is None
        }),
{
    let limit = mouse::POLL_LIMIT as nat;
    lemma_command_view(limit, 0xD4, io);
    let told = put_run(limit, 0x64, 0xD4, io).1;
    lemma_data_view(limit, byte, told);
    let sent = put_run(limit, 0x60, byte, told).1;
    lemma_get_view(limit, sent);
}

proof fn lemma_mouse_bytes(bytes: Seq<u8>, from: int, io: Io)
    requires
        0 <= from <= bytes.len(),
        mouse::bytes_run(bytes, from, io).0 is Ok,
    ensures
        ({
            let before = cable_view(io);
            let after = cable_view(mouse::bytes_run(bytes, from, io).1);
            &&& after.to_mouse == before.to_mouse + bytes.skip(from)
            &&& after.to_keyboard == before.to_keyboard
            &&& after.config == before.config
        }),
    decreases bytes.len() - from,
{
    let before = cable_view(io);
    if from < bytes.len() {
        lemma_mouse_byte(bytes[from], io);
        let next = mouse::mouse_run(bytes[from], io).1;
        lemma_mouse_bytes(bytes, from + 1, next);
        assert(before.to_mouse.push(bytes[from]) + bytes.skip(from + 1) =~= before.to_mouse
            + bytes.skip(from));
    } else {
        assert(before.to_mouse + bytes.skip(from) =~= before.to_mouse);
    }
}

/// A mouse that comes up was reset and got defaults, plain scaling, one count for a
/// millimetre, the three rates that wake a wheel, the question for its number, its
/// own rate of 60 and the word to report, in this order; the keyboard got nothing.
/// The controller passes its interrupt on.
pub proof fn lemma_mouse_is_brought_up(state: MouseModel, io: Io)
    requires
        state.init_run(io).0 is Ok,
    ensures
        ({
            let before = cable_view(io);
            let after = cable_view(state.init_run(io).2);
            &&& after.to_mouse == before.to_mouse + seq![
                0xFFu8,
                0xF6,
                0xE6,
                0xE8,
                0x00,
                0xF3,
                200,
                0xF3,
                100,
                0xF3,
                80,
                0xF2,
                0xF3,
                60,
                0xF4,
            ]
            &&& after.to_keyboard == before.to_keyboard
            &&& after.config is Some
            &&& after.config->0 & 0x02 != 0
            &&& after.config->0 & 0x20 == 0
        }),
{
    let limit = mouse::POLL_LIMIT as nat;
    let before = cable_view(io);
    lemma_command_view(limit, 0xA7, io);
    let off = put_run(limit, 0x64, 0xA7, io).1;
    lemma_command_view(limit, 0x20, off);
    let asked = put_run(limit, 0x64, 0x20, off).1;
    lemma_get_view(limit, asked);
    let (_, bits, read) = get_run(limit, asked);
    lemma_command_view(limit, 0x60, read);
    let told = put_run(limit, 0x64, 0x60, read).1;
    lemma_data_view(limit, mouse::mouse_config(bits), told);
    let set = put_run(limit, 0x60, mouse::mouse_config(bits), told).1;
    lemma_command_view(limit, 0xA8, set);
    let on = put_run(limit, 0x64, 0xA8, set).1;
    mouse::lemma_mouse_config_spares_keyboard(bits);
    assert(mouse::attach_run(io).1 == on);
    lemma_mouse_byte(0xFF, on);
    let reset = mouse::mouse_run(0xFF, on).1;
    lemma_get_view(limit, reset);
    let (_, _, tested) = get_run(limit, reset);
    lemma_get_view(limit, tested);
    let (_, _, numbered) = get_run(limit, tested);
    assert(mouse::reset_run(on).1 == numbered);
    let setup = mouse::setup_bytes();
    lemma_mouse_bytes(setup, 0, numbered);
    let done = mouse::bytes_run(setup, 0, numbered).1;
    lemma_get_view(limit, done);
    let (_, _, known) = get_run(limit, done);
    let start = mouse::start_bytes();
    lemma_mouse_bytes(start, 0, known);
    let after = cable_view(state.init_run(io).2);
    assert(setup.skip(0) =~= setup);
    assert(start.skip(0) =~= start);
    assert(after.to_mouse =~= before.to_mouse + seq![
        0xFFu8,
        0xF6,
        0xE6,
        0xE8,
        0x00,
        0xF3,
        200,
        0xF3,
        100,
        0xF3,
        80,
        0xF2,
        0xF3,
        60,
        0xF4,
    ]);
}

/// Whether nothing that comes in asks for a repetition.
pub open spec fn never_repeats(io: Io) -> bool {
    forall|n: nat| #[trigger] (io.replies)(n) as u8 != 0xFE
}

proof fn lemma_first_port_keeps_replies(limit: nat, io: Io)
    ensures
        first_port_run(limit, io).1.replies == io.replies,
        first_port_run(limit, io).0 is Ok ==> exists|n: nat|
            first_port_run(limit, io).0->Ok_0 == #[trigger] (io.replies)(n) as u8,
    decreases limit,
{
    if limit > 0 {
        let (status, seen) = io.r8(Place::Port(0x64));
        let (byte, read) = seen.r8(Place::Port(0x60));
        assert(byte == (io.replies)(io.reads + 1) as u8);
        lemma_first_port_keeps_replies((limit - 1) as nat, seen.tell(Order::IoWait));
        lemma_first_port_keeps_replies((limit - 1) as nat, read);
    }
}

proof fn lemma_in_empty_keeps_replies(limit: nat, io: Io)
    ensures
        in_empty_run(limit, io).1.replies == io.replies,
    decreases limit,
{
    if limit > 0 {
        let next = io.r8(Place::Port(0x64)).1.tell(Order::IoWait);
        lemma_in_empty_keeps_replies((limit - 1) as nat, next);
    }
}

proof fn lemma_keyboard_byte(byte: u8, tries: nat, io: Io)
    requires
        never_repeats(io),
        cable_view(io).expects is None,
        keyboard::command_run(byte, tries, io).0 is Ok,
    ensures
        ({
            let before = cable_view(io);
            let later = keyboard::command_run(byte, tries, io).1;
            &&& cable_view(later) == (CableView {
                to_keyboard: before.to_keyboard.push(byte),
                ..before
            })
            &&& later.replies == io.replies
        }),
{
    let limit = POLL_LIMIT as nat;
    lemma_data_view(limit, byte, io);
    lemma_in_empty_keeps_replies(limit, io);
    let sent = put_run(limit, 0x60, byte, io).1;
    lemma_first_port_view(limit, sent);
    lemma_first_port_keeps_replies(limit, sent);
}

proof fn lemma_keyboard_bytes(bytes: Seq<u8>, from: int, io: Io)
    requires
        never_repeats(io),
        cable_view(io).expects is None,
        0 <= from <= bytes.len(),
        keyboard::commands_run(bytes, from, io).0 is Ok,
    ensures
        ({
            let before = cable_view(io);
            let later = keyboard::commands_run(bytes, from, io).1;
            &&& cable_view(later) == (CableView {
                to_keyboard: before.to_keyboard + bytes.skip(from),
                ..before
            })
            &&& later.replies == io.replies
        }),
    decreases bytes.len() - from,
{
    let before = cable_view(io);
    if from < bytes.len() {
        lemma_keyboard_byte(bytes[from], keyboard::COMMAND_RETRIES as nat, io);
        let next = keyboard::command_run(bytes[from], keyboard::COMMAND_RETRIES as nat, io).1;
        lemma_keyboard_bytes(bytes, from + 1, next);
        assert(before.to_keyboard.push(bytes[from]) + bytes.skip(from + 1)
            =~= before.to_keyboard + bytes.skip(from));
    } else {
        assert(before.to_keyboard + bytes.skip(from) =~= before.to_keyboard);
    }
}

/// Setting the lights sends the keyboard the command for it and the lights that are
/// to be on.
pub proof fn lemma_lights_are_sent(state: KeyboardModel, io: Io)
    requires
        never_repeats(io),
        cable_view(io).expects is None,
        state.leds_dirty,
        state.lights_run(io).0 is Ok,
    ensures
        ({
            let after = cable_view(state.lights_run(io).2);
            &&& after.to_keyboard == cable_view(io).to_keyboard + seq![
                0xEDu8,
                light_byte(state.modifiers),
            ]
            &&& after.to_mouse == cable_view(io).to_mouse
            &&& !state.lights_run(io).1.leds_dirty
        }),
{
    let bytes = seq![0xEDu8, light_byte(state.modifiers)];
    lemma_keyboard_bytes(bytes, 0, io);
    assert(bytes.skip(0) =~= bytes);
}

/// A keyboard that comes up was silenced and reset; then it was silenced again, put
/// into the first set of scancodes with its lights off, and told to scan, in this
/// order.  The mouse got nothing.
pub proof fn lemma_keyboard_is_reset(io: Io)
    requires
        never_repeats(io),
        keyboard::reset_run(io).0 is Ok,
    ensures
        ({
            let before = cable_view(io);
            let after = cable_view(keyboard::reset_run(io).1);
            &&& after.to_keyboard == before.to_keyboard + seq![
                0xF5u8,
                0xFF,
                0xF5,
                0xF0,
                0x01,
                0xED,
                0x00,
                0xF4,
            ]
            &&& after.to_mouse == before.to_mouse
            &&& after.commands == before.commands.push(0xAE)
        }),
{
    let limit = POLL_LIMIT as nat;
    let before = cable_view(io);
    lemma_command_view(limit, 0xAE, io);
    lemma_in_empty_keeps_replies(limit, io);
    let on = put_run(limit, 0x64, 0xAE, io).1;
    let first = seq![0xF5u8, 0xFFu8];
    lemma_keyboard_bytes(first, 0, on);
    let reset = keyboard::commands_run(first, 0, on).1;
    lemma_first_port_view(limit, reset);
    lemma_first_port_keeps_replies(limit, reset);
    let tested = first_port_run(limit, reset).1;
    let second = keyboard::setup_commands();
    lemma_keyboard_bytes(second, 0, tested);
    assert(first.skip(0) =~= first);
    assert(second.skip(0) =~= second);
    assert(cable_view(keyboard::reset_run(io).1).to_keyboard =~= before.to_keyboard + seq![
        0xF5u8,
        0xFF,
        0xF5,
        0xF0,
        0x01,
        0xED,
        0x00,
        0xF4,
    ]);
}

} // verus!
