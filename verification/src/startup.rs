//! Bringing all devices up.
use vstd::prelude::*;
use crate::ahci;
use crate::ahci::AhciPciDriver;
use crate::audio;
use crate::audio::HdaPciDriver;
use crate::cmos;
use crate::cmos::{Cmos, CmosError, DateTime, SNAPSHOT_ATTEMPTS};
use crate::display::svga2;
use crate::display::svga2::Svga2PciDriver;
use crate::driver::{
    AnyDriver, Devices, KEY_AHCI, KEY_E1000, KEY_HDA, KEY_RTL8139, KEY_SVGA2,
};
use crate::machine::{Io, Machine, Order};
use crate::net;
use crate::net::e1000::E1000PciDriver;
use crate::net::rtl8139::Rtl8139PciDriver;
use crate::net::{Network, NIC_VECTOR};
use crate::pci::enumerate::{
    discovered, enrolled, enumerate_and_bind, Discovery, DriverRegistry, RegisteredDriver,
};
use crate::pci::routing::RouteTable;
use crate::pcspk;
use crate::pcspk::{close_run, Speaker};
use crate::ps2;
use crate::ps2::keyboard;
use crate::ps2::keyboard::{KeyboardModel, KeyboardState, Ps2KeyboardError};
use crate::ps2::mouse;
use crate::ps2::mouse::{MouseModel, MouseState, Ps2MouseError};
use crate::ps2::{Ps2Controller, Ps2ControllerError};
use crate::rng;
use crate::rng::{KernelRng, RngState};
use crate::serial::{SerialPort, COM1};

verus! {

/// The state of every device.
pub struct System {
    pub com1: SerialPort,
    pub rng: KernelRng,
    pub cmos: Cmos,
    pub speaker: Speaker,
    pub ps2: Ps2Controller,
    pub keyboard: KeyboardState,
    pub mouse: MouseState,
    pub drivers: DriverRegistry<AnyDriver>,
    pub devices: Devices,
}

/// How the devices came up.
pub struct Startup {
    pub clock: Result<DateTime, CmosError>,
    pub ps2: Result<(), Ps2ControllerError>,
    pub keyboard: Option<Result<(), Ps2KeyboardError>>,
    pub mouse: Option<Result<(), Ps2MouseError>>,
    pub discovery: Discovery,
}

/// How the keyboard, the mouse and what they hang on came up.
pub struct InputRun {
    pub ps2: Result<(), Ps2ControllerError>,
    pub keyboard: Option<Result<(), Ps2KeyboardError>>,
    pub mouse: Option<Result<(), Ps2MouseError>>,
    pub controller: Ps2Controller,
    pub keyboard_state: KeyboardModel,
    pub mouse_state: MouseModel,
    pub io: Io,
}

/// The controller first; then its interrupts, the keyboard, and the mouse where
/// there is a second channel.
pub open spec fn input_run(
    controller: Ps2Controller,
    keyboard: KeyboardModel,
    mouse: MouseModel,
    io: Io,
) -> InputRun {
    match controller.init_run(io) {
        (Err(error), controller, io) => InputRun {
            ps2: Err(error),
            keyboard: None,
            mouse: None,
            controller,
            keyboard_state: keyboard,
            mouse_state: mouse,
            io,
        },
        (Ok(_), controller, io) => {
            let (controller, io) = controller.wire_run(io);
            let (keyboard_result, keyboard, io) = keyboard.init_run(controller.initialized, io);
            if controller.dual_channel {
                let (mouse_result, mouse, io) = mouse.init_run(io);
                InputRun {
                    ps2: Ok(()),
                    keyboard: Some(keyboard_result),
                    mouse: Some(mouse_result),
                    controller,
                    keyboard_state: keyboard,
                    mouse_state: mouse,
                    io,
                }
            } else {
                InputRun {
                    ps2: Ok(()),
                    keyboard: Some(keyboard_result),
                    mouse: None,
                    controller,
                    keyboard_state: keyboard,
                    mouse_state: mouse,
                    io,
                }
            }
        },
    }
}

/// All drivers, in the order in which they are offered a device.
pub open spec fn all_drivers(drivers: Seq<RegisteredDriver<AnyDriver>>) -> Seq<
    RegisteredDriver<AnyDriver>,
> {
    let drivers = enrolled(drivers, KEY_AHCI, AnyDriver::Ahci(AhciPciDriver {}));
    let drivers = enrolled(drivers, KEY_HDA, AnyDriver::Hda(HdaPciDriver {}));
    let drivers = enrolled(drivers, KEY_SVGA2, AnyDriver::Svga2(Svga2PciDriver {}));
    let drivers = enrolled(drivers, KEY_RTL8139, AnyDriver::Rtl8139(Rtl8139PciDriver {}));
    enrolled(drivers, KEY_E1000, AnyDriver::E1000(E1000PciDriver {}))
}

impl System {
    /// Nothing is up yet.
    pub fn new() -> (system: Self)
        ensures
            system.com1.base == COM1,
            !system.speaker.beeping,
            system.ps2 == Ps2Controller::fresh(),
            system.keyboard@ == KeyboardModel::fresh(),
            system.mouse@ == MouseModel::fresh(),
            system.devices.is_fresh(),
            system.rng@ == RngState::fresh(),
            !system.cmos.nmi_disabled,
            system.drivers.wf(),
            system.drivers.drivers@.len() == 0,
    {
        System {
            com1: SerialPort::new(COM1),
            rng: KernelRng::unseeded(),
            cmos: Cmos::new(),
            speaker: Speaker::new(),
            ps2: Ps2Controller::new(),
            keyboard: KeyboardState::new(),
            mouse: MouseState::new(),
            drivers: DriverRegistry::new(),
            devices: Devices::new(),
        }
    }
}

fn init_input<M: Machine>(
    controller: &mut Ps2Controller,
    keyboard_state: &mut KeyboardState,
    mouse_state: &mut MouseState,
    machine: &mut M,
) -> (results: (
    Result<(), Ps2ControllerError>,
    Option<Result<(), Ps2KeyboardError>>,
    Option<Result<(), Ps2MouseError>>,
))
    ensures
        ({
            let run = input_run(
                *old(controller),
                old(keyboard_state)@,
                old(mouse_state)@,
                old(machine).io(),
            );
            &&& results == (run.ps2, run.keyboard, run.mouse)
            &&& *final(controller) == run.controller
            &&& final(keyboard_state)@ == run.keyboard_state
            &&& final(mouse_state)@ == run.mouse_state
            &&& final(machine).io() == run.io
        }),
{
    match ps2::init(controller, machine) {
        Ok(_) => {
            ps2::register_irq_handlers(controller, machine);
            let keyboard_result = keyboard::init(keyboard_state, controller, machine);
            if ps2::is_dual_channel(controller) {
                let mouse_result = mouse::init(mouse_state, machine);
                (Ok(()), Some(keyboard_result), Some(mouse_result))
            } else {
                (Ok(()), Some(keyboard_result), None)
            }
        },
        Err(error) => (Err(error), None, None),
    }
}

/// Bring all devices up: the serial port, random numbers, the clock, a silent
/// speaker, keyboard and mouse, and what hangs on the bus.  A device that fails keeps no other
/// from coming up.
pub fn init<M: Machine>(
    system: &mut System,
    machine: &mut M,
    tables: Option<&Vec<RouteTable>>,
) -> (startup: Startup)
    requires
        old(system).drivers.wf(),
    ensures
        final(system).com1 == old(system).com1,
        final(system).cmos == old(system).cmos,
        !final(system).speaker.beeping,
        final(system).drivers.wf(),
        final(system).drivers.drivers@ == all_drivers(old(system).drivers.drivers@),
        ({
            let io = old(system).com1.init_run(old(machine).io());
            let (rng, io) = old(system).rng@.seed_run(io);
            let (clock, io) = old(system).cmos.now_run(SNAPSHOT_ATTEMPTS as nat, io);
            let io = close_run(io);
            let input = input_run(old(system).ps2, old(system).keyboard@, old(system).mouse@, io);
            let io = if old(system).devices.network@.handler_installed {
                input.io
            } else {
                input.io.tell(Order::InstallHandler(NIC_VECTOR))
            };
            &&& final(system).rng@ == rng
            &&& startup.clock == clock
            &&& startup.ps2 == input.ps2
            &&& startup.keyboard == input.keyboard
            &&& startup.mouse == input.mouse
            &&& final(system).ps2 == input.controller
            &&& final(system).keyboard@ == input.keyboard_state
            &&& final(system).mouse@ == input.mouse_state
            &&& discovered(
                final(system).drivers.drivers@,
                match tables {
                    Some(list) => Some(list@),
                    None => None,
                },
                Devices {
                    network: Network { handler_installed: true, ..old(system).devices.network },
                    ..old(system).devices
                },
                io,
                startup.discovery,
                final(system).devices,
                final(machine).io(),
            )
        }),
{
    system.com1.init(machine);
    rng::init(&mut system.rng, machine);
    let clock = cmos::init(&system.cmos, machine);
    pcspk::init(&mut system.speaker, machine);
    let (ps2, keyboard, mouse) = init_input(
        &mut system.ps2,
        &mut system.keyboard,
        &mut system.mouse,
        machine,
    );
    ahci::register_pci_driver(&mut system.drivers);
    audio::register_pci_driver(&mut system.drivers);
    svga2::register_pci_driver(&mut system.drivers);
    net::register_pci_drivers(&mut system.devices.network, &mut system.drivers, machine);
    let discovery = enumerate_and_bind(&system.drivers, &mut system.devices, machine, tables);
    Startup { clock, ps2, keyboard, mouse, discovery }
}

} // verus!
