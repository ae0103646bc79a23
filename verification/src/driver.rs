//! The drivers of this crate, and the state they share.
use vstd::prelude::*;
use crate::ahci::{AhciControllers, AhciPciDriver};
use crate::audio::{HdaControllers, HdaPciDriver};
use crate::display::svga2::{ActiveAdapter, Svga2PciDriver};
use crate::machine::{Io, Machine};
use crate::net::e1000::E1000PciDriver;
use crate::net::rtl8139::Rtl8139PciDriver;
use crate::net::{Network, NetworkModel};
use crate::pci::enumerate::{PciDevice, PciDriver, PciDriverError};
use crate::pci::routing::{FirmwareRoute, ParentBridge, RoutingDatabase};

verus! {

pub const KEY_AHCI: usize = 1;
pub const KEY_HDA: usize = 2;
pub const KEY_SVGA2: usize = 3;
pub const KEY_RTL8139: usize = 4;
pub const KEY_E1000: usize = 5;

/// Every device that is online, and how interrupts are wired.
#[derive(Debug)]
pub struct Devices {
    pub routing: RoutingDatabase,
    pub ahci: AhciControllers,
    pub audio: HdaControllers,
    pub display: ActiveAdapter,
    pub network: Network,
}

impl Devices {
    /// Whether nothing is online, and nothing is known of the wiring.
    pub open spec fn is_fresh(self) -> bool {
        &&& self.routing.routes@ == Seq::<FirmwareRoute>::empty()
        &&& self.routing.parents@ == Seq::new(256, |i: int| None::<ParentBridge>)
        &&& self.ahci.controllers@.len() == 0
        &&& self.audio.controllers@.len() == 0
        &&& self.display.active is None
        &&& self.network@ == NetworkModel::fresh()
    }

    /// Nothing is online yet.
    pub fn new() -> (devices: Self)
        ensures
            devices.is_fresh(),
    {
        Devices {
            routing: RoutingDatabase::new(),
            ahci: AhciControllers::new(),
            audio: HdaControllers::new(),
            display: ActiveAdapter::new(),
            network: Network::new(),
        }
    }
}

/// One of the drivers.
#[derive(Clone, Copy, Debug)]
pub enum AnyDriver {
    Ahci(AhciPciDriver),
    Hda(HdaPciDriver),
    Svga2(Svga2PciDriver),
    Rtl8139(Rtl8139PciDriver),
    E1000(E1000PciDriver),
}

impl PciDriver for AnyDriver {
    open spec fn claims(&self, device: PciDevice) -> bool {
        match *self {
            AnyDriver::Ahci(driver) => driver.claims(device),
            AnyDriver::Hda(driver) => driver.claims(device),
            AnyDriver::Svga2(driver) => driver.claims(device),
            AnyDriver::Rtl8139(driver) => driver.claims(device),
            AnyDriver::E1000(driver) => driver.claims(device),
        }
    }

    open spec fn brings_up(
        &self,
        device: PciDevice,
        before: Devices,
        io: Io,
        result: Result<(), PciDriverError>,
        after: Devices,
        later: Io,
    ) -> bool {
        match *self {
            AnyDriver::Ahci(driver) => driver.brings_up(device, before, io, result, after, later),
            AnyDriver::Hda(driver) => driver.brings_up(device, before, io, result, after, later),
            AnyDriver::Svga2(driver) => driver.brings_up(device, before, io, result, after, later),
            AnyDriver::Rtl8139(driver) => driver.brings_up(
                device,
                before,
                io,
                result,
                after,
                later,
            ),
            AnyDriver::E1000(driver) => driver.brings_up(device, before, io, result, after, later),
        }
    }

    fn name(&self) -> (name: &'static str)
        ensures
            name@ == (match *self {
                AnyDriver::Ahci(_) => "ahci"@,
                AnyDriver::Hda(_) => "hda"@,
                AnyDriver::Svga2(_) => "vmware-svga2"@,
                AnyDriver::Rtl8139(_) => "rtl8139"@,
                AnyDriver::E1000(_) => "e1000"@,
            }),
    {
        match self {
            AnyDriver::Ahci(driver) => driver.name(),
            AnyDriver::Hda(driver) => driver.name(),
            AnyDriver::Svga2(driver) => driver.name(),
            AnyDriver::Rtl8139(driver) => driver.name(),
            AnyDriver::E1000(driver) => driver.name(),
        }
    }

    fn matches(&self, device: &PciDevice) -> (claimed: bool) {
        match self {
            AnyDriver::Ahci(driver) => driver.matches(device),
            AnyDriver::Hda(driver) => driver.matches(device),
            AnyDriver::Svga2(driver) => driver.matches(device),
            AnyDriver::Rtl8139(driver) => driver.matches(device),
            AnyDriver::E1000(driver) => driver.matches(device),
        }
    }

    fn probe<M: Machine>(&self, machine: &mut M, devices: &mut Devices, device: &PciDevice) -> (result:
        Result<(), PciDriverError>) {
        match self {
            AnyDriver::Ahci(driver) => driver.probe(machine, devices, device),
            AnyDriver::Hda(driver) => driver.probe(machine, devices, device),
            AnyDriver::Svga2(driver) => driver.probe(machine, devices, device),
            AnyDriver::Rtl8139(driver) => driver.probe(machine, devices, device),
            AnyDriver::E1000(driver) => driver.probe(machine, devices, device),
        }
    }
}

} // verus!
