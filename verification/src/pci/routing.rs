//! Which global interrupt a function's pin raises.
//!
//! Firmware lists the pins of each root bus; behind a bridge a pin turns into
//! another pin of the bridge, once per bridge on the way.
use vstd::prelude::*;
use crate::bits::no_flags;
use crate::machine::{Io, Machine};
use crate::pci::config::PciAddress;
use crate::pci::enumerate::{PciDevice, PciHeaderKind};

verus! {

/// Bridges that are followed at most.
pub const MAX_SWIZZLE_HOPS: usize = 32;
pub const PCI_BRIDGE_CLASS: u8 = 0x06;

/// One pin as firmware wired it; without a function it stands for all of them.
#[derive(Clone, Copy, Debug, PartialEq, Eq, Structural)]
pub struct FirmwareRoute {
    pub bus: u8,
    pub device: u8,
    pub function: Option<u8>,
    pub pin: u8,
    pub gsi: u32,
}

/// The bridge that a bus lies behind.
#[derive(Clone, Copy, Debug, PartialEq, Eq, Structural)]
pub struct ParentBridge {
    pub parent_bus: u8,
    pub device: u8,
    pub function: u8,
}

/// Everything that is known of the wiring.
#[derive(Debug)]
pub struct RoutingDatabase {
    pub routes: Vec<FirmwareRoute>,
    pub parents: [Option<ParentBridge>; 256],
}

/// Whether a route is about a pin.
pub open spec fn concerns(route: FirmwareRoute, bus: u8, device: u8, function: u8, pin: u8) -> bool {
    &&& route.bus == bus
    &&& route.device == device
    &&& route.pin == pin
    &&& route.function is None || route.function == Some(function)
}

/// Whether some route is about a pin, and all that are agree on `gsi`.
pub open spec fn all_say(
    routes: Seq<FirmwareRoute>,
    bus: u8,
    device: u8,
    function: u8,
    pin: u8,
    gsi: u32,
) -> bool {
    &&& exists|i: int|
        0 <= i < routes.len() && concerns(#[trigger] routes[i], bus, device, function, pin)
    &&& forall|i: int|
        0 <= i < routes.len() && concerns(#[trigger] routes[i], bus, device, function, pin)
            ==> routes[i].gsi == gsi
}

/// The interrupt that the routes give to a pin; none where they contradict
/// each other.
pub open spec fn routed(
    routes: Seq<FirmwareRoute>,
    bus: u8,
    device: u8,
    function: u8,
    pin: u8,
) -> Option<u32> {
    if exists|gsi: u32| all_say(routes, bus, device, function, pin, gsi) {
        Some(choose|gsi: u32| all_say(routes, bus, device, function, pin, gsi))
    } else {
        None
    }
}

/// Follow a pin up through the bridges to the first bus that routes it.  A bus
/// that was passed before ends the search.
pub open spec fn climb(
    routes: Seq<FirmwareRoute>,
    parents: Seq<Option<ParentBridge>>,
    bus: u8,
    slot: u8,
    function: u8,
    pin: u8,
    passed: Seq<bool>,
    hops: nat,
) -> Option<u32>
    decreases hops,
{
    if hops == 0 || passed[bus as int] {
        None
    } else {
        match routed(routes, bus, slot, function, pin) {
            Some(gsi) => Some(gsi),
            None => match parents[bus as int] {
                None => None,
                Some(parent) => climb(
                    routes,
                    parents,
                    parent.parent_bus,
                    parent.device,
                    parent.function,
                    ((pin + slot) % 4) as u8,
                    passed.update(bus as int, true),
                    (hops - 1) as nat,
                ),
            },
        }
    }
}

/// The interrupt that a device's pin raises.
pub open spec fn resolved(
    routes: Seq<FirmwareRoute>,
    parents: Seq<Option<ParentBridge>>,
    device: PciDevice,
) -> Option<u32> {
    if 1 <= device.interrupt_pin <= 4 {
        climb(
            routes,
            parents,
            device.address.bus,
            device.address.dev,
            device.address.func,
            (device.interrupt_pin - 1) as u8,
            Seq::new(256, |i: int| false),
            MAX_SWIZZLE_HOPS as nat,
        )
    } else {
        None
    }
}

proof fn lemma_routed(
    routes: Seq<FirmwareRoute>,
    bus: u8,
    device: u8,
    function: u8,
    pin: u8,
    gsi: u32,
)
    requires
        all_say(routes, bus, device, function, pin, gsi),
    ensures
        routed(routes, bus, device, function, pin) == Some(gsi),
{
    let i = choose|i: int|
        0 <= i < routes.len() && concerns(#[trigger] routes[i], bus, device, function, pin);
    let other = choose|other: u32| all_say(routes, bus, device, function, pin, other);
    assert(routes[i].gsi == gsi);
    assert(routes[i].gsi == other);
}

proof fn lemma_low_two_bits(value: u8)
    by (bit_vector)
    ensures
        value & 3 == value % 4,
{
}

impl RoutingDatabase {
    pub fn new() -> (database: Self)
        ensures
            database.routes@ == Seq::<FirmwareRoute>::empty(),
            database.parents@ == Seq::new(256, |i: int| None::<ParentBridge>),
    {
        let database = RoutingDatabase { routes: Vec::new(), parents: [None; 256] };
        assert(database.parents@ == Seq::new(256, |i: int| None::<ParentBridge>));
        database
    }

    /// Forget everything.
    pub fn clear(&mut self)
        ensures
            final(self).routes@ == Seq::<FirmwareRoute>::empty(),
            final(self).parents@ == Seq::new(256, |i: int| None::<ParentBridge>),
    {
        self.routes.clear();
        self.parents = [None; 256];
        assert(self.parents@ == Seq::new(256, |i: int| None::<ParentBridge>));
    }

    /// The interrupt of a pin, where the routes agree on one.
    pub fn lookup(&self, bus: u8, device: u8, function: u8, pin: u8) -> (gsi: Option<u32>)
        ensures
            gsi == routed(self.routes@, bus, device, function, pin),
    {
        let mut found: Option<u32> = None;
        let mut i: usize = 0;
        while i < self.routes.len()
            invariant
                i <= self.routes@.len(),
                found is None ==> forall|j: int|
                    0 <= j < i ==> !concerns(
                        #[trigger] self.routes@[j],
                        bus,
                        device,
                        function,
                        pin,
                    ),
                found is Some ==> all_say(
                    self.routes@.take(i as int),
                    bus,
                    device,
                    function,
                    pin,
                    found->0,
                ),
            decreases self.routes@.len() - i,
        {
            let route: FirmwareRoute = self.routes[i];
            let other_function: bool = match route.function {
                Some(expected) => expected != function,
                None => false,
            };
            let ghost seen = self.routes@.take(i as int);
            let ghost more = self.routes@.take(i + 1);
            assert(more == seen.push(route));
            if route.bus != bus || route.device != device || route.pin != pin || other_function {
                assert(!concerns(route, bus, device, function, pin));
                proof {
                    if found is Some {
                        let j = choose|j: int|
                            0 <= j < seen.len() && concerns(
                                #[trigger] seen[j],
                                bus,
                                device,
                                function,
                                pin,
                            );
                        assert(more[j] == seen[j]);
                        assert forall|k: int|
                            0 <= k < more.len() && concerns(
                                #[trigger] more[k],
                                bus,
                                device,
                                function,
                                pin,
                            ) implies more[k].gsi == found->0 by {
                            assert(k < seen.len());
                            assert(more[k] == seen[k]);
                        }
                    }
                }
            } else {
                assert(concerns(route, bus, device, function, pin));
                match found {
                    Some(existing) => {
                        if existing != route.gsi {
                            proof {
                                let j = choose|j: int|
                                    0 <= j < seen.len() && concerns(
                                        #[trigger] seen[j],
                                        bus,
                                        device,
                                        function,
                                        pin,
                                    );
                                assert(self.routes@[j] == seen[j]);
                                assert(self.routes@[i as int] == route);
                                assert forall|gsi: u32| !all_say(
                                    self.routes@,
                                    bus,
                                    device,
                                    function,
                                    pin,
                                    gsi,
                                ) by {
                                    if all_say(self.routes@, bus, device, function, pin, gsi) {
                                        assert(self.routes@[j].gsi == gsi);
                                        assert(self.routes@[i as int].gsi == gsi);
                                    }
                                }
                            }
                            return None;
                        }
                    },
                    None => {},
                }
                found = Some(route.gsi);
                proof {
                    assert(more[i as int] == route);
                    assert forall|k: int|
                        0 <= k < more.len() && concerns(
                            #[trigger] more[k],
                            bus,
                            device,
                            function,
                            pin,
                        ) implies more[k].gsi == route.gsi by {
                        if k < i {
                            assert(more[k] == seen[k]);
                            assert(more[k] == self.routes@[k]);
                        }
                    }
                }
            }
            i = i + 1;
        }
        proof {
            assert(self.routes@.take(i as int) == self.routes@);
            if found is Some {
                lemma_routed(self.routes@, bus, device, function, pin, found->0);
            } else {
                assert forall|gsi: u32| !all_say(
                    self.routes@,
                    bus,
                    device,
                    function,
                    pin,
                    gsi,
                ) by {}
            }
        }
        found
    }

    /// The interrupt that a device's pin raises.
    pub fn resolve(&self, device: &PciDevice) -> (gsi: Option<u32>)
        ensures
            gsi == resolved(self.routes@, self.parents@, *device),
    {
        let mut bus: u8 = device.address.bus();
        let mut slot: u8 = device.address.device();
        let mut function: u8 = device.address.function();
        if device.interrupt_pin == 0 {
            return None;
        }
        let mut pin: u8 = device.interrupt_pin - 1;
        if pin > 3 {
            return None;
        }
        let mut visited: [bool; 256] = no_flags();
        let mut hops: usize = 0;
        while hops < MAX_SWIZZLE_HOPS
            invariant
                hops <= MAX_SWIZZLE_HOPS,
                pin <= 3,
                resolved(self.routes@, self.parents@, *device) == climb(
                    self.routes@,
                    self.parents@,
                    bus,
                    slot,
                    function,
                    pin,
                    visited@,
                    (MAX_SWIZZLE_HOPS - hops) as nat,
                ),
            decreases MAX_SWIZZLE_HOPS - hops,
        {
            if visited[bus as usize] {
                return None;
            }
            visited[bus as usize] = true;
            if let Some(gsi) = self.lookup(bus, slot, function, pin) {
                return Some(gsi);
            }
            match self.parents[bus as usize] {
                None => {
                    return None;
                },
                Some(parent) => {
                    let sum: u8 = pin.wrapping_add(slot);
                    proof {
                        lemma_low_two_bits(sum);
                    }
                    pin = sum & 3;
                    bus = parent.parent_bus;
                    slot = parent.device;
                    function = parent.function;
                },
            }
            hops = hops + 1;
        }
        None
    }
}

/// A pin that its own bus routes never leaves that bus.
pub proof fn lemma_own_bus_decides(
    routes: Seq<FirmwareRoute>,
    parents: Seq<Option<ParentBridge>>,
    device: PciDevice,
)
    requires
        1 <= device.interrupt_pin <= 4,
        routed(
            routes,
            device.address.bus,
            device.address.dev,
            device.address.func,
            (device.interrupt_pin - 1) as u8,
        ) is Some,
    ensures
        resolved(routes, parents, device) == routed(
            routes,
            device.address.bus,
            device.address.dev,
            device.address.func,
            (device.interrupt_pin - 1) as u8,
        ),
{
}

/// Two routes about one pin that disagree leave the pin without an interrupt.
pub proof fn lemma_conflict_leaves_no_route(
    routes: Seq<FirmwareRoute>,
    bus: u8,
    device: u8,
    function: u8,
    pin: u8,
    i: int,
    j: int,
)
    requires
        0 <= i < routes.len(),
        0 <= j < routes.len(),
        concerns(routes[i], bus, device, function, pin),
        concerns(routes[j], bus, device, function, pin),
        routes[i].gsi != routes[j].gsi,
    ensures
        routed(routes, bus, device, function, pin) is None,
{
    assert forall|gsi: u32| !all_say(routes, bus, device, function, pin, gsi) by {
        if all_say(routes, bus, device, function, pin, gsi) {
            assert(routes[i].gsi == gsi);
            assert(routes[j].gsi == gsi);
        }
    }
}

/// The bus behind a PCI-to-PCI bridge; nothing is read for another device.
pub open spec fn secondary_run(device: PciDevice, io: Io) -> (Option<u8>, Io) {
    if device.base_class == PCI_BRIDGE_CLASS && device.header_kind == PciHeaderKind::Bridge && (
    device.subclass == 0x04 || device.subclass == 0x07 || device.subclass == 0x09)
        && device.address.is_valid() {
        let (word, io) = device.address.read32_run(0x18, io);
        (Some((word >> 8) as u8), io)
    } else {
        (None, io)
    }
}

/// The bus behind a PCI-to-PCI bridge.
pub fn secondary_bus<M: Machine>(machine: &mut M, device: &PciDevice) -> (bus: Option<u8>)
    ensures
        (bus, final(machine).io()) == secondary_run(*device, old(machine).io()),
{
    if device.base_class != PCI_BRIDGE_CLASS {
        return None;
    }
    match device.header_kind {
        PciHeaderKind::Bridge => {},
        _ => {
            return None;
        },
    }
    match device.subclass {
        0x04 | 0x07 | 0x09 => {},
        _ => {
            return None;
        },
    }
    match canonical_address(device) {
        Some(address) => Some((address.read32(machine, 0x18) >> 8) as u8),
        None => None,
    }
}

fn canonical_address(device: &PciDevice) -> (address: Option<PciAddress>)
    ensures
        address == (if device.address.is_valid() {
            Some(device.address)
        } else {
            None
        }),
{
    PciAddress::new(device.address.bus(), device.address.device(), device.address.function())
}

/// The parents of all buses after one more claim on bus `secondary`: a second
/// bridge that claims the bus makes the first claim void.
pub open spec fn claimed(
    parents: Seq<Option<ParentBridge>>,
    secondary: u8,
    parent: ParentBridge,
) -> Seq<Option<ParentBridge>> {
    match parents[secondary as int] {
        None => parents.update(secondary as int, Some(parent)),
        Some(existing) => if existing == parent {
            parents
        } else {
            parents.update(secondary as int, None)
        },
    }
}

/// The parents of all buses after the bridges among `devices`, from number
/// `from` on, were asked.
pub open spec fn parents_run(
    parents: Seq<Option<ParentBridge>>,
    devices: Seq<PciDevice>,
    from: int,
    io: Io,
) -> (Seq<Option<ParentBridge>>, Io)
    decreases devices.len() - from,
{
    if from >= devices.len() {
        (parents, io)
    } else {
        let device = devices[from];
        let (secondary, io) = secondary_run(device, io);
        match secondary {
            Some(bus) => if bus == 0 || bus == device.address.bus {
                parents_run(parents, devices, from + 1, io)
            } else {
                parents_run(
                    claimed(
                        parents,
                        bus,
                        ParentBridge {
                            parent_bus: device.address.bus,
                            device: device.address.dev,
                            function: device.address.func,
                        },
                    ),
                    devices,
                    from + 1,
                    io,
                )
            },
            None => parents_run(parents, devices, from + 1, io),
        }
    }
}

/// Record which bridge each bus lies behind.
pub fn discover_parent_bridges<M: Machine>(
    database: &mut RoutingDatabase,
    machine: &mut M,
    devices: &[PciDevice],
)
    ensures
        final(database).routes@ == old(database).routes@,
        (final(database).parents@, final(machine).io()) == parents_run(
            old(database).parents@,
            devices@,
            0,
            old(machine).io(),
        ),
{
    let mut i: usize = 0;
    while i < devices.len()
        invariant
            i <= devices@.len(),
            database.routes@ == old(database).routes@,
            parents_run(old(database).parents@, devices@, 0, old(machine).io()) == parents_run(
                database.parents@,
                devices@,
                i as int,
                machine.io(),
            ),
        decreases devices@.len() - i,
    {
        let device: PciDevice = devices[i];
        if let Some(secondary) = secondary_bus(machine, &device) {
            if secondary != 0 && secondary != device.address.bus() {
                let parent = ParentBridge {
                    parent_bus: device.address.bus(),
                    device: device.address.device(),
                    function: device.address.function(),
                };
                match database.parents[secondary as usize] {
                    None => {
                        database.parents[secondary as usize] = Some(parent);
                    },
                    Some(existing) => {
                        if existing != parent {
                            database.parents[secondary as usize] = None;
                        }
                    },
                }
            }
        }
        i = i + 1;
    }
}

/// What the firmware interpreter made of one object.
#[derive(Clone, Copy, Debug, PartialEq, Eq, Structural)]
pub enum AmlOutcome {
    Integer(u64),
    /// A value of another type.
    Other,
    NotFound,
    /// The interpreter failed, with its error number.
    Failed(u32),
}

/// Why a routing table could not be placed on a bus.
#[derive(Clone, Debug, PartialEq, Eq)]
pub enum TableError {
    Aml(u32),
    InvalidInteger(&'static str),
    MissingBridge { bus: u8, address: u32 },
}

/// The three objects beside one prefix of a table's path.
#[derive(Clone, Copy, Debug, PartialEq, Eq, Structural)]
pub struct PathObjects {
    pub adr: AmlOutcome,
    pub seg: AmlOutcome,
    pub bbn: AmlOutcome,
}

/// An integer that may be missing.
pub open spec fn integer_of(outcome: AmlOutcome, name: &'static str) -> Result<
    Option<u64>,
    TableError,
> {
    match outcome {
        AmlOutcome::Integer(value) => Ok(Some(value)),
        AmlOutcome::Other => Err(TableError::InvalidInteger(name)),
        AmlOutcome::NotFound => Ok(None),
        AmlOutcome::Failed(error) => Err(TableError::Aml(error)),
    }
}

/// An integer that may be missing.
pub fn optional_integer(outcome: AmlOutcome, name: &'static str) -> (result: Result<
    Option<u64>,
    TableError,
>)
    ensures
        result == integer_of(outcome, name),
{
    match outcome {
        AmlOutcome::Integer(value) => Ok(Some(value)),
        AmlOutcome::Other => Err(TableError::InvalidInteger(name)),
        AmlOutcome::NotFound => Ok(None),
        AmlOutcome::Failed(error) => Err(TableError::Aml(error)),
    }
}

/// The bridge addresses on the path, and the number of the first prefix that
/// has one.
pub open spec fn addresses_from(objects: Seq<PathObjects>, from: int) -> Result<
    (Option<int>, Seq<u32>),
    TableError,
>
    decreases objects.len() - from,
{
    if from >= objects.len() {
        Ok((None, Seq::empty()))
    } else {
        match integer_of(objects[from].adr, "_ADR") {
            Err(error) => Err(error),
            Ok(None) => addresses_from(objects, from + 1),
            Ok(Some(value)) => if value > u32::MAX {
                Err(TableError::InvalidInteger("_ADR"))
            } else {
                match addresses_from(objects, from + 1) {
                    Err(error) => Err(error),
                    Ok((_, rest)) => Ok((Some(from), seq![value as u32] + rest)),
                }
            },
        }
    }
}

/// Segment and bus of the root bridge, as the prefixes before `end` say; the
/// last one that says it counts.
pub open spec fn root_from(
    objects: Seq<PathObjects>,
    from: int,
    end: int,
    segment: u16,
    bus: u8,
) -> Result<(u16, u8), TableError>
    decreases end - from,
{
    if from >= end {
        Ok((segment, bus))
    } else {
        match integer_of(objects[from].seg, "_SEG") {
            Err(error) => Err(error),
            Ok(seg) => if seg is Some && seg->0 > u16::MAX {
                Err(TableError::InvalidInteger("_SEG"))
            } else {
                match integer_of(objects[from].bbn, "_BBN") {
                    Err(error) => Err(error),
                    Ok(bbn) => if bbn is Some && bbn->0 > u8::MAX {
                        Err(TableError::InvalidInteger("_BBN"))
                    } else {
                        root_from(
                            objects,
                            from + 1,
                            end,
                            if seg is Some { seg->0 as u16 } else { segment },
                            if bbn is Some { bbn->0 as u8 } else { bus },
                        )
                    },
                }
            },
        }
    }
}

/// The first device at an address.
pub open spec fn device_at(
    devices: Seq<PciDevice>,
    bus: u8,
    number: u16,
    function: u16,
    from: int,
) -> Option<PciDevice>
    decreases devices.len() - from,
{
    if from >= devices.len() {
        None
    } else if devices[from].address.bus == bus && devices[from].address.dev == number
        && devices[from].address.func == function {
        Some(devices[from])
    } else {
        device_at(devices, bus, number, function, from + 1)
    }
}

/// Go down from `bus` through the bridges at the given addresses.
pub open spec fn descend_run(
    addresses: Seq<u32>,
    from: int,
    devices: Seq<PciDevice>,
    bus: u8,
    io: Io,
) -> (Result<Option<u8>, TableError>, Io)
    decreases addresses.len() - from,
{
    if from >= addresses.len() {
        (Ok(Some(bus)), io)
    } else {
        let address = addresses[from];
        let number = (address >> 16) as u16;
        let function = address as u16;
        if number >= 32 || function >= 8 {
            (Err(TableError::InvalidInteger("_ADR")), io)
        } else {
            match device_at(devices, bus, number, function, 0) {
                None => (Err(TableError::MissingBridge { bus, address }), io),
                Some(bridge) => {
                    let (secondary, io) = secondary_run(bridge, io);
                    match secondary {
                        None => (Err(TableError::MissingBridge { bus, address }), io),
                        Some(next) => descend_run(addresses, from + 1, devices, next, io),
                    }
                },
            }
        }
    }
}

/// The bus a routing table is about; none where it lies in another segment.
pub open spec fn table_bus_run(
    objects: Seq<PathObjects>,
    devices: Seq<PciDevice>,
    io: Io,
) -> (Result<Option<u8>, TableError>, Io) {
    match addresses_from(objects, 0) {
        Err(error) => (Err(error), io),
        Ok((first, addresses)) => {
            let end = match first {
                Some(index) => index,
                None => objects.len() as int,
            };
            match root_from(objects, 0, end, 0, 0) {
                Err(error) => (Err(error), io),
                Ok((segment, bus)) => if segment != 0 {
                    (Ok(None), io)
                } else {
                    descend_run(addresses, 0, devices, bus, io)
                },
            }
        },
    }
}

fn bridge_addresses(objects: &[PathObjects]) -> (result: Result<
    (Option<usize>, Vec<u32>),
    TableError,
>)
    ensures
        match (result, addresses_from(objects@, 0)) {
            (Ok((first, list)), Ok((index, addresses))) => list@ == addresses && match (
                first,
                index,
            ) {
                (Some(a), Some(b)) => a == b && a < objects@.len(),
                (None, None) => true,
                _ => false,
            },
            (Err(a), Err(b)) => a == b,
            _ => false,
        },
{
    let mut first: Option<usize> = None;
    let mut list: Vec<u32> = Vec::new();
    let mut i: usize = 0;
    while i < objects.len()
        invariant
            i <= objects@.len(),
            first is Some ==> first->0 < i,
            first is None ==> list@.len() == 0,
            match (addresses_from(objects@, 0), addresses_from(objects@, i as int)) {
                (Ok((index, addresses)), Ok((rest_index, rest))) => addresses == list@ + rest
                    && index == (if first is Some {
                    Some(first->0 as int)
                } else {
                    rest_index
                }),
                (Err(a), Err(b)) => a == b,
                _ => false,
            },
        decreases objects@.len() - i,
    {
        match optional_integer(objects[i].adr, "_ADR") {
            Err(error) => {
                return Err(error);
            },
            Ok(None) => {},
            Ok(Some(value)) => {
                if value > u32::MAX as u64 {
                    return Err(TableError::InvalidInteger("_ADR"));
                }
                if first.is_none() {
                    first = Some(i);
                }
                let ghost before = list@;
                list.push(value as u32);
                proof {
                    match addresses_from(objects@, i + 1) {
                        Ok((_, rest)) => {
                            assert(before + (seq![value as u32] + rest) == list@ + rest);
                        },
                        Err(_) => {},
                    }
                }
            },
        }
        i = i + 1;
    }
    Ok((first, list))
}

/// The bus a routing table is about; none where it lies in another segment.
pub fn table_bus<M: Machine>(
    machine: &mut M,
    objects: &[PathObjects],
    devices: &[PciDevice],
) -> (result: Result<Option<u8>, TableError>)
    ensures
        (result, final(machine).io()) == table_bus_run(objects@, devices@, old(machine).io()),
{
    let (first, addresses): (Option<usize>, Vec<u32>) = match bridge_addresses(objects) {
        Ok(pair) => pair,
        Err(error) => {
            return Err(error);
        },
    };
    let anchor_end: usize = match first {
        Some(index) => index,
        None => objects.len(),
    };
    let mut segment: u16 = 0;
    let mut bus: u8 = 0;
    let mut i: usize = 0;
    while i < anchor_end
        invariant
            i <= anchor_end <= objects@.len(),
            machine.io() == old(machine).io(),
            root_from(objects@, 0, anchor_end as int, 0, 0) == root_from(
                objects@,
                i as int,
                anchor_end as int,
                segment,
                bus,
            ),
            addresses_from(objects@, 0) is Ok,
            anchor_end == (match addresses_from(objects@, 0)->Ok_0.0 {
                Some(index) => index,
                None => objects@.len() as int,
            }),
            addresses@ == addresses_from(objects@, 0)->Ok_0.1,
        decreases anchor_end - i,
    {
        let seg: Option<u64> = match optional_integer(objects[i].seg, "_SEG") {
            Ok(value) => value,
            Err(error) => {
                return Err(error);
            },
        };
        if let Some(value) = seg {
            if value > u16::MAX as u64 {
                return Err(TableError::InvalidInteger("_SEG"));
            }
        }
        let bbn: Option<u64> = match optional_integer(objects[i].bbn, "_BBN") {
            Ok(value) => value,
            Err(error) => {
                return Err(error);
            },
        };
        if let Some(value) = bbn {
            if value > u8::MAX as u64 {
                return Err(TableError::InvalidInteger("_BBN"));
            }
        }
        if let Some(value) = seg {
            segment = value as u16;
        }
        if let Some(value) = bbn {
            bus = value as u8;
        }
        i = i + 1;
    }
    if segment != 0 {
        return Ok(None);
    }
    let ghost root = bus;
    let mut k: usize = 0;
    while k < addresses.len()
        invariant
            k <= addresses@.len(),
            descend_run(addresses@, 0, devices@, root, old(machine).io()) == descend_run(
                addresses@,
                k as int,
                devices@,
                bus,
                machine.io(),
            ),
            table_bus_run(objects@, devices@, old(machine).io()) == descend_run(
                addresses@,
                0,
                devices@,
                root,
                old(machine).io(),
            ),
        decreases addresses@.len() - k,
    {
        let address: u32 = addresses[k];
        let number: u16 = (address >> 16) as u16;
        let function: u16 = address as u16;
        if number >= 32 || function >= 8 {
            return Err(TableError::InvalidInteger("_ADR"));
        }
        let secondary: Option<u8> = match find_device(devices, bus, number, function) {
            Some(bridge) => secondary_bus(machine, &bridge),
            None => None,
        };
        match secondary {
            Some(next) => {
                bus = next;
            },
            None => {
                return Err(TableError::MissingBridge { bus, address });
            },
        }
        k = k + 1;
    }
    Ok(Some(bus))
}

fn find_device(devices: &[PciDevice], bus: u8, number: u16, function: u16) -> (found: Option<
    PciDevice,
>)
    ensures
        found == device_at(devices@, bus, number, function, 0),
{
    let mut i: usize = 0;
    while i < devices.len()
        invariant
            i <= devices@.len(),
            device_at(devices@, bus, number, function, 0) == device_at(
                devices@,
                bus,
                number,
                function,
                i as int,
            ),
        decreases devices@.len() - i,
    {
        let device: PciDevice = devices[i];
        if device.address.bus() == bus && device.address.device() as u16 == number
            && device.address.function() as u16 == function {
            return Some(device);
        }
        i = i + 1;
    }
    None
}

/// One resource of an interrupt link.
#[derive(Clone, Debug, PartialEq, Eq)]
pub enum Resource {
    /// Legacy lines, one bit each.
    Irq { mask: u16, flags: u8 },
    ExtendedIrq { interrupts: Vec<u32>, flags: u8 },
    Other,
}

/// The number of the only bit that is set.
pub open spec fn only_bit(mask: u16, from: u32) -> Option<u32>
    decreases 16 - from,
{
    if from >= 16 {
        None
    } else if mask == 1u16 << from {
        Some(from)
    } else {
        only_bit(mask, (from + 1) as u32)
    }
}

/// The one interrupt a resource names.
pub open spec fn interrupt_of(resource: Resource) -> Option<u32> {
    match resource {
        Resource::Irq { mask, .. } => only_bit(mask, 0),
        Resource::ExtendedIrq { interrupts, .. } => if interrupts@.len() == 1 {
            Some(interrupts@[0])
        } else {
            None
        },
        Resource::Other => None,
    }
}

fn single_line(mask: u16) -> (line: Option<u32>)
    ensures
        line == only_bit(mask, 0),
{
    let mut bit: u32 = 0;
    while bit < 16
        invariant
            bit <= 16,
            only_bit(mask, 0) == only_bit(mask, bit),
        decreases 16 - bit,
    {
        if mask == 1u16 << bit {
            return Some(bit);
        }
        bit = bit + 1;
    }
    None
}

/// The one interrupt a resource names.
pub fn resource_gsi(resource: &Resource) -> (gsi: Option<u32>)
    ensures
        gsi == interrupt_of(*resource),
{
    match resource {
        Resource::Irq { mask, .. } => single_line(*mask),
        Resource::ExtendedIrq { interrupts, .. } => if interrupts.len() == 1 {
            Some(interrupts[0])
        } else {
            None
        },
        Resource::Other => None,
    }
}

/// The interrupt that all resources from number `from` on agree on, given what
/// those before it said; none where they contradict each other.
pub open spec fn agreed_interrupt(
    resources: Seq<Resource>,
    from: int,
    so_far: Option<u32>,
) -> Option<u32>
    decreases resources.len() - from,
{
    if from >= resources.len() {
        so_far
    } else {
        match interrupt_of(resources[from]) {
            None => agreed_interrupt(resources, from + 1, so_far),
            Some(gsi) => if so_far is Some && so_far->0 != gsi {
                None
            } else {
                agreed_interrupt(resources, from + 1, Some(gsi))
            },
        }
    }
}

/// The interrupt behind a link: the indexed resource where it names one, else
/// what all resources agree on.
pub open spec fn link_interrupt(resources: Seq<Resource>, index: u32) -> Option<u32> {
    if index < resources.len() && interrupt_of(resources[index as int]) is Some {
        interrupt_of(resources[index as int])
    } else {
        agreed_interrupt(resources, 0, None)
    }
}

/// The interrupt behind a link.
pub fn resolve_link_gsi(resources: &Vec<Resource>, source_index: u32) -> (gsi: Option<u32>)
    ensures
        gsi == link_interrupt(resources@, source_index),
{
    let index: usize = source_index as usize;
    if index < resources.len() {
        if let Some(gsi) = resource_gsi(&resources[index]) {
            return Some(gsi);
        }
    }
    common_gsi(resources)
}

fn common_gsi(resources: &Vec<Resource>) -> (gsi: Option<u32>)
    ensures
        gsi == agreed_interrupt(resources@, 0, None),
{
    let mut resolved: Option<u32> = None;
    let mut i: usize = 0;
    while i < resources.len()
        invariant
            i <= resources@.len(),
            agreed_interrupt(resources@, 0, None) == agreed_interrupt(
                resources@,
                i as int,
                resolved,
            ),
        decreases resources@.len() - i,
    {
        if let Some(gsi) = resource_gsi(&resources[i]) {
            match resolved {
                Some(existing) => {
                    if existing != gsi {
                        return None;
                    }
                },
                None => {},
            }
            resolved = Some(gsi);
        }
        i = i + 1;
    }
    resolved
}

/// Where a route gets its interrupt from.
#[derive(Clone, Debug, PartialEq, Eq)]
pub enum RouteSource {
    /// The index is the interrupt.
    Global,
    /// A link with the resources it is set to.
    Link(Vec<Resource>),
    /// A link whose resources could not be read.
    BrokenLink,
}

/// One entry of a firmware routing table.
#[derive(Clone, Debug, PartialEq, Eq)]
pub struct PciRoute {
    pub address: u64,
    pub pin: u8,
    pub source: RouteSource,
    pub source_index: u32,
}

/// The route an entry of a table about `bus` stands for.
pub open spec fn route_of(bus: u8, route: PciRoute) -> Option<FirmwareRoute> {
    let device = (route.address >> 16) & 0xffff;
    let function = route.address & 0xffff;
    let gsi = match route.source {
        RouteSource::Global => Some(route.source_index),
        RouteSource::Link(resources) => link_interrupt(resources@, route.source_index),
        RouteSource::BrokenLink => None,
    };
    if device >= 32 || route.pin > 3 || (function != 0xffff && function >= 8) || gsi is None {
        None
    } else {
        Some(
            FirmwareRoute {
                bus,
                device: device as u8,
                function: if function == 0xffff { None } else { Some(function as u8) },
                pin: route.pin,
                gsi: gsi->0,
            },
        )
    }
}

/// The route an entry of a table about `bus` stands for.
pub fn decode_route(bus: u8, route: &PciRoute) -> (decoded: Option<FirmwareRoute>)
    ensures
        decoded == route_of(bus, *route),
{
    let device: u64 = (route.address >> 16) & 0xffff;
    let raw_function: u64 = route.address & 0xffff;
    if device >= 32 || route.pin > 3 {
        return None;
    }
    let function: Option<u8> = if raw_function == 0xffff {
        None
    } else if raw_function < 8 {
        Some(raw_function as u8)
    } else {
        return None;
    };
    let gsi: u32 = match &route.source {
        RouteSource::Global => route.source_index,
        RouteSource::Link(resources) => match resolve_link_gsi(resources, route.source_index) {
            Some(gsi) => gsi,
            None => {
                return None;
            },
        },
        RouteSource::BrokenLink => {
            return None;
        },
    };
    Some(FirmwareRoute { bus, device: device as u8, function, pin: route.pin, gsi })
}

/// One routing table as firmware gave it: the objects along its path and its
/// entries, where they could be read.
#[derive(Clone, Debug, PartialEq, Eq)]
pub struct RouteTable {
    pub objects: Vec<PathObjects>,
    pub routes: Option<Vec<PciRoute>>,
}

/// The routes of a table's entries, in order.
pub open spec fn decoded_routes(bus: u8, entries: Seq<PciRoute>) -> Seq<FirmwareRoute>
    decreases entries.len(),
{
    if entries.len() == 0 {
        Seq::empty()
    } else {
        let before = decoded_routes(bus, entries.drop_last());
        match route_of(bus, entries.last()) {
            Some(route) => before.push(route),
            None => before,
        }
    }
}

/// The routes of all tables from number `from` on, behind `routes`.
pub open spec fn tables_run(
    routes: Seq<FirmwareRoute>,
    tables: Seq<RouteTable>,
    from: int,
    devices: Seq<PciDevice>,
    io: Io,
) -> (Seq<FirmwareRoute>, Io)
    decreases tables.len() - from,
{
    if from >= tables.len() {
        (routes, io)
    } else {
        let (bus, io) = table_bus_run(tables[from].objects@, devices, io);
        let added = match (bus, tables[from].routes) {
            (Ok(Some(bus)), Some(entries)) => decoded_routes(bus, entries@),
            _ => Seq::empty(),
        };
        tables_run(routes + added, tables, from + 1, devices, io)
    }
}

/// The database after discovery.
pub open spec fn init_run(
    devices: Seq<PciDevice>,
    tables: Option<Seq<RouteTable>>,
    io: Io,
) -> (Seq<FirmwareRoute>, Seq<Option<ParentBridge>>, Io) {
    let (parents, io) = parents_run(Seq::new(256, |i: int| None::<ParentBridge>), devices, 0, io);
    match tables {
        None => (Seq::empty(), parents, io),
        Some(tables) => {
            let (routes, io) = tables_run(Seq::empty(), tables, 0, devices, io);
            (routes, parents, io)
        },
    }
}

/// Build the database anew from the devices found and the tables that
/// firmware gave; none where it gave no list.  A table that cannot be placed
/// or read is passed over.
pub fn init<M: Machine>(
    database: &mut RoutingDatabase,
    machine: &mut M,
    devices: &[PciDevice],
    tables: Option<&Vec<RouteTable>>,
) -> (count: usize)
    ensures
        (final(database).routes@, final(database).parents@, final(machine).io()) == init_run(
            devices@,
            match tables {
                Some(list) => Some(list@),
                None => None,
            },
            old(machine).io(),
        ),
        count == final(database).routes@.len(),
{
    database.clear();
    discover_parent_bridges(database, machine, devices);
    let list: &Vec<RouteTable> = match tables {
        Some(list) => list,
        None => {
            return 0;
        },
    };
    let ghost parents = database.parents@;
    let ghost start = machine.io();
    let mut t: usize = 0;
    while t < list.len()
        invariant
            t <= list@.len(),
            database.parents@ == parents,
            tables_run(Seq::empty(), list@, 0, devices@, start) == tables_run(
                database.routes@,
                list@,
                t as int,
                devices@,
                machine.io(),
            ),
        decreases list@.len() - t,
    {
        let ghost before = database.routes@;
        let ghost io_before = machine.io();
        let bus: Result<Option<u8>, TableError> = table_bus(
            machine,
            list[t].objects.as_slice(),
            devices,
        );
        let mut added: bool = false;
        if let Ok(Some(bus)) = bus {
            if let Some(entries) = &list[t].routes {
                let mut i: usize = 0;
                assert(decoded_routes(bus, entries@.take(0)) == Seq::<FirmwareRoute>::empty());
                while i < entries.len()
                    invariant
                        i <= entries@.len(),
                        database.parents@ == parents,
                        database.routes@ == before + decoded_routes(bus, entries@.take(i as int)),
                    decreases entries@.len() - i,
                {
                    proof {
                        assert(entries@.take(i + 1).drop_last() == entries@.take(i as int));
                        assert(entries@.take(i + 1).last() == entries@[i as int]);
                    }
                    if let Some(route) = decode_route(bus, &entries[i]) {
                        database.routes.push(route);
                    }
                    i = i + 1;
                }
                assert(entries@.take(i as int) == entries@);
                added = true;
            }
        }
        proof {
            if !added {
                assert(before + Seq::<FirmwareRoute>::empty() == before);
            }
        }
        t = t + 1;
    }
    database.routes.len()
}

/// The interrupt that a function's pin raises.
pub fn resolve_intx(database: &RoutingDatabase, device: &PciDevice) -> (gsi: Option<u32>)
    ensures
        gsi == resolved(database.routes@, database.parents@, *device),
{
    database.resolve(device)
}

/// The pieces of a text between its dots.
pub open spec fn pieces(text: Seq<char>) -> Seq<Seq<char>>
    decreases text.len(),
{
    if text.len() == 0 {
        seq![Seq::<char>::empty()]
    } else {
        let before = pieces(text.drop_last());
        if text.last() == '.' {
            before.push(Seq::<char>::empty())
        } else {
            before.drop_last().push(before.last().push(text.last()))
        }
    }
}

/// The pieces that are not empty.
pub open spec fn solid(list: Seq<Seq<char>>) -> Seq<Seq<char>>
    decreases list.len(),
{
    if list.len() == 0 {
        Seq::empty()
    } else if list.last().len() == 0 {
        solid(list.drop_last())
    } else {
        solid(list.drop_last()).push(list.last())
    }
}

/// A root-anchored path of names.
pub open spec fn joined(names: Seq<Seq<char>>) -> Seq<char>
    decreases names.len(),
{
    if names.len() == 0 {
        seq!['\\']
    } else if names.len() == 1 {
        seq!['\\'] + names[0]
    } else {
        joined(names.drop_last()).push('.') + names.last()
    }
}

/// The path without the root marks in front.
pub open spec fn unanchored(path: Seq<char>) -> Seq<char>
    decreases path.len(),
{
    if path.len() > 0 && path[0] == '\\' {
        unanchored(path.skip(1))
    } else {
        path
    }
}

/// The names along a path, root marks and empty names left out.
pub open spec fn path_names(path: Seq<char>) -> Seq<Seq<char>> {
    solid(pieces(unanchored(path)))
}

/// Whether the texts are the root-anchored prefixes of the names, shortest
/// first.
pub open spec fn are_prefixes(texts: Seq<String>, names: Seq<Seq<char>>) -> bool {
    &&& texts.len() == names.len()
    &&& forall|k: int| 0 <= k < texts.len() ==> (#[trigger] texts[k])@ == joined(names.take(k + 1))
}

proof fn lemma_pieces_not_empty(text: Seq<char>)
    ensures
        pieces(text).len() > 0,
    decreases text.len(),
{
    if text.len() > 0 {
        lemma_pieces_not_empty(text.drop_last());
    }
}

proof fn lemma_joined_longer(names: Seq<Seq<char>>)
    requires
        forall|k: int| 0 <= k < names.len() ==> (#[trigger] names[k]).len() > 0,
    ensures
        names.len() > 0 ==> joined(names).len() > 1,
    decreases names.len(),
{
    if names.len() > 1 {
        lemma_joined_longer(names.drop_last());
    }
}

proof fn lemma_solid_all(list: Seq<Seq<char>>)
    ensures
        forall|k: int| 0 <= k < solid(list).len() ==> (#[trigger] solid(list)[k]).len() > 0,
    decreases list.len(),
{
    if list.len() > 0 {
        lemma_solid_all(list.drop_last());
        assert forall|k: int| 0 <= k < solid(list).len() implies (#[trigger] solid(list)[k]).len()
            > 0 by {
            if k < solid(list.drop_last()).len() {
                assert(solid(list)[k] == solid(list.drop_last())[k]);
            }
        }
    }
}

fn text_chars(text: &str) -> (chars: Vec<char>)
    ensures
        chars@ == text@,
{
    let mut chars: Vec<char> = Vec::new();
    let count: usize = text.unicode_len();
    let mut i: usize = 0;
    while i < count
        invariant
            i <= count == text@.len(),
            chars@ == text@.take(i as int),
        decreases count - i,
    {
        chars.push(text.get_char(i));
        assert(text@.take(i + 1) == text@.take(i as int).push(text@[i as int]));
        i = i + 1;
    }
    assert(text@.take(i as int) == text@);
    chars
}

/// The root-anchored prefixes of a path, shortest first.
pub fn path_prefixes(path: &str) -> (prefixes: Vec<String>)
    ensures
        are_prefixes(prefixes@, path_names(path@)),
{
    let chars: Vec<char> = text_chars(path);
    let mut start: usize = 0;
    assert(chars@.skip(0) == chars@);
    while start < chars.len() && chars[start] == '\\'
        invariant
            start <= chars@.len(),
            unanchored(chars@) == unanchored(chars@.skip(start as int)),
        decreases chars@.len() - start,
    {
        assert(chars@.skip(start as int).skip(1) == chars@.skip(start + 1));
        start = start + 1;
    }
    let ghost rest = chars@.skip(start as int);
    assert(unanchored(chars@) == rest);
    let mut prefixes: Vec<String> = Vec::new();
    let mut current: String = String::new();
    current.push('\\');
    let mut fresh: bool = true;
    let mut i: usize = start;
    assert(rest.take(0) == Seq::<char>::empty());
    assert(pieces(Seq::<char>::empty()).drop_last() == Seq::<Seq<char>>::empty());
    assert(current@ == joined(solid(Seq::<Seq<char>>::empty())));
    assert(pieces(rest.take(0)).last() == Seq::<char>::empty());
    while i < chars.len()
        invariant
            start <= i <= chars@.len(),
            rest == chars@.skip(start as int),
            fresh == (pieces(rest.take(i - start)).last().len() == 0),
            are_prefixes(prefixes@, solid(pieces(rest.take(i - start)).drop_last())),
            fresh ==> current@ == joined(solid(pieces(rest.take(i - start)).drop_last())),
            !fresh ==> current@ == joined(
                solid(pieces(rest.take(i - start)).drop_last()).push(
                    pieces(rest.take(i - start)).last(),
                ),
            ),
        decreases chars@.len() - i,
    {
        let ghost seen = rest.take(i - start);
        let ghost list = pieces(seen);
        let ghost done = solid(list.drop_last());
        proof {
            lemma_pieces_not_empty(seen);
            lemma_solid_all(list.drop_last());
            lemma_joined_longer(done);
            assert(rest.take(i + 1 - start).drop_last() == seen);
            assert(rest.take(i + 1 - start).last() == chars@[i as int]);
        }
        let c: char = chars[i];
        if c == '.' {
            proof {
                assert(pieces(rest.take(i + 1 - start)) == list.push(Seq::<char>::empty()));
                assert(list.push(Seq::<char>::empty()).drop_last() == list);
            }
            if !fresh {
                let ghost before = prefixes@;
                prefixes.push(current.clone());
                fresh = true;
                proof {
                    assert(solid(list) == done.push(list.last()));
                    assert forall|k: int| 0 <= k < prefixes@.len() implies (
                    #[trigger] prefixes@[k])@ == joined(solid(list).take(k + 1)) by {
                        if k < done.len() {
                            assert(prefixes@[k] == before[k]);
                            assert(solid(list).take(k + 1) == done.take(k + 1));
                        } else {
                            assert(solid(list).take(k + 1) == solid(list));
                        }
                    }
                }
            }
        } else {
            proof {
                assert(pieces(rest.take(i + 1 - start)) == list.drop_last().push(
                    list.last().push(c),
                ));
                assert(list.drop_last().push(list.last().push(c)).drop_last() == list.drop_last());
            }
            let ghost old_text = current@;
            if fresh {
                if current.as_str().unicode_len() > 1 {
                    current.push('.');
                }
                fresh = false;
                assert(list.last() == Seq::<char>::empty());
            }
            let ghost mid = current@;
            current.push(c);
            proof {
                let names = done.push(list.last().push(c));
                assert(names.drop_last() == done);
                if old_text == joined(done) && list.last().len() == 0 {
                    if done.len() == 0 {
                        assert(current@ == seq!['\\'] + names[0]);
                    } else {
                        assert(current@ == joined(done).push('.') + names.last());
                    }
                } else {
                    let short = done.push(list.last());
                    assert(short.drop_last() == done);
                    if done.len() == 0 {
                        assert(current@ == seq!['\\'] + names[0]);
                    } else {
                        assert(current@ == joined(done).push('.') + names.last());
                    }
                }
                assert(current@ == joined(names));
            }
        }
        i = i + 1;
    }
    proof {
        assert(rest.take(i - start) == rest);
        lemma_pieces_not_empty(rest);
    }
    if !fresh {
        let ghost before = prefixes@;
        let ghost list = pieces(rest);
        let ghost done = solid(list.drop_last());
        prefixes.push(current);
        proof {
            assert(solid(list) == done.push(list.last()));
            assert forall|k: int| 0 <= k < prefixes@.len() implies (#[trigger] prefixes@[k])@
                == joined(solid(list).take(k + 1)) by {
                if k < done.len() {
                    assert(prefixes@[k] == before[k]);
                    assert(solid(list).take(k + 1) == done.take(k + 1));
                } else {
                    assert(solid(list).take(k + 1) == solid(list));
                }
            }
        }
    }
    prefixes
}

} // verus!
