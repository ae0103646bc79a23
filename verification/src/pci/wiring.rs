//! How interrupt pins run through bridges.
use vstd::prelude::*;
use crate::pci::enumerate::PciDevice;
use crate::pci::routing::{climb, resolved, routed, FirmwareRoute, ParentBridge};

verus! {

/// Behind a bridge the pins of neighbouring devices are turned by one place each: a
/// pin that its own bus does not route raises what the bridge's pin raises whose
/// number is the pin's plus the device's, round the four of them.
pub proof fn lemma_pins_turn_at_bridges(
    routes: Seq<FirmwareRoute>,
    parents: Seq<Option<ParentBridge>>,
    device: PciDevice,
    gsi: u32,
)
    requires
        1 <= device.interrupt_pin <= 4,
        parents.len() == 256,
        parents[device.address.bus as int] is Some,
        ({
            let bridge = parents[device.address.bus as int]->0;
            let pin = (device.interrupt_pin - 1 + device.address.dev) % 4;
            &&& bridge.parent_bus != device.address.bus
            &&& routed(
                routes,
                device.address.bus,
                device.address.dev,
                device.address.func,
                (device.interrupt_pin - 1) as u8,
            ) is None
            &&& routed(routes, bridge.parent_bus, bridge.device, bridge.function, pin as u8)
                == Some(gsi)
        }),
    ensures
        resolved(routes, parents, device) == Some(gsi),
{
    reveal_with_fuel(climb, 3);
}

/// A pin that is routed on its own bus is not followed further, and a device without
/// a pin raises nothing.
pub proof fn lemma_nearest_route_counts(
    routes: Seq<FirmwareRoute>,
    parents: Seq<Option<ParentBridge>>,
    device: PciDevice,
)
    ensures
        ({
            let own = routed(
                routes,
                device.address.bus,
                device.address.dev,
                device.address.func,
                (device.interrupt_pin - 1) as u8,
            );
            &&& 1 <= device.interrupt_pin <= 4 && own is Some ==> resolved(
                routes,
                parents,
                device,
            ) == own
            &&& device.interrupt_pin == 0 || device.interrupt_pin > 4 ==> resolved(
                routes,
                parents,
                device,
            ) is None
        }),
{
    reveal_with_fuel(climb, 2);
}

/// A route is found by bus, device and pin, and by function where it names one; two
/// routes that contradict each other make none.
pub proof fn lemma_routes_are_matched(
    route: FirmwareRoute,
    other: FirmwareRoute,
    bus: u8,
    device: u8,
    function: u8,
    pin: u8,
)
    ensures
        ({
            let names = |route: FirmwareRoute|
                route.bus == bus && route.device == device && route.pin == pin && (
                route.function is None || route.function == Some(function));
            let one = routed(seq![route], bus, device, function, pin);
            let two = routed(seq![route, other], bus, device, function, pin);
            &&& names(route) ==> one == Some(route.gsi)
            &&& !names(route) ==> one is None
            &&& names(route) && names(other) && route.gsi != other.gsi ==> two is None
            &&& names(route) && (!names(other) || route.gsi == other.gsi) ==> two == Some(
                route.gsi,
            )
        }),
{
    let single = seq![route];
    let pair = seq![route, other];
    assert(single[0] == route);
    assert(pair[0] == route && pair[1] == other);
    let names = |route: FirmwareRoute|
        route.bus == bus && route.device == device && route.pin == pin && (route.function is None
            || route.function == Some(function));
    if names(route) {
        assert(crate::pci::routing::all_say(single, bus, device, function, pin, route.gsi));
        if !names(other) || other.gsi == route.gsi {
            assert(crate::pci::routing::all_say(pair, bus, device, function, pin, route.gsi));
        }
    }
}

} // verus!
