//! Discovery misses nothing that it can reach.
use vstd::prelude::*;
use crate::machine::Io;
use crate::pci::config::PciAddress;
use crate::pci::enumerate::{
    bridge_bus_run, emit_run, enumerate_run, lemma_unvisited_bound, lemma_unvisited_enter,
    scan_bus_run, scan_slots_run, unvisited, PciDevice, Scan,
};

verus! {

/// One look at a function: what was there, and the bus behind it where it is a
/// bridge.
pub struct Look {
    pub address: PciAddress,
    pub found: Option<PciDevice>,
    pub behind: Option<u8>,
}

/// The looks of a scan of a bus.
pub open spec fn bus_looks(depth: nat, bus: u8, scan: Scan) -> Seq<Look>
    decreases depth, 0nat,
{
    if depth == 0 || scan.visited[bus as int] {
        Seq::empty()
    } else {
        slot_looks(
            (depth - 1) as nat,
            bus,
            0,
            false,
            Scan { visited: scan.visited.update(bus as int, true), ..scan },
        )
    }
}

/// The looks of a scan of a bus from number `slot` on.
pub open spec fn slot_looks(depth: nat, bus: u8, slot: nat, multi: bool, scan: Scan) -> Seq<Look>
    decreases depth, (258 - slot) as nat,
    when slot <= 256
{
    if slot >= 256 {
        Seq::empty()
    } else if slot % 8 != 0 && !multi {
        slot_looks(depth, bus, slot + 1, multi, scan)
    } else {
        let address = PciAddress { bus, dev: (slot / 8) as u8, func: (slot % 8) as u8 };
        let (found, io) = PciDevice::probe_run(address, scan.io);
        let scan = Scan { io, ..scan };
        match found {
            None => seq![Look { address, found: None, behind: None }] + slot_looks(
                depth,
                bus,
                slot + 1,
                slot % 8 != 0 && multi,
                scan,
            ),
            Some(device) => seq![
                Look { address, found, behind: bridge_bus_run(device, scan.io).0 },
            ] + emit_looks(depth, device, scan) + slot_looks(
                depth,
                bus,
                slot + 1,
                if slot % 8 == 0 {
                    device.multifunction
                } else {
                    multi
                },
                emit_run(depth, device, scan),
            ),
        }
    }
}

/// The looks behind a device.
pub open spec fn emit_looks(depth: nat, device: PciDevice, scan: Scan) -> Seq<Look>
    decreases depth, 1nat,
{
    let (secondary, io) = bridge_bus_run(device, scan.io);
    let scan = Scan { found: scan.found.push(device), io, ..scan };
    match secondary {
        Some(bus) => if bus != device.address.bus {
            bus_looks(depth, bus, scan)
        } else {
            Seq::empty()
        },
        None => Seq::empty(),
    }
}

/// The looks of a whole discovery, in order.
pub open spec fn enumeration_looks(io: Io) -> Seq<Look> {
    bus_looks(
        256,
        0,
        Scan { found: Seq::<PciDevice>::empty(), visited: Seq::new(256, |i: int| false), io },
    )
}

/// What was there, in the order of the looks.
pub open spec fn present(looks: Seq<Look>) -> Seq<PciDevice>
    decreases looks.len(),
{
    if looks.len() == 0 {
        Seq::empty()
    } else {
        let before = present(looks.drop_last());
        match looks.last().found {
            Some(device) => before.push(device),
            None => before,
        }
    }
}

/// Whether a function was looked at.
pub open spec fn looked_at(looks: Seq<Look>, bus: int, dev: int, func: int) -> bool {
    exists|i: int|
        0 <= i < looks.len() && (#[trigger] looks[i]).address.bus == bus && looks[i].address.dev
            == dev && looks[i].address.func == func
}

/// Whether every device of a bus was looked at.
pub open spec fn bus_is_covered(looks: Seq<Look>, bus: int) -> bool {
    forall|dev: int| 0 <= dev < 32 ==> looked_at(looks, bus, dev, 0)
}

/// Whether all functions of every device that announced more than one were
/// looked at.
pub open spec fn functions_are_covered(looks: Seq<Look>) -> bool {
    forall|i: int, func: int|
        0 <= i < looks.len() && (#[trigger] looks[i]).address.func == 0 && looks[i].found is Some
            && looks[i].found->0.multifunction && 1 <= func < 8 ==> #[trigger] looked_at(
            looks,
            looks[i].address.bus as int,
            looks[i].address.dev as int,
            func,
        )
}

/// Whether every bus behind a bridge was entered.
pub open spec fn bridges_are_followed(looks: Seq<Look>, visited: Seq<bool>) -> bool {
    forall|i: int|
        0 <= i < looks.len() && (#[trigger] looks[i]).behind is Some && looks[i].behind->0
            != looks[i].address.bus ==> visited[looks[i].behind->0 as int]
}

/// What a part of a scan does: it adds what it sees, forgets nothing, and
/// leaves no bus that it enters half done.
spec fn part_is_complete(scan: Scan, looks: Seq<Look>, end: Scan) -> bool {
    &&& end.visited.len() == 256
    &&& end.found == scan.found + present(looks)
    &&& forall|b: int| 0 <= b < 256 && scan.visited[b] ==> #[trigger] end.visited[b]
    &&& unvisited(end.visited) <= unvisited(scan.visited)
    &&& forall|b: int|
        0 <= b < 256 && !scan.visited[b] && #[trigger] end.visited[b] ==> bus_is_covered(looks, b)
    &&& functions_are_covered(looks)
    &&& bridges_are_followed(looks, end.visited)
}

proof fn lemma_present_joins(a: Seq<Look>, b: Seq<Look>)
    ensures
        present(a + b) == present(a) + present(b),
    decreases b.len(),
{
    if b.len() == 0 {
        assert(a + b =~= a);
        assert(present(a) + present(b) =~= present(a));
    } else {
        assert((a + b).drop_last() =~= a + b.drop_last());
        lemma_present_joins(a, b.drop_last());
        assert(present(a + b) =~= present(a) + present(b));
    }
}

proof fn lemma_looked_at_joins(a: Seq<Look>, b: Seq<Look>, bus: int, dev: int, func: int)
    ensures
        looked_at(a, bus, dev, func) ==> looked_at(a + b, bus, dev, func),
        looked_at(b, bus, dev, func) ==> looked_at(a + b, bus, dev, func),
{
    if looked_at(a, bus, dev, func) {
        let i = choose|i: int|
            0 <= i < a.len() && (#[trigger] a[i]).address.bus == bus && a[i].address.dev == dev
                && a[i].address.func == func;
        assert((a + b)[i] == a[i]);
    }
    if looked_at(b, bus, dev, func) {
        let i = choose|i: int|
            0 <= i < b.len() && (#[trigger] b[i]).address.bus == bus && b[i].address.dev == dev
                && b[i].address.func == func;
        assert((a + b)[a.len() + i] == b[i]);
    }
}

/// Two parts, one after the other, are one.
proof fn lemma_parts_join(scan: Scan, a: Seq<Look>, middle: Scan, b: Seq<Look>, end: Scan)
    requires
        scan.visited.len() == 256,
        part_is_complete(scan, a, middle),
        part_is_complete(middle, b, end),
    ensures
        part_is_complete(scan, a + b, end),
{
    lemma_present_joins(a, b);
    assert(end.found =~= scan.found + present(a + b));
    assert forall|bus: int| 0 <= bus < 256 && !scan.visited[bus] && #[trigger] end.visited[
        bus] implies bus_is_covered(a + b, bus) by {
        assert forall|dev: int| 0 <= dev < 32 implies looked_at(a + b, bus, dev, 0) by {
            lemma_looked_at_joins(a, b, bus, dev, 0);
            if middle.visited[bus] {
                assert(bus_is_covered(a, bus));
                assert(looked_at(a, bus, dev, 0));
            } else {
                assert(bus_is_covered(b, bus));
                assert(looked_at(b, bus, dev, 0));
            }
        }
    }
    assert forall|i: int, func: int|
        0 <= i < (a + b).len() && (#[trigger] (a + b)[i]).address.func == 0 && (a + b)[i].found
            is Some && (a + b)[i].found->0.multifunction && 1 <= func
            < 8 implies #[trigger] looked_at(
        a + b,
        (a + b)[i].address.bus as int,
        (a + b)[i].address.dev as int,
        func,
    ) by {
        let look = (a + b)[i];
        lemma_looked_at_joins(a, b, look.address.bus as int, look.address.dev as int, func);
        if i < a.len() {
            assert(a[i] == look);
            assert(looked_at(a, a[i].address.bus as int, a[i].address.dev as int, func));
        } else {
            let j = i - a.len();
            assert(b[j] == look);
            assert(looked_at(b, b[j].address.bus as int, b[j].address.dev as int, func));
        }
    }
    assert forall|i: int|
        0 <= i < (a + b).len() && (#[trigger] (a + b)[i]).behind is Some && (a + b)[i].behind->0
            != (a + b)[i].address.bus implies end.visited[(a + b)[i].behind->0 as int] by {
        if i < a.len() {
            assert(a[i] == (a + b)[i]);
            assert(middle.visited[a[i].behind->0 as int]);
        } else {
            assert(b[i - a.len()] == (a + b)[i]);
        }
    }
}

proof fn lemma_bus_is_complete(depth: nat, bus: u8, scan: Scan)
    requires
        scan.visited.len() == 256,
        unvisited(scan.visited) <= depth,
    ensures
        part_is_complete(scan, bus_looks(depth, bus, scan), scan_bus_run(depth, bus, scan)),
        scan_bus_run(depth, bus, scan).visited[bus as int],
    decreases depth, 0nat,
{
    let looks = bus_looks(depth, bus, scan);
    let end = scan_bus_run(depth, bus, scan);
    if scan.visited[bus as int] {
        assert(end.found =~= scan.found + present(looks));
    } else {
        lemma_unvisited_enter(scan.visited, bus as int);
        let entered = Scan { visited: scan.visited.update(bus as int, true), ..scan };
        lemma_slots_are_complete((depth - 1) as nat, bus, 0, false, entered);
        assert forall|b: int| 0 <= b < 256 && !scan.visited[b] && #[trigger] end.visited[
            b] implies bus_is_covered(looks, b) by {
            if b == bus {
                assert forall|dev: int| 0 <= dev < 32 implies looked_at(looks, b, dev, 0) by {
                    assert(8 * dev >= 0);
                }
            } else {
                assert(!entered.visited[b]);
            }
        }
        assert forall|b: int| 0 <= b < 256 && scan.visited[b] implies #[trigger] end.visited[
            b] by {
            assert(entered.visited[b]);
        }
        assert(entered.visited[bus as int]);
    }
}

proof fn lemma_emit_is_complete(depth: nat, device: PciDevice, scan: Scan)
    requires
        scan.visited.len() == 256,
        unvisited(scan.visited) <= depth,
    ensures
        part_is_complete(
            Scan { found: scan.found.push(device), ..scan },
            emit_looks(depth, device, scan),
            emit_run(depth, device, scan),
        ),
        bridge_bus_run(device, scan.io).0 is Some && bridge_bus_run(device, scan.io).0->0
            != device.address.bus ==> emit_run(depth, device, scan).visited[bridge_bus_run(
            device,
            scan.io,
        ).0->0 as int],
    decreases depth, 1nat,
{
    let (secondary, io) = bridge_bus_run(device, scan.io);
    let pushed = Scan { found: scan.found.push(device), io, ..scan };
    let end = emit_run(depth, device, scan);
    let looks = emit_looks(depth, device, scan);
    if secondary is Some && secondary->0 != device.address.bus {
        lemma_bus_is_complete(depth, secondary->0, pushed);
    } else {
        assert(end.found =~= pushed.found + present(looks));
    }
}

proof fn lemma_slots_are_complete(depth: nat, bus: u8, slot: nat, multi: bool, scan: Scan)
    requires
        slot <= 256,
        scan.visited.len() == 256,
        unvisited(scan.visited) <= depth,
    ensures
        part_is_complete(
            scan,
            slot_looks(depth, bus, slot, multi, scan),
            scan_slots_run(depth, bus, slot, multi, scan),
        ),
        forall|dev: int|
            0 <= dev < 32 && 8 * dev >= slot ==> #[trigger] looked_at(
                slot_looks(depth, bus, slot, multi, scan),
                bus as int,
                dev,
                0,
            ),
        multi && slot % 8 != 0 ==> forall|func: int|
            slot % 8 <= func < 8 ==> #[trigger] looked_at(
                slot_looks(depth, bus, slot, multi, scan),
                bus as int,
                (slot / 8) as int,
                func,
            ),
    decreases depth, (258 - slot) as nat,
{
    let looks = slot_looks(depth, bus, slot, multi, scan);
    let end = scan_slots_run(depth, bus, slot, multi, scan);
    if slot >= 256 {
        assert(end.found =~= scan.found + present(looks));
    } else if slot % 8 != 0 && !multi {
        lemma_slots_are_complete(depth, bus, slot + 1, multi, scan);
    } else {
        let address = PciAddress { bus, dev: (slot / 8) as u8, func: (slot % 8) as u8 };
        let (found, io) = PciDevice::probe_run(address, scan.io);
        let probed = Scan { io, ..scan };
        let still = match found {
            None => slot % 8 != 0 && multi,
            Some(device) => if slot % 8 == 0 {
                device.multifunction
            } else {
                multi
            },
        };
        let behind = match found {
            None => None,
            Some(device) => bridge_bus_run(device, io).0,
        };
        let one = seq![Look { address, found, behind }];
        let nested = match found {
            None => Seq::<Look>::empty(),
            Some(device) => emit_looks(depth, device, probed),
        };
        let middle = match found {
            None => probed,
            Some(device) => emit_run(depth, device, probed),
        };
        if let Some(device) = found {
            lemma_emit_is_complete(depth, device, probed);
        } else {
            assert(middle.found =~= probed.found + present(nested));
        }
        lemma_slots_are_complete(depth, bus, slot + 1, still, middle);
        let rest = slot_looks(depth, bus, slot + 1, still, middle);
        assert(looks =~= one + nested + rest);
        lemma_head_is_complete(scan, one, nested, middle, rest, end, still);
        assert forall|dev: int| 0 <= dev < 32 && 8 * dev >= slot implies #[trigger] looked_at(
            looks,
            bus as int,
            dev,
            0,
        ) by {
            lemma_looked_at_joins(one + nested, rest, bus as int, dev, 0);
            if 8 * dev > slot {
                assert(looked_at(rest, bus as int, dev, 0));
            } else {
                assert(looks[0].address == address);
            }
        }
        if multi && slot % 8 != 0 {
            assert forall|func: int| slot % 8 <= func < 8 implies #[trigger] looked_at(
                looks,
                bus as int,
                (slot / 8) as int,
                func,
            ) by {
                lemma_looked_at_joins(one + nested, rest, bus as int, (slot / 8) as int, func);
                if func > slot % 8 {
                    assert((slot + 1) % 8 == slot % 8 + 1 && (slot + 1) / 8 == slot / 8);
                    assert(looked_at(rest, bus as int, ((slot + 1) / 8) as int, func));
                } else {
                    assert(looks[0].address == address);
                }
            }
        }
    }
}

/// A look, what lies behind it, and the rest of the bus.
proof fn lemma_head_is_complete(
    scan: Scan,
    one: Seq<Look>,
    nested: Seq<Look>,
    middle: Scan,
    rest: Seq<Look>,
    end: Scan,
    still: bool,
)
    requires
        scan.visited.len() == 256,
        one.len() == 1,
        part_is_complete(
            Scan {
                found: match one[0].found {
                    Some(device) => scan.found.push(device),
                    None => scan.found,
                },
                ..scan
            },
            nested,
            middle,
        ),
        part_is_complete(middle, rest, end),
        one[0].behind is Some && one[0].behind->0 != one[0].address.bus ==> middle.visited[
        one[0].behind->0 as int],
        one[0].address.func == 0 && one[0].found is Some && one[0].found->0.multifunction
            ==> still,
        still && one[0].address.func == 0 ==> forall|func: int|
            1 <= func < 8 ==> #[trigger] looked_at(
                rest,
                one[0].address.bus as int,
                one[0].address.dev as int,
                func,
            ),
    ensures
        part_is_complete(scan, one + nested + rest, end),
{
    let pushed = Scan {
        found: match one[0].found {
            Some(device) => scan.found.push(device),
            None => scan.found,
        },
        ..scan
    };
    lemma_parts_join(pushed, nested, middle, rest, end);
    let tail = nested + rest;
    let all = one + nested + rest;
    assert(all =~= one + tail);
    lemma_present_joins(one, tail);
    assert(one.drop_last() =~= Seq::<Look>::empty());
    assert(present(one.drop_last()) =~= Seq::<PciDevice>::empty());
    assert(end.found =~= scan.found + present(all));
    assert forall|b: int| 0 <= b < 256 && !scan.visited[b] && #[trigger] end.visited[
        b] implies bus_is_covered(all, b) by {
        assert(bus_is_covered(tail, b));
        assert forall|dev: int| 0 <= dev < 32 implies looked_at(all, b, dev, 0) by {
            assert(looked_at(tail, b, dev, 0));
            lemma_looked_at_joins(one, tail, b, dev, 0);
        }
    }
    assert forall|i: int, func: int|
        0 <= i < all.len() && (#[trigger] all[i]).address.func == 0 && all[i].found is Some
            && all[i].found->0.multifunction && 1 <= func < 8 implies #[trigger] looked_at(
        all,
        all[i].address.bus as int,
        all[i].address.dev as int,
        func,
    ) by {
        let look = all[i];
        lemma_looked_at_joins(one, tail, look.address.bus as int, look.address.dev as int, func);
        if i == 0 {
            assert(look == one[0]);
            lemma_looked_at_joins(
                nested,
                rest,
                look.address.bus as int,
                look.address.dev as int,
                func,
            );
            assert(looked_at(rest, one[0].address.bus as int, one[0].address.dev as int, func));
        } else {
            assert(tail[i - 1] == look);
            assert(looked_at(
                tail,
                tail[i - 1].address.bus as int,
                tail[i - 1].address.dev as int,
                func,
            ));
        }
    }
    assert forall|i: int|
        0 <= i < all.len() && (#[trigger] all[i]).behind is Some && all[i].behind->0
            != all[i].address.bus implies end.visited[all[i].behind->0 as int] by {
        if i == 0 {
            assert(all[i] == one[0]);
        } else {
            assert(tail[i - 1] == all[i]);
        }
    }
}

/// Discovery collects every function that answers a look, in the order of the
/// looks; it looks at every device of every bus it enters, and at every
/// function of a device that announces more than one; it enters bus zero, and
/// every bus behind a bridge that it finds.
pub proof fn lemma_enumeration_is_complete(io: Io)
    ensures
        ({
            let looks = enumeration_looks(io);
            let end = enumerate_run(io);
            &&& end.found == present(looks)
            &&& end.visited[0]
            &&& forall|bus: int|
                0 <= bus < 256 && #[trigger] end.visited[bus] ==> bus_is_covered(looks, bus)
            &&& functions_are_covered(looks)
            &&& bridges_are_followed(looks, end.visited)
        }),
{
    let start = Scan {
        found: Seq::<PciDevice>::empty(),
        visited: Seq::new(256, |i: int| false),
        io,
    };
    lemma_unvisited_bound(start.visited);
    lemma_bus_is_complete(256, 0, start);
    let end = enumerate_run(io);
    assert(end.found =~= present(enumeration_looks(io)));
    assert forall|bus: int| 0 <= bus < 256 && #[trigger] end.visited[bus] implies bus_is_covered(
        enumeration_looks(io),
        bus,
    ) by {
        assert(!start.visited[bus]);
    }
}

} // verus!
