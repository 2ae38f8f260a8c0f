//! The order in which a scan meets the functions of a configuration space.
//!
//! The order is depth first: a bridge's whole bus is met before the next
//! device of the bridge's own bus. It is defined as a sequence (a *trail*)
//! cut off after a given number of entries, so that it is defined also where
//! bridges lead in a circle.

use vstd::prelude::*;
use crate::pci::config::device_at;
use crate::pci::config::header_type;
use crate::pci::config::secondary_bus;
use crate::pci::config::single_function;
use crate::pci::config::vendor_id;
use crate::pci::config::Space;
use crate::pci::config::INVALID_VENDOR_ID;
use crate::pci::device::ClassCode;
use crate::pci::device::Device;

verus! {

/// Functions per device.
pub const MAX_FUNCTIONS: u8 = 8;

/// Devices per bus.
pub const DEVICES_PER_BUS: u8 = 32;

/// Base class of bridges.
pub const CLASS_BRIDGE: u8 = 0x06;

/// Subclass of PCI-to-PCI bridges.
pub const SUBCLASS_PCI_TO_PCI: u8 = 0x04;

/// A PCI-to-PCI bridge, behind which lies another bus.
pub open spec fn is_bridge(class_code: ClassCode) -> bool {
    class_code.base == CLASS_BRIDGE && class_code.sub == SUBCLASS_PCI_TO_PCI
}

/// What is left of `limit` after `used` entries.
pub open spec fn left(limit: nat, used: nat) -> nat {
    if used <= limit {
        (limit - used) as nat
    } else {
        0
    }
}

/// The first `limit` functions met when scanning one function: the function
/// itself and, if it is a PCI-to-PCI bridge, the whole bus behind it.
pub open spec fn function_trail(
    space: Space,
    limit: nat,
    bus: u8,
    device: u8,
    function: u8,
) -> Seq<Device>
    decreases limit, 0nat, 0nat,
{
    if limit == 0 {
        Seq::empty()
    } else {
        let found = device_at(space, bus, device, function);
        let behind = if is_bridge(found.class_code) {
            bus_trail(space, (limit - 1) as nat, secondary_bus(space, bus, device, function), 0)
        } else {
            Seq::empty()
        };
        seq![found] + behind
    }
}

/// The first `limit` functions met when scanning functions `function..8`
/// of a device, skipping those where no vendor answers.
pub open spec fn functions_trail(
    space: Space,
    limit: nat,
    bus: u8,
    device: u8,
    function: nat,
) -> Seq<Device>
    decreases limit, 1nat, MAX_FUNCTIONS - function,
{
    if function >= MAX_FUNCTIONS {
        Seq::empty()
    } else {
        let here = if vendor_id(space, bus, device, function as u8) != INVALID_VENDOR_ID {
            function_trail(space, limit, bus, device, function as u8)
        } else {
            Seq::empty()
        };
        here + functions_trail(space, left(limit, here.len()), bus, device, function + 1)
    }
}

/// The first `limit` functions met when scanning a device: always its
/// function 0, then functions 1 to 7 if function 0 declares the device
/// multi-function.
pub open spec fn device_trail(
    space: Space,
    limit: nat,
    bus: u8,
    device: u8,
) -> Seq<Device>
    decreases limit, 2nat, 0nat,
{
    let first = function_trail(space, limit, bus, device, 0);
    if single_function(header_type(space, bus, device, 0)) {
        first
    } else {
        first + functions_trail(space, left(limit, first.len()), bus, device, 1)
    }
}

/// The first `limit` functions met when scanning devices `device..32` of a
/// bus, skipping those whose function 0 has no vendor.
pub open spec fn bus_trail(
    space: Space,
    limit: nat,
    bus: u8,
    device: nat,
) -> Seq<Device>
    decreases limit, 3nat, DEVICES_PER_BUS - device,
{
    if device >= DEVICES_PER_BUS {
        Seq::empty()
    } else {
        let here = if vendor_id(space, bus, device as u8, 0) != INVALID_VENDOR_ID {
            device_trail(space, limit, bus, device as u8)
        } else {
            Seq::empty()
        };
        here + bus_trail(space, left(limit, here.len()), bus, device + 1)
    }
}

/// The first `limit` functions met when a multi-function host bridge is
/// scanned from its function `function` on: each function that is present
/// stands for the bus of the same number.
pub open spec fn host_trail(
    space: Space,
    limit: nat,
    function: nat,
) -> Seq<Device>
    decreases MAX_FUNCTIONS - function,
{
    if function >= MAX_FUNCTIONS {
        Seq::empty()
    } else {
        let here = if vendor_id(space, 0, 0, function as u8) != INVALID_VENDOR_ID {
            bus_trail(space, limit, function as u8, 0)
        } else {
            Seq::empty()
        };
        here + host_trail(space, left(limit, here.len()), function + 1)
    }
}

/// The first `limit` functions met by a whole scan. A single-function host
/// bridge has bus 0 alone; a multi-function one has a bus for each of its
/// functions.
pub open spec fn root_trail(space: Space, limit: nat) -> Seq<Device> {
    if single_function(header_type(space, 0, 0, 0)) {
        bus_trail(space, limit, 0, 0)
    } else {
        host_trail(space, limit, 0)
    }
}

/// With no entries allowed, scanning the rest of a device meets nothing.
pub proof fn lemma_functions_trail_none(
    space: Space,
    bus: u8,
    device: u8,
    function: nat,
)
    ensures
        functions_trail(space, 0, bus, device, function) == Seq::<Device>::empty(),
    decreases MAX_FUNCTIONS - function,
{
    if function < MAX_FUNCTIONS {
        lemma_functions_trail_none(space, bus, device, function + 1);
        assert(function_trail(space, 0, bus, device, function as u8) =~= Seq::<Device>::empty());
        assert(left(0, 0) == 0);
        assert(functions_trail(space, 0, bus, device, function) =~= Seq::<Device>::empty());
    }
}

/// With no entries allowed, scanning the rest of a bus meets nothing.
pub proof fn lemma_bus_trail_none(space: Space, bus: u8, device: nat)
    ensures
        bus_trail(space, 0, bus, device) == Seq::<Device>::empty(),
    decreases DEVICES_PER_BUS - device,
{
    if device < DEVICES_PER_BUS {
        lemma_bus_trail_none(space, bus, device + 1);
        lemma_functions_trail_none(space, bus, device as u8, 1);
        assert(device_trail(space, 0, bus, device as u8) =~= Seq::<Device>::empty());
        assert(bus_trail(space, 0, bus, device) =~= Seq::<Device>::empty());
    }
}

/// With no entries allowed, scanning the rest of the host bridge meets nothing.
pub proof fn lemma_host_trail_none(space: Space, function: nat)
    ensures
        host_trail(space, 0, function) == Seq::<Device>::empty(),
    decreases MAX_FUNCTIONS - function,
{
    if function < MAX_FUNCTIONS {
        lemma_host_trail_none(space, function + 1);
        lemma_bus_trail_none(space, function as u8, 0);
        assert(host_trail(space, 0, function) =~= Seq::<Device>::empty());
    }
}

} // verus!
