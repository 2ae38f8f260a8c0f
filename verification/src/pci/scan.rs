//! Depth-first enumeration of the PCI functions behind the host bridge.
//!
//! The scanning functions append to the device list exactly the trail of
//! the configuration space, or stop with `Full` at the point where the list
//! can take no more, whatever configuration space it is that agrees with
//! the registers they read.

use vstd::prelude::*;
use crate::pci::config::agrees;
use crate::pci::config::grown;
use crate::pci::config::is_single_function_device;
use crate::pci::config::lemma_agrees_with_less;
use crate::pci::config::lemma_grown_twice;
use crate::pci::config::read_bus_numbers;
use crate::pci::config::read_class_code;
use crate::pci::config::read_header_type;
use crate::pci::config::read_vendor_id;
use crate::pci::config::secondary_bus;
use crate::pci::config::ConfigPort;
use crate::pci::config::Readings;
use crate::pci::config::PciConfig;
use crate::pci::config::Space;
use crate::pci::config::INVALID_VENDOR_ID;
use crate::pci::device::Device;
use crate::pci::device::Error;
use crate::pci::device::PciDevices;
use crate::pci::device::MAX_DEVICES;
use crate::pci::trail::bus_trail;
use crate::pci::trail::device_trail;
use crate::pci::trail::function_trail;
use crate::pci::trail::functions_trail;
use crate::pci::trail::host_trail;
use crate::pci::trail::left;
use crate::pci::trail::lemma_bus_trail_none;
use crate::pci::trail::lemma_functions_trail_none;
use crate::pci::trail::lemma_host_trail_none;
use crate::pci::trail::root_trail;
use crate::pci::trail::CLASS_BRIDGE;
use crate::pci::trail::DEVICES_PER_BUS;
use crate::pci::trail::MAX_FUNCTIONS;
use crate::pci::trail::SUBCLASS_PCI_TO_PCI;

verus! {

/// How many entries of a trail matter to a list that holds `before`: its
/// free slots, and one more to tell that the list would overflow.
pub open spec fn room(before: Seq<Device>) -> nat {
    (MAX_DEVICES - before.len() + 1) as nat
}

/// What a scanning step did to the device list, given the trail it had to
/// follow (cut off at `room(before)` entries). On success the list has grown
/// by the whole trail. `Full` is reported exactly when the trail does not
/// fit; the list then holds as much of the trail as fitted.
pub open spec fn scanned(
    before: Seq<Device>,
    after: Seq<Device>,
    done: Result<(), Error>,
    trail: Seq<Device>,
) -> bool {
    match done {
        Ok(()) => before.len() + trail.len() <= MAX_DEVICES && after == before + trail,
        Err(error) => error == Error::Full && before.len() + trail.len() == MAX_DEVICES + 1
            && after == before + trail.take(MAX_DEVICES - before.len()),
    }
}

/// What a scanning step did, given the registers remembered after it. No
/// register was forgotten and no device dropped from the list, which holds
/// no more than it can; and for every configuration space that agrees with
/// the registers, the step did to the list what the trail `trail_in` of that
/// space calls for.
pub open spec fn followed(
    known_before: Readings,
    known_after: Readings,
    before: Seq<Device>,
    after: Seq<Device>,
    done: Result<(), Error>,
    trail_in: spec_fn(Space) -> Seq<Device>,
) -> bool {
    &&& grown(known_before, known_after)
    &&& before.is_prefix_of(after)
    &&& after.len() <= MAX_DEVICES
    &&& forall|space: Space| #[trigger]
        agrees(space, known_after) ==> scanned(before, after, done, trail_in(space))
}

/// A list that was extended twice is the first list followed by what came
/// after it.
proof fn lemma_list_extends(first: Seq<Device>, second: Seq<Device>, third: Seq<Device>)
    requires
        first.is_prefix_of(second),
        second.is_prefix_of(third),
    ensures
        first.is_prefix_of(third),
        third == first + third.skip(first.len() as int),
{
    assert(first =~= second.subrange(0, first.len() as int));
    assert(second =~= third.subrange(0, second.len() as int));
    assert(first =~= third.subrange(0, first.len() as int));
    assert(third =~= first + third.skip(first.len() as int));
}

impl PciDevices {
    /// Records one function and, if it is a PCI-to-PCI bridge, scans the bus
    /// behind it before returning.
    pub fn scan_function<P: ConfigPort>(
        &mut self,
        config: &mut PciConfig<P>,
        bus: u8,
        device: u8,
        function: u8,
    ) -> (done: Result<(), Error>)
        ensures
            followed(
                old(config)@,
                final(config)@,
                old(self)@,
                final(self)@,
                done,
                |space: Space| function_trail(space, room(old(self)@), bus, device, function),
            ),
        decreases room(old(self)@), 0nat, 0nat,
    {
        let ghost before = self@;
        let ghost c0 = config@;
        let header_type: u8 = read_header_type(config, bus, device, function);
        let ghost c1 = config@;
        let class_code = read_class_code(config, bus, device, function);
        let ghost c2 = config@;
        proof {
            lemma_grown_twice(c0, c1, c2);
        }
        let record = Device { bus, device, function, header_type, class_code };
        match self.add_device(record) {
            Err(error) => {
                proof {
                    assert forall|space: Space| #[trigger] agrees(space, c2) implies scanned(
                        before,
                        self@,
                        Err(error),
                        function_trail(space, room(before), bus, device, function),
                    ) by {
                        lemma_agrees_with_less(space, c1, c2);
                        let trail = function_trail(space, room(before), bus, device, function);
                        lemma_bus_trail_none(space, secondary_bus(space, bus, device, function), 0);
                        assert(trail =~= seq![record]);
                        assert(trail.take(0) =~= Seq::<Device>::empty());
                        assert(self@ =~= before + trail.take(0));
                    }
                }
                return Err(error);
            },
            Ok(()) => {},
        }
        if class_code.base == CLASS_BRIDGE && class_code.sub == SUBCLASS_PCI_TO_PCI {
            let bus_numbers: u32 = read_bus_numbers(config, bus, device, function);
            let ghost c3 = config@;
            let behind_bus: u8 = #[verifier::truncate]
            (((bus_numbers >> 8) & 0xff) as u8);
            let ghost middle = self@;
            let done = self.scan_bus(config, behind_bus);
            let ghost c4 = config@;
            proof {
                lemma_grown_twice(c0, c2, c3);
                lemma_grown_twice(c0, c3, c4);
                lemma_grown_twice(c2, c3, c4);
                lemma_grown_twice(c1, c2, c4);
                assert forall|space: Space| #[trigger] agrees(space, c4) implies scanned(
                    before,
                    self@,
                    done,
                    function_trail(space, room(before), bus, device, function),
                ) by {
                    lemma_agrees_with_less(space, c1, c4);
                    lemma_agrees_with_less(space, c2, c4);
                    lemma_agrees_with_less(space, c3, c4);
                    let trail = function_trail(space, room(before), bus, device, function);
                    let behind = bus_trail(space, room(middle), behind_bus, 0);
                    assert(scanned(middle, self@, done, behind));
                    assert(trail =~= seq![record] + behind);
                    match done {
                        Ok(()) => {
                            assert(self@ =~= before + trail);
                        },
                        Err(_) => {
                            assert(self@ =~= before + trail.take(MAX_DEVICES - before.len()));
                        },
                    }
                }
            }
            return done;
        }
        proof {
            assert forall|space: Space| #[trigger] agrees(space, c2) implies scanned(
                before,
                self@,
                Ok::<(), Error>(()),
                function_trail(space, room(before), bus, device, function),
            ) by {
                lemma_agrees_with_less(space, c1, c2);
                let trail = function_trail(space, room(before), bus, device, function);
                assert(trail =~= seq![record]);
                assert(self@ =~= before + trail);
            }
        }
        Ok(())
    }

    /// Scans function 0 of a device and, if the device is multi-function,
    /// each of functions 1 to 7 that is present.
    pub fn scan_device<P: ConfigPort>(
        &mut self,
        config: &mut PciConfig<P>,
        bus: u8,
        device: u8,
    ) -> (done: Result<(), Error>)
        ensures
            followed(
                old(config)@,
                final(config)@,
                old(self)@,
                final(self)@,
                done,
                |space: Space| device_trail(space, room(old(self)@), bus, device),
            ),
        decreases room(old(self)@), 2nat, 0nat,
    {
        let ghost before = self@;
        let ghost limit = room(before);
        let ghost c0 = config@;
        let first = self.scan_function(config, bus, device, 0);
        let ghost c1 = config@;
        match first {
            Err(error) => {
                proof {
                    assert forall|space: Space| #[trigger] agrees(space, c1) implies scanned(
                        before,
                        self@,
                        Err(error),
                        device_trail(space, limit, bus, device),
                    ) by {
                        let head = function_trail(space, limit, bus, device, 0);
                        assert(scanned(before, self@, first, head));
                        lemma_functions_trail_none(space, bus, device, 1);
                        assert(device_trail(space, limit, bus, device) =~= head);
                    }
                }
                return Err(error);
            },
            Ok(()) => {},
        }
        let kind: u8 = read_header_type(config, bus, device, 0);
        let ghost c2 = config@;
        proof {
            lemma_grown_twice(c0, c1, c2);
        }
        if !is_single_function_device(kind) {
            let ghost mut seen = self@.skip(before.len() as int);
            proof {
                assert(self@ =~= before + seen);
                assert forall|space: Space| #[trigger] agrees(space, c2) implies device_trail(
                    space,
                    limit,
                    bus,
                    device,
                ) == seen + functions_trail(space, left(limit, seen.len()), bus, device, 1) by {
                    lemma_agrees_with_less(space, c1, c2);
                    let head = function_trail(space, limit, bus, device, 0);
                    assert(scanned(before, self@, first, head));
                    assert(seen =~= head);
                }
            }
            let mut function: u8 = 1;
            while function < MAX_FUNCTIONS
                invariant
                    1 <= function <= MAX_FUNCTIONS,
                    before == old(self)@,
                    limit == room(before),
                    c0 == old(config)@,
                    grown(c0, config@),
                    self@ == before + seen,
                    before.len() + seen.len() <= MAX_DEVICES,
                    forall|space: Space| #[trigger]
                        agrees(space, config@) ==> device_trail(space, limit, bus, device) == seen
                            + functions_trail(
                            space,
                            left(limit, seen.len()),
                            bus,
                            device,
                            function as nat,
                        ),
                decreases MAX_FUNCTIONS - function,
            {
                let ghost ca = config@;
                let id: u16 = read_vendor_id(config, bus, device, function);
                let ghost cb = config@;
                proof {
                    lemma_grown_twice(c0, ca, cb);
                }
                if id != INVALID_VENDOR_ID {
                    let ghost middle = self@;
                    let done = self.scan_function(config, bus, device, function);
                    let ghost cc = config@;
                    proof {
                        lemma_grown_twice(c0, cb, cc);
                        lemma_grown_twice(ca, cb, cc);
                    }
                    match done {
                        Err(error) => {
                            proof {
                                assert forall|space: Space| #[trigger]
                                    agrees(space, cc) implies scanned(
                                    before,
                                    self@,
                                    Err(error),
                                    device_trail(space, limit, bus, device),
                                ) by {
                                    lemma_agrees_with_less(space, ca, cc);
                                    lemma_agrees_with_less(space, cb, cc);
                                    let trail = device_trail(space, limit, bus, device);
                                    let here = function_trail(
                                        space,
                                        room(middle),
                                        bus,
                                        device,
                                        function,
                                    );
                                    assert(scanned(middle, self@, done, here));
                                    lemma_functions_trail_none(
                                        space,
                                        bus,
                                        device,
                                        (function + 1) as nat,
                                    );
                                    assert(trail =~= seen + here);
                                    assert(self@ =~= before + trail.take(
                                        MAX_DEVICES - before.len(),
                                    ));
                                }
                            }
                            return Err(error);
                        },
                        Ok(()) => {},
                    }
                    proof {
                        let longer = self@.skip(before.len() as int);
                        assert forall|space: Space| #[trigger]
                            agrees(space, cc) implies device_trail(space, limit, bus, device)
                            == longer + functions_trail(
                            space,
                            left(limit, longer.len()),
                            bus,
                            device,
                            (function + 1) as nat,
                        ) by {
                            lemma_agrees_with_less(space, ca, cc);
                            lemma_agrees_with_less(space, cb, cc);
                            let here = function_trail(space, room(middle), bus, device, function);
                            assert(scanned(middle, self@, done, here));
                            assert(longer =~= seen + here);
                        }
                        lemma_list_extends(before, middle, self@);
                        seen = longer;
                    }
                } else {
                    proof {
                        assert forall|space: Space| #[trigger]
                            agrees(space, cb) implies device_trail(space, limit, bus, device)
                            == seen + functions_trail(
                            space,
                            left(limit, seen.len()),
                            bus,
                            device,
                            (function + 1) as nat,
                        ) by {
                            lemma_agrees_with_less(space, ca, cb);
                            assert(seen + Seq::<Device>::empty() =~= seen);
                        }
                    }
                }
                function += 1;
            }
            proof {
                assert forall|space: Space| #[trigger] agrees(space, config@) implies scanned(
                    before,
                    self@,
                    Ok::<(), Error>(()),
                    device_trail(space, limit, bus, device),
                ) by {
                    assert(device_trail(space, limit, bus, device) =~= seen);
                }
            }
        } else {
            proof {
                assert forall|space: Space| #[trigger] agrees(space, c2) implies scanned(
                    before,
                    self@,
                    Ok::<(), Error>(()),
                    device_trail(space, limit, bus, device),
                ) by {
                    lemma_agrees_with_less(space, c1, c2);
                    let head = function_trail(space, limit, bus, device, 0);
                    assert(scanned(before, self@, first, head));
                    assert(device_trail(space, limit, bus, device) =~= head);
                }
            }
        }
        Ok(())
    }

    /// Scans every device of a bus whose function 0 is present.
    pub fn scan_bus<P: ConfigPort>(
        &mut self,
        config: &mut PciConfig<P>,
        bus: u8,
    ) -> (done: Result<(), Error>)
        ensures
            followed(
                old(config)@,
                final(config)@,
                old(self)@,
                final(self)@,
                done,
                |space: Space| bus_trail(space, room(old(self)@), bus, 0),
            ),
        decreases room(old(self)@), 3nat, 0nat,
    {
        let ghost before = self@;
        let ghost limit = room(before);
        let ghost c0 = config@;
        let ghost mut seen = Seq::<Device>::empty();
        let total: usize = self.len();
        let mut device: u8 = 0;
        proof {
            assert(self@ =~= before + seen);
            assert forall|space: Space| #[trigger] agrees(space, c0) implies bus_trail(
                space,
                limit,
                bus,
                0,
            ) == seen + bus_trail(space, left(limit, seen.len()), bus, 0) by {
                assert(seen + bus_trail(space, limit, bus, 0) =~= bus_trail(space, limit, bus, 0));
            }
        }
        while device < DEVICES_PER_BUS
            invariant
                device <= DEVICES_PER_BUS,
                before == old(self)@,
                limit == room(before),
                c0 == old(config)@,
                grown(c0, config@),
                self@ == before + seen,
                before.len() + seen.len() <= MAX_DEVICES,
                forall|space: Space| #[trigger]
                    agrees(space, config@) ==> bus_trail(space, limit, bus, 0) == seen + bus_trail(
                        space,
                        left(limit, seen.len()),
                        bus,
                        device as nat,
                    ),
            decreases DEVICES_PER_BUS - device,
        {
            let ghost ca = config@;
            let id: u16 = read_vendor_id(config, bus, device, 0);
            let ghost cb = config@;
            proof {
                lemma_grown_twice(c0, ca, cb);
            }
            if id != INVALID_VENDOR_ID {
                let ghost middle = self@;
                let done = self.scan_device(config, bus, device);
                let ghost cc = config@;
                proof {
                    lemma_grown_twice(c0, cb, cc);
                    lemma_grown_twice(ca, cb, cc);
                }
                match done {
                    Err(error) => {
                        proof {
                            assert forall|space: Space| #[trigger] agrees(space, cc) implies scanned(
                                before,
                                self@,
                                Err(error),
                                bus_trail(space, limit, bus, 0),
                            ) by {
                                lemma_agrees_with_less(space, ca, cc);
                                lemma_agrees_with_less(space, cb, cc);
                                let trail = bus_trail(space, limit, bus, 0);
                                let here = device_trail(space, room(middle), bus, device);
                                assert(scanned(middle, self@, done, here));
                                lemma_bus_trail_none(space, bus, (device + 1) as nat);
                                assert(trail =~= seen + here);
                                assert(self@ =~= before + trail.take(MAX_DEVICES - before.len()));
                            }
                        }
                        return Err(error);
                    },
                    Ok(()) => {},
                }
                proof {
                    let longer = self@.skip(before.len() as int);
                    assert forall|space: Space| #[trigger] agrees(space, cc) implies bus_trail(
                        space,
                        limit,
                        bus,
                        0,
                    ) == longer + bus_trail(
                        space,
                        left(limit, longer.len()),
                        bus,
                        (device + 1) as nat,
                    ) by {
                        lemma_agrees_with_less(space, ca, cc);
                        lemma_agrees_with_less(space, cb, cc);
                        let here = device_trail(space, room(middle), bus, device);
                        assert(scanned(middle, self@, done, here));
                        assert(longer =~= seen + here);
                    }
                    lemma_list_extends(before, middle, self@);
                    seen = longer;
                }
            } else {
                proof {
                    assert forall|space: Space| #[trigger] agrees(space, cb) implies bus_trail(
                        space,
                        limit,
                        bus,
                        0,
                    ) == seen + bus_trail(
                        space,
                        left(limit, seen.len()),
                        bus,
                        (device + 1) as nat,
                    ) by {
                        lemma_agrees_with_less(space, ca, cb);
                        assert(seen + Seq::<Device>::empty() =~= seen);
                    }
                }
            }
            device += 1;
        }
        proof {
            assert forall|space: Space| #[trigger] agrees(space, config@) implies scanned(
                before,
                self@,
                Ok::<(), Error>(()),
                bus_trail(space, limit, bus, 0),
            ) by {
                assert(bus_trail(space, limit, bus, 0) =~= seen);
            }
        }
        Ok(())
    }
}

/// What a whole scan found, given the trail it had to follow (cut off one
/// entry past the capacity of a list). The list returned is the trail,
/// whole. When the trail does not fit a list, the scan stops with `Full` and
/// returns no list.
pub open spec fn found_all(found: Result<PciDevices, Error>, trail: Seq<Device>) -> bool {
    match found {
        Ok(list) => list@ == trail && trail.len() <= MAX_DEVICES,
        Err(error) => error == Error::Full && trail.len() == MAX_DEVICES + 1,
    }
}

/// Enumerates every function reachable from the host bridge, depth first.
///
/// No register is forgotten, and for every configuration space that agrees
/// with the registers remembered after the scan, the outcome is that of
/// following the trail of that space. See [`found_all`].
pub fn scan_all_bus<P: ConfigPort>(config: &mut PciConfig<P>) -> (found: Result<PciDevices, Error>)
    ensures
        grown(old(config)@, final(config)@),
        forall|space: Space| #[trigger]
            agrees(space, final(config)@) ==> found_all(
                found,
                root_trail(space, (MAX_DEVICES + 1) as nat),
            ),
{
    let mut pci_devices = PciDevices::new();
    let ghost limit = (MAX_DEVICES + 1) as nat;
    let ghost c0 = config@;
    let kind: u8 = read_header_type(config, 0, 0, 0);
    let ghost c1 = config@;
    if is_single_function_device(kind) {
        let done = pci_devices.scan_bus(config, 0);
        let ghost c2 = config@;
        proof {
            lemma_grown_twice(c0, c1, c2);
        }
        match done {
            Err(error) => {
                proof {
                    assert forall|space: Space| #[trigger] agrees(space, c2) implies found_all(
                        Err(error),
                        root_trail(space, limit),
                    ) by {
                        lemma_agrees_with_less(space, c1, c2);
                        assert(scanned(
                            Seq::<Device>::empty(),
                            pci_devices@,
                            done,
                            bus_trail(space, limit, 0, 0),
                        ));
                    }
                }
                return Err(error);
            },
            Ok(()) => {},
        }
        proof {
            assert forall|space: Space| #[trigger] agrees(space, c2) implies found_all(
                Ok(pci_devices),
                root_trail(space, limit),
            ) by {
                lemma_agrees_with_less(space, c1, c2);
                let trail = bus_trail(space, limit, 0, 0);
                assert(scanned(Seq::<Device>::empty(), pci_devices@, done, trail));
                assert(pci_devices@ =~= trail);
            }
        }
        return Ok(pci_devices);
    }
    let ghost mut seen = Seq::<Device>::empty();
    let mut function: u8 = 0;
    proof {
        assert(pci_devices@ =~= seen);
        assert forall|space: Space| #[trigger] agrees(space, c1) implies root_trail(space, limit)
            == seen + host_trail(space, left(limit, seen.len()), 0) by {
            assert(seen + host_trail(space, limit, 0) =~= host_trail(space, limit, 0));
        }
    }
    while function < MAX_FUNCTIONS
        invariant
            function <= MAX_FUNCTIONS,
            limit == MAX_DEVICES + 1,
            c0 == old(config)@,
            grown(c0, config@),
            pci_devices@ == seen,
            seen.len() <= MAX_DEVICES,
            forall|space: Space| #[trigger]
                agrees(space, config@) ==> root_trail(space, limit) == seen + host_trail(
                    space,
                    left(limit, seen.len()),
                    function as nat,
                ),
        decreases MAX_FUNCTIONS - function,
    {
        let ghost ca = config@;
        let id: u16 = read_vendor_id(config, 0, 0, function);
        let ghost cb = config@;
        proof {
            lemma_grown_twice(c0, ca, cb);
        }
        if id != INVALID_VENDOR_ID {
            let ghost middle = pci_devices@;
            let done = pci_devices.scan_bus(config, function);
            let ghost cc = config@;
            proof {
                lemma_grown_twice(c0, cb, cc);
                lemma_grown_twice(ca, cb, cc);
            }
            match done {
                Err(error) => {
                    proof {
                        assert forall|space: Space| #[trigger] agrees(space, cc) implies found_all(
                            Err(error),
                            root_trail(space, limit),
                        ) by {
                            lemma_agrees_with_less(space, ca, cc);
                            lemma_agrees_with_less(space, cb, cc);
                            let here = bus_trail(space, room(middle), function, 0);
                            assert(scanned(middle, pci_devices@, done, here));
                            lemma_host_trail_none(space, (function + 1) as nat);
                            assert(root_trail(space, limit) =~= seen + here);
                        }
                    }
                    return Err(error);
                },
                Ok(()) => {},
            }
            proof {
                let longer = pci_devices@;
                assert forall|space: Space| #[trigger] agrees(space, cc) implies root_trail(
                    space,
                    limit,
                ) == longer + host_trail(space, left(limit, longer.len()), (function + 1) as nat) by {
                    lemma_agrees_with_less(space, ca, cc);
                    lemma_agrees_with_less(space, cb, cc);
                    let here = bus_trail(space, room(middle), function, 0);
                    assert(scanned(middle, pci_devices@, done, here));
                    assert(longer =~= seen + here);
                }
                seen = longer;
            }
        } else {
            proof {
                assert forall|space: Space| #[trigger] agrees(space, cb) implies root_trail(
                    space,
                    limit,
                ) == seen + host_trail(space, left(limit, seen.len()), (function + 1) as nat) by {
                    lemma_agrees_with_less(space, ca, cb);
                    assert(seen + Seq::<Device>::empty() =~= seen);
                }
            }
        }
        function += 1;
    }
    proof {
        assert forall|space: Space| #[trigger] agrees(space, config@) implies found_all(
            Ok(pci_devices),
            root_trail(space, limit),
        ) by {
            assert(root_trail(space, limit) =~= seen);
        }
    }
    Ok(pci_devices)
}

} // verus!
