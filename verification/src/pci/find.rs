//! Picking a controller out of a device list by its class code.

use vstd::prelude::*;
use crate::pci::config::agrees;
use crate::pci::config::grown;
use crate::pci::config::lemma_agrees_with_less;
use crate::pci::config::lemma_grown_twice;
use crate::pci::config::vendor_id;
use crate::pci::config::ConfigPort;
use crate::pci::config::PciConfig;
use crate::pci::config::Space;
use crate::pci::device::ClassCode;
use crate::pci::device::Device;
use crate::pci::device::PciDevices;

verus! {

/// Vendor id of Intel.
pub const VENDOR_INTEL: u16 = 0x8086;

/// Base class of serial bus controllers.
pub const CLASS_SERIAL_BUS: u8 = 0x0c;

/// Subclass of USB controllers.
pub const SUBCLASS_USB: u8 = 0x03;

/// Programming interface of an xHCI controller.
pub const INTERFACE_XHCI: u8 = 0x30;

/// Programming interface of an EHCI controller.
pub const INTERFACE_EHCI: u8 = 0x20;

/// Class code of an xHCI host controller.
pub open spec fn xhci_class() -> ClassCode {
    ClassCode { base: CLASS_SERIAL_BUS, sub: SUBCLASS_USB, interface: INTERFACE_XHCI }
}

/// Class code of an EHCI host controller.
pub open spec fn ehci_class() -> ClassCode {
    ClassCode { base: CLASS_SERIAL_BUS, sub: SUBCLASS_USB, interface: INTERFACE_EHCI }
}

/// The entry has exactly this class code and, if a vendor is asked for, that
/// vendor.
pub open spec fn fits(
    space: Space,
    entry: Device,
    class_code: ClassCode,
    vendor: Option<u16>,
) -> bool {
    &&& entry.class_code == class_code
    &&& vendor matches Some(id) ==> vendor_id(space, entry.bus, entry.device, entry.function) == id
}

/// The first entry of `devices` that fits, if any does.
pub open spec fn first_fit(
    space: Space,
    devices: Seq<Device>,
    class_code: ClassCode,
    vendor: Option<u16>,
) -> Option<Device>
    decreases devices.len(),
{
    if devices.len() == 0 {
        None
    } else if fits(space, devices[0], class_code, vendor) {
        Some(devices[0])
    } else {
        first_fit(space, devices.skip(1), class_code, vendor)
    }
}

/// The entry to use for a class: the first one of the preferred vendor, and
/// without such a one the first of the class from any vendor.
pub open spec fn best_fit(
    space: Space,
    devices: Seq<Device>,
    class_code: ClassCode,
    preferred_vendor: u16,
) -> Option<Device> {
    match first_fit(space, devices, class_code, Some(preferred_vendor)) {
        Some(entry) => Some(entry),
        None => first_fit(space, devices, class_code, None),
    }
}

/// Looking at one more entry at the end changes the first fit only if there
/// was none before.
proof fn lemma_first_fit_grows(
    space: Space,
    devices: Seq<Device>,
    class_code: ClassCode,
    vendor: Option<u16>,
    upto: int,
)
    requires
        0 <= upto < devices.len(),
    ensures
        first_fit(space, devices.take(upto + 1), class_code, vendor) == match first_fit(
            space,
            devices.take(upto),
            class_code,
            vendor,
        ) {
            Some(entry) => Some(entry),
            None => if fits(space, devices[upto], class_code, vendor) {
                Some(devices[upto])
            } else {
                None
            },
        },
    decreases upto,
{
    let longer = devices.take(upto + 1);
    let shorter = devices.take(upto);
    if upto == 0 {
        assert(longer.skip(1) =~= Seq::<Device>::empty());
        assert(first_fit(space, longer.skip(1), class_code, vendor) == None::<Device>);
    } else {
        assert(longer[0] == shorter[0]);
        if !fits(space, longer[0], class_code, vendor) {
            let tail = devices.skip(1);
            lemma_first_fit_grows(space, tail, class_code, vendor, upto - 1);
            assert(tail.take(upto) =~= longer.skip(1));
            assert(tail.take(upto - 1) =~= shorter.skip(1));
        }
    }
}

/// Once a prefix holds a fit, the whole list has the same first fit.
proof fn lemma_first_fit_settled(
    space: Space,
    devices: Seq<Device>,
    class_code: ClassCode,
    vendor: Option<u16>,
    upto: int,
)
    requires
        0 <= upto <= devices.len(),
        first_fit(space, devices.take(upto), class_code, vendor) is Some,
    ensures
        first_fit(space, devices, class_code, vendor) == first_fit(
            space,
            devices.take(upto),
            class_code,
            vendor,
        ),
    decreases devices.len() - upto,
{
    if upto < devices.len() {
        lemma_first_fit_grows(space, devices, class_code, vendor, upto);
        lemma_first_fit_settled(space, devices, class_code, vendor, upto + 1);
    } else {
        assert(devices.take(upto) =~= devices);
    }
}

/// Finds the device to use for a class: iterating in list order, the first
/// device of that class is kept, unless a device of that class from the
/// preferred vendor turns up, which ends the search at once.
///
/// No register is forgotten, and for every configuration space that agrees
/// with the registers remembered after the call, the result is the
/// [`best_fit`] in that space.
pub fn find_by_class<P: ConfigPort>(
    config: &mut PciConfig<P>,
    devices: &PciDevices,
    class_code: ClassCode,
    preferred_vendor: u16,
) -> (found: Option<Device>)
    ensures
        grown(old(config)@, final(config)@),
        forall|space: Space| #[trigger]
            agrees(space, final(config)@) ==> found == best_fit(
                space,
                devices@,
                class_code,
                preferred_vendor,
            ),
{
    let ghost c0 = config@;
    let mut fallback: Option<Device> = None;
    let count: usize = devices.len();
    let mut index: usize = 0;
    while index < count
        invariant
            index <= count,
            count == devices@.len(),
            c0 == old(config)@,
            grown(c0, config@),
            forall|space: Space| #[trigger]
                agrees(space, config@) ==> first_fit(
                    space,
                    devices@.take(index as int),
                    class_code,
                    Some(preferred_vendor),
                ) == None::<Device> && fallback == first_fit(
                    space,
                    devices@.take(index as int),
                    class_code,
                    None,
                ),
        decreases count - index,
    {
        let ghost ca = config@;
        let entry = devices.get(index);
        match entry {
            Some(dev) => {
                if dev.class_code == class_code {
                    let id: u16 = dev.get_vendor_id(config);
                    let ghost cb = config@;
                    proof {
                        lemma_grown_twice(c0, ca, cb);
                    }
                    if id == preferred_vendor {
                        proof {
                            assert forall|space: Space| #[trigger] agrees(space, cb) implies Some(
                                dev,
                            ) == best_fit(space, devices@, class_code, preferred_vendor) by {
                                lemma_agrees_with_less(space, ca, cb);
                                lemma_first_fit_grows(
                                    space,
                                    devices@,
                                    class_code,
                                    Some(preferred_vendor),
                                    index as int,
                                );
                                lemma_first_fit_settled(
                                    space,
                                    devices@,
                                    class_code,
                                    Some(preferred_vendor),
                                    index + 1,
                                );
                            }
                        }
                        return Some(dev);
                    }
                    let ghost kept = fallback;
                    if fallback.is_none() {
                        fallback = Some(dev);
                    }
                    proof {
                        assert forall|space: Space| #[trigger] agrees(space, cb) implies first_fit(
                            space,
                            devices@.take(index + 1),
                            class_code,
                            Some(preferred_vendor),
                        ) == None::<Device> && fallback == first_fit(
                            space,
                            devices@.take(index + 1),
                            class_code,
                            None,
                        ) by {
                            lemma_agrees_with_less(space, ca, cb);
                            lemma_first_fit_grows(
                                space,
                                devices@,
                                class_code,
                                Some(preferred_vendor),
                                index as int,
                            );
                            lemma_first_fit_grows(space, devices@, class_code, None, index as int);
                        }
                    }
                } else {
                    proof {
                        assert forall|space: Space| #[trigger] agrees(space, ca) implies first_fit(
                            space,
                            devices@.take(index + 1),
                            class_code,
                            Some(preferred_vendor),
                        ) == None::<Device> && fallback == first_fit(
                            space,
                            devices@.take(index + 1),
                            class_code,
                            None,
                        ) by {
                            lemma_first_fit_grows(
                                space,
                                devices@,
                                class_code,
                                Some(preferred_vendor),
                                index as int,
                            );
                            lemma_first_fit_grows(space, devices@, class_code, None, index as int);
                        }
                    }
                }
            },
            None => {},
        }
        index += 1;
    }
    proof {
        assert(devices@.take(count as int) =~= devices@);
    }
    fallback
}

/// Finds the xHCI host controller to bring up, preferring one made by Intel.
pub fn find_xhc<P: ConfigPort>(
    config: &mut PciConfig<P>,
    pci_devices: &PciDevices,
) -> (xhc: Option<Device>)
    ensures
        grown(old(config)@, final(config)@),
        forall|space: Space| #[trigger]
            agrees(space, final(config)@) ==> xhc == best_fit(
                space,
                pci_devices@,
                xhci_class(),
                VENDOR_INTEL,
            ),
{
    let xhcclass = ClassCode {
        base: CLASS_SERIAL_BUS,
        sub: SUBCLASS_USB,
        interface: INTERFACE_XHCI,
    };
    find_by_class(config, pci_devices, xhcclass, VENDOR_INTEL)
}

/// What a check for an EHCI controller of Intel must come to: the first
/// such controller in the list, as the error, or success where there is
/// none.
pub open spec fn ehci_in_the_way(space: Space, devices: Seq<Device>) -> Result<(), Device> {
    match first_fit(space, devices, ehci_class(), Some(VENDOR_INTEL)) {
        Some(ehci) => Err(ehci),
        None => Ok(()),
    }
}

/// Checks that no EHCI controller made by Intel shares the ports with the
/// xHCI controller. Handing ports over from such a controller is not
/// provided: where one is present it is returned as the error.
pub fn switch_echi_to_xhci<P: ConfigPort>(
    config: &mut PciConfig<P>,
    _xhc_dev: &Device,
    pci_devices: &PciDevices,
) -> (switched: Result<(), Device>)
    ensures
        grown(old(config)@, final(config)@),
        forall|space: Space| #[trigger]
            agrees(space, final(config)@) ==> switched == ehci_in_the_way(space, pci_devices@),
{
    let ghost c0 = config@;
    let ehciclass = ClassCode {
        base: CLASS_SERIAL_BUS,
        sub: SUBCLASS_USB,
        interface: INTERFACE_EHCI,
    };
    let count: usize = pci_devices.len();
    let mut index: usize = 0;
    while index < count
        invariant
            index <= count,
            count == pci_devices@.len(),
            ehciclass == ehci_class(),
            c0 == old(config)@,
            grown(c0, config@),
            forall|space: Space| #[trigger]
                agrees(space, config@) ==> first_fit(
                    space,
                    pci_devices@.take(index as int),
                    ehciclass,
                    Some(VENDOR_INTEL),
                ) == None::<Device>,
        decreases count - index,
    {
        let ghost ca = config@;
        match pci_devices.get(index) {
            Some(dev) => {
                if dev.class_code == ehciclass {
                    let id: u16 = dev.get_vendor_id(config);
                    let ghost cb = config@;
                    proof {
                        lemma_grown_twice(c0, ca, cb);
                    }
                    if id == VENDOR_INTEL {
                        proof {
                            let found: Result<(), Device> = Err(dev);
                            assert forall|space: Space| #[trigger] agrees(space, cb) implies found
                                == ehci_in_the_way(space, pci_devices@) by {
                                lemma_agrees_with_less(space, ca, cb);
                                lemma_first_fit_grows(
                                    space,
                                    pci_devices@,
                                    ehciclass,
                                    Some(VENDOR_INTEL),
                                    index as int,
                                );
                                lemma_first_fit_settled(
                                    space,
                                    pci_devices@,
                                    ehciclass,
                                    Some(VENDOR_INTEL),
                                    index + 1,
                                );
                            }
                        }
                        return Err(dev);
                    }
                    proof {
                        assert forall|space: Space| #[trigger] agrees(space, cb) implies first_fit(
                            space,
                            pci_devices@.take(index + 1),
                            ehciclass,
                            Some(VENDOR_INTEL),
                        ) == None::<Device> by {
                            lemma_agrees_with_less(space, ca, cb);
                            lemma_first_fit_grows(
                                space,
                                pci_devices@,
                                ehciclass,
                                Some(VENDOR_INTEL),
                                index as int,
                            );
                        }
                    }
                } else {
                    proof {
                        assert forall|space: Space| #[trigger] agrees(space, ca) implies first_fit(
                            space,
                            pci_devices@.take(index + 1),
                            ehciclass,
                            Some(VENDOR_INTEL),
                        ) == None::<Device> by {
                            lemma_first_fit_grows(
                                space,
                                pci_devices@,
                                ehciclass,
                                Some(VENDOR_INTEL),
                                index as int,
                            );
                        }
                    }
                }
            },
            None => {},
        }
        index += 1;
    }
    proof {
        assert(pci_devices@.take(count as int) =~= pci_devices@);
    }
    Ok(())
}

} // verus!
