//! The record kept of each discovered PCI function, and the bounded list
//! that a scan fills.

use vstd::prelude::*;

verus! {

/// Capacity of a [`PciDevices`] list.
pub const MAX_DEVICES: usize = 32;

/// Why a PCI operation gave up.
#[derive(Copy, Clone, Debug, PartialEq, Eq, Structural)]
pub enum Error {
    /// The device list already holds [`MAX_DEVICES`] entries.
    Full,
    /// No such base address register, or a 64-bit one that has no upper half.
    OutOfRange,
}

/// The three bytes that classify a PCI function.
#[derive(Copy, Clone, Debug, PartialEq, Eq, Structural)]
pub struct ClassCode {
    pub base: u8,
    pub sub: u8,
    pub interface: u8,
}

/// One discovered function: where it sits and what it said it is.
#[derive(Copy, Clone, Debug, PartialEq, Eq, Structural)]
pub struct Device {
    pub bus: u8,
    pub device: u8,
    pub function: u8,
    pub header_type: u8,
    pub class_code: ClassCode,
}

/// A list of at most [`MAX_DEVICES`] devices, in the order they were added.
pub struct PciDevices {
    devices: [Device; MAX_DEVICES],
    count: usize,
}

impl View for PciDevices {
    type V = Seq<Device>;

    /// The devices added so far, oldest first.
    closed spec fn view(&self) -> Seq<Device> {
        self.devices@.take(self.count as int)
    }
}

impl PciDevices {
    #[verifier::type_invariant]
    spec fn within_capacity(self) -> bool {
        self.count <= MAX_DEVICES
    }

    /// An empty list.
    pub fn new() -> (list: Self)
        ensures
            list@ == Seq::<Device>::empty(),
    {
        let filler = Device {
            bus: 0xde,
            device: 0xad,
            function: 0xbe,
            header_type: 0xef,
            class_code: ClassCode { base: 0, sub: 0, interface: 0 },
        };
        PciDevices { devices: [filler;MAX_DEVICES], count: 0 }
    }

    /// Number of devices in the list.
    pub fn len(&self) -> (n: usize)
        ensures
            n == self@.len(),
            n <= MAX_DEVICES,
    {
        proof {
            use_type_invariant(self);
        }
        self.count
    }

    /// The `index`-th device added, or `None` past the end.
    pub fn get(&self, index: usize) -> (found: Option<Device>)
        ensures
            found == if index < self@.len() {
                Some(self@[index as int])
            } else {
                None
            },
    {
        proof {
            use_type_invariant(self);
        }
        if index < self.count {
            Some(self.devices[index])
        } else {
            None
        }
    }

    /// Appends `device`, or reports `Full` and leaves the list alone when it
    /// already holds [`MAX_DEVICES`] devices.
    pub fn add_device(&mut self, device: Device) -> (added: Result<(), Error>)
        ensures
            old(self)@.len() < MAX_DEVICES ==> added == Ok::<(), Error>(())
                && final(self)@ == old(self)@.push(device),
            old(self)@.len() >= MAX_DEVICES ==> added == Err::<(), Error>(Error::Full)
                && final(self)@ == old(self)@,
            final(self)@.len() <= MAX_DEVICES,
    {
        proof {
            use_type_invariant(&*self);
        }
        if self.count >= MAX_DEVICES {
            Err(Error::Full)
        } else {
            self.devices[self.count] = device;
            self.count += 1;
            assert(self@ =~= old(self)@.push(device));
            Ok(())
        }
    }

    /// Walks the list from its first device.
    pub fn iter(&self) -> (walk: PciDevicesIter<'_>)
        ensures
            walk@ == self@,
    {
        PciDevicesIter { devices: self, index: 0 }
    }
}

/// A walk over a device list, front to back.
pub struct PciDevicesIter<'a> {
    devices: &'a PciDevices,
    index: usize,
}

impl<'a> View for PciDevicesIter<'a> {
    type V = Seq<Device>;

    /// The devices not yet handed out, next one first.
    closed spec fn view(&self) -> Seq<Device> {
        self.devices@.skip(self.index as int)
    }
}

impl<'a> PciDevicesIter<'a> {
    #[verifier::type_invariant]
    spec fn within_list(self) -> bool {
        self.index <= self.devices@.len()
    }

    /// Hands out the next device, or `None` once the walk is over.
    pub fn next(&mut self) -> (item: Option<Device>)
        ensures
            old(self)@.len() == 0 ==> item.is_none() && final(self)@ == old(self)@,
            old(self)@.len() > 0 ==> item == Some(old(self)@[0])
                && final(self)@ == old(self)@.skip(1),
    {
        proof {
            use_type_invariant(&*self);
        }
        let total: usize = self.devices.len();
        let item = self.devices.get(self.index);
        if self.index < total {
            self.index += 1;
            assert(self@ =~= old(self)@.skip(1));
        }
        item
    }
}

} // verus!
