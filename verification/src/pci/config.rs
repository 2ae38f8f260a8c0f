//! Access to PCI configuration space through the two-register mechanism:
//! an address word goes out, the addressed 32-bit register comes back.
//!
//! Nothing is taken for granted about what comes back. Every register that
//! was read is remembered and read from memory from then on, so that the
//! access mechanism is asked for each register once. Whatever is said of a
//! value read is said with respect to every configuration space that agrees
//! with the registers remembered, and these are exactly what the access
//! mechanism answered.

use vstd::prelude::*;
use crate::pci::device::ClassCode;
use crate::pci::device::Device;

verus! {

/// Vendor id read where no function answers.
pub const INVALID_VENDOR_ID: u16 = 0xffff;

/// Offset of the register that holds the vendor id in its low half.
pub const REG_VENDOR: u8 = 0x00;

/// Offset of the register that holds the class code.
pub const REG_CLASS: u8 = 0x08;

/// Offset of the register that holds the header type.
pub const REG_HEADER: u8 = 0x0c;

/// Offset of a bridge's bus number register.
pub const REG_BUS_NUMBERS: u8 = 0x18;

/// One register that was read: the address word sent and the value that
/// came back.
#[derive(Copy, Clone, Debug, PartialEq, Eq, Structural)]
pub struct Entry {
    pub address: u32,
    pub value: u32,
}

/// The access mechanism: given the address word, it returns the register
/// that the word selects.
///
/// An implementation must make the selection and the read one indivisible
/// exchange, so that two callers never interleave. Nothing is said of the
/// value that comes back; what is said is that the exchange took place.
pub trait ConfigPort {
    /// Every exchange made through the mechanism, oldest first.
    spec fn asked(&self) -> Seq<Entry>;

    /// Sends `address` and returns the register it selects.
    fn exchange(&mut self, address: u32) -> (value: u32)
        ensures
            final(self).asked() == old(self).asked().push(Entry { address, value }),
    ;
}

/// A configuration space: the register that each address word selects.
pub type Space = spec_fn(u32) -> u32;

/// What a [`PciConfig`] holds.
pub struct Readings {
    /// The registers remembered, in the order they were first read.
    pub known: Seq<Entry>,
    /// Every exchange made through the access mechanism, oldest first.
    pub asked: Seq<Entry>,
}

/// The space holds, in every register that is remembered, the value that
/// was read from it.
pub open spec fn agrees(space: Space, readings: Readings) -> bool {
    forall|i: int|
        0 <= i < readings.known.len() ==> space((#[trigger] readings.known[i]).address)
            == readings.known[i].value
}

/// No register was read twice.
pub open spec fn distinct(known: Seq<Entry>) -> bool {
    forall|i: int, j: int|
        0 <= i < j < known.len() ==> (#[trigger] known[i]).address != (#[trigger] known[j]).address
}

/// The register selected by `address` was read.
pub open spec fn holds(known: Seq<Entry>, address: u32) -> bool {
    exists|i: int| 0 <= i < known.len() && (#[trigger] known[i]).address == address
}

/// The address word for register `reg_addr` of a function: the enable bit,
/// then bus, device and function, then the offset with its low two bits
/// dropped.
pub open spec fn address_word(bus: u8, device: u8, function: u8, reg_addr: u8) -> u32 {
    1u32 << 31 | (bus as u32) << 16 | (device as u32) << 11 | (function as u32) << 8
        | ((reg_addr & 0xfc) as u32)
}

/// Low 16 bits of register 0x00.
pub open spec fn vendor_id_of(register: u32) -> u16 {
    (register & 0xffff) as u16
}

/// Bits 16 to 23 of register 0x0c.
pub open spec fn header_type_of(register: u32) -> u8 {
    (register >> 16 & 0xff) as u8
}

/// Bits 31 to 24, 23 to 16 and 15 to 8 of register 0x08.
pub open spec fn class_code_of(register: u32) -> ClassCode {
    ClassCode {
        base: ((register >> 24) & 0xff) as u8,
        sub: ((register >> 16) & 0xff) as u8,
        interface: ((register >> 8) & 0xff) as u8,
    }
}

/// Bits 8 to 15 of a bridge's register 0x18.
pub open spec fn secondary_bus_of(register: u32) -> u8 {
    ((register >> 8) & 0xff) as u8
}

/// A function is alone in its device when bit 7 of its header type is clear.
pub open spec fn single_function(header_type: u8) -> bool {
    header_type & 0x80 == 0
}

/// Register `reg_addr` (low two bits ignored) of the given function.
pub open spec fn dword(space: Space, bus: u8, device: u8, function: u8, reg_addr: u8) -> u32 {
    space(address_word(bus, device, function, reg_addr))
}

/// Vendor id of the given function; [`INVALID_VENDOR_ID`] where none is
/// present.
pub open spec fn vendor_id(space: Space, bus: u8, device: u8, function: u8) -> u16 {
    vendor_id_of(dword(space, bus, device, function, REG_VENDOR))
}

/// Header type of the given function.
pub open spec fn header_type(space: Space, bus: u8, device: u8, function: u8) -> u8 {
    header_type_of(dword(space, bus, device, function, REG_HEADER))
}

/// Class code of the given function.
pub open spec fn class_code(space: Space, bus: u8, device: u8, function: u8) -> ClassCode {
    class_code_of(dword(space, bus, device, function, REG_CLASS))
}

/// Bus behind the given bridge function.
pub open spec fn secondary_bus(space: Space, bus: u8, device: u8, function: u8) -> u8 {
    secondary_bus_of(dword(space, bus, device, function, REG_BUS_NUMBERS))
}

/// The record a scan keeps of the given function.
pub open spec fn device_at(space: Space, bus: u8, device: u8, function: u8) -> Device {
    Device {
        bus,
        device,
        function,
        header_type: header_type(space, bus, device, function),
        class_code: class_code(space, bus, device, function),
    }
}

/// What a read that returned `value` for `address` did to the registers
/// remembered: nothing, if the register was among them, in which case
/// `value` is what was remembered; else the register was added at the end.
pub open spec fn remembered(
    before: Seq<Entry>,
    after: Seq<Entry>,
    address: u32,
    value: u32,
) -> bool {
    if holds(before, address) {
        after == before && exists|i: int|
            0 <= i < before.len() && #[trigger] before[i] == (Entry { address, value })
    } else {
        after == before.push(Entry { address, value })
    }
}

/// What reading does. The registers remembered before are remembered
/// still, in their places, and none occurs twice if none did. The access
/// mechanism was asked for exactly the registers that are newly remembered,
/// once each, in the order in which they are remembered, and what it answered
/// is what is remembered of them.
pub open spec fn grown(before: Readings, after: Readings) -> bool {
    &&& before.known.is_prefix_of(after.known)
    &&& distinct(before.known) ==> distinct(after.known)
    &&& after.asked == before.asked + after.known.skip(before.known.len() as int)
}

/// Growing twice is growing.
pub proof fn lemma_grown_twice(first: Readings, second: Readings, third: Readings)
    requires
        grown(first, second),
        grown(second, third),
    ensures
        grown(first, third),
{
    assert(first.known =~= third.known.subrange(0, first.known.len() as int)) by {
        assert(first.known =~= second.known.subrange(0, first.known.len() as int));
        assert(second.known =~= third.known.subrange(0, second.known.len() as int));
    }
    assert(third.known.skip(first.known.len() as int) =~= second.known.skip(
        first.known.len() as int,
    ) + third.known.skip(second.known.len() as int)) by {
        assert(second.known =~= third.known.subrange(0, second.known.len() as int));
    }
    assert(third.asked =~= first.asked + third.known.skip(first.known.len() as int));
}

/// Reading nothing is growing.
pub proof fn lemma_grown_by_nothing(readings: Readings)
    ensures
        grown(readings, readings),
{
    assert(readings.known.skip(readings.known.len() as int) =~= Seq::<Entry>::empty());
    assert(readings.asked + Seq::<Entry>::empty() =~= readings.asked);
}

/// Whatever agrees with more registers agrees with fewer.
pub proof fn lemma_agrees_with_less(space: Space, fewer: Readings, more: Readings)
    requires
        fewer.known.is_prefix_of(more.known),
        agrees(space, more),
    ensures
        agrees(space, fewer),
{
    assert forall|i: int| 0 <= i < fewer.known.len() implies space(
        (#[trigger] fewer.known[i]).address,
    ) == fewer.known[i].value by {
        assert(fewer.known[i] == more.known[i]);
    }
}

/// As long as no register is remembered twice, some configuration space
/// agrees with the registers remembered: what is said of every such space is
/// not said of nothing.
pub proof fn lemma_some_space_agrees(readings: Readings) -> (space: Space)
    requires
        distinct(readings.known),
    ensures
        agrees(space, readings),
{
    let known = readings.known;
    let space = |address: u32|
        if holds(known, address) {
            let i = choose|i: int| 0 <= i < known.len() && (#[trigger] known[i]).address == address;
            known[i].value
        } else {
            0xffff_ffffu32
        };
    assert forall|i: int| 0 <= i < known.len() implies space((#[trigger] known[i]).address)
        == known[i].value by {
        let address = known[i].address;
        let j = choose|j: int| 0 <= j < known.len() && (#[trigger] known[j]).address == address;
        assert(i == j);
    }
    space
}

/// The registers remembered, each once.
pub struct Registers {
    known: Vec<Entry>,
}

impl View for Registers {
    type V = Seq<Entry>;

    /// The registers in the order they were first read.
    closed spec fn view(&self) -> Seq<Entry> {
        self.known@
    }
}

impl Registers {
    #[verifier::type_invariant]
    spec fn read_once(self) -> bool {
        distinct(self.known@)
    }

    /// No registers.
    pub fn new() -> (registers: Self)
        ensures
            registers@ == Seq::<Entry>::empty(),
    {
        Registers { known: Vec::new() }
    }

    /// The registers in the order they were first read; none occurs twice.
    pub fn entries(&self) -> (known: &Vec<Entry>)
        ensures
            known@ == self@,
            distinct(self@),
    {
        proof {
            use_type_invariant(self);
        }
        &self.known
    }

    /// The value remembered of the register that `address` selects, if it
    /// is remembered.
    pub fn find(&self, address: u32) -> (found: Option<u32>)
        ensures
            found is Some <==> holds(self@, address),
            found matches Some(value) ==> exists|i: int|
                0 <= i < self@.len() && #[trigger] self@[i] == (Entry { address, value }),
            distinct(self@),
    {
        proof {
            use_type_invariant(self);
        }
        let count: usize = self.known.len();
        let mut index: usize = 0;
        while index < count
            invariant
                index <= count,
                count == self.known@.len(),
                distinct(self.known@),
                forall|i: int| 0 <= i < index ==> (#[trigger] self.known@[i]).address != address,
            decreases count - index,
        {
            let entry = self.known[index];
            if entry.address == address {
                proof {
                    assert(self@[index as int] == (Entry { address, value: entry.value }));
                }
                return Some(entry.value);
            }
            index += 1;
        }
        None
    }

    /// Remembers a register that was not remembered before.
    pub fn insert(&mut self, address: u32, value: u32)
        requires
            !holds(old(self)@, address),
        ensures
            final(self)@ == old(self)@.push(Entry { address, value }),
            distinct(final(self)@),
    {
        proof {
            use_type_invariant(&*self);
        }
        let ghost before = self.known@;
        let mut known: Vec<Entry> = Vec::new();
        core::mem::swap(&mut self.known, &mut known);
        known.push(Entry { address, value });
        proof {
            assert forall|i: int, j: int| 0 <= i < j < known@.len() implies (
            #[trigger] known@[i]).address != (#[trigger] known@[j]).address by {
                if j < before.len() {
                    assert(known@[i] == before[i] && known@[j] == before[j]);
                } else {
                    assert(known@[i] == before[i]);
                }
            }
        }
        core::mem::swap(&mut self.known, &mut known);
    }

    /// Forgets every register.
    pub fn clear(&mut self)
        ensures
            final(self)@ == Seq::<Entry>::empty(),
    {
        let mut known: Vec<Entry> = Vec::new();
        core::mem::swap(&mut self.known, &mut known);
    }
}

/// Configuration space as far as it has been read through one access
/// mechanism.
pub struct PciConfig<P: ConfigPort> {
    port: P,
    registers: Registers,
}

impl<P: ConfigPort> View for PciConfig<P> {
    type V = Readings;

    /// The registers remembered, and every exchange that the access
    /// mechanism has made.
    closed spec fn view(&self) -> Readings {
        Readings { known: self.registers@, asked: self.port.asked() }
    }
}

impl<P: ConfigPort> PciConfig<P> {
    /// Configuration space behind `port`, of which nothing is remembered
    /// yet.
    pub fn new(port: P) -> (config: Self)
        ensures
            config@ == (Readings { known: Seq::<Entry>::empty(), asked: port.asked() }),
    {
        PciConfig { port, registers: Registers::new() }
    }

    /// Composes the address word for one register of one function.
    pub fn make_address(bus: u8, device: u8, function: u8, reg_addr: u8) -> (address: u32)
        ensures
            address == address_word(bus, device, function, reg_addr),
    {
        let offset: u8 = reg_addr & 0xfc;
        1u32 << 31 | (bus as u32) << 16 | (device as u32) << 11 | (function as u32) << 8
            | (offset as u32)
    }

    /// The registers remembered, in the order they were first read; none
    /// occurs twice.
    pub fn known(&self) -> (known: &Vec<Entry>)
        ensures
            known@ == self@.known,
            distinct(self@.known),
    {
        self.registers.entries()
    }

    /// The access mechanism.
    pub fn port(&self) -> (port: &P)
        ensures
            port.asked() == self@.asked,
    {
        &self.port
    }

    /// Forgets every register remembered, so that each is read through the
    /// access mechanism again when it is next asked for.
    pub fn forget(&mut self)
        ensures
            final(self)@ == (Readings { known: Seq::<Entry>::empty(), asked: old(self)@.asked }),
    {
        self.registers.clear();
    }

    /// The value remembered of the register that `address` selects, if it
    /// is remembered.
    pub fn find(&self, address: u32) -> (found: Option<u32>)
        ensures
            found is Some <==> holds(self@.known, address),
            found matches Some(value) ==> exists|i: int|
                0 <= i < self@.known.len() && #[trigger] self@.known[i] == (Entry {
                    address,
                    value,
                }),
    {
        self.registers.find(address)
    }

    /// Reads the register that `address` selects. A register that is
    /// remembered is read from memory, and the access mechanism is not
    /// asked. Any other register is asked for through the access mechanism,
    /// once, and what comes back is returned and remembered.
    pub fn read_word(&mut self, address: u32) -> (value: u32)
        ensures
            remembered(old(self)@.known, final(self)@.known, address, value),
            final(self)@.asked == if holds(old(self)@.known, address) {
                old(self)@.asked
            } else {
                old(self)@.asked.push(Entry { address, value })
            },
            grown(old(self)@, final(self)@),
            distinct(final(self)@.known),
            forall|space: Space| #[trigger] agrees(space, final(self)@) ==> space(address) == value,
    {
        let ghost before = self@;
        match self.registers.find(address) {
            Some(value) => {
                proof {
                    lemma_grown_by_nothing(before);
                    assert forall|space: Space| #[trigger] agrees(space, self@) implies space(
                        address,
                    ) == value by {
                        let i = choose|i: int|
                            0 <= i < self@.known.len() && #[trigger] self@.known[i] == (Entry {
                                address,
                                value,
                            });
                        assert(space(self@.known[i].address) == self@.known[i].value);
                    }
                }
                value
            },
            None => {
                let value: u32 = self.port.exchange(address);
                self.registers.insert(address, value);
                proof {
                    let last = before.known.len() as int;
                    assert(self@.known[last] == (Entry { address, value }));
                    assert forall|space: Space| #[trigger] agrees(space, self@) implies space(
                        address,
                    ) == value by {
                        assert(space(self@.known[last].address) == self@.known[last].value);
                    }
                    assert(self@.known.skip(last) =~= seq![Entry { address, value }]);
                    assert(self@.asked =~= before.asked + self@.known.skip(last));
                }
                value
            },
        }
    }

    /// Reads one register of one function.
    pub fn read(&mut self, bus: u8, device: u8, function: u8, reg_addr: u8) -> (value: u32)
        ensures
            remembered(
                old(self)@.known,
                final(self)@.known,
                address_word(bus, device, function, reg_addr),
                value,
            ),
            final(self)@.asked == if holds(
                old(self)@.known,
                address_word(bus, device, function, reg_addr),
            ) {
                old(self)@.asked
            } else {
                old(self)@.asked.push(
                    Entry { address: address_word(bus, device, function, reg_addr), value },
                )
            },
            grown(old(self)@, final(self)@),
            distinct(final(self)@.known),
            forall|space: Space| #[trigger]
                agrees(space, final(self)@) ==> dword(space, bus, device, function, reg_addr)
                    == value,
    {
        let address: u32 = Self::make_address(bus, device, function, reg_addr);
        self.read_word(address)
    }

    /// Reads one register of a recorded device.
    pub fn read_dev(&mut self, dev: &Device, reg_addr: u8) -> (value: u32)
        ensures
            remembered(
                old(self)@.known,
                final(self)@.known,
                address_word(dev.bus, dev.device, dev.function, reg_addr),
                value,
            ),
            final(self)@.asked == if holds(
                old(self)@.known,
                address_word(dev.bus, dev.device, dev.function, reg_addr),
            ) {
                old(self)@.asked
            } else {
                old(self)@.asked.push(
                    Entry {
                        address: address_word(dev.bus, dev.device, dev.function, reg_addr),
                        value,
                    },
                )
            },
            grown(old(self)@, final(self)@),
            distinct(final(self)@.known),
            forall|space: Space| #[trigger]
                agrees(space, final(self)@) ==> dword(
                    space,
                    dev.bus,
                    dev.device,
                    dev.function,
                    reg_addr,
                ) == value,
    {
        self.read(dev.bus, dev.device, dev.function, reg_addr)
    }
}

/// Reads the vendor id of a function.
pub fn read_vendor_id<P: ConfigPort>(
    config: &mut PciConfig<P>,
    bus: u8,
    device: u8,
    function: u8,
) -> (id: u16)
    ensures
        grown(old(config)@, final(config)@),
        forall|space: Space| #[trigger]
            agrees(space, final(config)@) ==> id == vendor_id(space, bus, device, function),
{
    let register: u32 = config.read(bus, device, function, REG_VENDOR);
    #[verifier::truncate]
    ((register & 0xffff) as u16)
}

/// Reads the header type of a function.
pub fn read_header_type<P: ConfigPort>(
    config: &mut PciConfig<P>,
    bus: u8,
    device: u8,
    function: u8,
) -> (kind: u8)
    ensures
        grown(old(config)@, final(config)@),
        forall|space: Space| #[trigger]
            agrees(space, final(config)@) ==> kind == header_type(space, bus, device, function),
{
    let register: u32 = config.read(bus, device, function, REG_HEADER);
    #[verifier::truncate]
    ((register >> 16 & 0xff) as u8)
}

/// Reads the class code of a function.
pub fn read_class_code<P: ConfigPort>(
    config: &mut PciConfig<P>,
    bus: u8,
    device: u8,
    function: u8,
) -> (class: ClassCode)
    ensures
        grown(old(config)@, final(config)@),
        forall|space: Space| #[trigger]
            agrees(space, final(config)@) ==> class == class_code(space, bus, device, function),
{
    let r: u32 = config.read(bus, device, function, REG_CLASS);
    ClassCode {
        base: #[verifier::truncate]
        (((r >> 24) & 0xff) as u8),
        sub: #[verifier::truncate]
        (((r >> 16) & 0xff) as u8),
        interface: #[verifier::truncate]
        (((r >> 8) & 0xff) as u8),
    }
}

/// Reads the bus number register of a bridge; its bits 8 to 15 name the bus
/// behind the bridge.
pub fn read_bus_numbers<P: ConfigPort>(
    config: &mut PciConfig<P>,
    bus: u8,
    device: u8,
    function: u8,
) -> (register: u32)
    ensures
        grown(old(config)@, final(config)@),
        forall|space: Space| #[trigger]
            agrees(space, final(config)@) ==> register == dword(
                space,
                bus,
                device,
                function,
                REG_BUS_NUMBERS,
            ),
{
    config.read(bus, device, function, REG_BUS_NUMBERS)
}

/// Tells from a header type whether the device has only function 0.
pub fn is_single_function_device(header_type: u8) -> (single: bool)
    ensures
        single == single_function(header_type),
{
    header_type & 0x80 == 0
}

impl Device {
    /// Reads this device's vendor id.
    pub fn get_vendor_id<P: ConfigPort>(&self, config: &mut PciConfig<P>) -> (id: u16)
        ensures
            grown(old(config)@, final(config)@),
            forall|space: Space| #[trigger]
                agrees(space, final(config)@) ==> id == vendor_id(
                    space,
                    self.bus,
                    self.device,
                    self.function,
                ),
    {
        read_vendor_id(config, self.bus, self.device, self.function)
    }
}

/// The address word has its enable bit set and its low two bits clear, and
/// it tells registers apart: two words are the same only for the same
/// register of the same function, as long as the device number is below 32
/// and the function number below 8.
pub proof fn lemma_address_word_names_one_register(
    bus: u8,
    device: u8,
    function: u8,
    reg_addr: u8,
    other_bus: u8,
    other_device: u8,
    other_function: u8,
    other_reg_addr: u8,
)
    requires
        device < 32,
        other_device < 32,
        function < 8,
        other_function < 8,
    ensures
        address_word(bus, device, function, reg_addr) & 0x8000_0003 == 0x8000_0000,
        address_word(bus, device, function, reg_addr) == address_word(
            other_bus,
            other_device,
            other_function,
            other_reg_addr,
        ) <==> bus == other_bus && device == other_device && function == other_function
            && reg_addr & 0xfc == other_reg_addr & 0xfc,
{
    assert((1u32 << 31 | (bus as u32) << 16 | (device as u32) << 11 | (function as u32) << 8
        | ((reg_addr & 0xfc) as u32)) & 0x8000_0003 == 0x8000_0000) by (bit_vector);
    assert((1u32 << 31 | (bus as u32) << 16 | (device as u32) << 11 | (function as u32) << 8
        | ((reg_addr & 0xfc) as u32)) == (1u32 << 31 | (other_bus as u32) << 16
        | (other_device as u32) << 11 | (other_function as u32) << 8
        | ((other_reg_addr & 0xfc) as u32)) <==> (bus == other_bus && device == other_device
        && function == other_function && reg_addr & 0xfc == other_reg_addr & 0xfc))
        by (bit_vector)
        requires
            device < 32,
            other_device < 32,
            function < 8,
            other_function < 8,
    ;
}

/// The decoded fields are the bytes of their registers: a register put
/// together from fields gives the fields back.
pub proof fn lemma_fields_read_back(
    vendor: u16,
    device_id: u16,
    class_code: ClassCode,
    low: u8,
    header_type: u8,
    secondary: u8,
)
    ensures
        vendor_id_of((device_id as u32) << 16 | vendor as u32) == vendor,
        class_code_of(
            (class_code.base as u32) << 24 | (class_code.sub as u32) << 16 | (
            class_code.interface as u32) << 8 | low as u32,
        ) == class_code,
        header_type_of((header_type as u32) << 16 | vendor as u32) == header_type,
        secondary_bus_of((secondary as u32) << 8 | low as u32) == secondary,
{
    let base = class_code.base;
    let sub = class_code.sub;
    let interface = class_code.interface;
    assert(((((device_id as u32) << 16 | vendor as u32) & 0xffff) as u16) == vendor)
        by (bit_vector);
    assert((((((base as u32) << 24 | (sub as u32) << 16 | (interface as u32) << 8 | low as u32)
        >> 24) & 0xff) as u8) == base) by (bit_vector);
    assert((((((base as u32) << 24 | (sub as u32) << 16 | (interface as u32) << 8 | low as u32)
        >> 16) & 0xff) as u8) == sub) by (bit_vector);
    assert((((((base as u32) << 24 | (sub as u32) << 16 | (interface as u32) << 8 | low as u32)
        >> 8) & 0xff) as u8) == interface) by (bit_vector);
    assert((((((header_type as u32) << 16 | vendor as u32) >> 16) & 0xff) as u8) == header_type)
        by (bit_vector);
    assert((((((secondary as u32) << 8 | low as u32) >> 8) & 0xff) as u8) == secondary)
        by (bit_vector);
}

} // verus!
