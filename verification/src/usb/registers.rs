//! The xHCI register blocks and the fields packed into their registers.

use vstd::prelude::*;
use crate::bits::bit_is_set;
use crate::bits::with_bit;
use crate::bits::BitField;
use crate::volatile::Volatile;

verus! {

/// USBCMD bit: the controller runs while this is set.
pub const RUN_STOP: u32 = 0;

/// USBCMD bit: writing 1 resets the controller; it reads 0 again once the
/// reset is over.
pub const HOST_CONTROLLER_RESET: u32 = 1;

/// USBCMD bit: the controller may raise interrupts.
pub const INTERRUPT_ENABLE: u32 = 2;

/// USBCMD bit: a host system error raises an interrupt.
pub const HOST_SYSTEM_ERROR_ENABLE: u32 = 3;

/// USBCMD bit: a wrap of the frame index raises an event.
pub const ENABLE_WRAP_EVENT: u32 = 10;

/// USBSTS bit: the controller has stopped.
pub const HC_HALTED: u32 = 0;

/// USBSTS bit: the controller is not yet ready to take register writes.
pub const CONTROLLER_NOT_READY: u32 = 11;

/// HCCPARAMS1 bit: contexts are 64 bytes long.
pub const CONTEXT_SIZE: u32 = 2;

/// The capability registers, at the start of the controller's memory.
pub struct CapabilityRegisters {
    pub cap_length: Volatile<u8>,
    pub hci_version: Volatile<u16>,
    pub hcs_params1: Volatile<HscParam1>,
    pub hcs_params2: Volatile<HscParam2>,
    pub hcs_params3: Volatile<u32>,
    pub hcc_params1: Volatile<HccParams1>,
    pub db_off: Volatile<u32>,
    pub rts_off: Volatile<u32>,
    pub hcc_params2: Volatile<u32>,
}

/// Structural parameters 1.
#[derive(Copy, Clone, Debug, PartialEq, Eq, Structural)]
pub struct HscParam1 {
    data: u32,
}

impl View for HscParam1 {
    type V = u32;

    closed spec fn view(&self) -> u32 {
        self.data
    }
}

/// Bits 0 to 7 of structural parameters 1.
pub open spec fn max_device_slots_of(data: u32) -> u8 {
    (data & 0xff) as u8
}

/// Bits 24 to 31 of structural parameters 1.
pub open spec fn max_ports_of(data: u32) -> u8 {
    (data >> 24 & 0xff) as u8
}

impl HscParam1 {
    /// The register holding `data`.
    pub fn new(data: u32) -> (register: Self)
        ensures
            register@ == data,
    {
        HscParam1 { data }
    }

    /// The register's 32 bits.
    pub fn raw(&self) -> (data: u32)
        ensures
            data == self@,
    {
        self.data
    }

    /// Number of device slots the controller has.
    pub fn max_device_slots(&self) -> (slots: u8)
        ensures
            slots == max_device_slots_of(self@),
    {
        #[verifier::truncate]
        ((self.data & 0xff) as u8)
    }

    /// Number of root hub ports the controller has.
    pub fn max_ports(&self) -> (ports: u8)
        ensures
            ports == max_ports_of(self@),
    {
        #[verifier::truncate]
        ((self.data >> 24 & 0xff) as u8)
    }
}

/// Structural parameters 2.
#[derive(Copy, Clone, Debug, PartialEq, Eq, Structural)]
pub struct HscParam2 {
    data: u32,
}

impl View for HscParam2 {
    type V = u32;

    closed spec fn view(&self) -> u32 {
        self.data
    }
}

/// The scratchpad buffer count: its high five bits are bits 21 to 25 of the
/// register, its low five bits are bits 27 to 31.
pub open spec fn max_scratchpad_buf_of(data: u32) -> u32 {
    (data >> 21 & 0b11111) << 5 | (data >> 27 & 0b11111)
}

impl HscParam2 {
    /// The register holding `data`.
    pub fn new(data: u32) -> (register: Self)
        ensures
            register@ == data,
    {
        HscParam2 { data }
    }

    /// The register's 32 bits.
    pub fn raw(&self) -> (data: u32)
        ensures
            data == self@,
    {
        self.data
    }

    /// Number of scratchpad buffers the controller asks for; below 1024.
    pub fn max_scratchpad_buf(&self) -> (count: usize)
        ensures
            count == max_scratchpad_buf_of(self@),
            count < 1024,
    {
        let data: u32 = self.data;
        let hi: u32 = data >> 21 & 0b11111;
        let lo: u32 = data >> 27 & 0b11111;
        assert(((data >> 21 & 0b11111) << 5 | (data >> 27 & 0b11111)) < 1024) by (bit_vector);
        ((hi << 5) | lo) as usize
    }
}

/// Capability parameters 1.
#[derive(Copy, Clone, Debug, PartialEq, Eq, Structural)]
pub struct HccParams1 {
    data: u32,
}

impl View for HccParams1 {
    type V = u32;

    closed spec fn view(&self) -> u32 {
        self.data
    }
}

/// Bits 16 to 31 of capability parameters 1.
pub open spec fn xecp_of(data: u32) -> u16 {
    (data >> 16) as u16
}

impl HccParams1 {
    /// The register holding `data`.
    pub fn new(data: u32) -> (register: Self)
        ensures
            register@ == data,
    {
        HccParams1 { data }
    }

    /// The register's 32 bits.
    pub fn raw(&self) -> (data: u32)
        ensures
            data == self@,
    {
        self.data
    }

    /// Offset of the first extended capability, in 32-bit words.
    pub fn xecp(&self) -> (pointer: u16)
        ensures
            pointer == xecp_of(self@),
    {
        #[verifier::truncate]
        ((self.data >> 16) as u16)
    }

    /// Whether contexts are 64 bytes long rather than 32.
    pub fn context_size(&self) -> (large: bool)
        ensures
            large == bit_is_set(self@ as u64, CONTEXT_SIZE),
    {
        self.data.get_bit(CONTEXT_SIZE)
    }
}

/// The operational registers, `cap_length` bytes into the controller's
/// memory.
pub struct OperationalRegisters {
    pub usbcmd: Volatile<UsbCmd>,
    pub usbsts: Volatile<UsbSts>,
    pub pagesize: u32,
    pub dnctrl: u32,
    pub crcr: u64,
    pub dcbaap: u64,
    pub config: Volatile<ConfigRegister>,
}

/// The command register.
#[derive(Copy, Clone, Debug, PartialEq, Eq, Structural)]
pub struct UsbCmd {
    data: u32,
}

impl View for UsbCmd {
    type V = u32;

    closed spec fn view(&self) -> u32 {
        self.data
    }
}

impl UsbCmd {
    /// The register holding `data`.
    pub fn new(data: u32) -> (register: Self)
        ensures
            register@ == data,
    {
        UsbCmd { data }
    }

    /// The register's 32 bits.
    pub fn raw(&self) -> (data: u32)
        ensures
            data == self@,
    {
        self.data
    }

    /// Tells the controller to run (`true`) or to stop (`false`).
    pub fn set_run_stop(&mut self, value: bool)
        ensures
            final(self)@ as u64 == with_bit(old(self)@ as u64, RUN_STOP, value),
    {
        self.data.set_bit(RUN_STOP, value);
    }

    /// Whether the controller is told to run.
    pub fn run_stop(&self) -> (set: bool)
        ensures
            set == bit_is_set(self@ as u64, RUN_STOP),
    {
        self.data.get_bit(RUN_STOP)
    }

    /// Starts a reset of the controller (`true`); the controller clears the
    /// flag itself when the reset is over.
    pub fn set_host_controller_reset(&mut self, value: bool)
        ensures
            final(self)@ as u64 == with_bit(old(self)@ as u64, HOST_CONTROLLER_RESET, value),
    {
        self.data.set_bit(HOST_CONTROLLER_RESET, value);
    }

    /// Whether a reset of the controller is under way.
    pub fn host_controller_reset(&self) -> (set: bool)
        ensures
            set == bit_is_set(self@ as u64, HOST_CONTROLLER_RESET),
    {
        self.data.get_bit(HOST_CONTROLLER_RESET)
    }

    /// Allows or forbids the controller to raise interrupts.
    pub fn set_interrupt_enable(&mut self, value: bool)
        ensures
            final(self)@ as u64 == with_bit(old(self)@ as u64, INTERRUPT_ENABLE, value),
    {
        self.data.set_bit(INTERRUPT_ENABLE, value);
    }

    /// Whether the controller may raise interrupts.
    pub fn interrupt_enable(&self) -> (set: bool)
        ensures
            set == bit_is_set(self@ as u64, INTERRUPT_ENABLE),
    {
        self.data.get_bit(INTERRUPT_ENABLE)
    }

    /// Makes a host system error raise an interrupt, or not.
    pub fn set_host_system_error_enable(&mut self, value: bool)
        ensures
            final(self)@ as u64 == with_bit(old(self)@ as u64, HOST_SYSTEM_ERROR_ENABLE, value),
    {
        self.data.set_bit(HOST_SYSTEM_ERROR_ENABLE, value);
    }

    /// Whether a host system error raises an interrupt.
    pub fn host_system_error_enable(&self) -> (set: bool)
        ensures
            set == bit_is_set(self@ as u64, HOST_SYSTEM_ERROR_ENABLE),
    {
        self.data.get_bit(HOST_SYSTEM_ERROR_ENABLE)
    }

    /// Makes a wrap of the frame index raise an event, or not.
    pub fn set_enable_wrap_event(&mut self, value: bool)
        ensures
            final(self)@ as u64 == with_bit(old(self)@ as u64, ENABLE_WRAP_EVENT, value),
    {
        self.data.set_bit(ENABLE_WRAP_EVENT, value);
    }

    /// Whether a wrap of the frame index raises an event.
    pub fn enable_wrap_event(&self) -> (set: bool)
        ensures
            set == bit_is_set(self@ as u64, ENABLE_WRAP_EVENT),
    {
        self.data.get_bit(ENABLE_WRAP_EVENT)
    }
}

/// The status register.
#[derive(Copy, Clone, Debug, PartialEq, Eq, Structural)]
pub struct UsbSts {
    data: u32,
}

impl View for UsbSts {
    type V = u32;

    closed spec fn view(&self) -> u32 {
        self.data
    }
}

impl UsbSts {
    /// The register holding `data`.
    pub fn new(data: u32) -> (register: Self)
        ensures
            register@ == data,
    {
        UsbSts { data }
    }

    /// The register's 32 bits.
    pub fn raw(&self) -> (data: u32)
        ensures
            data == self@,
    {
        self.data
    }

    /// Whether the controller has stopped.
    pub fn hc_halted(&self) -> (set: bool)
        ensures
            set == bit_is_set(self@ as u64, HC_HALTED),
    {
        self.data.get_bit(HC_HALTED)
    }

    /// Whether the controller is not yet ready to take register writes.
    pub fn controller_not_ready(&self) -> (set: bool)
        ensures
            set == bit_is_set(self@ as u64, CONTROLLER_NOT_READY),
    {
        self.data.get_bit(CONTROLLER_NOT_READY)
    }
}

/// The configure register.
#[derive(Copy, Clone, Debug, PartialEq, Eq, Structural)]
pub struct ConfigRegister {
    data: u32,
}

impl View for ConfigRegister {
    type V = u32;

    closed spec fn view(&self) -> u32 {
        self.data
    }
}

impl ConfigRegister {
    /// The register holding `data`.
    pub fn new(data: u32) -> (register: Self)
        ensures
            register@ == data,
    {
        ConfigRegister { data }
    }

    /// The register's 32 bits.
    pub fn raw(&self) -> (data: u32)
        ensures
            data == self@,
    {
        self.data
    }

    /// Ors `val` into the register's low eight bits; no bit is cleared.
    pub fn set_max_device_slots_enabled(&mut self, val: u8)
        ensures
            final(self)@ == old(self)@ | (val as u32),
    {
        self.data |= val as u32;
    }

    /// Number of device slots enabled: the register's low eight bits.
    pub fn max_device_slots_enabled(&self) -> (slots: u8)
        ensures
            slots == max_device_slots_of(self@),
    {
        #[verifier::truncate]
        ((self.data & 0xff) as u8)
    }
}

/// A doorbell register.
#[derive(Copy, Clone, Debug, PartialEq, Eq, Structural)]
pub struct Doorbell {
    data: u32,
}

impl View for Doorbell {
    type V = u32;

    closed spec fn view(&self) -> u32 {
        self.data
    }
}

/// `data` with its bits 0 to 7 replaced by `target`.
pub open spec fn with_db_target(data: u32, target: u8) -> u32 {
    data & 0xffff_ff00 | (target as u32)
}

/// `data` with its bits 16 to 31 replaced by `stream_id`.
pub open spec fn with_db_stream_id(data: u32, stream_id: u16) -> u32 {
    data & 0x0000_ffff | (stream_id as u32) << 16
}

impl Doorbell {
    /// The register holding `data`.
    pub fn new(data: u32) -> (register: Self)
        ensures
            register@ == data,
    {
        Doorbell { data }
    }

    /// The register's 32 bits.
    pub fn raw(&self) -> (data: u32)
        ensures
            data == self@,
    {
        self.data
    }

    /// Sets the doorbell target, bits 0 to 7; the other bits stay.
    pub fn set_db_target(&mut self, target: u8)
        ensures
            final(self)@ == with_db_target(old(self)@, target),
    {
        self.data = self.data & 0xffff_ff00 | target as u32;
    }

    /// Sets the stream id, bits 16 to 31; the other bits stay.
    pub fn set_db_stream_id(&mut self, stream_id: u16)
        ensures
            final(self)@ == with_db_stream_id(old(self)@, stream_id),
    {
        self.data = self.data & 0x0000_ffff | (stream_id as u32) << 16;
    }
}

/// Setting the doorbell target changes bits 0 to 7 to the target and leaves
/// bits 8 to 31 alone.
pub proof fn lemma_db_target_touches_low_byte_only(data: u32, target: u8)
    ensures
        with_db_target(data, target) & 0xff == target,
        with_db_target(data, target) & 0xffff_ff00 == data & 0xffff_ff00,
{
    assert((data & 0xffff_ff00 | (target as u32)) & 0xff == target) by (bit_vector);
    assert((data & 0xffff_ff00 | (target as u32)) & 0xffff_ff00 == data & 0xffff_ff00)
        by (bit_vector);
}

/// Setting the stream id changes bits 16 to 31 to the id and leaves bits 0
/// to 15 alone.
pub proof fn lemma_db_stream_id_touches_high_half_only(data: u32, stream_id: u16)
    ensures
        with_db_stream_id(data, stream_id) >> 16 == stream_id,
        with_db_stream_id(data, stream_id) & 0xffff == data & 0xffff,
{
    assert((data & 0x0000_ffff | (stream_id as u32) << 16) >> 16 == stream_id) by (bit_vector);
    assert((data & 0x0000_ffff | (stream_id as u32) << 16) & 0xffff == data & 0xffff)
        by (bit_vector);
}

/// Enabling device slots ors the count into the low eight bits: bits 8 to 31
/// stay, and no bit that was set is cleared.
pub proof fn lemma_slots_enabled_keeps_other_bits(data: u32, val: u8)
    ensures
        (data | (val as u32)) & 0xffff_ff00 == data & 0xffff_ff00,
        max_device_slots_of(data | (val as u32)) == max_device_slots_of(data) | val,
        (data | (val as u32)) & data == data,
{
    assert((data | (val as u32)) & 0xffff_ff00 == data & 0xffff_ff00) by (bit_vector);
    assert((((data | (val as u32)) & 0xff) as u8) == (((data & 0xff) as u8) | val))
        by (bit_vector);
    assert((data | (val as u32)) & data == data) by (bit_vector);
}

} // verus!
