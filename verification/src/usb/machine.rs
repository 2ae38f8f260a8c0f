//! The bring-up of an xHCI host controller as a machine: its states, the
//! register accesses it asks for, and how it moves from one to the next.
//!
//! The controller's registers change on their own while the handshake runs,
//! so the machine never touches them. It names one register access at a
//! time; whoever owns the registers performs the access and reports back,
//! and the machine answers with the next one. What the machine asks for
//! depends only on what it was told.

use vstd::prelude::*;
use crate::bits::bit_is_set;
use crate::usb::registers::max_device_slots_of;
use crate::usb::registers::CONTROLLER_NOT_READY;
use crate::usb::registers::HC_HALTED;
use crate::usb::registers::HOST_CONTROLLER_RESET;

verus! {

/// Length in bytes of the capability register block.
pub const CAPABILITY_BLOCK: usize = 0x20;

/// Length in bytes of the operational register block.
pub const OPERATIONAL_BLOCK: usize = 0x3c;

/// Length in bytes of one doorbell register.
pub const DOORBELL_SIZE: usize = 4;

/// USBCMD bits that let the controller interrupt: interrupt enable, host
/// system error enable and enable wrap event.
pub const INTERRUPT_SOURCES: u32 = 0x40c;

/// Why a bring-up gave up.
#[derive(Copy, Clone, Debug, PartialEq, Eq, Structural)]
pub enum Error {
    /// The controller did not reach the awaited condition within the polls
    /// allowed.
    HardwareTimeout,
    /// The base address is null, or a register block placed there would
    /// reach past the last address.
    InvalidBar,
}

/// How far the bring-up has come.
#[derive(Copy, Clone, Debug, PartialEq, Eq, Structural)]
pub enum State {
    Uninitialized,
    CapabilitiesRead,
    Halting,
    Halted,
    Resetting,
    Reset,
    Ready,
    Configured,
}

/// A register that the bring-up reads or writes.
#[derive(Copy, Clone, Debug, PartialEq, Eq, Structural)]
pub enum Register {
    CapLength,
    HciVersion,
    HcsParams1,
    HcsParams2,
    HcsParams3,
    HccParams1,
    DbOff,
    RtsOff,
    HccParams2,
    UsbCmd,
    UsbSts,
    Config,
}

/// What the machine wants done next.
#[derive(Copy, Clone, Debug, PartialEq, Eq, Structural)]
pub enum Action {
    /// Load the register, whole, and report its value.
    Read(Register),
    /// Store the value in the register, whole, and report that it is done.
    Write(Register, u32),
    /// Nothing: the controller is configured.
    Done,
    /// Nothing: the bring-up gave up.
    Fail(Error),
}

/// What happened to the access that the machine asked for.
#[derive(Copy, Clone, Debug, PartialEq, Eq, Structural)]
pub enum Event {
    /// The register was read and held this value (zero-extended where the
    /// register is narrower than 32 bits).
    Value(u32),
    /// The value was written.
    Written,
}

/// The step of the handshake that the machine is at: the access it waits
/// for.
#[derive(Copy, Clone, Debug, PartialEq, Eq, Structural)]
pub enum Phase {
    /// Reading the capability registers, one after the other.
    Capability(Register),
    /// Reading USBCMD to clear the interrupt sources in it.
    MaskInterrupts,
    /// Writing USBCMD with the interrupt sources cleared.
    MaskWritten,
    /// Reading USBSTS to see whether the controller runs.
    CheckHalted,
    /// Reading USBCMD to clear run/stop in it.
    RequestStop,
    /// Writing USBCMD with run/stop cleared.
    StopWritten,
    /// Polling USBSTS until the controller has halted.
    AwaitHalt,
    /// Reading USBCMD to set the reset bit in it.
    RequestReset,
    /// Writing USBCMD with the reset bit set.
    ResetWritten,
    /// Polling USBCMD until the reset bit reads clear.
    AwaitReset,
    /// Polling USBSTS until the controller is ready.
    AwaitReady,
    /// Reading the number of device slots.
    ReadSlots,
    /// Reading CONFIG to enable the device slots in it.
    ReadConfig,
    /// Writing CONFIG with the device slots enabled.
    ConfigWritten,
    /// Nothing is awaited: the bring-up is over, one way or the other.
    Over,
}

/// What was read from the capability registers.
#[derive(Copy, Clone, Debug, PartialEq, Eq, Structural)]
pub struct Capabilities {
    pub cap_length: u8,
    pub hci_version: u16,
    pub hcs_params1: u32,
    pub hcs_params2: u32,
    pub hcs_params3: u32,
    pub hcc_params1: u32,
    /// Offset of the doorbell array, its low two bits masked off.
    pub db_off: u32,
    /// Offset of the runtime registers, its low five bits masked off.
    pub rts_off: u32,
    pub hcc_params2: u32,
}

/// The whole of a bring-up machine.
#[derive(Copy, Clone, Debug, PartialEq, Eq, Structural)]
pub struct Machine {
    /// Address of the capability registers.
    pub mmio_base: usize,
    pub state: State,
    pub phase: Phase,
    /// The access that is awaited.
    pub pending: Action,
    /// Unsuccessful polls that the machine will still put up with.
    pub polls_left: u64,
    pub caps: Capabilities,
}

/// Whether the capability block fits at `mmio_base`.
pub open spec fn base_is_valid(mmio_base: usize) -> bool {
    mmio_base != 0 && mmio_base + CAPABILITY_BLOCK <= usize::MAX
}

/// Whether the operational block and the first doorbell, placed as the
/// capabilities say, lie within the address space.
pub open spec fn blocks_fit(mmio_base: usize, caps: Capabilities) -> bool {
    &&& mmio_base + caps.cap_length + OPERATIONAL_BLOCK <= usize::MAX
    &&& mmio_base + caps.db_off + DOORBELL_SIZE <= usize::MAX
}

/// Offset of a register within its block.
pub open spec fn register_offset(register: Register) -> usize {
    match register {
        Register::CapLength => 0x00,
        Register::HciVersion => 0x02,
        Register::HcsParams1 => 0x04,
        Register::HcsParams2 => 0x08,
        Register::HcsParams3 => 0x0c,
        Register::HccParams1 => 0x10,
        Register::DbOff => 0x14,
        Register::RtsOff => 0x18,
        Register::HccParams2 => 0x1c,
        Register::UsbCmd => 0x00,
        Register::UsbSts => 0x04,
        Register::Config => 0x38,
    }
}

/// Width of a register in bytes.
pub open spec fn register_width(register: Register) -> usize {
    match register {
        Register::CapLength => 1,
        Register::HciVersion => 2,
        _ => 4,
    }
}

/// Whether the register belongs to the operational block rather than to the
/// capability block.
pub open spec fn is_operational(register: Register) -> bool {
    register == Register::UsbCmd || register == Register::UsbSts || register == Register::Config
}

/// The capability register read after `register`, if there is one.
pub open spec fn capability_after(register: Register) -> Option<Register> {
    match register {
        Register::CapLength => Some(Register::HciVersion),
        Register::HciVersion => Some(Register::HcsParams1),
        Register::HcsParams1 => Some(Register::HcsParams2),
        Register::HcsParams2 => Some(Register::HcsParams3),
        Register::HcsParams3 => Some(Register::HccParams1),
        Register::HccParams1 => Some(Register::DbOff),
        Register::DbOff => Some(Register::RtsOff),
        Register::RtsOff => Some(Register::HccParams2),
        _ => None,
    }
}

/// The capabilities with the value read from `register` filled in. Offsets
/// lose their reserved low bits; narrow registers keep their own width.
pub open spec fn with_capability(
    caps: Capabilities,
    register: Register,
    value: u32,
) -> Capabilities {
    match register {
        Register::CapLength => Capabilities { cap_length: (value & 0xff) as u8, ..caps },
        Register::HciVersion => Capabilities { hci_version: (value & 0xffff) as u16, ..caps },
        Register::HcsParams1 => Capabilities { hcs_params1: value, ..caps },
        Register::HcsParams2 => Capabilities { hcs_params2: value, ..caps },
        Register::HcsParams3 => Capabilities { hcs_params3: value, ..caps },
        Register::HccParams1 => Capabilities { hcc_params1: value, ..caps },
        Register::DbOff => Capabilities { db_off: value & 0xffff_fffc, ..caps },
        Register::RtsOff => Capabilities { rts_off: value & 0xffff_ffe0, ..caps },
        Register::HccParams2 => Capabilities { hcc_params2: value, ..caps },
        _ => caps,
    }
}

/// USBCMD with the interrupt sources cleared and every other bit kept.
pub open spec fn interrupts_masked(usbcmd: u32) -> u32 {
    usbcmd & !INTERRUPT_SOURCES
}

/// USBCMD with run/stop cleared and every other bit kept.
pub open spec fn stop_requested(usbcmd: u32) -> u32 {
    usbcmd & !1u32
}

/// USBCMD with the reset bit set and every other bit kept.
pub open spec fn reset_requested(usbcmd: u32) -> u32 {
    usbcmd | 2u32
}

/// CONFIG with the slot count or-ed into its low eight bits and every bit
/// that was set kept.
pub open spec fn slots_enabled(config: u32, slots: u8) -> u32 {
    config | (slots as u32)
}

/// The address that a base address register names: the register with its
/// low four bits, which are flags, masked off. An address that does not fit
/// the machine counts as null.
pub open spec fn base_of_bar(bar: u64) -> usize {
    if bar & !0xfu64 <= usize::MAX {
        (bar & !0xfu64) as usize
    } else {
        0
    }
}

/// The machine at `mmio_base` before anything was read.
pub open spec fn initial(mmio_base: usize, poll_budget: u64) -> Machine {
    Machine {
        mmio_base,
        state: State::Uninitialized,
        phase: if base_is_valid(mmio_base) {
            Phase::Capability(Register::CapLength)
        } else {
            Phase::Over
        },
        pending: if base_is_valid(mmio_base) {
            Action::Read(Register::CapLength)
        } else {
            Action::Fail(Error::InvalidBar)
        },
        polls_left: poll_budget,
        caps: Capabilities {
            cap_length: 0,
            hci_version: 0,
            hcs_params1: 0,
            hcs_params2: 0,
            hcs_params3: 0,
            hcc_params1: 0,
            db_off: 0,
            rts_off: 0,
            hcc_params2: 0,
        },
    }
}

/// Whether `event` reports the outcome of `pending`.
pub open spec fn answers(event: Event, pending: Action) -> bool {
    match pending {
        Action::Read(_) => event is Value,
        Action::Write(_, _) => event is Written,
        _ => false,
    }
}

/// The machine moved on to `phase`, now awaiting `pending`.
pub open spec fn moved(machine: Machine, state: State, phase: Phase, pending: Action) -> Machine {
    Machine { state, phase, pending, ..machine }
}

/// The machine given up for `error`, in the state it had reached.
pub open spec fn given_up(machine: Machine, error: Error) -> Machine {
    Machine { phase: Phase::Over, pending: Action::Fail(error), ..machine }
}

/// The machine after a poll. When the awaited condition holds it moves on
/// as given. When it does not, the poll is repeated at the cost of one unit
/// of the budget; with the budget used up the machine gives up.
pub open spec fn polled(
    machine: Machine,
    condition: bool,
    state: State,
    phase: Phase,
    pending: Action,
) -> Machine {
    if condition {
        moved(machine, state, phase, pending)
    } else if machine.polls_left == 0 {
        given_up(machine, Error::HardwareTimeout)
    } else {
        Machine { polls_left: (machine.polls_left - 1) as u64, ..machine }
    }
}

/// The machine after the access it awaited came back with `value` (0 for a
/// write).
pub open spec fn advanced(machine: Machine, value: u32) -> Machine {
    match machine.phase {
        Phase::Capability(register) => {
            let caps = with_capability(machine.caps, register, value);
            let filled = Machine { caps, ..machine };
            match capability_after(register) {
                Some(following) => moved(
                    filled,
                    State::Uninitialized,
                    Phase::Capability(following),
                    Action::Read(following),
                ),
                None => if blocks_fit(machine.mmio_base, caps) {
                    moved(
                        filled,
                        State::CapabilitiesRead,
                        Phase::MaskInterrupts,
                        Action::Read(Register::UsbCmd),
                    )
                } else {
                    given_up(filled, Error::InvalidBar)
                },
            }
        },
        Phase::MaskInterrupts => moved(
            machine,
            State::CapabilitiesRead,
            Phase::MaskWritten,
            Action::Write(Register::UsbCmd, interrupts_masked(value)),
        ),
        Phase::MaskWritten => moved(
            machine,
            State::CapabilitiesRead,
            Phase::CheckHalted,
            Action::Read(Register::UsbSts),
        ),
        Phase::CheckHalted => if bit_is_set(value as u64, HC_HALTED) {
            moved(machine, State::Halting, Phase::AwaitHalt, Action::Read(Register::UsbSts))
        } else {
            moved(
                machine,
                State::CapabilitiesRead,
                Phase::RequestStop,
                Action::Read(Register::UsbCmd),
            )
        },
        Phase::RequestStop => moved(
            machine,
            State::CapabilitiesRead,
            Phase::StopWritten,
            Action::Write(Register::UsbCmd, stop_requested(value)),
        ),
        Phase::StopWritten => moved(
            machine,
            State::Halting,
            Phase::AwaitHalt,
            Action::Read(Register::UsbSts),
        ),
        Phase::AwaitHalt => polled(
            machine,
            bit_is_set(value as u64, HC_HALTED),
            State::Halted,
            Phase::RequestReset,
            Action::Read(Register::UsbCmd),
        ),
        Phase::RequestReset => moved(
            machine,
            State::Halted,
            Phase::ResetWritten,
            Action::Write(Register::UsbCmd, reset_requested(value)),
        ),
        Phase::ResetWritten => moved(
            machine,
            State::Resetting,
            Phase::AwaitReset,
            Action::Read(Register::UsbCmd),
        ),
        Phase::AwaitReset => polled(
            machine,
            !bit_is_set(value as u64, HOST_CONTROLLER_RESET),
            State::Reset,
            Phase::AwaitReady,
            Action::Read(Register::UsbSts),
        ),
        Phase::AwaitReady => polled(
            machine,
            !bit_is_set(value as u64, CONTROLLER_NOT_READY),
            State::Ready,
            Phase::ReadSlots,
            Action::Read(Register::HcsParams1),
        ),
        Phase::ReadSlots => moved(
            Machine { caps: Capabilities { hcs_params1: value, ..machine.caps }, ..machine },
            State::Ready,
            Phase::ReadConfig,
            Action::Read(Register::Config),
        ),
        Phase::ReadConfig => moved(
            machine,
            State::Ready,
            Phase::ConfigWritten,
            Action::Write(
                Register::Config,
                slots_enabled(value, max_device_slots_of(machine.caps.hcs_params1)),
            ),
        ),
        Phase::ConfigWritten => moved(machine, State::Configured, Phase::Over, Action::Done),
        Phase::Over => machine,
    }
}

/// The machine after `event`. An event that does not report the outcome of
/// the awaited access changes nothing.
pub open spec fn next(machine: Machine, event: Event) -> Machine {
    if answers(event, machine.pending) {
        advanced(
            machine,
            match event {
                Event::Value(value) => value,
                Event::Written => 0,
            },
        )
    } else {
        machine
    }
}

/// The state that goes with each step of the handshake.
pub open spec fn state_at(phase: Phase) -> State {
    match phase {
        Phase::Capability(_) => State::Uninitialized,
        Phase::MaskInterrupts | Phase::MaskWritten | Phase::CheckHalted | Phase::RequestStop
        | Phase::StopWritten => State::CapabilitiesRead,
        Phase::AwaitHalt => State::Halting,
        Phase::RequestReset | Phase::ResetWritten => State::Halted,
        Phase::AwaitReset => State::Resetting,
        Phase::AwaitReady => State::Reset,
        Phase::ReadSlots | Phase::ReadConfig | Phase::ConfigWritten => State::Ready,
        Phase::Over => State::Configured,
    }
}

/// The register that each step of the handshake accesses.
pub open spec fn register_at(phase: Phase) -> Option<Register> {
    match phase {
        Phase::Capability(register) => Some(register),
        Phase::MaskInterrupts | Phase::MaskWritten | Phase::RequestStop | Phase::StopWritten
        | Phase::RequestReset | Phase::ResetWritten | Phase::AwaitReset => Some(Register::UsbCmd),
        Phase::CheckHalted | Phase::AwaitHalt | Phase::AwaitReady => Some(Register::UsbSts),
        Phase::ReadSlots => Some(Register::HcsParams1),
        Phase::ReadConfig | Phase::ConfigWritten => Some(Register::Config),
        Phase::Over => None,
    }
}

/// Whether the step ends with a write rather than a read.
pub open spec fn writes_at(phase: Phase) -> bool {
    phase == Phase::MaskWritten || phase == Phase::StopWritten || phase == Phase::ResetWritten
        || phase == Phase::ConfigWritten
}

/// What holds of every machine that a bring-up can reach: its state goes
/// with its step, the access it awaits is the one its step calls for, and
/// every register it may name has an address.
pub open spec fn consistent(machine: Machine) -> bool {
    &&& machine.phase != Phase::Over ==> machine.state == state_at(machine.phase)
    &&& machine.phase != Phase::Over ==> base_is_valid(machine.mmio_base)
    &&& machine.state != State::Uninitialized ==> base_is_valid(machine.mmio_base) && blocks_fit(
        machine.mmio_base,
        machine.caps,
    )
    &&& machine.phase matches Phase::Capability(register) ==> !is_operational(register)
    &&& match machine.pending {
        Action::Read(register) => register_at(machine.phase) == Some(register) && !writes_at(
            machine.phase,
        ),
        Action::Write(register, _) => register_at(machine.phase) == Some(register) && writes_at(
            machine.phase,
        ),
        Action::Done => machine.phase == Phase::Over && machine.state == State::Configured,
        Action::Fail(_) => machine.phase == Phase::Over && machine.state != State::Configured,
    }
}

/// Address of `register`, once it is known: the capability registers lie
/// at the base, the operational registers `cap_length` bytes further on.
pub open spec fn register_address(machine: Machine, register: Register) -> Option<usize> {
    if !base_is_valid(machine.mmio_base) {
        None
    } else if !is_operational(register) {
        Some((machine.mmio_base + register_offset(register)) as usize)
    } else if machine.state != State::Uninitialized {
        Some((machine.mmio_base + machine.caps.cap_length + register_offset(register)) as usize)
    } else {
        None
    }
}

/// Address of the first doorbell register, once the capabilities are read.
pub open spec fn doorbell_address(machine: Machine) -> Option<usize> {
    if machine.state != State::Uninitialized {
        Some((machine.mmio_base + machine.caps.db_off) as usize)
    } else {
        None
    }
}

/// Every step leads from a consistent machine to a consistent machine.
pub proof fn lemma_next_consistent(machine: Machine, event: Event)
    requires
        consistent(machine),
    ensures
        consistent(next(machine, event)),
{
}

} // verus!
