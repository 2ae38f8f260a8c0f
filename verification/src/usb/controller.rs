//! Running the bring-up machine: taking in what happened to one register
//! access and naming the next.

use vstd::prelude::*;
use crate::bits::with_bit;
use crate::usb::machine::advanced;
use crate::usb::machine::base_of_bar;
use crate::usb::machine::blocks_fit;
use crate::usb::machine::capability_after;
use crate::usb::machine::consistent;
use crate::usb::machine::doorbell_address;
use crate::usb::machine::given_up;
use crate::usb::machine::initial;
use crate::usb::machine::interrupts_masked;
use crate::usb::machine::lemma_next_consistent;
use crate::usb::machine::moved;
use crate::usb::machine::next;
use crate::usb::machine::polled;
use crate::usb::machine::register_address;
use crate::usb::machine::register_offset;
use crate::usb::machine::register_width;
use crate::usb::machine::reset_requested;
use crate::usb::machine::slots_enabled;
use crate::usb::machine::stop_requested;
use crate::usb::machine::with_capability;
use crate::usb::machine::Action;
use crate::usb::machine::Capabilities;
use crate::usb::machine::Error;
use crate::usb::machine::Event;
use crate::usb::machine::Machine;
use crate::usb::machine::Phase;
use crate::usb::machine::Register;
use crate::usb::machine::State;
use crate::usb::machine::CAPABILITY_BLOCK;
use crate::usb::machine::DOORBELL_SIZE;
use crate::usb::machine::OPERATIONAL_BLOCK;
use crate::usb::registers::ConfigRegister;
use crate::usb::registers::HscParam1;
use crate::usb::registers::UsbCmd;
use crate::usb::registers::UsbSts;

verus! {

/// A bring-up in progress.
pub struct Controller {
    machine: Machine,
}

impl View for Controller {
    type V = Machine;

    closed spec fn view(&self) -> Machine {
        self.machine
    }
}

impl Register {
    /// Offset of the register within its block.
    pub fn offset(self) -> (offset: usize)
        ensures
            offset == register_offset(self),
    {
        match self {
            Register::CapLength => 0x00,
            Register::HciVersion => 0x02,
            Register::HcsParams1 => 0x04,
            Register::HcsParams2 => 0x08,
            Register::HcsParams3 => 0x0c,
            Register::HccParams1 => 0x10,
            Register::DbOff => 0x14,
            Register::RtsOff => 0x18,
            Register::HccParams2 => 0x1c,
            Register::UsbCmd => 0x00,
            Register::UsbSts => 0x04,
            Register::Config => 0x38,
        }
    }

    /// Width of the register in bytes; every access moves that many.
    pub fn width(self) -> (width: usize)
        ensures
            width == register_width(self),
    {
        match self {
            Register::CapLength => 1,
            Register::HciVersion => 2,
            _ => 4,
        }
    }
}

/// The capability register read after `register`, if there is one.
fn following_capability(register: Register) -> (following: Option<Register>)
    ensures
        following == capability_after(register),
{
    match register {
        Register::CapLength => Some(Register::HciVersion),
        Register::HciVersion => Some(Register::HcsParams1),
        Register::HcsParams1 => Some(Register::HcsParams2),
        Register::HcsParams2 => Some(Register::HcsParams3),
        Register::HcsParams3 => Some(Register::HccParams1),
        Register::HccParams1 => Some(Register::DbOff),
        Register::DbOff => Some(Register::RtsOff),
        Register::RtsOff => Some(Register::HccParams2),
        _ => None,
    }
}

/// Files the value read from a capability register.
fn fill_capability(caps: Capabilities, register: Register, value: u32) -> (filled: Capabilities)
    ensures
        filled == with_capability(caps, register, value),
{
    match register {
        Register::CapLength => Capabilities {
            cap_length: #[verifier::truncate]
            ((value & 0xff) as u8),
            ..caps
        },
        Register::HciVersion => Capabilities {
            hci_version: #[verifier::truncate]
            ((value & 0xffff) as u16),
            ..caps
        },
        Register::HcsParams1 => Capabilities { hcs_params1: value, ..caps },
        Register::HcsParams2 => Capabilities { hcs_params2: value, ..caps },
        Register::HcsParams3 => Capabilities { hcs_params3: value, ..caps },
        Register::HccParams1 => Capabilities { hcc_params1: value, ..caps },
        Register::DbOff => Capabilities { db_off: value & 0xffff_fffc, ..caps },
        Register::RtsOff => Capabilities { rts_off: value & 0xffff_ffe0, ..caps },
        Register::HccParams2 => Capabilities { hcc_params2: value, ..caps },
        _ => caps,
    }
}

/// Tells whether the register blocks lie within the address space.
fn check_blocks(mmio_base: usize, caps: &Capabilities) -> (fit: bool)
    ensures
        fit == blocks_fit(mmio_base, *caps),
{
    let operational_end = match mmio_base.checked_add(caps.cap_length as usize) {
        Some(operational) => operational.checked_add(OPERATIONAL_BLOCK),
        None => None,
    };
    let doorbell_end = if caps.db_off as u64 > usize::MAX as u64 {
        None
    } else {
        match mmio_base.checked_add(caps.db_off as usize) {
            Some(doorbell) => doorbell.checked_add(DOORBELL_SIZE),
            None => None,
        }
    };
    operational_end.is_some() && doorbell_end.is_some()
}

fn move_on(machine: Machine, state: State, phase: Phase, pending: Action) -> (after: Machine)
    ensures
        after == moved(machine, state, phase, pending),
{
    Machine { state, phase, pending, ..machine }
}

fn give_up(machine: Machine, error: Error) -> (after: Machine)
    ensures
        after == given_up(machine, error),
{
    Machine { phase: Phase::Over, pending: Action::Fail(error), ..machine }
}

fn poll(
    machine: Machine,
    condition: bool,
    state: State,
    phase: Phase,
    pending: Action,
) -> (after: Machine)
    ensures
        after == polled(machine, condition, state, phase, pending),
{
    if condition {
        move_on(machine, state, phase, pending)
    } else if machine.polls_left == 0 {
        give_up(machine, Error::HardwareTimeout)
    } else {
        Machine { polls_left: machine.polls_left - 1, ..machine }
    }
}

/// Clears the interrupt sources in a USBCMD value.
fn mask_interrupts(value: u32) -> (masked: u32)
    ensures
        masked == interrupts_masked(value),
{
    let mut usbcmd = UsbCmd::new(value);
    usbcmd.set_interrupt_enable(false);
    usbcmd.set_host_system_error_enable(false);
    usbcmd.set_enable_wrap_event(false);
    assert(with_bit(with_bit(with_bit(value as u64, 2, false), 3, false), 10, false) == (value
        & !0x40cu32) as u64) by (bit_vector);
    usbcmd.raw()
}

/// Clears run/stop in a USBCMD value.
fn request_stop(value: u32) -> (stopped: u32)
    ensures
        stopped == stop_requested(value),
{
    let mut usbcmd = UsbCmd::new(value);
    usbcmd.set_run_stop(false);
    assert(with_bit(value as u64, 0, false) == (value & !1u32) as u64) by (bit_vector);
    usbcmd.raw()
}

/// Sets the reset bit in a USBCMD value.
fn request_reset(value: u32) -> (reset: u32)
    ensures
        reset == reset_requested(value),
{
    let mut usbcmd = UsbCmd::new(value);
    usbcmd.set_host_controller_reset(true);
    assert(with_bit(value as u64, 1, true) == (value | 2u32) as u64) by (bit_vector);
    usbcmd.raw()
}

/// Enables `slots` device slots in a CONFIG value.
fn enable_slots(value: u32, slots: u8) -> (enabled: u32)
    ensures
        enabled == slots_enabled(value, slots),
{
    let mut config = ConfigRegister::new(value);
    config.set_max_device_slots_enabled(slots);
    config.raw()
}

fn advance(machine: Machine, value: u32) -> (after: Machine)
    ensures
        after == advanced(machine, value),
{
    match machine.phase {
        Phase::Capability(register) => {
            let caps = fill_capability(machine.caps, register, value);
            let filled = Machine { caps, ..machine };
            match following_capability(register) {
                Some(following) => move_on(
                    filled,
                    State::Uninitialized,
                    Phase::Capability(following),
                    Action::Read(following),
                ),
                None => if check_blocks(machine.mmio_base, &caps) {
                    move_on(
                        filled,
                        State::CapabilitiesRead,
                        Phase::MaskInterrupts,
                        Action::Read(Register::UsbCmd),
                    )
                } else {
                    give_up(filled, Error::InvalidBar)
                },
            }
        },
        Phase::MaskInterrupts => move_on(
            machine,
            State::CapabilitiesRead,
            Phase::MaskWritten,
            Action::Write(Register::UsbCmd, mask_interrupts(value)),
        ),
        Phase::MaskWritten => move_on(
            machine,
            State::CapabilitiesRead,
            Phase::CheckHalted,
            Action::Read(Register::UsbSts),
        ),
        Phase::CheckHalted => if UsbSts::new(value).hc_halted() {
            move_on(machine, State::Halting, Phase::AwaitHalt, Action::Read(Register::UsbSts))
        } else {
            move_on(
                machine,
                State::CapabilitiesRead,
                Phase::RequestStop,
                Action::Read(Register::UsbCmd),
            )
        },
        Phase::RequestStop => move_on(
            machine,
            State::CapabilitiesRead,
            Phase::StopWritten,
            Action::Write(Register::UsbCmd, request_stop(value)),
        ),
        Phase::StopWritten => move_on(
            machine,
            State::Halting,
            Phase::AwaitHalt,
            Action::Read(Register::UsbSts),
        ),
        Phase::AwaitHalt => poll(
            machine,
            UsbSts::new(value).hc_halted(),
            State::Halted,
            Phase::RequestReset,
            Action::Read(Register::UsbCmd),
        ),
        Phase::RequestReset => move_on(
            machine,
            State::Halted,
            Phase::ResetWritten,
            Action::Write(Register::UsbCmd, request_reset(value)),
        ),
        Phase::ResetWritten => move_on(
            machine,
            State::Resetting,
            Phase::AwaitReset,
            Action::Read(Register::UsbCmd),
        ),
        Phase::AwaitReset => poll(
            machine,
            !UsbCmd::new(value).host_controller_reset(),
            State::Reset,
            Phase::AwaitReady,
            Action::Read(Register::UsbSts),
        ),
        Phase::AwaitReady => poll(
            machine,
            !UsbSts::new(value).controller_not_ready(),
            State::Ready,
            Phase::ReadSlots,
            Action::Read(Register::HcsParams1),
        ),
        Phase::ReadSlots => move_on(
            Machine { caps: Capabilities { hcs_params1: value, ..machine.caps }, ..machine },
            State::Ready,
            Phase::ReadConfig,
            Action::Read(Register::Config),
        ),
        Phase::ReadConfig => {
            let max_slots: u8 = HscParam1::new(machine.caps.hcs_params1).max_device_slots();
            move_on(
                machine,
                State::Ready,
                Phase::ConfigWritten,
                Action::Write(Register::Config, enable_slots(value, max_slots)),
            )
        },
        Phase::ConfigWritten => move_on(machine, State::Configured, Phase::Over, Action::Done),
        Phase::Over => machine,
    }
}

impl Controller {
    #[verifier::type_invariant]
    spec fn reachable(self) -> bool {
        consistent(self.machine)
    }

    /// Starts the bring-up of the controller whose registers lie at
    /// `mmio_base`. `poll_budget` is the number of unsuccessful polls, over
    /// the whole bring-up, after which it gives up.
    pub fn new(mmio_base: usize, poll_budget: u64) -> (controller: Self)
        ensures
            controller@ == initial(mmio_base, poll_budget),
            consistent(controller@),
    {
        let valid = mmio_base != 0 && mmio_base <= usize::MAX - CAPABILITY_BLOCK;
        Controller {
            machine: Machine {
                mmio_base,
                state: State::Uninitialized,
                phase: if valid {
                    Phase::Capability(Register::CapLength)
                } else {
                    Phase::Over
                },
                pending: if valid {
                    Action::Read(Register::CapLength)
                } else {
                    Action::Fail(Error::InvalidBar)
                },
                polls_left: poll_budget,
                caps: Capabilities {
                    cap_length: 0,
                    hci_version: 0,
                    hcs_params1: 0,
                    hcs_params2: 0,
                    hcs_params3: 0,
                    hcc_params1: 0,
                    db_off: 0,
                    rts_off: 0,
                    hcc_params2: 0,
                },
            },
        }
    }

    /// Starts the bring-up of the controller whose registers lie where its
    /// base address register `bar` says.
    pub fn from_bar(bar: u64, poll_budget: u64) -> (controller: Self)
        ensures
            controller@ == initial(base_of_bar(bar), poll_budget),
            consistent(controller@),
    {
        let address: u64 = bar & !0xfu64;
        if address <= usize::MAX as u64 {
            Self::new(address as usize, poll_budget)
        } else {
            Self::new(0, poll_budget)
        }
    }

    /// Takes in what happened to the awaited access and names the next one.
    pub fn step(&mut self, event: Event) -> (action: Action)
        ensures
            final(self)@ == next(old(self)@, event),
            action == final(self)@.pending,
            consistent(final(self)@),
    {
        proof {
            use_type_invariant(&*self);
            lemma_next_consistent(self.machine, event);
        }
        let pending = self.machine.pending;
        let value: u32 = match event {
            Event::Value(value) => {
                match pending {
                    Action::Read(_) => value,
                    _ => {
                        return pending;
                    },
                }
            },
            Event::Written => {
                match pending {
                    Action::Write(_, _) => 0,
                    _ => {
                        return pending;
                    },
                }
            },
        };
        self.machine = advance(self.machine, value);
        self.machine.pending
    }

    /// The whole machine.
    pub fn machine(&self) -> (machine: Machine)
        ensures
            machine == self@,
            consistent(machine),
    {
        proof {
            use_type_invariant(self);
        }
        self.machine
    }

    /// Address at which `register` is to be accessed, or `None` while it is
    /// not known yet.
    pub fn address_of(&self, register: Register) -> (address: Option<usize>)
        ensures
            address == register_address(self@, register),
    {
        proof {
            use_type_invariant(self);
        }
        let base = self.machine.mmio_base;
        let valid = base != 0 && base <= usize::MAX - CAPABILITY_BLOCK;
        if !valid {
            return None;
        }
        match register {
            Register::UsbCmd | Register::UsbSts | Register::Config => {
                if self.machine.state != State::Uninitialized {
                    Some(base + self.machine.caps.cap_length as usize + register.offset())
                } else {
                    None
                }
            },
            _ => Some(base + register.offset()),
        }
    }

    /// Address of the operational registers, once the capabilities are read.
    pub fn operational_base(&self) -> (address: Option<usize>)
        ensures
            address == if self@.state != State::Uninitialized {
                Some((self@.mmio_base + self@.caps.cap_length) as usize)
            } else {
                None
            },
    {
        proof {
            use_type_invariant(self);
        }
        if self.machine.state != State::Uninitialized {
            Some(self.machine.mmio_base + self.machine.caps.cap_length as usize)
        } else {
            None
        }
    }

    /// Address of the first doorbell register, once the capabilities are
    /// read.
    pub fn doorbell_base(&self) -> (address: Option<usize>)
        ensures
            address == doorbell_address(self@),
    {
        proof {
            use_type_invariant(self);
        }
        if self.machine.state != State::Uninitialized {
            Some(self.machine.mmio_base + self.machine.caps.db_off as usize)
        } else {
            None
        }
    }

    /// The access that is awaited.
    pub fn pending(&self) -> (action: Action)
        ensures
            action == self@.pending,
    {
        self.machine.pending
    }

    /// How far the bring-up has come.
    pub fn state(&self) -> (state: State)
        ensures
            state == self@.state,
    {
        self.machine.state
    }
}

} // verus!
