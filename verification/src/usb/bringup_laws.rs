//! What holds of every bring-up, whatever the controller answers.

use vstd::prelude::*;
use crate::bits::bit_is_set;
use crate::usb::machine::answers;
use crate::usb::machine::consistent;
use crate::usb::machine::interrupts_masked;
use crate::usb::machine::next;
use crate::usb::machine::register_address;
use crate::usb::machine::reset_requested;
use crate::usb::machine::slots_enabled;
use crate::usb::machine::stop_requested;
use crate::usb::machine::Action;
use crate::usb::machine::Error;
use crate::usb::machine::Event;
use crate::usb::machine::Machine;
use crate::usb::machine::Phase;
use crate::usb::machine::Register;
use crate::usb::machine::State;
use crate::usb::registers::max_device_slots_of;
use crate::usb::registers::ENABLE_WRAP_EVENT;
use crate::usb::registers::HOST_CONTROLLER_RESET;
use crate::usb::registers::HOST_SYSTEM_ERROR_ENABLE;
use crate::usb::registers::INTERRUPT_ENABLE;
use crate::usb::registers::RUN_STOP;

verus! {

/// Place of a state in the order of the handshake.
pub open spec fn rank(state: State) -> nat {
    match state {
        State::Uninitialized => 0,
        State::CapabilitiesRead => 1,
        State::Halting => 2,
        State::Halted => 3,
        State::Resetting => 4,
        State::Reset => 5,
        State::Ready => 6,
        State::Configured => 7,
    }
}

/// Number of accesses that a step still has before it, polls that have to be
/// repeated not counted.
pub open spec fn steps_ahead(phase: Phase) -> nat {
    match phase {
        Phase::Capability(Register::CapLength) => 23,
        Phase::Capability(Register::HciVersion) => 22,
        Phase::Capability(Register::HcsParams1) => 21,
        Phase::Capability(Register::HcsParams2) => 20,
        Phase::Capability(Register::HcsParams3) => 19,
        Phase::Capability(Register::HccParams1) => 18,
        Phase::Capability(Register::DbOff) => 17,
        Phase::Capability(Register::RtsOff) => 16,
        Phase::Capability(_) => 15,
        Phase::MaskInterrupts => 14,
        Phase::MaskWritten => 13,
        Phase::CheckHalted => 12,
        Phase::RequestStop => 11,
        Phase::StopWritten => 10,
        Phase::AwaitHalt => 9,
        Phase::RequestReset => 8,
        Phase::ResetWritten => 7,
        Phase::AwaitReset => 6,
        Phase::AwaitReady => 5,
        Phase::ReadSlots => 4,
        Phase::ReadConfig => 3,
        Phase::ConfigWritten => 2,
        Phase::Over => 0,
    }
}

/// Upper bound on the number of accesses that a machine can still ask for.
pub open spec fn accesses_left(machine: Machine) -> nat {
    steps_ahead(machine.phase) + machine.polls_left as nat
}

/// Clearing the interrupt sources clears bits 2, 3 and 10 of USBCMD and
/// leaves every other bit as it was read.
pub proof fn lemma_mask_clears_interrupt_sources_only(usbcmd: u32, bit: u32)
    requires
        bit < 32,
    ensures
        bit_is_set(interrupts_masked(usbcmd) as u64, bit) == (bit_is_set(usbcmd as u64, bit)
            && bit != INTERRUPT_ENABLE && bit != HOST_SYSTEM_ERROR_ENABLE && bit
            != ENABLE_WRAP_EVENT),
{
    assert((((usbcmd & !0x40cu32) as u64 >> bit) & 1 == 1) == ((((usbcmd as u64) >> bit) & 1 == 1)
        && bit != 2 && bit != 3 && bit != 10)) by (bit_vector)
        requires
            bit < 32,
    ;
}

/// Asking the controller to stop clears run/stop and leaves every other bit
/// of USBCMD as it was read.
pub proof fn lemma_stop_clears_run_stop_only(usbcmd: u32, bit: u32)
    requires
        bit < 32,
    ensures
        bit_is_set(stop_requested(usbcmd) as u64, bit) == (bit_is_set(usbcmd as u64, bit) && bit
            != RUN_STOP),
{
    assert((((usbcmd & !1u32) as u64 >> bit) & 1 == 1) == ((((usbcmd as u64) >> bit) & 1 == 1)
        && bit != 0)) by (bit_vector)
        requires
            bit < 32,
    ;
}

/// Asking the controller to reset sets the reset bit and leaves every other
/// bit of USBCMD as it was read.
pub proof fn lemma_reset_sets_reset_bit_only(usbcmd: u32, bit: u32)
    requires
        bit < 32,
    ensures
        bit_is_set(reset_requested(usbcmd) as u64, bit) == (bit_is_set(usbcmd as u64, bit) || bit
            == HOST_CONTROLLER_RESET),
{
    assert((((usbcmd | 2u32) as u64 >> bit) & 1 == 1) == ((((usbcmd as u64) >> bit) & 1 == 1)
        || bit == 1)) by (bit_vector)
        requires
            bit < 32,
    ;
}

/// Every write that a bring-up asks for is a read-modify-write: the value
/// written is the value just read from the same register, changed in the
/// bits that the step is about and in no other.
pub proof fn lemma_writes_modify_what_was_read(machine: Machine, value: u32)
    requires
        consistent(machine),
        machine.pending is Read,
    ensures
        next(machine, Event::Value(value)).pending matches Action::Write(register, written) ==> {
            &&& machine.pending == Action::Read(register)
            &&& machine.phase == Phase::MaskInterrupts ==> written == interrupts_masked(value)
            &&& machine.phase == Phase::RequestStop ==> written == stop_requested(value)
            &&& machine.phase == Phase::RequestReset ==> written == reset_requested(value)
            &&& machine.phase == Phase::ReadConfig ==> written == slots_enabled(
                value,
                max_device_slots_of(machine.caps.hcs_params1),
            )
            &&& machine.phase == Phase::MaskInterrupts || machine.phase == Phase::RequestStop
                || machine.phase == Phase::RequestReset || machine.phase == Phase::ReadConfig
        },
{
}

/// The handshake keeps its order: a step leaves the state as it is or moves
/// it to the state that follows; no state is skipped and none is gone back
/// to.
pub proof fn lemma_states_follow_in_order(machine: Machine, event: Event)
    requires
        consistent(machine),
    ensures
        rank(next(machine, event).state) == rank(machine.state) || rank(next(machine, event).state)
            == rank(machine.state) + 1,
{
}

/// No bring-up goes on for ever: every access reported brings the machine
/// closer to its end, by a step of the handshake or by a poll out of its
/// budget.
pub proof fn lemma_every_access_counts(machine: Machine, event: Event)
    requires
        consistent(machine),
        answers(event, machine.pending),
    ensures
        accesses_left(next(machine, event)) < accesses_left(machine),
{
}

/// A machine that is over stays as it is, whatever it is told.
pub proof fn lemma_over_is_final(machine: Machine, event: Event)
    requires
        consistent(machine),
        machine.phase == Phase::Over,
    ensures
        next(machine, event) == machine,
{
}

/// Every register that a machine asks to have accessed has an address.
pub proof fn lemma_awaited_register_has_address(machine: Machine)
    requires
        consistent(machine),
    ensures
        machine.pending matches Action::Read(register) ==> register_address(
            machine,
            register,
        ) is Some,
        machine.pending matches Action::Write(register, _) ==> register_address(
            machine,
            register,
        ) is Some,
{
}

/// A bring-up gives up for want of time only while it polls, and only with
/// its budget used up.
pub proof fn lemma_timeout_only_when_budget_is_spent(machine: Machine, event: Event)
    requires
        consistent(machine),
        machine.phase != Phase::Over,
        next(machine, event).pending == Action::Fail(Error::HardwareTimeout),
    ensures
        machine.polls_left == 0,
        machine.phase == Phase::AwaitHalt || machine.phase == Phase::AwaitReset || machine.phase
            == Phase::AwaitReady,
{
}

} // verus!
