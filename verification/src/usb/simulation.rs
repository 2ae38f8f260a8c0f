//! A bring-up run against a register block, and what the block holds when
//! the bring-up is done.
//!
//! The block here is a model: registers as plain values that change when
//! written and, within limits, on their own. It says what a controller may
//! do behind the machine's back, so that the outcome of a bring-up can be
//! stated for every controller that keeps within these limits.

use vstd::prelude::*;
use crate::usb::bringup_laws::steps_ahead;
use crate::usb::machine::consistent;
use crate::usb::machine::initial;
use crate::usb::machine::next;
use crate::usb::machine::slots_enabled;
use crate::usb::machine::Action;
use crate::usb::machine::Event;
use crate::usb::machine::Machine;
use crate::usb::machine::Phase;
use crate::usb::machine::Register;
use crate::usb::machine::INTERRUPT_SOURCES;
use crate::usb::registers::max_device_slots_of;

verus! {

/// The registers that a bring-up touches.
pub struct Block {
    /// What each capability register holds; these never change.
    pub capability: spec_fn(Register) -> u32,
    pub usbcmd: u32,
    pub usbsts: u32,
    pub config: u32,
}

/// What a controller does on its own between two accesses.
pub struct Drift {
    /// The status it shows next.
    pub usbsts: u32,
    /// The bits of USBCMD that it flips; its interrupt sources are not
    /// among those it can flip.
    pub usbcmd_flips: u32,
}

/// The block after the controller has done as it pleases: the status is any
/// value, USBCMD has changed in any bits but the interrupt sources, and the
/// rest is as before.
pub open spec fn drifted(block: Block, drift: Drift) -> Block {
    Block {
        usbsts: drift.usbsts,
        usbcmd: block.usbcmd ^ (drift.usbcmd_flips & !INTERRUPT_SOURCES),
        ..block
    }
}

/// What the block holds in `register`.
pub open spec fn held(block: Block, register: Register) -> u32 {
    match register {
        Register::UsbCmd => block.usbcmd,
        Register::UsbSts => block.usbsts,
        Register::Config => block.config,
        _ => (block.capability)(register),
    }
}

/// The block after `action` was performed on it, and the event to report.
/// Only USBCMD and CONFIG take writes.
pub open spec fn performed(block: Block, action: Action) -> (Block, Event) {
    match action {
        Action::Read(register) => (block, Event::Value(held(block, register))),
        Action::Write(Register::UsbCmd, value) => (
            Block { usbcmd: value, ..block },
            Event::Written,
        ),
        Action::Write(Register::Config, value) => (
            Block { config: value, ..block },
            Event::Written,
        ),
        _ => (block, Event::Written),
    }
}

/// Machine and block after one round: the controller drifts, the awaited
/// access is performed, and its outcome is reported to the machine.
pub open spec fn round(machine: Machine, block: Block, drift: Drift) -> (Machine, Block) {
    let (after, event) = performed(drifted(block, drift), machine.pending);
    (next(machine, event), after)
}

/// Machine and block after as many rounds as there are drifts.
pub open spec fn run(machine: Machine, block: Block, drifts: Seq<Drift>) -> (Machine, Block)
    decreases drifts.len(),
{
    if drifts.len() == 0 {
        (machine, block)
    } else {
        let (before, held) = run(machine, block, drifts.drop_last());
        round(before, held, drifts.last())
    }
}

/// What links a machine on its way to the block it works on, `start` being
/// the block as the bring-up found it.
spec fn on_course(machine: Machine, block: Block, start: Block) -> bool {
    let slots = max_device_slots_of((start.capability)(Register::HcsParams1));
    let ahead = steps_ahead(machine.phase);
    &&& consistent(machine)
    &&& block.capability == start.capability
    &&& (2 <= ahead <= 12 || machine.pending == Action::Done) ==> block.usbcmd & INTERRUPT_SOURCES
        == 0
    &&& machine.pending matches Action::Write(Register::UsbCmd, value) ==> value
        & INTERRUPT_SOURCES == 0
    &&& machine.phase != Phase::Over ==> block.config == start.config
    &&& machine.phase == Phase::ReadConfig ==> machine.caps.hcs_params1 == (start.capability)(
        Register::HcsParams1,
    )
    &&& machine.phase == Phase::ConfigWritten ==> machine.pending == Action::Write(
        Register::Config,
        slots_enabled(start.config, slots),
    )
    &&& machine.pending == Action::Done ==> block.config == slots_enabled(start.config, slots)
}

proof fn lemma_interrupt_sources_stay_clear(value: u32, flips: u32)
    ensures
        (value ^ (flips & !0x40cu32)) & 0x40cu32 == value & 0x40cu32,
        (value & !0x40cu32) & 0x40cu32 == 0,
        value & 0x40cu32 == 0 ==> (value & !1u32) & 0x40cu32 == 0 && (value | 2u32) & 0x40cu32 == 0,
{
    assert((value ^ (flips & !0x40cu32)) & 0x40cu32 == value & 0x40cu32) by (bit_vector);
    assert((value & !0x40cu32) & 0x40cu32 == 0) by (bit_vector);
    assert(value & 0x40cu32 == 0 ==> (value & !1u32) & 0x40cu32 == 0 && (value | 2u32) & 0x40cu32
        == 0) by (bit_vector);
}

proof fn lemma_round_keeps_course(machine: Machine, block: Block, start: Block, drift: Drift)
    requires
        on_course(machine, block, start),
    ensures
        on_course(round(machine, block, drift).0, round(machine, block, drift).1, start),
{
    let moved = drifted(block, drift);
    lemma_interrupt_sources_stay_clear(block.usbcmd, drift.usbcmd_flips);
    lemma_interrupt_sources_stay_clear(moved.usbcmd, 0);
}

proof fn lemma_run_keeps_course(machine: Machine, block: Block, drifts: Seq<Drift>)
    requires
        on_course(machine, block, block),
    ensures
        on_course(run(machine, block, drifts).0, run(machine, block, drifts).1, block),
    decreases drifts.len(),
{
    if drifts.len() > 0 {
        lemma_run_keeps_course(machine, block, drifts.drop_last());
        let (before, held) = run(machine, block, drifts.drop_last());
        lemma_round_keeps_course(before, held, block, drifts.last());
    }
}

/// A bring-up that is done leaves the registers as promised, whatever the
/// controller did in between and however long it took: the interrupt
/// sources in USBCMD are clear, and CONFIG holds what it held at the start
/// with the slot count or-ed in.
pub proof fn lemma_done_leaves_interrupts_masked_and_slots_enabled(
    mmio_base: usize,
    poll_budget: u64,
    block: Block,
    drifts: Seq<Drift>,
)
    requires
        run(initial(mmio_base, poll_budget), block, drifts).0.pending == Action::Done,
    ensures
        run(initial(mmio_base, poll_budget), block, drifts).1.usbcmd & INTERRUPT_SOURCES == 0,
        run(initial(mmio_base, poll_budget), block, drifts).1.config == block.config | (
        max_device_slots_of((block.capability)(Register::HcsParams1)) as u32),
        run(initial(mmio_base, poll_budget), block, drifts).1.capability == block.capability,
{
    lemma_run_keeps_course(initial(mmio_base, poll_budget), block, drifts);
}

} // verus!
