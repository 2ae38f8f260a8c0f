//! Base address registers.

use vstd::prelude::*;
use crate::pci::config::agrees;
use crate::pci::config::dword;
use crate::pci::config::grown;
use crate::pci::config::lemma_agrees_with_less;
use crate::pci::config::lemma_grown_twice;
use crate::pci::config::ConfigPort;
use crate::pci::config::PciConfig;
use crate::pci::config::Space;
use crate::pci::device::Device;
use crate::pci::device::Error;

verus! {

/// Number of base address registers in a function's header.
pub const BAR_COUNT: usize = 6;

/// Flag in the low half of a base address register: the address is 64 bits
/// wide and the next register holds its upper half.
pub const BAR_64BIT: u32 = 4;

/// Offset of base address register `bar_index`.
pub open spec fn bar_offset(bar_index: usize) -> u8 {
    (0x10 + 4 * bar_index) as u8
}

/// A low half that announces a 64-bit address.
pub open spec fn is_wide_bar(low: u32) -> bool {
    low & BAR_64BIT != 0
}

/// Both halves of a 64-bit base address register as one value, every bit of
/// each half kept where it was.
pub open spec fn combined_bar(low: u32, high: u32) -> u64 {
    (low as u64) | (high as u64) << 32
}

/// What reading base address register `bar_index` of `device` yields.
///
/// There are [`BAR_COUNT`] registers. One whose flag is clear is a whole
/// 32-bit address. One whose flag is set takes its upper half from the
/// register after it, so the last register cannot be of that kind.
pub open spec fn bar_value(space: Space, device: Device, bar_index: usize) -> Result<u64, Error> {
    if bar_index >= BAR_COUNT {
        Err(Error::OutOfRange)
    } else {
        let low = dword(space, device.bus, device.device, device.function, bar_offset(bar_index));
        if !is_wide_bar(low) {
            Ok(low as u64)
        } else if bar_index + 1 >= BAR_COUNT {
            Err(Error::OutOfRange)
        } else {
            let high = dword(
                space,
                device.bus,
                device.device,
                device.function,
                bar_offset((bar_index + 1) as usize),
            );
            Ok(combined_bar(low, high))
        }
    }
}

/// Computes the offset of a base address register.
pub fn calc_bar_address(bar_index: usize) -> (offset: u8)
    requires
        bar_index < BAR_COUNT,
    ensures
        offset == bar_offset(bar_index),
        offset == 0x10 + 4 * bar_index,
{
    (0x10 + 4 * bar_index) as u8
}

/// Reads one configuration register of a recorded device.
pub fn read_conf_reg<P: ConfigPort>(
    config: &mut PciConfig<P>,
    dev: &Device,
    reg_addr: u8,
) -> (value: u32)
    ensures
        grown(old(config)@, final(config)@),
        forall|space: Space| #[trigger]
            agrees(space, final(config)@) ==> value == dword(
                space,
                dev.bus,
                dev.device,
                dev.function,
                reg_addr,
            ),
{
    config.read_dev(dev, reg_addr)
}

/// Reads base address register `bar_index` of `device`, joining the two
/// halves of a 64-bit one. Nothing is read for a register that there is
/// not.
///
/// No register is forgotten, and for every configuration space that agrees
/// with the registers remembered after the call, the result is the
/// [`bar_value`] of that space.
pub fn read_bar<P: ConfigPort>(
    config: &mut PciConfig<P>,
    device: &Device,
    bar_index: usize,
) -> (bar: Result<u64, Error>)
    ensures
        grown(old(config)@, final(config)@),
        bar_index >= BAR_COUNT ==> final(config)@ == old(config)@,
        forall|space: Space| #[trigger]
            agrees(space, final(config)@) ==> bar == bar_value(space, *device, bar_index),
{
    if bar_index >= BAR_COUNT {
        return Err(Error::OutOfRange);
    }
    let ghost c0 = config@;
    let addr: u8 = calc_bar_address(bar_index);
    let bar: u32 = read_conf_reg(config, device, addr);
    let ghost c1 = config@;
    if (bar & BAR_64BIT) == 0 {
        return Ok(bar as u64);
    }
    if bar_index >= BAR_COUNT - 1 {
        return Err(Error::OutOfRange);
    }
    let upper_addr: u8 = calc_bar_address(bar_index + 1);
    let bar_upper: u32 = read_conf_reg(config, device, upper_addr);
    let ghost c2 = config@;
    proof {
        lemma_grown_twice(c0, c1, c2);
        assert forall|space: Space| #[trigger] agrees(space, c2) implies Ok::<u64, Error>(
            bar as u64 | (bar_upper as u64) << 32,
        ) == bar_value(space, *device, bar_index) by {
            lemma_agrees_with_less(space, c1, c2);
        }
    }
    Ok(bar as u64 | (bar_upper as u64) << 32)
}

/// Joining two halves loses nothing: the low 32 bits of the result are the
/// low half, flags included, and the high 32 bits are the high half.
pub proof fn lemma_combined_bar_keeps_both_halves(low: u32, high: u32)
    ensures
        combined_bar(low, high) & 0xffff_ffff == low,
        combined_bar(low, high) >> 32 == high,
{
    assert(((low as u64) | (high as u64) << 32) & 0xffff_ffff == low && ((low as u64) | (
    high as u64) << 32) >> 32 == high) by (bit_vector);
}

} // verus!
