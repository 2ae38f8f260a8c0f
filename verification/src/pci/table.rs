//! A configuration space held in memory: registers that were written read
//! back, every other register reads as all ones, the way an empty slot does.

use vstd::prelude::*;
use crate::pci::config::address_word;
use crate::pci::config::ConfigPort;
use crate::pci::config::Entry;
use crate::pci::config::PciConfig;

verus! {

/// What an unpopulated register reads as.
pub const ABSENT: u32 = 0xffff_ffff;

/// The value that the latest entry for `address` holds, or [`ABSENT`].
pub open spec fn lookup(entries: Seq<Entry>, address: u32) -> u32
    decreases entries.len(),
{
    if entries.len() == 0 {
        ABSENT
    } else if entries.last().address == address {
        entries.last().value
    } else {
        lookup(entries.drop_last(), address)
    }
}

/// A table of configuration registers, keyed by address word, that keeps
/// account of what it was asked.
pub struct ConfigTable {
    entries: Vec<Entry>,
    asked: Vec<Entry>,
}

impl ConfigTable {
    /// Every exchange made with the table, oldest first.
    pub fn history(&self) -> (asked: &Vec<Entry>)
        ensures
            asked@ == self.asked(),
    {
        &self.asked
    }

    /// The register selected by `address`.
    pub closed spec fn data(&self, address: u32) -> u32 {
        lookup(self.entries@, address)
    }

    /// A configuration space in which nothing is present.
    pub fn new() -> (table: Self)
        ensures
            forall|address: u32| #[trigger] table.data(address) == ABSENT,
            table.asked() == Seq::<Entry>::empty(),
    {
        ConfigTable { entries: Vec::new(), asked: Vec::new() }
    }

    /// Makes the register selected by `address` read as `value`.
    pub fn set(&mut self, address: u32, value: u32)
        ensures
            forall|other: u32| #[trigger]
                final(self).data(other) == if other == address {
                    value
                } else {
                    old(self).data(other)
                },
            final(self).asked() == old(self).asked(),
    {
        self.entries.push(Entry { address, value });
        assert(self.entries@.drop_last() =~= old(self).entries@);
    }

    /// Makes register `reg_addr` of the given function read as `value`.
    pub fn set_dword(&mut self, bus: u8, device: u8, function: u8, reg_addr: u8, value: u32)
        ensures
            forall|other: u32| #[trigger]
                final(self).data(other) == if other == address_word(
                    bus,
                    device,
                    function,
                    reg_addr,
                ) {
                    value
                } else {
                    old(self).data(other)
                },
            final(self).asked() == old(self).asked(),
    {
        let address: u32 = PciConfig::<ConfigTable>::make_address(bus, device, function, reg_addr);
        self.set(address, value);
    }
}

impl ConfigPort for ConfigTable {
    closed spec fn asked(&self) -> Seq<Entry> {
        self.asked@
    }

    /// Returns what the table holds for `address` and notes the exchange;
    /// the registers stay as they are.
    fn exchange(&mut self, address: u32) -> (value: u32)
        ensures
            value == old(self).data(address),
            forall|other: u32| #[trigger] final(self).data(other) == old(self).data(other),
    {
        let value: u32 = self.get(address);
        self.asked.push(Entry { address, value });
        value
    }
}

impl ConfigTable {
    /// What the table holds for `address`.
    pub fn get(&self, address: u32) -> (value: u32)
        ensures
            value == self.data(address),
    {
        let mut i: usize = self.entries.len();
        assert(self.entries@.take(i as int) =~= self.entries@);
        while i > 0
            invariant
                i <= self.entries@.len(),
                lookup(self.entries@, address) == lookup(self.entries@.take(i as int), address),
            decreases i,
        {
            i -= 1;
            let entry = self.entries[i];
            assert(self.entries@.take(i + 1).drop_last() =~= self.entries@.take(i as int));
            if entry.address == address {
                return entry.value;
            }
        }
        ABSENT
    }
}

} // verus!
