//! The firmware's memory map as the kernel receives it.

use vstd::prelude::*;
use vstd::std_specs::convert::TryFromSpecImpl;

verus! {

/// The kinds of memory that the firmware tells apart.
#[derive(Debug, Copy, Clone, PartialEq, Eq, Structural)]
pub enum MemoryTypeName {
    Reserved,
    LoaderCode,
    LoaderData,
    BootServicesCode,
    BootServicesData,
    RuntimeServicesCode,
    RuntimeServicesData,
    Conventional,
    Unusable,
    AcpiReclaim,
    AcpiNonVolatile,
    Mmio,
    MmioPortSpace,
    PalCode,
    PersistentMemory,
}

/// The number by which the firmware names a kind of memory.
pub open spec fn type_code(name: MemoryTypeName) -> u32 {
    match name {
        MemoryTypeName::Reserved => 0,
        MemoryTypeName::LoaderCode => 1,
        MemoryTypeName::LoaderData => 2,
        MemoryTypeName::BootServicesCode => 3,
        MemoryTypeName::BootServicesData => 4,
        MemoryTypeName::RuntimeServicesCode => 5,
        MemoryTypeName::RuntimeServicesData => 6,
        MemoryTypeName::Conventional => 7,
        MemoryTypeName::Unusable => 8,
        MemoryTypeName::AcpiReclaim => 9,
        MemoryTypeName::AcpiNonVolatile => 10,
        MemoryTypeName::Mmio => 11,
        MemoryTypeName::MmioPortSpace => 12,
        MemoryTypeName::PalCode => 13,
        MemoryTypeName::PersistentMemory => 14,
    }
}

/// The kind of memory that a number names, or the number itself where it
/// names none.
pub open spec fn type_named(code: u32) -> Result<MemoryTypeName, u32> {
    if code == 0 {
        Ok(MemoryTypeName::Reserved)
    } else if code == 1 {
        Ok(MemoryTypeName::LoaderCode)
    } else if code == 2 {
        Ok(MemoryTypeName::LoaderData)
    } else if code == 3 {
        Ok(MemoryTypeName::BootServicesCode)
    } else if code == 4 {
        Ok(MemoryTypeName::BootServicesData)
    } else if code == 5 {
        Ok(MemoryTypeName::RuntimeServicesCode)
    } else if code == 6 {
        Ok(MemoryTypeName::RuntimeServicesData)
    } else if code == 7 {
        Ok(MemoryTypeName::Conventional)
    } else if code == 8 {
        Ok(MemoryTypeName::Unusable)
    } else if code == 9 {
        Ok(MemoryTypeName::AcpiReclaim)
    } else if code == 10 {
        Ok(MemoryTypeName::AcpiNonVolatile)
    } else if code == 11 {
        Ok(MemoryTypeName::Mmio)
    } else if code == 12 {
        Ok(MemoryTypeName::MmioPortSpace)
    } else if code == 13 {
        Ok(MemoryTypeName::PalCode)
    } else if code == 14 {
        Ok(MemoryTypeName::PersistentMemory)
    } else {
        Err(code)
    }
}

impl MemoryTypeName {
    /// The number by which the firmware names this kind of memory.
    pub fn code(self) -> (code: u32)
        ensures
            code == type_code(self),
    {
        match self {
            MemoryTypeName::Reserved => 0,
            MemoryTypeName::LoaderCode => 1,
            MemoryTypeName::LoaderData => 2,
            MemoryTypeName::BootServicesCode => 3,
            MemoryTypeName::BootServicesData => 4,
            MemoryTypeName::RuntimeServicesCode => 5,
            MemoryTypeName::RuntimeServicesData => 6,
            MemoryTypeName::Conventional => 7,
            MemoryTypeName::Unusable => 8,
            MemoryTypeName::AcpiReclaim => 9,
            MemoryTypeName::AcpiNonVolatile => 10,
            MemoryTypeName::Mmio => 11,
            MemoryTypeName::MmioPortSpace => 12,
            MemoryTypeName::PalCode => 13,
            MemoryTypeName::PersistentMemory => 14,
        }
    }
}

impl TryFrom<u32> for MemoryTypeName {
    type Error = u32;

    /// Names the kind of memory that `v` stands for; a number that stands for
    /// none comes back as the error.
    fn try_from(v: u32) -> (named: Result<Self, u32>) {
        if v == MemoryTypeName::Reserved.code() {
            Ok(MemoryTypeName::Reserved)
        } else if v == MemoryTypeName::LoaderCode.code() {
            Ok(MemoryTypeName::LoaderCode)
        } else if v == MemoryTypeName::LoaderData.code() {
            Ok(MemoryTypeName::LoaderData)
        } else if v == MemoryTypeName::BootServicesCode.code() {
            Ok(MemoryTypeName::BootServicesCode)
        } else if v == MemoryTypeName::BootServicesData.code() {
            Ok(MemoryTypeName::BootServicesData)
        } else if v == MemoryTypeName::RuntimeServicesCode.code() {
            Ok(MemoryTypeName::RuntimeServicesCode)
        } else if v == MemoryTypeName::RuntimeServicesData.code() {
            Ok(MemoryTypeName::RuntimeServicesData)
        } else if v == MemoryTypeName::Conventional.code() {
            Ok(MemoryTypeName::Conventional)
        } else if v == MemoryTypeName::Unusable.code() {
            Ok(MemoryTypeName::Unusable)
        } else if v == MemoryTypeName::AcpiReclaim.code() {
            Ok(MemoryTypeName::AcpiReclaim)
        } else if v == MemoryTypeName::AcpiNonVolatile.code() {
            Ok(MemoryTypeName::AcpiNonVolatile)
        } else if v == MemoryTypeName::Mmio.code() {
            Ok(MemoryTypeName::Mmio)
        } else if v == MemoryTypeName::MmioPortSpace.code() {
            Ok(MemoryTypeName::MmioPortSpace)
        } else if v == MemoryTypeName::PalCode.code() {
            Ok(MemoryTypeName::PalCode)
        } else if v == MemoryTypeName::PersistentMemory.code() {
            Ok(MemoryTypeName::PersistentMemory)
        } else {
            Err(v)
        }
    }
}

impl TryFromSpecImpl<u32> for MemoryTypeName {
    open spec fn obeys_try_from_spec() -> bool {
        true
    }

    open spec fn try_from_spec(v: u32) -> Result<Self, u32> {
        type_named(v)
    }
}

/// Naming undoes numbering, and the other way round: every kind is found
/// again from its number, a number that names a kind is that kind's number,
/// and a number that names none is handed back unchanged.
pub proof fn lemma_names_and_codes_agree(name: MemoryTypeName, code: u32)
    ensures
        type_named(type_code(name)) == Ok::<MemoryTypeName, u32>(name),
        type_named(code) matches Ok(found) ==> type_code(found) == code,
        type_named(code) matches Err(unknown) ==> unknown == code && code > 14,
{
}

/// One record of the memory map.
#[derive(Debug, Copy, Clone, PartialEq, Eq, Structural)]
pub struct MemoryDescriptor {
    pub memory_type: u32,
    pub padding: u32,
    pub phys_start: u64,
    pub virt_start: u64,
    pub page_count: u64,
    pub att: u64,
}

impl MemoryDescriptor {
    /// The kind of memory that the record describes, or its type number
    /// where that names no kind.
    pub fn kind(&self) -> (named: Result<MemoryTypeName, u32>)
        ensures
            named == type_named(self.memory_type),
    {
        MemoryTypeName::try_from(self.memory_type)
    }
}

} // verus!
