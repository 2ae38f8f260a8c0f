//! A register: a value that is read and written whole.
//!
//! The register here holds its value in memory. It stands for a device's
//! register wherever the library's own logic, or a test of it, needs one;
//! reaching the device itself is left to the caller.

use vstd::prelude::*;

verus! {

/// A register holding a `T`. Every access moves the whole value; nothing
/// reads or writes a part of it.
pub struct Volatile<T>(T);

impl<T> View for Volatile<T> {
    type V = T;

    /// The value the register holds.
    closed spec fn view(&self) -> T {
        self.0
    }
}

impl<T: Copy> Volatile<T> {
    /// A register holding `value`.
    pub fn new(value: T) -> (register: Self)
        ensures
            register@ == value,
    {
        Volatile(value)
    }

    /// Loads the register.
    pub fn read(&self) -> (value: T)
        ensures
            value == self@,
    {
        self.0
    }

    /// Stores `val` in the register.
    pub fn write(&mut self, val: T)
        ensures
            final(self)@ == val,
    {
        self.0 = val;
    }

    /// Loads the register, lets `f` change the copy, and stores the copy
    /// back: one load and one store, whatever `f` does in between.
    pub fn modify<F: FnOnce(&mut T)>(&mut self, f: F)
        requires
            forall|value: &mut T| *value == old(self)@ ==> f.requires((value,)),
        ensures
            exists|value: &mut T|
                *value == old(self)@ && *final(value) == final(self)@ && f.ensures((value,), ()),
    {
        let mut val = self.read();
        f(&mut val);
        self.write(val);
    }
}

} // verus!
