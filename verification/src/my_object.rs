use vstd::prelude::*;

verus! {

/// The native state behind a JavaScript `MyObject` instance: one number,
/// held as the bit pattern of its IEEE-754 double representation.
#[derive(Debug)]
pub struct MyObject {
    value: u64,
}

impl MyObject {
    /// The bit pattern of the number that the object holds.
    pub closed spec fn spec_value(&self) -> u64 {
        self.value
    }

    /// A fresh object holds `0.0`, whose bit pattern is all zeros.
    pub fn new() -> (obj: MyObject)
        ensures
            obj.spec_value() == 0,
    {
        MyObject { value: 0 }
    }

    /// Reads the number that the object holds (as its bit pattern).
    pub fn get(&self) -> (bits: u64)
        ensures
            bits == self.spec_value(),
    {
        self.value
    }

    /// Replaces the number that the object holds (given as its bit pattern):
    /// a `get` after it returns `bits`, whatever the object held before.
    pub fn set(&mut self, bits: u64)
        ensures
            final(self).spec_value() == bits,
    {
        self.value = bits;
    }
}

} // verus!
