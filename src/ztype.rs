use vstd::prelude::*;

verus! {

/// Conversion of a 64-bit length to the integer width that the inflate
/// engine's stream fields use on the target.
pub trait ZType<T>: Sized {
    spec fn z_value(self) -> T;

    fn z_type(self) -> (r: T)
        ensures
            r == self.z_value(),
    ;
}

impl ZType<u32> for u64 {
    /// The low 32 bits.
    open spec fn z_value(self) -> u32 {
        self as u32
    }

    fn z_type(self) -> (r: u32) {
        self as u32
    }
}

impl ZType<u64> for u64 {
    /// The value itself.
    open spec fn z_value(self) -> u64 {
        self
    }

    fn z_type(self) -> (r: u64) {
        self
    }
}

} // verus!
