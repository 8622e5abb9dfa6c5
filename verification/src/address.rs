use vstd::prelude::*;

verus! {

/// A place in the register space of a communication channel: the offset of
/// its first byte and, where the register has a fixed size, its width in
/// bytes.
#[derive(Clone, Copy, Debug, PartialEq, Eq)]
pub struct Address {
    pub base: u64,
    pub width: Option<usize>,
}

impl Address {
    /// An address with a declared width.
    pub fn bounded(base: u64, width: usize) -> (address: Address)
        ensures
            address.base == base,
            address.width == Some(width),
    {
        Address { base, width: Some(width) }
    }

    /// An address without a declared width.
    pub fn unbounded(base: u64) -> (address: Address)
        ensures
            address.base == base,
            address.width.is_none(),
    {
        Address { base, width: None }
    }

    /// The offset of the first byte.
    pub fn as_u64(&self) -> (base: u64)
        ensures
            base == self.base,
    {
        self.base
    }

    /// The declared width in bytes, if any.
    pub fn bytes(&self) -> (width: Option<usize>)
        ensures
            width == self.width,
    {
        self.width
    }
}

} // verus!
