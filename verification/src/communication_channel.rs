use crate::address::Address;
use crate::error::{fails, ErrorView, TreeError};
use vstd::prelude::*;

pub mod mock_memory;

use mock_memory::{fetched, stored, MockMemory};

verus! {

/// The hardware side of a channel: one transaction per call, which either
/// completes or fails. Nothing is known here of what a bus returns.
pub trait Bus {
    /// Reads the register at `address`.
    fn read(&self, address: &Address) -> Result<Vec<u8>, TreeError>;

    /// Writes `value` to the register at `address`.
    fn write(&mut self, address: &Address, value: Vec<u8>) -> Result<(), TreeError>;
}

/// The bus of a device that has no hardware and lives in mock mode only:
/// every transaction on it fails.
#[derive(Clone, Copy, Debug, PartialEq, Eq)]
pub struct Unconnected;

impl Bus for Unconnected {
    fn read(&self, address: &Address) -> (result: Result<Vec<u8>, TreeError>)
        ensures
            fails(result, ErrorView::Transaction { message: "the device has no hardware"@ }),
    {
        Err(TreeError::Transaction { message: String::from_str("the device has no hardware") })
    }

    fn write(&mut self, address: &Address, value: Vec<u8>) -> (result: Result<(), TreeError>)
        ensures
            fails(result, ErrorView::Transaction { message: "the device has no hardware"@ }),
    {
        Err(TreeError::Transaction { message: String::from_str("the device has no hardware") })
    }
}

/// What a read of `address` from mock memory with contents `store`
/// returns.
pub open spec fn mock_read(store: Map<int, u8>, address: Address) -> Result<Seq<u8>, ErrorView> {
    match address.width {
        Some(width) => Ok(fetched(store, address.base as int, width as int)),
        None => Err(ErrorView::UnboundedRead),
    }
}

/// Whether `result` is what `expected` describes: the same error, or a
/// vector of the same bytes.
pub open spec fn returns_bytes(
    result: Result<Vec<u8>, TreeError>,
    expected: Result<Seq<u8>, ErrorView>,
) -> bool {
    match expected {
        Ok(bytes) => result.is_ok() && result.unwrap()@ == bytes,
        Err(error) => fails(result, error),
    }
}

/// The way to the registers of one device: the bus of the hardware, and a
/// mock memory that answers in its place while mock mode is on.
#[derive(Debug)]
pub struct CommunicationChannel<B: Bus> {
    pub bus: B,
    pub mock: bool,
    pub memory: MockMemory,
}

impl<B: Bus> CommunicationChannel<B> {
    /// A channel over `bus`, with an empty mock memory.
    pub fn new(bus: B, mock: bool) -> (channel: CommunicationChannel<B>)
        ensures
            channel.bus == bus,
            channel.mock == mock,
            channel.memory@ == Map::<int, u8>::empty(),
    {
        CommunicationChannel { bus, mock, memory: MockMemory::all_zeros() }
    }

    /// Turns mock mode on or off; the bus and the mock memory stay as
    /// they are.
    pub fn mock_mode(&mut self, mock: bool)
        ensures
            final(self).mock == mock,
            final(self).bus == old(self).bus,
            final(self).memory == old(self).memory,
    {
        self.mock = mock;
    }

    /// Reads the register at `address`: from mock memory in mock mode,
    /// else over the bus.
    pub fn read_value(&self, address: &Address) -> (result: Result<Vec<u8>, TreeError>)
        ensures
            self.mock ==> returns_bytes(result, mock_read(self.memory@, *address)),
    {
        if self.mock {
            self.memory.read(address)
        } else {
            self.bus.read(address)
        }
    }

    /// Writes `value` to the register at `address`: into mock memory in
    /// mock mode, which always succeeds, else over the bus.
    pub fn write_value(&mut self, address: &Address, value: Vec<u8>) -> (result: Result<
        (),
        TreeError,
    >)
        ensures
            final(self).mock == old(self).mock,
            old(self).mock ==> result.is_ok() && final(self).bus == old(self).bus,
            old(self).mock ==> final(self).memory@ == stored(
                old(self).memory@,
                address.base as int,
                value@,
            ),
            !old(self).mock ==> final(self).memory == old(self).memory,
    {
        if self.mock {
            self.memory.write(address, value);
            Ok(())
        } else {
            self.bus.write(address, value)
        }
    }
}

} // verus!
