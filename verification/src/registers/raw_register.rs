use crate::address::Address;
use crate::common::{hex_text, to_hex_string};
use crate::communication_channel::mock_memory::stored;
use crate::communication_channel::{mock_read, Bus, CommunicationChannel};
use crate::error::{fails, leaf_or_error, returns_leaf, Entry, ErrorView, NodeKind, TreeError};
use vstd::prelude::*;

verus! {

/// A byte-addressed location of the hardware, with the value it holds
/// after power-on where that is known.
#[derive(Clone, Debug, PartialEq, Eq)]
pub struct RawRegister {
    pub address: Address,
    pub default: Option<Vec<u8>>,
}

impl RawRegister {
    /// The bytes of the default, most significant first; empty where the
    /// register declares none.
    pub open spec fn default_bytes(&self) -> Seq<u8> {
        match self.default {
            Some(bytes) => bytes@,
            None => Seq::empty(),
        }
    }

    /// What a read returns from mock memory with contents `store`.
    pub open spec fn read_from(&self, store: Map<int, u8>) -> Result<Seq<char>, ErrorView> {
        match mock_read(store, self.address) {
            Ok(bytes) => Ok(hex_text(bytes)),
            Err(error) => Err(error),
        }
    }

    /// Reads the register as hexadecimal text. The register is a leaf: a
    /// path that goes on is refused.
    pub fn read_value<B: Bus>(&self, path: &[String], channel: &CommunicationChannel<B>) -> (result:
        Result<Entry, TreeError>)
        ensures
            path@.len() > 0 ==> fails(
                result,
                ErrorView::NotADirectory { node: NodeKind::RawRegister, segment: path@[0]@ },
            ),
            path@.len() == 0 && channel.mock ==> returns_leaf(
                result,
                self.read_from(channel.memory@),
            ),
            leaf_or_error(result),
    {
        if path.len() > 0 {
            return Err(
                TreeError::NotADirectory { node: NodeKind::RawRegister, segment: path[0].clone() },
            );
        }
        let value = channel.read_value(&self.address)?;
        Ok(Entry::Leaf(to_hex_string(value.as_slice())))
    }

    /// Writes `value` to the register, byte for byte as it is given. The
    /// register is a leaf: a path that goes on is refused.
    pub fn write_value<B: Bus>(
        &self,
        path: &[String],
        value: Vec<u8>,
        channel: &mut CommunicationChannel<B>,
    ) -> (result: Result<(), TreeError>)
        ensures
            final(channel).mock == old(channel).mock,
            !old(channel).mock ==> final(channel).memory == old(channel).memory,
            path@.len() > 0 ==> *final(channel) == *old(channel) && fails(
                result,
                ErrorView::NotADirectory { node: NodeKind::RawRegister, segment: path@[0]@ },
            ),
            path@.len() == 0 && old(channel).mock ==> result.is_ok() && final(channel).bus == old(
                channel,
            ).bus && final(channel).memory@ == stored(
                old(channel).memory@,
                self.address.base as int,
                value@,
            ),
    {
        if path.len() > 0 {
            return Err(
                TreeError::NotADirectory { node: NodeKind::RawRegister, segment: path[0].clone() },
            );
        }
        channel.write_value(&self.address, value)
    }
}

} // verus!
