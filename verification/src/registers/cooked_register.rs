use crate::address::Address;
use crate::common::{hex_text, to_hex_string};
use crate::communication_channel::mock_memory::{fetched, lemma_write_then_read, stored};
use crate::communication_channel::{mock_read, Bus, CommunicationChannel};
use crate::error::{fails, leaf_or_error, returns_leaf, Entry, ErrorView, NodeKind, TreeError};
use crate::valuemap::{first_label, first_pattern, lemma_first_pattern, ValueMap};
use crate::written::{merge, merged, pad, padded, Numeral, Written};
use vstd::prelude::*;
use vstd::utf8::encode_utf8;

verus! {

/// The bytes of a write before the current value is merged in: the value
/// in the register's width, and the mask in the same width where the
/// write has one.
pub struct Encoding {
    pub value: Seq<u8>,
    pub mask: Option<Seq<u8>>,
}

/// Whether the numeral `result` holds what `expected` describes.
pub open spec fn returns_encoding(
    result: Result<Numeral, TreeError>,
    expected: Result<Encoding, ErrorView>,
) -> bool {
    match expected {
        Ok(encoding) => result.is_ok() && result.unwrap().value@ == encoding.value && match (
            result.unwrap().mask,
            encoding.mask,
        ) {
            (Some(mask), Some(expected_mask)) => mask@ == expected_mask,
            (None, None) => true,
            _ => false,
        },
        Err(error) => fails(result, error),
    }
}

/// The bytes that go to the channel: the value itself, or, under a mask,
/// the value merged into what the register holds.
pub open spec fn to_store(encoding: Encoding, current: Seq<u8>) -> Seq<u8> {
    match encoding.mask {
        Some(mask) => merged(mask, encoding.value, current),
        None => encoding.value,
    }
}

/// A view of a raw register for people: its bytes stand for a label of a
/// value map, or else for a numeral.
#[derive(Clone, Debug, PartialEq, Eq)]
pub struct CookedRegister {
    pub address: Address,
    pub description: Option<String>,
    pub map: Option<ValueMap>,
    pub writable: bool,
    pub default: Option<u64>,
}

impl CookedRegister {
    /// Whether a write can tell how many bytes it is to store: the value
    /// map says so, or else the declared width.
    pub open spec fn can_encode(&self) -> bool {
        self.map.is_some() || self.address.width.is_some()
    }

    /// The text that stands for the raw bytes `bytes`.
    pub open spec fn decoded(&self, bytes: Seq<u8>) -> Result<Seq<char>, ErrorView> {
        match self.map {
            Some(map) => match map.label_of(bytes) {
                Some(label) => Ok(label),
                None => Err(ErrorView::UnmappedValue),
            },
            None => Ok(hex_text(bytes)),
        }
    }

    /// The bytes that stand for what is written.
    pub open spec fn encoding(&self, written: Written) -> Result<Encoding, ErrorView> {
        match self.map {
            Some(map) => match map.bytes_of(written.text@) {
                Some(bytes) => Ok(Encoding { value: bytes, mask: None }),
                None => Err(ErrorView::UnmappedValue),
            },
            None => match written.numeral {
                None => Err(ErrorView::InvalidNumeral),
                Some(numeral) => {
                    let width = self.address.width.unwrap();
                    if numeral.value@.len() > width {
                        Err(
                            ErrorView::ValueTooLong {
                                length: numeral.value@.len() as usize,
                                width,
                            },
                        )
                    } else {
                        Ok(
                            Encoding {
                                value: padded(numeral.value@, width as int),
                                mask: match numeral.mask {
                                    Some(mask) => Some(padded(mask@, width as int)),
                                    None => None,
                                },
                            },
                        )
                    }
                },
            },
        }
    }

    /// What a read returns from mock memory with contents `store`.
    pub open spec fn read_from(&self, store: Map<int, u8>) -> Result<Seq<char>, ErrorView> {
        match mock_read(store, self.address) {
            Ok(bytes) => self.decoded(bytes),
            Err(error) => Err(error),
        }
    }

    /// The contents of mock memory after a write to contents `store`.
    pub open spec fn written_to(&self, written: Written, store: Map<int, u8>) -> Result<
        Map<int, u8>,
        ErrorView,
    > {
        match self.encoding(written) {
            Err(error) => Err(error),
            Ok(encoding) => if encoding.mask.is_some() {
                match mock_read(store, self.address) {
                    Err(error) => Err(error),
                    Ok(current) => Ok(
                        stored(store, self.address.base as int, to_store(encoding, current)),
                    ),
                }
            } else {
                Ok(stored(store, self.address.base as int, encoding.value))
            },
        }
    }

    /// Turns raw bytes into text: the label that the value map has for
    /// them, or else their hexadecimal form.
    pub fn decode(&self, bytes: &[u8]) -> (result: Result<String, TreeError>)
        ensures
            match self.decoded(bytes@) {
                Ok(text) => result.is_ok() && result.unwrap()@ == text,
                Err(error) => fails(result, error),
            },
    {
        match &self.map {
            Some(map) => map.lookup(bytes),
            None => Ok(to_hex_string(bytes)),
        }
    }

    /// Turns what is written into raw bytes: through the value map, or
    /// else from the numeral, which must fit the register and is padded
    /// to its width together with its mask.
    pub fn encode(&self, written: &Written) -> (result: Result<Numeral, TreeError>)
        requires
            self.can_encode(),
        ensures
            returns_encoding(result, self.encoding(*written)),
    {
        match &self.map {
            Some(map) => {
                let bytes = map.encode(written.text.as_slice())?;
                Ok(Numeral { value: bytes, mask: None })
            },
            None => {
                let width: usize = match self.address.bytes() {
                    Some(width) => width,
                    None => unreached(),
                };
                let numeral = match &written.numeral {
                    Some(numeral) => numeral,
                    None => { return Err(TreeError::InvalidNumeral); },
                };
                if numeral.value.len() > width {
                    return Err(TreeError::ValueTooLong { length: numeral.value.len(), width });
                }
                let value = pad(numeral.value.clone(), width);
                let mask = match &numeral.mask {
                    Some(mask) => Some(pad(mask.clone(), width)),
                    None => None,
                };
                Ok(Numeral { value, mask })
            },
        }
    }

    /// Reads the register as text. The register is a leaf: a path that
    /// goes on is refused.
    pub fn read_value<B: Bus>(&self, path: &[String], channel: &CommunicationChannel<B>) -> (result:
        Result<Entry, TreeError>)
        ensures
            path@.len() > 0 ==> fails(
                result,
                ErrorView::NotADirectory { node: NodeKind::CookedRegister, segment: path@[0]@ },
            ),
            path@.len() == 0 && channel.mock ==> returns_leaf(
                result,
                self.read_from(channel.memory@),
            ),
            leaf_or_error(result),
    {
        if path.len() > 0 {
            return Err(
                TreeError::NotADirectory {
                    node: NodeKind::CookedRegister,
                    segment: path[0].clone(),
                },
            );
        }
        let value = channel.read_value(&self.address)?;
        let text = self.decode(value.as_slice())?;
        Ok(Entry::Leaf(text))
    }

    /// Writes to the register. The register is a leaf: a path that goes
    /// on is refused. A write under a mask reads the register first and
    /// keeps the bits outside the mask.
    pub fn write_value<B: Bus>(
        &self,
        path: &[String],
        written: &Written,
        channel: &mut CommunicationChannel<B>,
    ) -> (result: Result<(), TreeError>)
        requires
            path@.len() == 0 ==> self.can_encode(),
        ensures
            final(channel).mock == old(channel).mock,
            !old(channel).mock ==> final(channel).memory == old(channel).memory,
            path@.len() > 0 ==> *final(channel) == *old(channel) && fails(
                result,
                ErrorView::NotADirectory { node: NodeKind::CookedRegister, segment: path@[0]@ },
            ),
            path@.len() == 0 ==> match self.encoding(*written) {
                Err(error) => *final(channel) == *old(channel) && fails(result, error),
                Ok(encoding) => old(channel).mock ==> final(channel).bus == old(channel).bus
                    && match self.written_to(*written, old(channel).memory@) {
                    Ok(store) => result.is_ok() && final(channel).memory@ == store,
                    Err(error) => fails(result, error) && final(channel).memory == old(
                        channel,
                    ).memory,
                },
            },
    {
        if path.len() > 0 {
            return Err(
                TreeError::NotADirectory {
                    node: NodeKind::CookedRegister,
                    segment: path[0].clone(),
                },
            );
        }
        let encoded = self.encode(written)?;
        let bytes = match &encoded.mask {
            Some(mask) => {
                let current = channel.read_value(&self.address)?;
                merge(mask.as_slice(), encoded.value.as_slice(), current.as_slice())
            },
            None => encoded.value,
        };
        channel.write_value(&self.address, bytes)
    }
}

/// A write under a mask keeps the bits outside the mask: afterwards the
/// register reads, byte by byte and in its full width, as the new value
/// where the mask is set and as what it held before where the mask is
/// not set.
pub proof fn lemma_masked_write_keeps_outside_bits(
    register: CookedRegister,
    written: Written,
    store: Map<int, u8>,
)
    requires
        register.map.is_none(),
        register.address.width.is_some(),
        written.numeral.is_some(),
        written.numeral.unwrap().mask.is_some(),
        written.numeral.unwrap().value@.len() <= register.address.width.unwrap(),
    ensures
        register.written_to(written, store).is_ok(),
        ({
            let width = register.address.width.unwrap() as int;
            let base = register.address.base as int;
            let value = padded(written.numeral.unwrap().value@, width);
            let mask = padded(written.numeral.unwrap().mask.unwrap()@, width);
            let current = fetched(store, base, width);
            let after = fetched(register.written_to(written, store)->Ok_0, base, width);
            &&& after.len() == width
            &&& forall|i: int|
                0 <= i < width ==> after[i] == (value[i] & mask[i]) | (current[i] & !mask[i])
        }),
{
    let width = register.address.width.unwrap() as int;
    let base = register.address.base as int;
    let value = padded(written.numeral.unwrap().value@, width);
    let mask = padded(written.numeral.unwrap().mask.unwrap()@, width);
    let current = fetched(store, base, width);
    let bytes = merged(mask, value, current);
    assert(bytes.len() == width);
    lemma_write_then_read(store, base, bytes);
}

/// A write without a mask overwrites the register: afterwards the
/// register reads as the numeral in the register's width, whatever it
/// held before.
pub proof fn lemma_unmasked_write_overwrites(
    register: CookedRegister,
    written: Written,
    store: Map<int, u8>,
)
    requires
        register.map.is_none(),
        register.address.width.is_some(),
        written.numeral.is_some(),
        written.numeral.unwrap().mask.is_none(),
        written.numeral.unwrap().value@.len() <= register.address.width.unwrap(),
    ensures
        register.written_to(written, store).is_ok(),
        fetched(
            register.written_to(written, store)->Ok_0,
            register.address.base as int,
            register.address.width.unwrap() as int,
        ) == padded(written.numeral.unwrap().value@, register.address.width.unwrap() as int),
        written.numeral.unwrap().value@.len() == register.address.width.unwrap() ==> fetched(
            register.written_to(written, store)->Ok_0,
            register.address.base as int,
            register.address.width.unwrap() as int,
        ) == written.numeral.unwrap().value@,
{
    let width = register.address.width.unwrap() as int;
    let base = register.address.base as int;
    let value = padded(written.numeral.unwrap().value@, width);
    assert(value.len() == width);
    lemma_write_then_read(store, base, value);
}

/// A label that is written is the label that is read: where a register
/// as wide as the pattern of an entry of its map is written with that
/// entry's label, it reads as that label afterwards, provided that no
/// earlier entry of the map has the same label or the same pattern. In a
/// map in which nothing stands twice that holds of every entry
/// (`ValueMap::lemma_entry_round_trip`).
pub proof fn lemma_label_round_trip(
    register: CookedRegister,
    written: Written,
    store: Map<int, u8>,
    i: int,
)
    requires
        register.map.is_some(),
        0 <= i < register.map.unwrap().entries@.len(),
        first_label(
            register.map.unwrap().entries@,
            encode_utf8(register.map.unwrap().entries@[i].label@),
            0,
        ) == Some(i),
        first_pattern(
            register.map.unwrap().entries@,
            register.map.unwrap().entries@[i].bytes@,
            0,
        ) == Some(i),
        written.text@ == encode_utf8(register.map.unwrap().entries@[i].label@),
        register.address.width.is_some(),
        register.address.width.unwrap() == register.map.unwrap().entries@[i].bytes@.len(),
    ensures
        register.written_to(written, store).is_ok(),
        register.read_from(register.written_to(written, store)->Ok_0) == Ok::<
            Seq<char>,
            ErrorView,
        >(register.map.unwrap().entries@[i].label@),
{
    let map = register.map.unwrap();
    lemma_write_then_read(store, register.address.base as int, map.entries@[i].bytes@);
}

/// Raw bytes decode to the label of an entry of a well-formed map only
/// where they are that entry's pattern, and to no label at all where they
/// are no entry's pattern.
pub proof fn lemma_decode_exact(register: CookedRegister, bytes: Seq<u8>, i: int)
    requires
        register.map.is_some(),
        register.map.unwrap().wf(),
        0 <= i < register.map.unwrap().entries@.len(),
    ensures
        register.decoded(bytes) == Ok::<Seq<char>, ErrorView>(
            register.map.unwrap().entries@[i].label@,
        ) <==> bytes == register.map.unwrap().entries@[i].bytes@,
        (forall|k: int|
            0 <= k < register.map.unwrap().entries@.len() ==> register.map.unwrap().entries@[k].bytes@
                != bytes) ==> register.decoded(bytes) == Err::<Seq<char>, ErrorView>(
            ErrorView::UnmappedValue,
        ),
{
    let map = register.map.unwrap();
    lemma_first_pattern(map.entries@, bytes, 0);
    map.lemma_entry_round_trip(i);
}

} // verus!
