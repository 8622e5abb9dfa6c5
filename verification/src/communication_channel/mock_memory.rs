use crate::address::Address;
use crate::communication_channel::Bus;
use crate::device::Device;
use crate::error::{fails, ErrorView, TreeError};
use crate::registers::raw_register::RawRegister;
use std::collections::HashMap;
use vstd::prelude::*;

verus! {

/// The byte that a sparse store holds at `offset`: cells that were never
/// written read as zero.
pub open spec fn cell(store: Map<int, u8>, offset: int) -> u8 {
    if store.contains_key(offset) {
        store[offset]
    } else {
        0
    }
}

/// Where byte `i` of a value of `len` bytes lies, counted from the base of
/// its register. A value is written most significant byte first; the store
/// is addressed least significant byte first, so the order turns round.
pub open spec fn store_offset(len: int, i: int) -> int {
    len - 1 - i
}

/// The store after the first `count` cells of a write of `value` at `base`.
pub open spec fn stored_prefix(store: Map<int, u8>, base: int, value: Seq<u8>, count: int) -> Map<
    int,
    u8,
> {
    Map::new(
        |o: int| store.contains_key(o) || base <= o < base + count,
        |o: int|
            if base <= o < base + count {
                value[store_offset(value.len() as int, o - base)]
            } else {
                store[o]
            },
    )
}

/// The store after `value` was written at `base`.
pub open spec fn stored(store: Map<int, u8>, base: int, value: Seq<u8>) -> Map<int, u8> {
    stored_prefix(store, base, value, value.len() as int)
}

/// What a read of `width` bytes at `base` returns.
pub open spec fn fetched(store: Map<int, u8>, base: int, width: int) -> Seq<u8> {
    Seq::new(width as nat, |i: int| cell(store, base + store_offset(width, i)))
}

/// Whether the default of `register` reaches the cell at `offset`.
pub open spec fn covers(register: RawRegister, offset: int) -> bool {
    register.default.is_some() && register.address.base <= offset < register.address.base
        + register.default_bytes().len()
}

/// The byte that the default of `register` puts at `offset`; meaningful
/// where `covers(register, offset)`.
pub open spec fn default_cell(register: RawRegister, offset: int) -> u8 {
    register.default_bytes()[store_offset(
        register.default_bytes().len() as int,
        offset - register.address.base,
    )]
}

/// Whether register `j` is the last of `registers` whose default reaches
/// the cell at `offset`.
pub open spec fn last_writer(registers: Seq<RawRegister>, offset: int, j: int) -> bool {
    &&& 0 <= j < registers.len()
    &&& covers(registers[j], offset)
    &&& forall|k: int| j < k < registers.len() ==> !covers(#[trigger] registers[k], offset)
}

/// The store after the defaults of `registers` were written to an empty
/// memory, one register after the other.
pub open spec fn seeded(registers: Seq<RawRegister>) -> Map<int, u8>
    decreases registers.len(),
{
    if registers.len() == 0 {
        Map::empty()
    } else {
        let before = seeded(registers.drop_last());
        match registers.last().default {
            Some(bytes) => stored(before, registers.last().address.base as int, bytes@),
            None => before,
        }
    }
}

/// A write changes the cells of its window and no others.
pub proof fn lemma_stored_cell(store: Map<int, u8>, base: int, value: Seq<u8>, offset: int)
    ensures
        cell(stored(store, base, value), offset) == if base <= offset < base + value.len() {
            value[store_offset(value.len() as int, offset - base)]
        } else {
            cell(store, offset)
        },
{
}

/// The order of the bytes turns round on the way into the store and back
/// on the way out: a read at the base of a write, as wide as the value
/// written, returns that value, whatever the store held before.
pub proof fn lemma_write_then_read(store: Map<int, u8>, base: int, value: Seq<u8>)
    ensures
        fetched(stored(store, base, value), base, value.len() as int) == value,
{
    assert(fetched(stored(store, base, value), base, value.len() as int) =~= value);
}

/// After seeding, a cell holds what the last default that reaches it put
/// there, and zero where none reaches it.
pub proof fn lemma_seeded_cell(registers: Seq<RawRegister>, offset: int)
    ensures
        forall|j: int| #[trigger]
            last_writer(registers, offset, j) ==> cell(seeded(registers), offset) == default_cell(
                registers[j],
                offset,
            ),
        (forall|j: int| 0 <= j < registers.len() ==> !covers(#[trigger] registers[j], offset))
            ==> cell(seeded(registers), offset) == 0,
    decreases registers.len(),
{
    if registers.len() > 0 {
        let front = registers.drop_last();
        let last = registers.last();
        let n = registers.len() - 1;
        lemma_seeded_cell(front, offset);
        if covers(last, offset) {
            lemma_stored_cell(seeded(front), last.address.base as int, last.default_bytes(), offset);
            assert forall|j: int| #[trigger] last_writer(registers, offset, j) implies cell(
                seeded(registers),
                offset,
            ) == default_cell(registers[j], offset) by {
                if j < n {
                    assert(!covers(registers[n], offset));
                }
            }
            assert(covers(registers[n], offset));
        } else {
            if last.default.is_some() {
                lemma_stored_cell(
                    seeded(front),
                    last.address.base as int,
                    last.default_bytes(),
                    offset,
                );
            }
            assert(cell(seeded(registers), offset) == cell(seeded(front), offset));
            assert forall|j: int| #[trigger] last_writer(registers, offset, j) implies cell(
                seeded(registers),
                offset,
            ) == default_cell(registers[j], offset) by {
                assert(j < n);
                assert(front[j] == registers[j]);
                assert forall|k: int| j < k < front.len() implies !covers(
                    #[trigger] front[k],
                    offset,
                ) by {
                    assert(front[k] == registers[k]);
                }
                assert(last_writer(front, offset, j));
            }
            if forall|j: int| 0 <= j < registers.len() ==> !covers(#[trigger] registers[j], offset) {
                assert forall|j: int| 0 <= j < front.len() implies !covers(
                    #[trigger] front[j],
                    offset,
                ) by {
                    assert(front[j] == registers[j]);
                }
            }
        }
    }
}

/// Where a default reaches a cell, one of the registers is the last to
/// do so.
pub proof fn lemma_last_writer_exists(registers: Seq<RawRegister>, offset: int, i: int)
    requires
        0 <= i < registers.len(),
        covers(registers[i], offset),
    ensures
        exists|j: int| i <= j && #[trigger] last_writer(registers, offset, j),
    decreases registers.len() - i,
{
    if forall|k: int| i < k < registers.len() ==> !covers(#[trigger] registers[k], offset) {
        assert(last_writer(registers, offset, i));
    } else {
        let k = choose|k: int| i < k < registers.len() && covers(#[trigger] registers[k], offset);
        lemma_last_writer_exists(registers, offset, k);
    }
}

/// After seeding, a read of a register with a default returns that
/// default, provided that the register is as wide as its default and
/// that, in each cell of the register, the last default written there
/// agrees with the register's own.
pub proof fn lemma_seeded_default(registers: Seq<RawRegister>, i: int)
    requires
        0 <= i < registers.len(),
        registers[i].default.is_some(),
        registers[i].address.width.is_some(),
        registers[i].address.width.unwrap() == registers[i].default_bytes().len(),
        forall|offset: int, j: int|
            covers(registers[i], offset) && #[trigger] last_writer(registers, offset, j)
                ==> default_cell(registers[j], offset) == default_cell(registers[i], offset),
    ensures
        fetched(
            seeded(registers),
            registers[i].address.base as int,
            registers[i].address.width.unwrap() as int,
        ) == registers[i].default_bytes(),
{
    let base = registers[i].address.base as int;
    let bytes = registers[i].default_bytes();
    let len = bytes.len() as int;
    let read = fetched(seeded(registers), base, len);
    assert forall|k: int| 0 <= k < len implies read[k] == bytes[k] by {
        let offset = base + store_offset(len, k);
        assert(covers(registers[i], offset));
        lemma_last_writer_exists(registers, offset, i);
        let j = choose|j: int| i <= j && #[trigger] last_writer(registers, offset, j);
        lemma_seeded_cell(registers, offset);
    }
    assert(read =~= bytes);
}

/// After seeding, a read of a register without a default returns zeros,
/// provided that no default reaches a cell of the register with anything
/// but zero as the last write there.
pub proof fn lemma_seeded_zero(registers: Seq<RawRegister>, i: int)
    requires
        0 <= i < registers.len(),
        registers[i].default.is_none(),
        registers[i].address.width.is_some(),
        forall|offset: int, j: int|
            registers[i].address.base <= offset < registers[i].address.base
                + registers[i].address.width.unwrap() && #[trigger] last_writer(
                registers,
                offset,
                j,
            ) ==> default_cell(registers[j], offset) == 0,
    ensures
        fetched(
            seeded(registers),
            registers[i].address.base as int,
            registers[i].address.width.unwrap() as int,
        ) == Seq::new(registers[i].address.width.unwrap() as nat, |k: int| 0u8),
{
    let base = registers[i].address.base as int;
    let width = registers[i].address.width.unwrap() as int;
    let read = fetched(seeded(registers), base, width);
    assert forall|k: int| 0 <= k < width implies read[k] == 0u8 by {
        let offset = base + store_offset(width, k);
        lemma_seeded_cell(registers, offset);
        if exists|j: int| 0 <= j < registers.len() && covers(#[trigger] registers[j], offset) {
            let j0 = choose|j: int| 0 <= j < registers.len() && covers(
                #[trigger] registers[j],
                offset,
            );
            lemma_last_writer_exists(registers, offset, j0);
            let j = choose|j: int| j0 <= j && #[trigger] last_writer(registers, offset, j);
        }
    }
    assert(read =~= Seq::new(width as nat, |k: int| 0u8));
}

/// A store of bytes that stands in for the hardware behind a channel.
#[derive(Clone, Debug)]
pub struct MockMemory {
    hash_map: HashMap<u128, u8>,
}

impl View for MockMemory {
    type V = Map<int, u8>;

    /// The cells that were written, by offset.
    closed spec fn view(&self) -> Map<int, u8> {
        Map::new(
            |o: int| 0 <= o <= u128::MAX && self.hash_map@.contains_key(o as u128),
            |o: int| self.hash_map@[o as u128],
        )
    }
}

impl MockMemory {
    /// A memory in which nothing was written: every cell reads as zero.
    pub fn all_zeros() -> (memory: MockMemory)
        ensures
            memory@ == Map::<int, u8>::empty(),
    {
        let memory = MockMemory { hash_map: HashMap::new() };
        assert(memory@ =~= Map::<int, u8>::empty());
        memory
    }

    /// A memory that holds the defaults of the raw registers of `device`,
    /// written one register after the other in the order of the
    /// registers, and zero everywhere else.
    pub fn filled_with_device_defaults<B: Bus>(device: &Device<B>) -> (memory: MockMemory)
        ensures
            memory@ == seeded(device.raw.items()),
    {
        let mut memory = MockMemory::all_zeros();
        let mut i: usize = 0;
        assert(device.raw.items().subrange(0, 0) =~= Seq::<RawRegister>::empty());
        while i < device.raw.entries.len()
            invariant
                i <= device.raw.entries@.len(),
                memory@ == seeded(device.raw.items().subrange(0, i as int)),
            decreases device.raw.entries@.len() - i,
        {
            let register = &device.raw.entries[i].item;
            proof {
                let done = device.raw.items().subrange(0, i + 1);
                assert(done.drop_last() =~= device.raw.items().subrange(0, i as int));
                assert(done.last() == *register);
            }
            match &register.default {
                Some(default) => {
                    let bytes = default.clone();
                    assert(bytes@ =~= default@);
                    memory.write(&register.address, bytes);
                },
                None => {},
            }
            i += 1;
        }
        assert(device.raw.items().subrange(0, device.raw.entries@.len() as int)
            =~= device.raw.items());
        memory
    }

    /// Writes `value` at the address: its last byte goes to the base
    /// offset, the one before it to the next, and so on.
    pub fn write(&mut self, address: &Address, value: Vec<u8>)
        ensures
            final(self)@ == stored(old(self)@, address.base as int, value@),
    {
        broadcast use vstd::std_specs::hash::group_hash_axioms;

        let base: u128 = address.as_u64() as u128;
        let len: usize = value.len();
        let mut i: usize = 0;
        assert(self@ =~= stored_prefix(old(self)@, base as int, value@, 0));
        while i < len
            invariant
                i <= len,
                len == value@.len(),
                base == address.base,
                self@ == stored_prefix(old(self)@, base as int, value@, i as int),
            decreases len - i,
        {
            let ghost before = self@;
            self.hash_map.insert(base + i as u128, value[len - 1 - i]);
            assert(self@ =~= stored_prefix(old(self)@, base as int, value@, i + 1)) by {
                assert forall|o: int| #[trigger] self@.contains_key(o) implies stored_prefix(
                    old(self)@,
                    base as int,
                    value@,
                    i + 1,
                ).contains_key(o) by {
                    if o != base + i {
                        assert(before.contains_key(o));
                    }
                }
                assert forall|o: int|
                    #[trigger] stored_prefix(old(self)@, base as int, value@, i + 1).contains_key(
                        o,
                    ) implies self@.contains_key(o) by {
                    if o != base + i {
                        assert(before.contains_key(o));
                    }
                }
                assert forall|o: int| #[trigger] self@.contains_key(o) implies self@[o]
                    == stored_prefix(old(self)@, base as int, value@, i + 1)[o] by {
                    if o != base + i {
                        assert(before.contains_key(o));
                        assert(before[o] == self@[o]);
                    }
                }
            }
            i += 1;
        }
    }

    /// Reads as many bytes as the address is wide, most significant first.
    /// An address without a declared width cannot be read.
    pub fn read(&self, address: &Address) -> (result: Result<Vec<u8>, TreeError>)
        ensures
            match address.width {
                Some(width) => result.is_ok() && result.unwrap()@ == fetched(
                    self@,
                    address.base as int,
                    width as int,
                ),
                None => fails(result, ErrorView::UnboundedRead),
            },
    {
        broadcast use vstd::std_specs::hash::group_hash_axioms;

        let base: u128 = address.as_u64() as u128;
        let width: usize = match address.bytes() {
            Some(width) => width,
            None => { return Err(TreeError::UnboundedRead); },
        };
        let mut ret: Vec<u8> = Vec::new();
        let mut i: usize = 0;
        while i < width
            invariant
                i <= width,
                base == address.base,
                ret@.len() == i,
                forall|k: int|
                    0 <= k < i ==> ret@[k] == cell(
                        self@,
                        base + store_offset(width as int, k),
                    ),
            decreases width - i,
        {
            let offset: u128 = base + (width - 1 - i) as u128;
            let byte: u8 = match self.hash_map.get(&offset) {
                Some(byte) => *byte,
                None => 0u8,
            };
            assert(byte == cell(self@, base + store_offset(width as int, i as int)));
            ret.push(byte);
            i += 1;
        }
        assert(ret@ =~= fetched(self@, base as int, width as int));
        Ok(ret)
    }
}

} // verus!
