use crate::error::{fails, ErrorView, TreeError};
use vstd::prelude::*;
use vstd::utf8::encode_utf8;

verus! {

/// One pairing of a value map: a pattern of raw bytes and the label that
/// stands for it.
#[derive(Clone, Debug, PartialEq, Eq)]
pub struct MapEntry {
    pub bytes: Vec<u8>,
    pub label: String,
}

/// A mapping between raw byte patterns and labels, read in both
/// directions. Where a pattern or a label stands in several entries, the
/// first of them counts.
#[derive(Clone, Debug, PartialEq, Eq)]
pub struct ValueMap {
    pub entries: Vec<MapEntry>,
}

/// The first entry at or after `from` whose byte pattern is `bytes`.
pub open spec fn first_pattern(entries: Seq<MapEntry>, bytes: Seq<u8>, from: int) -> Option<int>
    decreases entries.len() - from,
{
    if from < 0 || from >= entries.len() {
        None
    } else if entries[from].bytes@ == bytes {
        Some(from)
    } else {
        first_pattern(entries, bytes, from + 1)
    }
}

/// The first entry at or after `from` whose label, as UTF-8, is `text`.
pub open spec fn first_label(entries: Seq<MapEntry>, text: Seq<u8>, from: int) -> Option<int>
    decreases entries.len() - from,
{
    if from < 0 || from >= entries.len() {
        None
    } else if encode_utf8(entries[from].label@) == text {
        Some(from)
    } else {
        first_label(entries, text, from + 1)
    }
}

/// `first_pattern` finds the first entry of a pattern, if there is one.
pub proof fn lemma_first_pattern(entries: Seq<MapEntry>, bytes: Seq<u8>, from: int)
    requires
        0 <= from,
    ensures
        match first_pattern(entries, bytes, from) {
            Some(i) => from <= i < entries.len() && entries[i].bytes@ == bytes && forall|k: int|
                from <= k < i ==> entries[k].bytes@ != bytes,
            None => forall|k: int| from <= k < entries.len() ==> entries[k].bytes@ != bytes,
        },
    decreases entries.len() - from,
{
    if from < entries.len() && entries[from].bytes@ != bytes {
        lemma_first_pattern(entries, bytes, from + 1);
    }
}

/// `first_label` finds the first entry of a label, if there is one.
pub proof fn lemma_first_label(entries: Seq<MapEntry>, text: Seq<u8>, from: int)
    requires
        0 <= from,
    ensures
        match first_label(entries, text, from) {
            Some(i) => from <= i < entries.len() && encode_utf8(entries[i].label@) == text
                && forall|k: int| from <= k < i ==> encode_utf8(entries[k].label@) != text,
            None => forall|k: int|
                from <= k < entries.len() ==> encode_utf8(entries[k].label@) != text,
        },
    decreases entries.len() - from,
{
    if from < entries.len() && encode_utf8(entries[from].label@) != text {
        lemma_first_label(entries, text, from + 1);
    }
}

/// Whether two runs of bytes are the same.
pub fn same_bytes(left: &[u8], right: &[u8]) -> (same: bool)
    ensures
        same == (left@ == right@),
{
    if left.len() != right.len() {
        return false;
    }
    let mut i: usize = 0;
    while i < left.len()
        invariant
            i <= left.len(),
            left.len() == right.len(),
            forall|k: int| 0 <= k < i ==> left@[k] == right@[k],
        decreases left.len() - i,
    {
        if left[i] != right[i] {
            return false;
        }
        i += 1;
    }
    assert(left@ =~= right@);
    true
}

impl ValueMap {
    /// The label that stands for `bytes`.
    pub open spec fn label_of(&self, bytes: Seq<u8>) -> Option<Seq<char>> {
        match first_pattern(self.entries@, bytes, 0) {
            Some(i) => Some(self.entries@[i].label@),
            None => None,
        }
    }

    /// The byte pattern whose label, as UTF-8, is `text`.
    pub open spec fn bytes_of(&self, text: Seq<u8>) -> Option<Seq<u8>> {
        match first_label(self.entries@, text, 0) {
            Some(i) => Some(self.entries@[i].bytes@),
            None => None,
        }
    }

    /// No pattern and no label stands in two entries, so that the map can
    /// be read in both directions.
    pub open spec fn wf(&self) -> bool {
        forall|i: int, j: int|
            0 <= i < j < self.entries@.len() ==> self.entries@[i].bytes@ != self.entries@[j].bytes@
                && self.entries@[i].label@ != self.entries@[j].label@
    }

    /// The label for a pattern of raw bytes; `UnmappedValue` where the map
    /// has no entry for it.
    pub fn lookup(&self, value: &[u8]) -> (result: Result<String, TreeError>)
        ensures
            match self.label_of(value@) {
                Some(label) => result.is_ok() && result.unwrap()@ == label,
                None => fails(result, ErrorView::UnmappedValue),
            },
    {
        let mut i: usize = 0;
        while i < self.entries.len()
            invariant
                i <= self.entries.len(),
                first_pattern(self.entries@, value@, 0) == first_pattern(
                    self.entries@,
                    value@,
                    i as int,
                ),
            decreases self.entries.len() - i,
        {
            if same_bytes(self.entries[i].bytes.as_slice(), value) {
                return Ok(self.entries[i].label.clone());
            }
            i += 1;
        }
        Err(TreeError::UnmappedValue)
    }

    /// The raw bytes for a label given as UTF-8 text; `UnmappedValue`
    /// where the map has no such label.
    pub fn encode(&self, value: &[u8]) -> (result: Result<Vec<u8>, TreeError>)
        ensures
            match self.bytes_of(value@) {
                Some(bytes) => result.is_ok() && result.unwrap()@ == bytes,
                None => fails(result, ErrorView::UnmappedValue),
            },
    {
        let mut i: usize = 0;
        while i < self.entries.len()
            invariant
                i <= self.entries.len(),
                first_label(self.entries@, value@, 0) == first_label(
                    self.entries@,
                    value@,
                    i as int,
                ),
            decreases self.entries.len() - i,
        {
            if same_bytes(self.entries[i].label.as_str().as_bytes(), value) {
                let bytes = self.entries[i].bytes.clone();
                assert(bytes@ =~= self.entries@[i as int].bytes@);
                return Ok(bytes);
            }
            i += 1;
        }
        Err(TreeError::UnmappedValue)
    }

    /// In a well-formed map, every entry is the first of its label and the
    /// first of its pattern: the label encodes to the entry's pattern and
    /// the pattern decodes to the entry's label.
    pub proof fn lemma_entry_round_trip(&self, i: int)
        requires
            self.wf(),
            0 <= i < self.entries@.len(),
        ensures
            first_label(self.entries@, encode_utf8(self.entries@[i].label@), 0) == Some(i),
            first_pattern(self.entries@, self.entries@[i].bytes@, 0) == Some(i),
            self.bytes_of(encode_utf8(self.entries@[i].label@)) == Some(self.entries@[i].bytes@),
            self.label_of(self.entries@[i].bytes@) == Some(self.entries@[i].label@),
    {
        let text = encode_utf8(self.entries@[i].label@);
        lemma_first_label(self.entries@, text, 0);
        lemma_first_pattern(self.entries@, self.entries@[i].bytes@, 0);
        let found = first_label(self.entries@, text, 0).unwrap();
        if found != i {
            vstd::utf8::encode_utf8_decode_utf8(self.entries@[i].label@);
            vstd::utf8::encode_utf8_decode_utf8(self.entries@[found].label@);
        }
    }
}

} // verus!
