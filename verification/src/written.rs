use vstd::prelude::*;

verus! {

/// A number as bytes, most significant first, with the mask that says
/// which of its bits are meant, where it has one.
#[derive(Clone, Debug, PartialEq, Eq)]
pub struct Numeral {
    pub value: Vec<u8>,
    pub mask: Option<Vec<u8>>,
}

/// What a caller hands to a write: the text as it came, and the numeral
/// that the text denotes, where it denotes one.
#[derive(Clone, Debug, PartialEq, Eq)]
pub struct Written {
    pub text: Vec<u8>,
    pub numeral: Option<Numeral>,
}

/// `value` with zero bytes in front, as many as it takes to reach `width`;
/// a value that is already that long, or longer, stays as it is.
pub open spec fn padded(value: Seq<u8>, width: int) -> Seq<u8> {
    if value.len() >= width {
        value
    } else {
        Seq::new((width - value.len()) as nat, |i: int| 0u8) + value
    }
}

/// The length of the shortest of three runs.
pub open spec fn shortest(a: int, b: int, c: int) -> int {
    if a <= b && a <= c {
        a
    } else if b <= c {
        b
    } else {
        c
    }
}

/// The bytes that a masked write stores: bit by bit the new value where
/// the mask is set and the current value where it is not, for as many
/// bytes as all three have.
pub open spec fn merged(mask: Seq<u8>, value: Seq<u8>, current: Seq<u8>) -> Seq<u8> {
    Seq::new(
        shortest(mask.len() as int, value.len() as int, current.len() as int) as nat,
        |i: int| (value[i] & mask[i]) | (current[i] & !mask[i]),
    )
}

/// Pads `value` on the left with zero bytes up to `width`.
pub fn pad(value: Vec<u8>, width: usize) -> (out: Vec<u8>)
    ensures
        out@ == padded(value@, width as int),
{
    if value.len() >= width {
        return value;
    }
    let missing: usize = width - value.len();
    let mut out: Vec<u8> = Vec::new();
    let mut i: usize = 0;
    while i < missing
        invariant
            i <= missing,
            out@ == Seq::new(i as nat, |k: int| 0u8),
        decreases missing - i,
    {
        out.push(0u8);
        assert(out@ =~= Seq::new((i + 1) as nat, |k: int| 0u8));
        i += 1;
    }
    let mut value = value;
    out.append(&mut value);
    out
}

/// Merges a new value into the current one under a mask.
pub fn merge(mask: &[u8], value: &[u8], current: &[u8]) -> (out: Vec<u8>)
    ensures
        out@ == merged(mask@, value@, current@),
{
    let mut len: usize = mask.len();
    if value.len() < len {
        len = value.len();
    }
    if current.len() < len {
        len = current.len();
    }
    let mut out: Vec<u8> = Vec::new();
    let mut i: usize = 0;
    while i < len
        invariant
            i <= len,
            len == shortest(mask@.len() as int, value@.len() as int, current@.len() as int),
            out@.len() == i,
            forall|k: int|
                0 <= k < i ==> out@[k] == (value@[k] & mask@[k]) | (current@[k] & !mask@[k]),
        decreases len - i,
    {
        out.push((value[i] & mask[i]) | (current[i] & !mask[i]));
        i += 1;
    }
    assert(out@ =~= merged(mask@, value@, current@));
    out
}

} // verus!
