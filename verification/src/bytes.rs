use crate::error::{fails, ErrorView, TreeError};
use crate::registers::computed_register::ComputedRegisterType;
use vstd::prelude::*;
use vstd::utf8::{decode_utf8, valid_utf8};

verus! {

/// What the bytes written to a computed register stand for, by the type
/// of the register, before the value goes to the setter.
#[derive(Clone, Debug, PartialEq, Eq)]
pub enum Argument {
    /// The text of a number with a fraction, as it was written; turning
    /// it into a number is left to the caller.
    Float(Vec<u8>),
    Int(i64),
    String(String),
    Binary(Vec<u8>),
}

/// Whether `byte` is a decimal digit.
pub open spec fn is_digit(byte: u8) -> bool {
    48 <= byte <= 57
}

/// Whether `digits` is a run of decimal digits and nothing else.
pub open spec fn all_digits(digits: Seq<u8>) -> bool {
    forall|i: int| 0 <= i < digits.len() ==> is_digit(#[trigger] digits[i])
}

/// The number that a run of decimal digits stands for.
pub open spec fn digits_value(digits: Seq<u8>) -> int
    decreases digits.len(),
{
    if digits.len() == 0 {
        0
    } else {
        digits_value(digits.drop_last()) * 10 + (digits.last() - 48)
    }
}

/// The digits of a numeral: the text without its sign.
pub open spec fn digits_of(text: Seq<u8>) -> Seq<u8> {
    if text.len() > 0 && (text[0] == 45 || text[0] == 43) {
        text.subrange(1, text.len() as int)
    } else {
        text
    }
}

/// The integer that `text` stands for: a `-` or a `+` or neither, then
/// one decimal digit or more and nothing after them, for a number that a
/// 64-bit integer holds.
pub open spec fn integer_of(text: Seq<u8>) -> Option<i64> {
    let digits = digits_of(text);
    let value = if text.len() > 0 && text[0] == 45 {
        -digits_value(digits)
    } else {
        digits_value(digits)
    };
    if digits.len() > 0 && all_digits(digits) && i64::MIN <= value <= i64::MAX {
        Some(value as i64)
    } else {
        None
    }
}

/// What `value` stands for in a register of type `ty`.
pub open spec fn argument_of(ty: ComputedRegisterType, value: Seq<u8>) -> Result<
    ArgumentView,
    ErrorView,
> {
    match ty {
        ComputedRegisterType::Float => Ok(ArgumentView::Float(value)),
        ComputedRegisterType::Int => match integer_of(value) {
            Some(number) => Ok(ArgumentView::Int(number)),
            None => Err(ErrorView::InvalidNumeral),
        },
        ComputedRegisterType::String => if valid_utf8(value) {
            Ok(ArgumentView::String(decode_utf8(value)))
        } else {
            Err(ErrorView::InvalidText)
        },
        ComputedRegisterType::Binary => Ok(ArgumentView::Binary(value)),
    }
}

/// An argument as contracts speak of it.
pub enum ArgumentView {
    Float(Seq<u8>),
    Int(i64),
    String(Seq<char>),
    Binary(Seq<u8>),
}

impl View for Argument {
    type V = ArgumentView;

    open spec fn view(&self) -> ArgumentView {
        match *self {
            Argument::Float(text) => ArgumentView::Float(text@),
            Argument::Int(number) => ArgumentView::Int(number),
            Argument::String(text) => ArgumentView::String(text@),
            Argument::Binary(bytes) => ArgumentView::Binary(bytes@),
        }
    }
}

/// The value of a run of digits is not negative.
pub proof fn lemma_digits_value_bounds(digits: Seq<u8>)
    requires
        all_digits(digits),
    ensures
        0 <= digits_value(digits),
    decreases digits.len(),
{
    if digits.len() > 0 {
        assert(is_digit(digits[digits.len() - 1]));
        assert forall|i: int| 0 <= i < digits.drop_last().len() implies is_digit(
            #[trigger] digits.drop_last()[i],
        ) by {
            assert(digits.drop_last()[i] == digits[i]);
        }
        lemma_digits_value_bounds(digits.drop_last());
    }
}

/// A run of digits stands for no less than any of its beginnings.
pub proof fn lemma_digits_value_grows(digits: Seq<u8>, count: int)
    requires
        all_digits(digits),
        0 <= count <= digits.len(),
    ensures
        digits_value(digits.subrange(0, count)) <= digits_value(digits),
    decreases digits.len() - count,
{
    if count == digits.len() {
        assert(digits.subrange(0, count) =~= digits);
    } else {
        let longer = digits.subrange(0, count + 1);
        assert(longer.drop_last() =~= digits.subrange(0, count));
        assert(longer.last() == digits[count]);
        assert(is_digit(digits[count]));
        assert forall|i: int| 0 <= i < count implies is_digit(
            #[trigger] digits.subrange(0, count)[i],
        ) by {
            assert(digits.subrange(0, count)[i] == digits[i]);
        }
        lemma_digits_value_bounds(digits.subrange(0, count));
        lemma_digits_value_grows(digits, count + 1);
    }
}

/// `String::from_utf8` of std: the text that `bytes` encode, where they
/// are UTF-8, and nothing where they are not.
#[verifier::external_body]
pub(crate) fn text_of(bytes: Vec<u8>) -> (text: Option<String>)
    ensures
        match text {
            Some(text) => valid_utf8(bytes@) && text@ == decode_utf8(bytes@),
            None => !valid_utf8(bytes@),
        },
{
    String::from_utf8(bytes).ok()
}

/// Reads a decimal integer.
pub fn parse_integer(text: &[u8]) -> (number: Option<i64>)
    ensures
        number == integer_of(text@),
{
    let len: usize = text.len();
    let negative: bool = len > 0 && text[0] == 45;
    let start: usize = if len > 0 && (text[0] == 45 || text[0] == 43) {
        1
    } else {
        0
    };
    if start == len {
        return None;
    }
    let ghost digits = digits_of(text@);
    assert(digits =~= text@.subrange(start as int, len as int));
    let limit: i128 = 0x8000_0000_0000_0000;
    let mut value: i128 = 0;
    let mut i: usize = start;
    assert(digits.subrange(0, 0) =~= Seq::<u8>::empty());
    while i < len
        invariant
            start <= i <= len,
            len == text@.len(),
            digits == text@.subrange(start as int, len as int),
            digits == digits_of(text@),
            limit == 0x8000_0000_0000_0000,
            all_digits(digits.subrange(0, i - start)),
            value == digits_value(digits.subrange(0, i - start)),
            0 <= value <= limit,
        decreases len - i,
    {
        let byte: u8 = text[i];
        if byte < 48 || byte > 57 {
            assert(digits[i - start] == byte);
            assert(!all_digits(digits));
            return None;
        }
        let ghost done = digits.subrange(0, i - start + 1);
        proof {
            assert(done.drop_last() =~= digits.subrange(0, i - start));
            assert(done.last() == byte);
            assert forall|k: int| 0 <= k < done.len() implies is_digit(#[trigger] done[k]) by {
                if k < i - start {
                    assert(done[k] == digits.subrange(0, i - start)[k]);
                }
            }
        }
        value = value * 10 + (byte - 48) as i128;
        assert(value == digits_value(done));
        if value > limit {
            proof {
                if all_digits(digits) {
                    lemma_digits_value_grows(digits, i - start + 1);
                    assert(digits_value(digits) > limit);
                }
            }
            return None;
        }
        i += 1;
    }
    assert(digits.subrange(0, len - start) =~= digits);
    if negative {
        Some((-value) as i64)
    } else if value == limit {
        None
    } else {
        Some(value as i64)
    }
}

/// Decodes the bytes written to a computed register by the type of the
/// register: an integer from its decimal text, a string from UTF-8,
/// binary as it is. The text of a float is handed back as it came.
pub fn from_bytes(ty: ComputedRegisterType, value: Vec<u8>) -> (result: Result<Argument, TreeError>)
    ensures
        match argument_of(ty, value@) {
            Ok(argument) => result.is_ok() && result.unwrap()@ == argument,
            Err(error) => fails(result, error),
        },
{
    match ty {
        ComputedRegisterType::Float => Ok(Argument::Float(value)),
        ComputedRegisterType::Int => match parse_integer(value.as_slice()) {
            Some(number) => Ok(Argument::Int(number)),
            None => Err(TreeError::InvalidNumeral),
        },
        ComputedRegisterType::String => match text_of(value) {
            Some(text) => Ok(Argument::String(text)),
            None => Err(TreeError::InvalidText),
        },
        ComputedRegisterType::Binary => Ok(Argument::Binary(value)),
    }
}

} // verus!
