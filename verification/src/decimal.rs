//! Port numbers in decimal.
use vstd::prelude::*;

verus! {

/// The digit zero.
pub const ZERO: u8 = 0x30;

/// The digit nine.
pub const NINE: u8 = 0x39;

/// The plus sign.
pub const PLUS: u8 = 0x2b;

/// Only decimal digits.
pub open spec fn is_digits(text: Seq<u8>) -> bool {
    forall|i: int| 0 <= i < text.len() ==> ZERO <= #[trigger] text[i] <= NINE
}

/// The number that decimal digits stand for.
pub open spec fn digits_value(text: Seq<u8>) -> nat
    decreases text.len(),
{
    if text.len() == 0 {
        0
    } else {
        10 * digits_value(text.drop_last()) + (text.last() - ZERO) as nat
    }
}

/// A text without the plus sign that it may start with.
pub open spec fn without_sign(text: Seq<u8>) -> Seq<u8> {
    if text.len() > 0 && text[0] == PLUS {
        text.skip(1)
    } else {
        text
    }
}

/// The port that a text names: digits, after a plus sign or without one.
pub open spec fn port_number(text: Seq<u8>) -> Option<u16> {
    let digits = without_sign(text);
    if digits.len() > 0 && is_digits(digits) && digits_value(digits) <= u16::MAX {
        Some(digits_value(digits) as u16)
    } else {
        None
    }
}

/// A number in decimal, without leading zeros.
pub open spec fn decimal_text(number: nat) -> Seq<u8>
    decreases number,
{
    if number < 10 {
        seq![(ZERO + number) as u8]
    } else {
        decimal_text(number / 10).push((ZERO + number % 10) as u8)
    }
}

/// A number in decimal is digits only, and stands for the number.
pub proof fn lemma_decimal_text(number: nat)
    ensures
        decimal_text(number).len() > 0,
        is_digits(decimal_text(number)),
        digits_value(decimal_text(number)) == number,
    decreases number,
{
    if number < 10 {
        let text = decimal_text(number);
        assert(text.drop_last() =~= Seq::empty());
        assert(digits_value(text.drop_last()) == 0);
    } else {
        lemma_decimal_text(number / 10);
        let text = decimal_text(number);
        assert(text.drop_last() =~= decimal_text(number / 10));
    }
}

/// A port in decimal names that port.
pub proof fn lemma_port_number_of_decimal(port: u16)
    ensures
        port_number(decimal_text(port as nat)) == Some(port),
{
    lemma_decimal_text(port as nat);
}

/// A port takes at most five digits.
pub proof fn lemma_decimal_text_len(port: u16)
    ensures
        1 <= decimal_text(port as nat).len() <= 5,
{
    reveal_with_fuel(decimal_text, 6);
}

/// Fewer digits stand for a smaller number.
proof fn lemma_digits_value_prefix(text: Seq<u8>, i: int)
    requires
        is_digits(text),
        0 <= i <= text.len(),
    ensures
        digits_value(text.take(i)) <= digits_value(text),
    decreases text.len() - i,
{
    if i == text.len() {
        assert(text.take(i) =~= text);
    } else {
        lemma_digits_value_prefix(text, i + 1);
        assert(text.take(i + 1).drop_last() =~= text.take(i));
        assert(text.take(i + 1).last() == text[i]);
    }
}

/// Reads the port that a text names.
pub fn parse_port(text: &[u8]) -> (port: Option<u16>)
    ensures
        port == port_number(text@),
{
    let len: usize = text.len();
    let start: usize = if len > 0 && text[0] == PLUS {
        1
    } else {
        0
    };
    if start == len {
        return None;
    }
    let ghost digits = without_sign(text@);
    assert(digits =~= text@.skip(start as int));
    let mut value: u32 = 0;
    let mut i: usize = start;
    assert(digits.take(0) =~= Seq::empty());
    while i < len
        invariant
            start <= i <= len == text@.len(),
            start < len,
            digits == text@.skip(start as int),
            digits == without_sign(text@),
            is_digits(digits.take(i - start)),
            value == digits_value(digits.take(i - start)),
            value <= u16::MAX,
        decreases len - i,
    {
        let byte = text[i];
        assert(byte == digits[i - start]);
        if byte < ZERO || byte > NINE {
            return None;
        }
        let ghost part = digits.take(i - start);
        let ghost longer = digits.take(i - start + 1);
        assert(longer.drop_last() =~= part);
        assert(longer.last() == byte);
        assert(is_digits(longer)) by {
            assert forall|j: int| 0 <= j < longer.len() implies ZERO <= #[trigger] longer[j]
                <= NINE by {
                if j < part.len() {
                    assert(longer[j] == part[j]);
                }
            }
        }
        value = value * 10 + (byte - ZERO) as u32;
        if value > u16::MAX as u32 {
            proof {
                if is_digits(digits) {
                    lemma_digits_value_prefix(digits, i - start + 1);
                }
            }
            return None;
        }
        i = i + 1;
    }
    assert(digits.take(len - start) =~= digits);
    Some(value as u16)
}

/// Writes a port in decimal.
pub fn decimal_bytes(port: u16) -> (text: Vec<u8>)
    ensures
        text@ == decimal_text(port as nat),
    decreases port,
{
    let mut text: Vec<u8> = if port < 10 {
        Vec::new()
    } else {
        decimal_bytes(port / 10)
    };
    text.push(ZERO + (port % 10) as u8);
    assert(text@ =~= decimal_text(port as nat));
    text
}

/// Each digit counts ten times as much as the one after it.
pub proof fn reading_digits(text: Seq<u8>, digit: u8)
    requires
        0x30 <= digit <= 0x39,
    ensures
        digits_value(Seq::empty()) == 0,
        digits_value(text.push(digit)) == 10 * digits_value(text) + (digit - 0x30),
{
    assert(text.push(digit).drop_last() =~= text);
}

/// The last digit of a number is what is left of it after tens, and the digits before it are those
/// of the tens.
pub proof fn writing_digits(number: nat)
    ensures
        number < 10 ==> decimal_text(number) == seq![(0x30 + number) as u8],
        number >= 10 ==> decimal_text(number) == decimal_text(number / 10).push(
            (0x30 + number % 10) as u8,
        ),
{
}

/// A text names a port exactly if it is digits, with or without one plus sign before them, that
/// stand for the port.
pub proof fn reading_a_port(text: Seq<u8>, digits: Seq<u8>, port: u16)
    requires
        if text.len() > 0 && text[0] == 0x2b {
            text == seq![0x2bu8] + digits
        } else {
            text == digits
        },
    ensures
        port_number(text) == Some(port) <==> {
            &&& digits.len() > 0
            &&& forall|i: int| 0 <= i < digits.len() ==> 0x30 <= #[trigger] digits[i] <= 0x39
            &&& digits_value(digits) == port
        },
{
    assert(without_sign(text) =~= digits);
    assert(is_digits(digits) <==> forall|i: int|
        0 <= i < digits.len() ==> 0x30 <= #[trigger] digits[i] <= 0x39);
}

} // verus!
