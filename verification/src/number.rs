//! Reading a number from its decimal numeral.
use vstd::prelude::*;

verus! {

/// Whether `c` is one of the ten ASCII digits.
pub open spec fn is_digit(c: char) -> bool {
    '0' <= c <= '9'
}

/// Whether `text` holds digits only.
pub open spec fn all_digits(text: Seq<char>) -> bool {
    forall|i: int| 0 <= i < text.len() ==> is_digit(#[trigger] text[i])
}

/// The number that the digits `digits` write in base ten.
pub open spec fn digits_value(digits: Seq<char>) -> nat
    decreases digits.len(),
{
    if digits.len() == 0 {
        0
    } else {
        digits_value(digits.drop_last()) * 10 + (digits.last() as nat - 48) as nat
    }
}

/// `text` without the one `+` that may stand in front of a numeral.
pub open spec fn unsigned_part(text: Seq<char>) -> Seq<char> {
    if text.len() > 0 && text[0] == '+' {
        text.skip(1)
    } else {
        text
    }
}

/// The number that `text` writes, as the standard library reads a `u32`:
/// one `+` may come first, then at least one digit and nothing but digits,
/// and the number must fit in a `u32`.
pub open spec fn parsed_u32(text: Seq<char>) -> Option<u32> {
    let digits = unsigned_part(text);
    if digits.len() >= 1 && all_digits(digits) && digits_value(digits) <= u32::MAX {
        Some(digits_value(digits) as u32)
    } else {
        None
    }
}

/// More digits never write a smaller number.
proof fn lemma_value_grows(digits: Seq<char>, upto: int)
    requires
        0 <= upto <= digits.len(),
        all_digits(digits),
    ensures
        digits_value(digits.take(upto)) <= digits_value(digits),
    decreases digits.len() - upto,
{
    if upto < digits.len() {
        lemma_value_grows(digits, upto + 1);
        assert(digits.take(upto + 1).drop_last() =~= digits.take(upto));
    } else {
        assert(digits.take(upto) =~= digits);
    }
}

/// Reads a `u32` from its decimal numeral.
pub fn parse_u32(text: &str) -> (number: Option<u32>)
    ensures
        number == parsed_u32(text@),
{
    if !text.is_ascii() {
        proof {
            let i = choose|i: int|
                0 <= i < text@.len() && !('\0' <= #[trigger] text@[i] <= '\u{7f}');
            if text@.len() > 0 && text@[0] == '+' {
                assert(unsigned_part(text@)[i - 1] == text@[i]);
            }
        }
        return None;
    }
    proof {
        vstd::string::is_ascii_spec_bytes(text);
    }
    let bytes = text.as_bytes();
    let count = bytes.len();
    let start: usize = if count > 0 && bytes[0] == 43u8 {
        1
    } else {
        0
    };
    let ghost digits = unsigned_part(text@);
    assert(digits.len() == count - start);
    assert(forall|i: int|
        0 <= i < digits.len() ==> (#[trigger] digits[i]) as u8 == bytes@[start + i]);
    if start == count {
        return None;
    }
    let mut value: u64 = 0;
    let mut at: usize = start;
    while at < count
        invariant
            start <= at <= count,
            count == bytes@.len(),
            digits == unsigned_part(text@),
            digits.len() == count - start,
            forall|i: int| 0 <= i < digits.len() ==> '\0' <= #[trigger] digits[i] <= '\u{7f}',
            forall|i: int|
                0 <= i < digits.len() ==> (#[trigger] digits[i]) as u8 == bytes@[start + i],
            all_digits(digits.take(at - start)),
            value == digits_value(digits.take(at - start)),
            value <= u32::MAX,
        decreases count - at,
    {
        let byte = bytes[at];
        if byte < 48u8 || byte > 57u8 {
            assert(!is_digit(digits[at - start]));
            return None;
        }
        proof {
            let longer = digits.take(at - start + 1);
            assert(longer.drop_last() =~= digits.take(at - start));
            assert(longer.last() == digits[at - start]);
            assert(is_digit(digits[at - start]));
            assert(all_digits(longer)) by {
                assert forall|i: int| 0 <= i < longer.len() implies is_digit(
                    #[trigger] longer[i],
                ) by {
                    if i < at - start {
                        assert(digits.take(at - start)[i] == longer[i]);
                    }
                }
            }
        }
        value = value * 10 + (byte - 48u8) as u64;
        at = at + 1;
        if value > 0xffff_ffffu64 {
            proof {
                if all_digits(digits) {
                    lemma_value_grows(digits, at - start);
                }
            }
            return None;
        }
    }
    assert(digits.take(at - start) =~= digits);
    Some(value as u32)
}

} // verus!
