//! Numbers in text.

use vstd::prelude::*;

verus! {

/// The value of one digit, up to the fifteen that `f` writes.
pub open spec fn digit_value(c: char) -> Option<nat> {
    if '0' <= c <= '9' {
        Some((c as u32 - '0' as u32) as nat)
    } else if 'a' <= c <= 'f' {
        Some((c as u32 - 'a' as u32 + 10) as nat)
    } else if 'A' <= c <= 'F' {
        Some((c as u32 - 'A' as u32 + 10) as nat)
    } else {
        None
    }
}

/// The number that a run of digits writes in `radix`, most significant digit first.
pub open spec fn digits_value(digits: Seq<char>, radix: nat) -> Option<nat>
    decreases digits.len(),
{
    if digits.len() == 0 {
        Some(0)
    } else {
        match (digits_value(digits.drop_last(), radix), digit_value(digits.last())) {
            (Some(high), Some(low)) if low < radix => Some(high * radix + low),
            _ => None,
        }
    }
}

/// The number that `text` writes in `radix`: one digit at least, perhaps behind a plus
/// sign, and no more than a `u64` holds.
pub open spec fn radix_value(text: Seq<char>, radix: nat) -> Option<u64> {
    let digits = if text.len() > 0 && text[0] == '+' {
        text.drop_first()
    } else {
        text
    };
    match digits_value(digits, radix) {
        Some(value) if digits.len() > 0 && value <= u64::MAX => Some(value as u64),
        _ => None,
    }
}

/// Whether `text` announces a hexadecimal number.
pub open spec fn has_hex_prefix(text: Seq<char>) -> bool {
    text.len() >= 2 && text[0] == '0' && (text[1] == 'x' || text[1] == 'X')
}

/// The number that `text` writes: decimal, or hexadecimal behind `0x`, with whitespace
/// around it.
pub open spec fn number_value(text: Seq<char>) -> Option<u64> {
    let trimmed = crate::text::trim_of(text);
    if has_hex_prefix(trimmed) {
        radix_value(trimmed.skip(2), 16)
    } else {
        radix_value(trimmed, 10)
    }
}

/// The value of one digit, if it is one.
fn digit(c: char) -> (value: Option<u64>)
    ensures
        value == match digit_value(c) {
            Some(value) => Some(value as u64),
            None => None,
        },
        value matches Some(value) ==> value < 16,
{
    if c >= '0' && c <= '9' {
        Some((c as u32 - '0' as u32) as u64)
    } else if c >= 'a' && c <= 'f' {
        Some((c as u32 - 'a' as u32 + 10) as u64)
    } else if c >= 'A' && c <= 'F' {
        Some((c as u32 - 'A' as u32 + 10) as u64)
    } else {
        None
    }
}

/// A front part that is no number leaves the whole none, and one that is too large leaves
/// it none or too large.
proof fn lemma_front_decides(digits: Seq<char>, radix: nat, front: int)
    requires
        0 <= front <= digits.len(),
        radix >= 1,
    ensures
        digits_value(digits.take(front), radix) is None ==> digits_value(digits, radix) is None,
        digits_value(digits, radix) is Some ==> digits_value(digits.take(front), radix)->0
            <= digits_value(digits, radix)->0,
    decreases digits.len() - front,
{
    if front < digits.len() {
        lemma_front_decides(digits, radix, front + 1);
        assert(digits.take(front + 1).drop_last() =~= digits.take(front));
        if let Some(high) = digits_value(digits.take(front), radix) {
            assert(high * radix >= high) by (nonlinear_arith)
                requires
                    radix >= 1,
            ;
        }
    } else {
        assert(digits.take(front) =~= digits);
    }
}

/// Reads a number in `radix`.
pub fn parse_radix(text: &[char], radix: u64) -> (value: Option<u64>)
    requires
        2 <= radix <= 16,
    ensures
        value == radix_value(text@, radix as nat),
{
    let digits: &[char] = if text.len() > 0 && text[0] == '+' {
        vstd::slice::slice_subrange(text, 1, text.len())
    } else {
        text
    };
    let ghost all = if text@.len() > 0 && text@[0] == '+' {
        text@.drop_first()
    } else {
        text@
    };
    assert(digits@ =~= all);
    if digits.len() == 0 {
        return None;
    }
    let mut value: u64 = 0;
    let mut i: usize = 0;
    while i < digits.len()
        invariant
            2 <= radix <= 16,
            i <= digits@.len(),
            digits@.len() > 0,
            all == digits@,
            all == if text@.len() > 0 && text@[0] == '+' {
                text@.drop_first()
            } else {
                text@
            },
            digits_value(digits@.take(i as int), radix as nat) == Some(value as nat),
        decreases digits@.len() - i,
    {
        proof {
            lemma_front_decides(digits@, radix as nat, i + 1);
            assert(digits@.take(i + 1).drop_last() =~= digits@.take(i as int));
        }
        let low: u64 = match digit(digits[i]) {
            Some(low) => low,
            None => return None,
        };
        if low >= radix {
            return None;
        }
        let scaled: u64 = match value.checked_mul(radix) {
            Some(scaled) => scaled,
            None => return None,
        };
        value =
        match scaled.checked_add(low) {
            Some(value) => value,
            None => return None,
        };
        i = i + 1;
    }
    assert(digits@.take(i as int) =~= digits@);
    Some(value)
}

/// Reads a number: decimal, or hexadecimal behind `0x`.
pub fn parse_number(text: &[char]) -> (value: Option<u64>)
    ensures
        value == number_value(text@),
{
    let trimmed: &[char] = crate::text::trim(text);
    if trimmed.len() >= 2 && trimmed[0] == '0' && (trimmed[1] == 'x' || trimmed[1] == 'X') {
        let hex: &[char] = vstd::slice::slice_subrange(trimmed, 2, trimmed.len());
        assert(hex@ =~= trimmed@.skip(2));
        parse_radix(hex, 16)
    } else {
        parse_radix(trimmed, 10)
    }
}

/// The decimal digit that writes `value`.
pub open spec fn decimal_digit(value: nat) -> char {
    (48 + value % 10) as char
}

/// `value` in decimal, without leading zeros.
pub open spec fn decimal(value: nat) -> Seq<char>
    decreases value,
{
    if value < 10 {
        seq![decimal_digit(value)]
    } else {
        decimal(value / 10).push(decimal_digit(value))
    }
}

/// Appends `value` in decimal.
pub fn push_decimal(out: &mut String, value: u64)
    ensures
        final(out)@ == old(out)@ + decimal(value as nat),
    decreases value,
{
    let ghost before = out@;
    if value >= 10 {
        push_decimal(out, value / 10);
    }
    let low: u8 = 48 + (value % 10) as u8;
    out.push(low as char);
    proof {
        assert(out@ =~= before + decimal(value as nat));
    }
}

/// The capital hexadecimal digit that writes `value`.
pub open spec fn hex_digit(value: nat) -> char {
    if value % 16 < 10 {
        (48 + value % 16) as char
    } else {
        (55 + value % 16) as char
    }
}

/// One byte as two capital hexadecimal digits.
pub open spec fn hex_byte(byte: u8) -> Seq<char> {
    seq![hex_digit(byte as nat / 16), hex_digit(byte as nat)]
}

/// The capital hexadecimal digit that writes the low half of `value`.
fn hex_char(value: u8) -> (c: char)
    ensures
        c == hex_digit(value as nat),
{
    let low: u8 = value % 16;
    if low < 10 {
        (48 + low) as char
    } else {
        (55 + low) as char
    }
}

/// Appends one byte as two capital hexadecimal digits.
pub fn push_hex_byte(out: &mut String, byte: u8)
    ensures
        final(out)@ == old(out)@ + hex_byte(byte),
{
    let ghost before = out@;
    out.push(hex_char(byte / 16));
    out.push(hex_char(byte));
    assert(out@ =~= before + hex_byte(byte));
}

/// What is written in decimal is read back.
pub proof fn law_decimal_is_read_back(value: u64)
    ensures
        number_value(decimal(value as nat)) == Some(value),
{
    let text = decimal(value as nat);
    lemma_decimal(value as nat);
    assert('0' <= text[0] <= '9');
    assert('0' <= text.last() <= '9');
    assert(crate::text::trim_of(text) == text);
    if text.len() >= 2 {
        assert('0' <= text[1] <= '9');
    }
}

proof fn lemma_decimal(value: nat)
    ensures
        decimal(value).len() > 0,
        forall|i: int| 0 <= i < decimal(value).len() ==> '0' <= #[trigger] decimal(value)[i] <= '9',
        digits_value(decimal(value), 10) == Some(value),
    decreases value,
{
    assert(decimal_digit(value) as u32 == 48 + value % 10);
    assert(digit_value(decimal_digit(value)) == Some(value % 10));
    if value >= 10 {
        lemma_decimal(value / 10);
        assert(decimal(value).drop_last() =~= decimal(value / 10));
        assert forall|i: int| 0 <= i < decimal(value).len() implies '0' <= #[trigger] decimal(
            value,
        )[i] <= '9' by {
            if i < decimal(value).len() - 1 {
                assert(decimal(value)[i] == decimal(value / 10)[i]);
            }
        }
    } else {
        assert(decimal(value).drop_last() =~= Seq::<char>::empty());
        reveal_with_fuel(digits_value, 2);
    }
}

} // verus!
