//! Laws of values: what bytes, numbers and text come to, position by position.

use vstd::arithmetic::div_mod::{lemma_div_denominator, lemma_fundamental_div_mod_converse};
use vstd::arithmetic::power::{lemma_pow0, lemma_pow_positive, pow};
use vstd::prelude::*;

use crate::bytes::{narrow_u16, narrow_u32, narrow_u8, read_le, write_le};
use crate::numbers::parse_number;

verus! {

// Bytes.

/// The byte at position `i` counts for its value times 256 to the power `i`: a number is
/// written least significant byte first.
pub proof fn law_the_first_byte_is_the_lowest(bytes: Seq<u8>, i: int)
    requires
        0 <= i < bytes.len(),
    ensures
        bytes[i] == crate::bytes::le_value(bytes) as int / pow(256, i as nat) % 256,
    decreases bytes.len(),
{
    let rest = bytes.drop_first();
    let value = crate::bytes::le_value(bytes) as int;
    let high = crate::bytes::le_value(rest) as int;
    lemma_fundamental_div_mod_converse(value, 256, high, bytes[0] as int);
    if i == 0 {
        lemma_pow0(256);
        assert(value / 1 == value);
    } else {
        law_the_first_byte_is_the_lowest(rest, i - 1);
        lemma_pow_positive(256, (i - 1) as nat);
        reveal(pow);
        assert(pow(256, i as nat) == 256 * pow(256, (i - 1) as nat));
        lemma_div_denominator(value, 256, pow(256, (i - 1) as nat));
        assert(rest[i - 1] == bytes[i]);
    }
}

/// So many bytes write every number below that power of 256, and no other.
pub proof fn law_a_width_bounds_the_number(bytes: Seq<u8>)
    ensures
        crate::bytes::le_value(bytes) < pow(256, bytes.len()),
        crate::bytes::pow256(bytes.len()) == pow(256, bytes.len()),
{
    crate::bytes::lemma_le_value_bound(bytes);
    lemma_pow256_is_a_power(bytes.len());
}

proof fn lemma_pow256_is_a_power(n: nat)
    ensures
        crate::bytes::pow256(n) == pow(256, n),
    decreases n,
{
    reveal(pow);
    if n > 0 {
        lemma_pow256_is_a_power((n - 1) as nat);
    }
}

/// What is written at a width has that width, and holds at each position the byte of the value
/// that counts for that power of 256.
pub proof fn law_what_is_written_is_lowest_byte_first(
    value: u64,
    width: usize,
    bytes: Vec<u8>,
    i: int,
)
    requires
        call_requires(write_le, (value, width)),
        call_ensures(write_le, (value, width), bytes),
        0 <= i < width,
    ensures
        bytes@.len() == width,
        bytes@[i] == value as int / pow(256, i as nat) % 256,
{
    crate::bytes::lemma_le_bytes_len(value as nat, width as nat);
    lemma_le_byte(value as nat, width as nat, i);
}

proof fn lemma_le_byte(value: nat, width: nat, i: int)
    requires
        0 <= i < width,
    ensures
        crate::bytes::le_bytes(value, width).len() == width,
        crate::bytes::le_bytes(value, width)[i] == value as int / pow(256, i as nat) % 256,
    decreases width,
{
    crate::bytes::lemma_le_bytes_len(value, width);
    if i == 0 {
        lemma_pow0(256);
        assert(value as int / 1 == value);
    } else {
        lemma_le_byte(value / 256, (width - 1) as nat, i - 1);
        lemma_pow_positive(256, (i - 1) as nat);
        reveal(pow);
        assert(pow(256, i as nat) == 256 * pow(256, (i - 1) as nat));
        lemma_div_denominator(value as int, 256, pow(256, (i - 1) as nat));
    }
}

/// What is read is the number that the first eight bytes write.
pub proof fn law_reading_takes_eight_bytes(bytes: &[u8], value: u64, i: int)
    requires
        call_ensures(read_le, (bytes,), value),
        0 <= i < 8,
    ensures
        value as int / pow(256, i as nat) % 256 == if i < bytes@.len() {
            bytes@[i] as int
        } else {
            0
        },
{
    let low = crate::bytes::low_eight(bytes@);
    if i < bytes@.len() {
        law_the_first_byte_is_the_lowest(low, i);
    } else {
        crate::bytes::lemma_le_value_bound(low);
        crate::bytes::lemma_pow256_monotonic(low.len(), i as nat);
        lemma_pow256_is_a_power(i as nat);
        assert(value < pow(256, i as nat));
        vstd::arithmetic::div_mod::lemma_basic_div(value as int, pow(256, i as nat));
    }
}

/// Narrowing keeps what fits and turns the rest into the largest value.
pub proof fn law_narrowing_saturates(value: u64, a: u8, b: u16, c: u32)
    requires
        call_ensures(narrow_u8, (value,), a),
        call_ensures(narrow_u16, (value,), b),
        call_ensures(narrow_u32, (value,), c),
    ensures
        a == if value < 256 {
            value as int
        } else {
            255
        },
        b == if value < 65_536 {
            value as int
        } else {
            65_535
        },
        c == if value < 4_294_967_296 {
            value as int
        } else {
            4_294_967_295
        },
{
}

// Numbers.

/// Whether every character is a decimal digit.
pub open spec fn all_digits(text: Seq<char>) -> bool {
    forall|i: int| 0 <= i < text.len() ==> '0' <= #[trigger] text[i] <= '9'
}

/// A decimal digit is worth its distance from `0`.
pub proof fn law_one_digit_is_a_number(c: char)
    ensures
        '0' <= c <= '9' ==> crate::numbers::number_value(seq![c]) == Some((c as u32 - 48) as u64),
        !('0' <= c <= '9') ==> crate::numbers::number_value(seq![c]) is None,
{
    let text = seq![c];
    if crate::text::is_space(c) {
        assert(text.drop_first() =~= Seq::<char>::empty());
        reveal_with_fuel(crate::text::trim_start_of, 2);
        assert(crate::text::trim_of(text) =~= Seq::<char>::empty());
        assert(!('0' <= c <= '9'));
    } else {
        assert(crate::text::trim_of(text) == text);
        assert(text.drop_last() =~= Seq::<char>::empty());
        assert(text.drop_first() =~= Seq::<char>::empty());
        reveal_with_fuel(crate::numbers::digits_value, 2);
    }
}

/// A further decimal digit multiplies by ten and adds, as long as a `u64` holds the result. A
/// number that no `u64` holds is none, and stays none.
pub proof fn law_a_further_digit(text: Seq<char>, c: char)
    requires
        text.len() > 0,
        all_digits(text),
        '0' <= c <= '9',
    ensures
        crate::numbers::number_value(text.push(c)) == match crate::numbers::number_value(text) {
            Some(value) => if value * 10 + (c as u32 - 48) <= u64::MAX {
                Some((value * 10 + (c as u32 - 48)) as u64)
            } else {
                None
            },
            None => None,
        },
{
    let longer = text.push(c);
    assert('0' <= text[0] <= '9');
    assert('0' <= text.last() <= '9');
    assert(crate::text::trim_of(text) == text);
    assert(longer[0] == text[0]);
    assert(crate::text::trim_of(longer) == longer);
    assert(longer[1] == if text.len() > 1 {
        text[1]
    } else {
        c
    });
    assert(!crate::numbers::has_hex_prefix(longer));
    assert(!crate::numbers::has_hex_prefix(text));
    assert(longer.drop_last() =~= text);
    lemma_digits_have_a_value(text);
}

proof fn lemma_digits_have_a_value(text: Seq<char>)
    requires
        all_digits(text),
    ensures
        crate::numbers::digits_value(text, 10) is Some,
    decreases text.len(),
{
    if text.len() > 0 {
        lemma_digits_have_a_value(text.drop_last());
        assert('0' <= text.last() <= '9');
    }
}

/// A character that is no digit makes a decimal text no number, wherever it stands, but for a
/// plus sign in front and whitespace around.
pub proof fn law_other_characters_are_no_number(text: Seq<char>, i: int)
    requires
        0 <= i < text.len(),
        !crate::text::is_space(text[0]),
        !crate::text::is_space(text.last()),
        !crate::numbers::has_hex_prefix(text),
        !('0' <= text[i] <= '9'),
        !(i == 0 && text[i] == '+'),
    ensures
        crate::numbers::number_value(text) is None,
{
    assert(crate::text::trim_of(text) == text);
    if text[0] == '+' {
        let digits = text.drop_first();
        assert(digits[i - 1] == text[i]);
        lemma_not_all_digits(digits, i - 1, 10);
    } else {
        lemma_not_all_digits(text, i, 10);
    }
}

proof fn lemma_not_all_digits(text: Seq<char>, i: int, radix: nat)
    requires
        0 <= i < text.len(),
        crate::numbers::digit_value(text[i]) matches Some(digit) ==> digit >= radix,
    ensures
        crate::numbers::digits_value(text, radix) is None,
    decreases text.len(),
{
    if i < text.len() - 1 {
        assert(text.drop_last()[i] == text[i]);
        lemma_not_all_digits(text.drop_last(), i, radix);
    }
}

/// A plus sign in front of a decimal number changes nothing, and alone is no number.
pub proof fn law_a_plus_sign_is_no_digit(text: Seq<char>)
    requires
        text.len() > 0 ==> '0' <= text[0] <= '9' && !crate::text::is_space(text.last()),
        !crate::numbers::has_hex_prefix(text),
    ensures
        crate::numbers::number_value(seq!['+'] + text) == crate::numbers::number_value(text),
        text.len() == 0 ==> crate::numbers::number_value(text) is None,
{
    let signed = seq!['+'] + text;
    assert(signed.drop_first() =~= text);
    assert(signed[0] == '+');
    if text.len() > 0 {
        assert(signed.last() == text.last());
    }
    assert(crate::text::trim_of(signed) == signed);
    assert(crate::text::trim_of(text) == text);
}

/// What a hexadecimal digit is worth: the decimal digits their own value, `a` to `f` and `A` to
/// `F` ten to fifteen.
pub open spec fn hex_worth(c: char) -> Option<int> {
    if '0' <= c <= '9' {
        Some(c as u32 - 48)
    } else if 'a' <= c <= 'f' {
        Some(c as u32 - 87)
    } else if 'A' <= c <= 'F' {
        Some(c as u32 - 55)
    } else {
        None
    }
}

/// Behind `0x` or `0X`, one hexadecimal digit is worth itself, and a further one multiplies by
/// sixteen and adds, as long as a `u64` holds the result. Another character makes it none.
pub proof fn law_hexadecimal_digits(x: char, text: Seq<char>, c: char)
    requires
        x == 'x' || x == 'X',
        forall|i: int| 0 <= i < text.len() ==> hex_worth(#[trigger] text[i]) is Some,
        !crate::text::is_space(c),
    ensures
        crate::numbers::number_value(seq!['0', x, c]) == match hex_worth(c) {
            Some(digit) => Some(digit as u64),
            None => None,
        },
        text.len() > 0 ==> crate::numbers::number_value(seq!['0', x] + text.push(c)) == match (
            crate::numbers::number_value(seq!['0', x] + text),
            hex_worth(c),
        ) {
            (Some(value), Some(digit)) => if value * 16 + digit <= u64::MAX {
                Some((value * 16 + digit) as u64)
            } else {
                None
            },
            _ => None,
        },
{
    let one = seq!['0', x, c];
    assert(crate::text::trim_of(one) == one);
    assert(one.skip(2) =~= seq![c]);
    assert(seq![c].drop_last() =~= Seq::<char>::empty());
    assert(seq![c].drop_first() =~= Seq::<char>::empty());
    reveal_with_fuel(crate::numbers::digits_value, 2);
    if text.len() > 0 {
        let short = seq!['0', x] + text;
        let long = seq!['0', x] + text.push(c);
        assert(hex_worth(text[0]) is Some);
        assert(hex_worth(text.last()) is Some);
        assert(short.last() == text.last());
        assert(long.last() == c);
        assert(crate::text::trim_of(short) == short);
        assert(crate::text::trim_of(long) == long);
        assert(short.skip(2) =~= text);
        assert(long.skip(2) =~= text.push(c));
        assert(text.push(c)[0] == text[0]);
        assert(text.push(c).drop_last() =~= text);
        lemma_hex_digits_have_a_value(text);
    }
}

proof fn lemma_hex_digits_have_a_value(text: Seq<char>)
    requires
        forall|i: int| 0 <= i < text.len() ==> hex_worth(#[trigger] text[i]) is Some,
    ensures
        crate::numbers::digits_value(text, 16) is Some,
    decreases text.len(),
{
    if text.len() > 0 {
        assert forall|i: int| 0 <= i < text.drop_last().len() implies hex_worth(
            #[trigger] text.drop_last()[i],
        ) is Some by {
            assert(hex_worth(text[i]) is Some);
        }
        lemma_hex_digits_have_a_value(text.drop_last());
        assert(hex_worth(text.last()) is Some);
    }
}

/// Whether every character is whitespace.
pub open spec fn all_spaces(text: Seq<char>) -> bool {
    forall|i: int| 0 <= i < text.len() ==> crate::text::is_space(#[trigger] text[i])
}

/// Whitespace around a number changes nothing.
pub proof fn law_whitespace_around_a_number(front: Seq<char>, text: Seq<char>, back: Seq<char>)
    requires
        all_spaces(front),
        all_spaces(back),
    ensures
        crate::numbers::number_value(front + text + back) == crate::numbers::number_value(text),
{
    lemma_trim_start(front, text + back);
    lemma_trim_spaces(front, text, back);
}

/// Reading a number is what the laws of numbers speak of.
pub proof fn law_parsing_gives_the_number(text: &[char], value: Option<u64>)
    requires
        call_ensures(parse_number, (text,), value),
    ensures
        value == crate::numbers::number_value(text@),
{
}

/// Decimal is written in digits, without a zero in front of another digit.
pub proof fn law_decimal_is_digits(value: nat)
    ensures
        crate::numbers::decimal(value).len() > 0,
        all_digits(crate::numbers::decimal(value)),
        value > 0 ==> crate::numbers::decimal(value)[0] != '0',
        value == 0 ==> crate::numbers::decimal(value) == seq!['0'],
    decreases value,
{
    let text = crate::numbers::decimal(value);
    assert(crate::numbers::decimal_digit(value) as u32 == 48 + value % 10);
    if value >= 10 {
        law_decimal_is_digits(value / 10);
        let front = crate::numbers::decimal(value / 10);
        assert(text[0] == front[0]);
        assert forall|i: int| 0 <= i < text.len() implies '0' <= #[trigger] text[i] <= '9' by {
            if i < front.len() {
                assert(text[i] == front[i]);
            }
        }
    }
}

/// A byte is written as two capital hexadecimal digits, the high one first.
pub proof fn law_a_byte_is_two_digits(byte: u8)
    ensures
        crate::numbers::hex_byte(byte).len() == 2,
        hex_worth(crate::numbers::hex_byte(byte)[0]) == Some(byte as int / 16),
        hex_worth(crate::numbers::hex_byte(byte)[1]) == Some(byte as int % 16),
        !('a' <= crate::numbers::hex_byte(byte)[0] <= 'f'),
        !('a' <= crate::numbers::hex_byte(byte)[1] <= 'f'),
{
    let high = byte as nat / 16;
    let low = byte as nat % 16;
    assert(crate::numbers::hex_digit(high) as u32 == if high < 10 {
        48 + high
    } else {
        55 + high
    });
    assert(crate::numbers::hex_digit(byte as nat) as u32 == if low < 10 {
        48 + low
    } else {
        55 + low
    });
}

// Text.

/// Trimming takes the whitespace off both ends and leaves the rest.
pub proof fn law_trimming_leaves_the_core(front: Seq<char>, core: Seq<char>, back: Seq<char>)
    requires
        all_spaces(front),
        all_spaces(back),
        core.len() > 0 ==> !crate::text::is_space(core[0]) && !crate::text::is_space(core.last()),
    ensures
        crate::text::trim_of(front + core + back) == core,
{
    lemma_trim_spaces(front, core, back);
    assert(crate::text::trim_of(core) =~= core);
}

proof fn lemma_trim_start(front: Seq<char>, text: Seq<char>)
    requires
        all_spaces(front),
    ensures
        crate::text::trim_start_of(front + text) == crate::text::trim_start_of(text),
    decreases front.len(),
{
    if front.len() > 0 {
        assert(crate::text::is_space(front[0]));
        assert((front + text).drop_first() =~= front.drop_first() + text);
        assert forall|i: int| 0 <= i < front.drop_first().len() implies crate::text::is_space(
            #[trigger] front.drop_first()[i],
        ) by {
            assert(crate::text::is_space(front[i + 1]));
        }
        lemma_trim_start(front.drop_first(), text);
    } else {
        assert(front + text =~= text);
    }
}

proof fn lemma_trim_end(text: Seq<char>, back: Seq<char>)
    requires
        all_spaces(back),
    ensures
        crate::text::trim_end_of(text + back) == crate::text::trim_end_of(text),
    decreases back.len(),
{
    if back.len() > 0 {
        assert(crate::text::is_space(back[back.len() - 1]));
        assert((text + back).last() == back[back.len() - 1]);
        assert((text + back).drop_last() =~= text + back.drop_last());
        lemma_trim_end(text, back.drop_last());
    } else {
        assert(text + back =~= text);
    }
}

/// Taking whitespace off the front first or off the end first comes to the same where
/// something is left.
proof fn lemma_trim_start_keeps_the_end(text: Seq<char>, back: Seq<char>)
    requires
        all_spaces(back),
    ensures
        crate::text::trim_end_of(crate::text::trim_start_of(text + back))
            == crate::text::trim_end_of(crate::text::trim_start_of(text)),
    decreases text.len(),
{
    if text.len() == 0 {
        assert(text + back =~= back + Seq::<char>::empty());
        lemma_trim_start(back, Seq::empty());
        assert(text =~= Seq::<char>::empty());
    } else if crate::text::is_space(text[0]) {
        assert((text + back)[0] == text[0]);
        assert((text + back).drop_first() =~= text.drop_first() + back);
        lemma_trim_start_keeps_the_end(text.drop_first(), back);
    } else {
        assert((text + back)[0] == text[0]);
        lemma_trim_end(text, back);
    }
}

pub proof fn lemma_trim_spaces(front: Seq<char>, text: Seq<char>, back: Seq<char>)
    requires
        all_spaces(front),
        all_spaces(back),
    ensures
        crate::text::trim_of(front + text + back) == crate::text::trim_of(text),
{
    assert(front + text + back =~= front + (text + back));
    lemma_trim_start(front, text + back);
    lemma_trim_start_keeps_the_end(text, back);
}

/// A line ends at the first line feed. A carriage return in front of it is not part of the
/// line. Behind it the next line begins.
pub proof fn law_lines_end_at_line_feeds(line: Seq<char>, rest: Seq<char>)
    requires
        !line.contains('\n'),
    ensures
        crate::text::lines_of(line + seq!['\r', '\n'] + rest) == seq![line]
            + crate::text::lines_of(rest),
        line.len() > 0 && line.last() == '\r' || crate::text::lines_of(line + seq!['\n'] + rest)
            == seq![line] + crate::text::lines_of(rest),
        line.len() > 0 ==> crate::text::lines_of(line) == seq![line],
        crate::text::lines_of(Seq::empty()) == Seq::<Seq<char>>::empty(),
{
    let with_return = line.push('\r');
    assert forall|i: int| 0 <= i < with_return.len() implies with_return[i] != '\n' by {
        if i < line.len() {
            assert(line.contains(line[i]));
        }
    }
    lemma_first_line(with_return, rest);
    assert(with_return + seq!['\n'] + rest =~= line + seq!['\r', '\n'] + rest);
    assert(with_return.drop_last() =~= line);
    lemma_first_line(line, rest);
    crate::text::lemma_position_of(line, '\n');
    if crate::text::position_of(line, '\n') < line.len() {
        assert(line.contains(line[crate::text::position_of(line, '\n') as int]));
    }
}

proof fn lemma_first_line(line: Seq<char>, rest: Seq<char>)
    requires
        !line.contains('\n'),
    ensures
        crate::text::lines_of(line + seq!['\n'] + rest) == seq![crate::text::without_return(line)]
            + crate::text::lines_of(rest),
{
    let text = line + seq!['\n'] + rest;
    assert(text =~= line.push('\n') + rest);
    lemma_position_behind(line, '\n', rest);
    assert(text.take(line.len() as int) =~= line);
    assert(text.skip(line.len() as int + 1) =~= rest);
}

/// Where a character does not occur in `front`, its first position is behind it.
pub proof fn lemma_position_behind(front: Seq<char>, c: char, rest: Seq<char>)
    requires
        !front.contains(c),
    ensures
        crate::text::position_of(front.push(c) + rest, c) == front.len(),
    decreases front.len(),
{
    let text = front.push(c) + rest;
    if front.len() > 0 {
        assert(front.contains(front[0]));
        assert(text[0] == front[0]);
        let left = front.drop_first();
        assert forall|i: int| 0 <= i < left.len() implies left[i] != c by {
            assert(front.contains(front[i + 1]));
        }
        lemma_position_behind(left, c, rest);
        assert(text.drop_first() =~= left.push(c) + rest);
    } else {
        assert(text[0] == c);
    }
}

/// Where a character does not occur at all, its position is the length.
pub proof fn lemma_position_nowhere(text: Seq<char>, c: char)
    requires
        !text.contains(c),
    ensures
        crate::text::position_of(text, c) == text.len(),
{
    crate::text::lemma_position_of(text, c);
    if crate::text::position_of(text, c) < text.len() {
        assert(text.contains(text[crate::text::position_of(text, c) as int]));
    }
}

/// Whether every character separates fields.
pub open spec fn all_separators(text: Seq<char>, commas: bool) -> bool {
    forall|i: int|
        0 <= i < text.len() ==> (crate::text::is_space(#[trigger] text[i]) || (commas && text[i]
            == ','))
}

/// Whether no character separates fields.
pub open spec fn no_separators(text: Seq<char>, commas: bool) -> bool {
    forall|i: int|
        0 <= i < text.len() ==> !crate::text::is_space(#[trigger] text[i]) && !(commas && text[i]
            == ',')
}

/// Separators in front are skipped. A field is what stands between separators.
pub proof fn law_fields_stand_between_separators(
    front: Seq<char>,
    field: Seq<char>,
    rest: Seq<char>,
    commas: bool,
)
    requires
        all_separators(front, commas),
        no_separators(field, commas),
        field.len() > 0,
        rest.len() > 0 ==> all_separators(rest.take(1), commas),
    ensures
        crate::text::fields_of(front, commas) == Seq::<Seq<char>>::empty(),
        crate::text::fields_of(front + field + rest, commas) == seq![field]
            + crate::text::fields_of(rest, commas),
{
    assert(front + field + rest =~= front + (field + rest));
    lemma_skip_separators(front, field + rest, commas);
    lemma_skip_separators(front, Seq::empty(), commas);
    assert(front + Seq::<char>::empty() =~= front);
    lemma_field_len_is(field, rest, commas);
    let text = field + rest;
    assert(!crate::text::separates(field[0], commas));
    assert(text[0] == field[0]);
    assert(text.take(field.len() as int) =~= field);
    assert(text.skip(field.len() as int) =~= rest);
}

proof fn lemma_skip_separators(front: Seq<char>, text: Seq<char>, commas: bool)
    requires
        all_separators(front, commas),
    ensures
        crate::text::fields_of(front + text, commas) == crate::text::fields_of(text, commas),
    decreases front.len(),
{
    if front.len() > 0 {
        assert(crate::text::separates(front[0], commas));
        assert((front + text)[0] == front[0]);
        assert((front + text).drop_first() =~= front.drop_first() + text);
        assert forall|i: int| 0 <= i < front.drop_first().len() implies (crate::text::is_space(
            #[trigger] front.drop_first()[i],
        ) || (commas && front.drop_first()[i] == ',')) by {
            assert(crate::text::separates(front[i + 1], commas));
        }
        lemma_skip_separators(front.drop_first(), text, commas);
    } else {
        assert(front + text =~= text);
    }
}

pub proof fn lemma_field_len_is(field: Seq<char>, rest: Seq<char>, commas: bool)
    requires
        no_separators(field, commas),
        rest.len() > 0 ==> all_separators(rest.take(1), commas),
    ensures
        crate::text::field_len(field + rest, commas) == field.len(),
    decreases field.len(),
{
    let text = field + rest;
    if field.len() > 0 {
        assert(!crate::text::separates(field[0], commas));
        assert(text[0] == field[0]);
        assert(text.drop_first() =~= field.drop_first() + rest);
        assert forall|i: int| 0 <= i < field.drop_first().len() implies !crate::text::is_space(
            #[trigger] field.drop_first()[i],
        ) && !(commas && field.drop_first()[i] == ',') by {
            assert(!crate::text::separates(field[i + 1], commas));
        }
        lemma_field_len_is(field.drop_first(), rest, commas);
    } else if rest.len() > 0 {
        assert(text =~= rest);
        assert(rest.take(1)[0] == rest[0]);
    }
}

/// Behind `0x` or `0X`, a plus sign changes nothing, and a character that is no hexadecimal
/// digit makes the text no number, wherever it stands. Nothing behind it is no number either.
pub proof fn law_other_characters_are_no_hexadecimal_number(
    x: char,
    text: Seq<char>,
    i: int,
)
    requires
        x == 'x' || x == 'X',
        text.len() > 0 ==> !crate::text::is_space(text.last()),
    ensures
        text.len() == 0 ==> crate::numbers::number_value(seq!['0', x] + text) is None,
        0 <= i < text.len() && hex_worth(text[i]) is None && !(i == 0 && text[i] == '+')
            ==> crate::numbers::number_value(seq!['0', x] + text) is None,
        text.len() > 0 && text[0] != '+' ==> crate::numbers::number_value(
            seq!['0', x, '+'] + text,
        ) == crate::numbers::number_value(seq!['0', x] + text),
{
    let whole = seq!['0', x] + text;
    let signed = seq!['0', x, '+'] + text;
    if text.len() > 0 {
        assert(whole.last() == text.last());
        assert(signed.last() == text.last());
    }
    assert(crate::text::trim_of(whole) == whole);
    assert(crate::text::trim_of(signed) == signed);
    assert(whole.skip(2) =~= text);
    assert(signed.skip(2).drop_first() =~= text);
    if 0 <= i < text.len() && hex_worth(text[i]) is None && !(i == 0 && text[i] == '+') {
        if text[0] == '+' {
            assert(text.drop_first()[i - 1] == text[i]);
            lemma_not_all_digits(text.drop_first(), i - 1, 16);
        } else {
            lemma_not_all_digits(text, i, 16);
        }
    }
}

} // verus!
