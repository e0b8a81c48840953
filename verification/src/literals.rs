//! Literal values: integers and byte lists.

use vstd::prelude::*;

use crate::bytes::write_le;
use crate::diagnostics::{err, EncodeError, EncodeFault};
use crate::numbers::{parse_number, push_decimal};
use crate::text::{position, push_all, trim};

verus! {

/// The bytes of an integer literal.
pub open spec fn integer_bytes(
    line: nat,
    text: Seq<char>,
    width: nat,
    name: Seq<char>,
) -> Result<Seq<u8>, EncodeFault> {
    match crate::numbers::number_value(text) {
        None => Err(
            EncodeFault { line, message: "`"@ + text + "` is not an integer literal"@ },
        ),
        Some(value) => if value < crate::bytes::pow256(width) {
            Ok(crate::bytes::le_bytes(value as nat, width))
        } else {
            Err(
                EncodeFault {
                    line,
                    message: crate::numbers::decimal(value as nat) + " does not fit `"@ + name
                        + "`'s "@ + crate::numbers::decimal(width) + "-byte width"@,
                },
            )
        },
    }
}

/// Reads an integer literal at the declared width.
pub fn parse_integer(line: usize, text: &[char], width: u8, name: &[char]) -> (bytes: Result<
    Vec<u8>,
    EncodeError,
>)
    requires
        width <= 8,
    ensures
        crate::diagnostics::bytes_outcome(bytes) == integer_bytes(line as nat, text@, width as nat, name@),
{
    let value: u64 = match parse_number(text) {
        Some(value) => value,
        None => {
            let mut message: String = "`".to_owned();
            push_all(&mut message, text);
            message.append("` is not an integer literal");
            return Err(err(line, message));
        },
    };
    let ceiling: u64 = ceiling_of(width);
    if width < 8 && value >= ceiling {
        let mut message: String = String::new();
        push_decimal(&mut message, value);
        assert(message@ =~= crate::numbers::decimal(value as nat));
        message.append(" does not fit `");
        push_all(&mut message, name);
        message.append("`'s ");
        push_decimal(&mut message, width as u64);
        message.append("-byte width");
        return Err(err(line, message));
    }
    Ok(write_le(value, width as usize))
}

/// How many values `width` bytes can tell apart, where a `u64` can hold that number.
fn ceiling_of(width: u8) -> (ceiling: u64)
    requires
        width <= 8,
    ensures
        width < 8 ==> ceiling == crate::bytes::pow256(width as nat),
        width == 8 ==> crate::bytes::pow256(width as nat) == u64::MAX + 1,
{
    proof {
        crate::bytes::lemma_pow256_bounds();
    }
    if width == 8 {
        return 0;
    }
    let mut ceiling: u64 = 1;
    let mut i: u8 = 0;
    while i < width
        invariant
            i <= width < 8,
            ceiling == crate::bytes::pow256(i as nat),
        decreases width - i,
    {
        proof {
            crate::bytes::lemma_pow256_bounds();
            crate::bytes::lemma_pow256_monotonic((i + 1) as nat, 7);
            assert(crate::bytes::pow256(8) == 256 * crate::bytes::pow256(7));
        }
        ceiling = ceiling * 256;
        i = i + 1;
    }
    ceiling
}

/// What one item of a byte list adds: nothing where it is empty, else one byte.
pub open spec fn item_bytes(line: nat, item: Seq<char>) -> Result<Seq<u8>, EncodeFault> {
    if item.len() == 0 {
        Ok(Seq::empty())
    } else {
        match crate::numbers::number_value(item) {
            None => Err(EncodeFault { line, message: "`"@ + item + "` is not a byte value"@ }),
            Some(value) => if value <= 255 {
                Ok(seq![value as u8])
            } else {
                Err(EncodeFault { line, message: "`"@ + item + "` does not fit one byte"@ })
            },
        }
    }
}

/// The bytes between the brackets of a byte list, item by item.
pub open spec fn items_bytes(line: nat, inner: Seq<char>) -> Result<Seq<u8>, EncodeFault>
    decreases inner.len(),
{
    let end = crate::text::position_of(inner, ',');
    match item_bytes(line, crate::text::trim_of(inner.take(end as int))) {
        Err(fault) => Err(fault),
        Ok(bytes) => if end >= inner.len() {
            Ok(bytes)
        } else {
            crate::diagnostics::behind(bytes, items_bytes(line, inner.skip((end + 1) as int)))
        },
    }
}

/// Whether `text` stands in brackets.
pub open spec fn in_brackets(text: Seq<char>) -> bool {
    text.len() >= 2 && text[0] == '[' && text.last() == ']'
}

/// The bytes of a byte list.
pub open spec fn list_bytes(
    line: nat,
    text: Seq<char>,
    width: nat,
    name: Seq<char>,
) -> Result<Seq<u8>, EncodeFault> {
    if !in_brackets(text) {
        Err(EncodeFault { line, message: "a byte list must be enclosed in `[` and `]`"@ })
    } else {
        match items_bytes(line, text.subrange(1, text.len() - 1)) {
            Err(fault) => Err(fault),
            Ok(bytes) => if bytes.len() == width {
                Ok(bytes)
            } else {
                Err(
                    EncodeFault {
                        line,
                        message: "`"@ + name + "` is "@ + crate::numbers::decimal(width)
                            + " bytes wide, but "@ + crate::numbers::decimal(bytes.len())
                            + " were given"@,
                    },
                )
            },
        }
    }
}

/// Reads one item of a byte list.
fn parse_item(line: usize, item: &[char]) -> (byte: Result<Option<u8>, EncodeError>)
    ensures
        match byte {
            Ok(None) => item_bytes(line as nat, item@) == Ok::<Seq<u8>, EncodeFault>(
                Seq::empty(),
            ),
            Ok(Some(byte)) => item_bytes(line as nat, item@) == Ok::<Seq<u8>, EncodeFault>(
                seq![byte],
            ),
            Err(error) => item_bytes(line as nat, item@) == Err::<Seq<u8>, EncodeFault>(error@),
        },
{
    if item.len() == 0 {
        return Ok(None);
    }
    match parse_number(item) {
        None => {
            let mut message: String = "`".to_owned();
            push_all(&mut message, item);
            message.append("` is not a byte value");
            Err(err(line, message))
        },
        Some(value) => {
            if value > 255 {
                let mut message: String = "`".to_owned();
                push_all(&mut message, item);
                message.append("` does not fit one byte");
                Err(err(line, message))
            } else {
                Ok(Some(value as u8))
            }
        },
    }
}

/// Reads the items of a byte list.
fn parse_items(line: usize, inner: &[char]) -> (bytes: Result<Vec<u8>, EncodeError>)
    ensures
        crate::diagnostics::bytes_outcome(bytes) == items_bytes(line as nat, inner@),
{
    let mut bytes: Vec<u8> = Vec::new();
    let mut start: usize = 0;
    assert(inner@.skip(0) =~= inner@);
    proof {
        crate::diagnostics::lemma_behind_nothing(items_bytes(line as nat, inner@));
    }
    loop
        invariant
            start <= inner@.len(),
            items_bytes(line as nat, inner@) == crate::diagnostics::behind(
                bytes@,
                items_bytes(line as nat, inner@.skip(start as int)),
            ),
        decreases inner@.len() - start,
    {
        let ghost before = bytes@;
        let rest: &[char] = vstd::slice::slice_subrange(inner, start, inner.len());
        assert(rest@ =~= inner@.skip(start as int));
        let end: usize = position(rest, ',');
        let item: &[char] = trim(vstd::slice::slice_subrange(rest, 0, end));
        assert(rest@.subrange(0, end as int) =~= rest@.take(end as int));
        let ghost mut added = Seq::<u8>::empty();
        match parse_item(line, item) {
            Err(error) => return Err(error),
            Ok(None) => {},
            Ok(Some(byte)) => {
                bytes.push(byte);
                proof {
                    added = seq![byte];
                }
            },
        }
        assert(bytes@ =~= before + added);
        if end == rest.len() {
            return Ok(bytes);
        }
        proof {
            assert(rest@.skip(end + 1) =~= inner@.skip(start + end + 1));
            crate::diagnostics::lemma_behind_twice(
                before,
                added,
                items_bytes(line as nat, inner@.skip(start + end + 1)),
            );
        }
        start = start + end + 1;
    }
}

/// Reads a byte list of the declared width.
pub fn parse_byte_list(line: usize, text: &[char], width: u8, name: &[char]) -> (bytes: Result<
    Vec<u8>,
    EncodeError,
>)
    ensures
        crate::diagnostics::bytes_outcome(bytes) == list_bytes(line as nat, text@, width as nat, name@),
{
    if text.len() < 2 || text[0] != '[' || text[text.len() - 1] != ']' {
        return Err(err(line, "a byte list must be enclosed in `[` and `]`".to_owned()));
    }
    let inner: &[char] = vstd::slice::slice_subrange(text, 1, text.len() - 1);
    let bytes: Vec<u8> = match parse_items(line, inner) {
        Ok(bytes) => bytes,
        Err(error) => return Err(error),
    };
    if bytes.len() != width as usize {
        let mut message: String = "`".to_owned();
        push_all(&mut message, name);
        message.append("` is ");
        push_decimal(&mut message, width as u64);
        message.append(" bytes wide, but ");
        push_decimal(&mut message, bytes.len() as u64);
        message.append(" were given");
        return Err(err(line, message));
    }
    Ok(bytes)
}

} // verus!
