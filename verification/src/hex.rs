//! Keys and payloads in hexadecimal.

use vstd::prelude::*;
use vstd::utf8::*;

use crate::numbers::{parse_radix, push_decimal, push_hex_byte};
use crate::text::{characters, is_whitespace, string_of};

verus! {

/// Why a key could not be read.
pub enum KeyFault {
    WrongLength(nat, nat),
    NotHex(Seq<char>),
    SplitCharacter,
}

/// Why a key could not be read.
#[derive(Debug, PartialEq, Eq)]
pub enum KeyError {
    /// So many bytes of digits were expected, and so many found.
    WrongLength(usize, usize),
    /// These two bytes are not a hexadecimal number.
    NotHex(String),
    /// A character does not end where a pair of bytes ends.
    SplitCharacter,
}

impl View for KeyError {
    type V = KeyFault;

    open spec fn view(&self) -> KeyFault {
        match self {
            KeyError::WrongLength(expected, found) => KeyFault::WrongLength(
                *expected as nat,
                *found as nat,
            ),
            KeyError::NotHex(pair) => KeyFault::NotHex(pair@),
            KeyError::SplitCharacter => KeyFault::SplitCharacter,
        }
    }
}

impl KeyFault {
    /// The fault as it is shown.
    pub open spec fn rendered(self) -> Seq<char> {
        match self {
            KeyFault::WrongLength(expected, found) => "expected "@ + crate::numbers::decimal(
                expected,
            ) + " hex digits, found "@ + crate::numbers::decimal(found),
            KeyFault::NotHex(pair) => "`"@ + pair + "` is not hex"@,
            KeyFault::SplitCharacter => "a character does not end where a pair of bytes ends"@,
        }
    }
}

impl KeyError {
    /// The fault as it is shown.
    pub fn rendered(&self) -> (text: String)
        ensures
            text@ == self@.rendered(),
    {
        match self {
            KeyError::WrongLength(expected, found) => {
                let mut text: String = "expected ".to_owned();
                push_decimal(&mut text, *expected as u64);
                text.append(" hex digits, found ");
                push_decimal(&mut text, *found as u64);
                text
            },
            KeyError::NotHex(pair) => {
                let mut text: String = "`".to_owned();
                text.append(pair.as_str());
                text.append("` is not hex");
                text
            },
            KeyError::SplitCharacter => {
                "a character does not end where a pair of bytes ends".to_owned()
            },
        }
    }
}

/// `text` without its whitespace.
pub open spec fn without_spaces(text: Seq<char>) -> Seq<char>
    decreases text.len(),
{
    if text.len() == 0 {
        text
    } else if crate::text::is_space(text.last()) {
        without_spaces(text.drop_last())
    } else {
        without_spaces(text.drop_last()).push(text.last())
    }
}

/// `text` without its whitespace.
fn strip_spaces(text: &[char]) -> (stripped: Vec<char>)
    ensures
        stripped@ == without_spaces(text@),
{
    let mut stripped: Vec<char> = Vec::new();
    let mut i: usize = 0;
    assert(text@.take(0) =~= Seq::<char>::empty());
    while i < text.len()
        invariant
            i <= text@.len(),
            stripped@ == without_spaces(text@.take(i as int)),
        decreases text@.len() - i,
    {
        assert(text@.take(i + 1).drop_last() =~= text@.take(i as int));
        assert(text@.take(i + 1).last() == text@[i as int]);
        if !is_whitespace(text[i]) {
            stripped.push(text[i]);
        }
        i = i + 1;
    }
    assert(text@.take(i as int) =~= text@);
    stripped
}

/// The bytes that `digits` writes, two bytes of text for each.
pub open spec fn pairs_value(digits: Seq<char>) -> Result<Seq<u8>, KeyFault>
    decreases digits.len(),
{
    if digits.len() == 0 {
        Ok(Seq::empty())
    } else if has_width_2_encoding(digits[0] as u32) {
        Err(KeyFault::NotHex(digits.take(1)))
    } else if digits.len() == 1 || !has_width_1_encoding(digits[0] as u32)
        || !has_width_1_encoding(digits[1] as u32) {
        Err(KeyFault::SplitCharacter)
    } else {
        match crate::numbers::radix_value(digits.take(2), 16) {
            None => Err(KeyFault::NotHex(digits.take(2))),
            Some(byte) => match pairs_value(digits.skip(2)) {
                Err(fault) => Err(fault),
                Ok(rest) => Ok(seq![byte as u8] + rest),
            },
        }
    }
}

/// The key of `size` bytes that `text` writes in hexadecimal, whitespace aside.
pub open spec fn key_value(text: Seq<char>, size: nat) -> Result<Seq<u8>, KeyFault> {
    let digits = without_spaces(text);
    let found = encode_utf8(digits).len();
    if found != 2 * size {
        Err(KeyFault::WrongLength(2 * size, found))
    } else {
        pairs_value(digits)
    }
}

/// A key or a fault, as a model.
pub open spec fn key_outcome(result: Result<Vec<u8>, KeyError>) -> Result<Seq<u8>, KeyFault> {
    match result {
        Ok(key) => Ok(key@),
        Err(error) => Err(error@),
    }
}

proof fn lemma_pairs_len(digits: Seq<char>)
    ensures
        pairs_value(digits) matches Ok(key) ==> encode_utf8(digits).len() == 2 * key.len(),
    decreases digits.len(),
{
    if pairs_value(digits) is Ok && digits.len() > 0 {
        lemma_pairs_len(digits.skip(2));
        assert(digits.drop_first().drop_first() =~= digits.skip(2));
        reveal_with_fuel(encode_utf8, 3);
    }
}

/// A pair of hexadecimal digits writes a byte.
proof fn lemma_pair_fits(pair: Seq<char>)
    requires
        pair.len() == 2,
    ensures
        crate::numbers::radix_value(pair, 16) matches Some(byte) ==> byte <= 255,
{
    let digits = if pair[0] == '+' {
        pair.drop_first()
    } else {
        pair
    };
    reveal_with_fuel(crate::numbers::digits_value, 3);
    assert(digits.len() <= 2);
}

/// Reads the bytes that `digits` writes.
fn read_pairs(digits: &[char]) -> (key: Result<Vec<u8>, KeyError>)
    ensures
        key_outcome(key) == pairs_value(digits@),
{
    let mut key: Vec<u8> = Vec::new();
    let mut start: usize = 0;
    assert(digits@.skip(0) =~= digits@);
    proof {
        if let Ok(all) = pairs_value(digits@) {
            assert(key@ + all =~= all);
        }
    }
    while start < digits.len()
        invariant
            start <= digits@.len(),
            match pairs_value(digits@.skip(start as int)) {
                Ok(rest) => pairs_value(digits@) == Ok::<Seq<u8>, KeyFault>(key@ + rest),
                Err(fault) => pairs_value(digits@) == Err::<Seq<u8>, KeyFault>(fault),
            },
        decreases digits@.len() - start,
    {
        let ghost rest = digits@.skip(start as int);
        let ghost before = key@;
        let first: u32 = digits[start] as u32;
        if first >= 0x80 && first <= 0x7FF {
            let lone: &[char] = vstd::slice::slice_subrange(digits, start, start + 1);
            assert(lone@ =~= rest.take(1));
            return Err(KeyError::NotHex(string_of(lone)));
        }
        if digits.len() - start == 1 || first > 0x7F || digits[start + 1] as u32 > 0x7F {
            return Err(KeyError::SplitCharacter);
        }
        let pair: &[char] = vstd::slice::slice_subrange(digits, start, start + 2);
        assert(pair@ =~= rest.take(2));
        match parse_radix(pair, 16) {
            None => return Err(KeyError::NotHex(string_of(pair))),
            Some(byte) => {
                proof {
                    lemma_pair_fits(pair@);
                    assert(rest.skip(2) =~= digits@.skip(start + 2));
                    if let Ok(left) = pairs_value(rest.skip(2)) {
                        assert(before.push(byte as u8) + left =~= before + (seq![byte as u8]
                            + left));
                    }
                }
                key.push(byte as u8);
            },
        }
        start = start + 2;
    }
    assert(digits@.skip(start as int) =~= Seq::<char>::empty());
    assert(key@ + Seq::<u8>::empty() =~= key@);
    Ok(key)
}

/// Reads a key of `size` bytes that is written in hexadecimal, ignoring whitespace.
pub fn read_key(text: &str, size: usize) -> (key: Result<Vec<u8>, KeyError>)
    requires
        2 * size <= usize::MAX,
    ensures
        key_outcome(key) == key_value(text@, size as nat),
        key matches Ok(key) ==> key@.len() == size,
{
    let chars: Vec<char> = characters(text);
    let digits: Vec<char> = strip_spaces(chars.as_slice());
    let written: String = string_of(digits.as_slice());
    let found: usize = written.as_str().as_bytes().len();
    if found != 2 * size {
        return Err(KeyError::WrongLength(2 * size, found));
    }
    proof {
        lemma_pairs_len(digits@);
    }
    read_pairs(digits.as_slice())
}

/// A run of bytes as capital hexadecimal pairs with a space between them.
pub open spec fn dump_of(bytes: Seq<u8>) -> Seq<char>
    decreases bytes.len(),
{
    if bytes.len() == 0 {
        Seq::empty()
    } else if bytes.len() == 1 {
        crate::numbers::hex_byte(bytes[0])
    } else {
        dump_of(bytes.drop_last()).push(' ') + crate::numbers::hex_byte(bytes.last())
    }
}

/// A run of bytes as capital hexadecimal pairs with a space between them.
pub fn hex_dump(bytes: &[u8]) -> (dump: String)
    ensures
        dump@ == dump_of(bytes@),
{
    let mut dump: String = String::new();
    let mut i: usize = 0;
    assert(bytes@.take(0) =~= Seq::<u8>::empty());
    assert(dump@ =~= Seq::<char>::empty());
    while i < bytes.len()
        invariant
            i <= bytes@.len(),
            dump@ == dump_of(bytes@.take(i as int)),
        decreases bytes@.len() - i,
    {
        assert(bytes@.take(i + 1).drop_last() =~= bytes@.take(i as int));
        if i > 0 {
            dump.push(' ');
        }
        push_hex_byte(&mut dump, bytes[i]);
        i = i + 1;
        assert(dump@ =~= dump_of(bytes@.take(i as int)));
    }
    assert(bytes@.take(i as int) =~= bytes@);
    dump
}

} // verus!
