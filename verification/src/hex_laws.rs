//! Laws of hexadecimal text: keys and dumps, byte by byte.

use vstd::prelude::*;
use vstd::utf8::*;

use crate::hex::{hex_dump, read_key, KeyError, KeyFault};

verus! {

/// A dump has two digits for every byte and a space between two bytes: the digits of the byte
/// at `i` stand at `3 * i`.
pub proof fn law_a_dump_shows_every_byte(bytes: &[u8], dump: String, i: int)
    requires
        call_ensures(hex_dump, (bytes,), dump),
    ensures
        bytes@.len() == 0 ==> dump@.len() == 0,
        bytes@.len() > 0 ==> dump@.len() == 3 * bytes@.len() - 1,
        0 <= i < bytes@.len() ==> dump@.subrange(3 * i, 3 * i + 2) == crate::numbers::hex_byte(
            bytes@[i],
        ),
        0 < i < bytes@.len() ==> dump@[3 * i - 1] == ' ',
{
    lemma_dump(bytes@, i);
}

proof fn lemma_dump(bytes: Seq<u8>, i: int)
    ensures
        bytes.len() == 0 ==> crate::hex::dump_of(bytes).len() == 0,
        bytes.len() > 0 ==> crate::hex::dump_of(bytes).len() == 3 * bytes.len() - 1,
        0 <= i < bytes.len() ==> crate::hex::dump_of(bytes).subrange(3 * i, 3 * i + 2)
            == crate::numbers::hex_byte(bytes[i]),
        0 < i < bytes.len() ==> crate::hex::dump_of(bytes)[3 * i - 1] == ' ',
    decreases bytes.len(),
{
    let dump = crate::hex::dump_of(bytes);
    if bytes.len() > 1 {
        let front = bytes.drop_last();
        lemma_dump(front, i);
        if 0 <= i < front.len() {
            assert(dump.subrange(3 * i, 3 * i + 2) =~= crate::hex::dump_of(front).subrange(
                3 * i,
                3 * i + 2,
            ));
            assert(front[i] == bytes[i]);
        } else if i == front.len() {
            assert(dump.subrange(3 * i, 3 * i + 2) =~= crate::numbers::hex_byte(bytes.last()));
        }
    } else if bytes.len() == 1 && i == 0 {
        assert(dump.subrange(0, 2) =~= dump);
    }
}

/// Whitespace in a key does not count, wherever it stands.
pub proof fn law_whitespace_in_a_key_does_not_count(front: Seq<char>, c: char, back: Seq<char>)
    ensures
        crate::hex::without_spaces(Seq::empty()) == Seq::<char>::empty(),
        crate::text::is_space(c) ==> crate::hex::without_spaces(front + seq![c] + back)
            == crate::hex::without_spaces(front + back),
        !crate::text::is_space(c) ==> crate::hex::without_spaces(front + seq![c] + back)
            == crate::hex::without_spaces(front) + seq![c] + crate::hex::without_spaces(back),
    decreases back.len(),
{
    let text = front + seq![c] + back;
    if back.len() == 0 {
        assert(text.drop_last() =~= front);
        assert(text.last() == c);
        assert(front + back =~= front);
        assert(crate::hex::without_spaces(front) + seq![c] + crate::hex::without_spaces(back)
            =~= crate::hex::without_spaces(front).push(c));
    } else {
        law_whitespace_in_a_key_does_not_count(front, c, back.drop_last());
        assert(text.drop_last() =~= front + seq![c] + back.drop_last());
        assert(text.last() == back.last());
        assert((front + back).drop_last() =~= front + back.drop_last());
        assert((front + back).last() == back.last());
        if !crate::text::is_space(back.last()) {
            assert((crate::hex::without_spaces(front) + seq![c] + crate::hex::without_spaces(
                back.drop_last(),
            )).push(back.last()) =~= crate::hex::without_spaces(front) + seq![c]
                + crate::hex::without_spaces(back.drop_last()).push(back.last()));
        }
    }
}

/// A key of two hexadecimal digits for every byte is read as those bytes, the high digit of
/// each first.
pub proof fn law_a_key_is_its_digits(
    text: &str,
    size: usize,
    key: Result<Vec<u8>, KeyError>,
    i: int,
)
    requires
        2 * size <= usize::MAX,
        call_ensures(read_key, (text, size), key),
        crate::hex::without_spaces(text@).len() == 2 * size,
        forall|j: int|
            0 <= j < 2 * size ==> crate::value_laws::hex_worth(
                #[trigger] crate::hex::without_spaces(text@)[j],
            ) is Some,
        0 <= i < size,
    ensures
        key matches Ok(bytes) && bytes@.len() == size && bytes@[i] as int
            == crate::value_laws::hex_worth(crate::hex::without_spaces(text@)[2 * i])->0 * 16
            + crate::value_laws::hex_worth(crate::hex::without_spaces(text@)[2 * i + 1])->0,
{
    let digits = crate::hex::without_spaces(text@);
    lemma_pairs(digits, i);
    lemma_encoded_len(digits);
}

proof fn lemma_encoded_len(digits: Seq<char>)
    requires
        forall|j: int|
            0 <= j < digits.len() ==> crate::value_laws::hex_worth(#[trigger] digits[j]) is Some,
    ensures
        encode_utf8(digits).len() == digits.len(),
    decreases digits.len(),
{
    if digits.len() > 0 {
        let rest = digits.drop_first();
        assert(crate::value_laws::hex_worth(digits[0]) is Some);
        assert forall|j: int| 0 <= j < rest.len() implies crate::value_laws::hex_worth(
            #[trigger] rest[j],
        ) is Some by {
            assert(crate::value_laws::hex_worth(digits[j + 1]) is Some);
        }
        lemma_encoded_len(rest);
    }
}

proof fn lemma_pairs(digits: Seq<char>, i: int)
    requires
        digits.len() % 2 == 0,
        forall|j: int|
            0 <= j < digits.len() ==> crate::value_laws::hex_worth(#[trigger] digits[j]) is Some,
    ensures
        crate::hex::pairs_value(digits) matches Ok(key) && key.len() == digits.len() / 2 && (0 <= i
            < key.len() ==> key[i] as int == crate::value_laws::hex_worth(digits[2 * i])->0 * 16
            + crate::value_laws::hex_worth(digits[2 * i + 1])->0),
    decreases digits.len(),
{
    if digits.len() > 0 {
        let pair = digits.take(2);
        let rest = digits.skip(2);
        assert(crate::value_laws::hex_worth(digits[0]) is Some);
        assert(crate::value_laws::hex_worth(digits[1]) is Some);
        assert forall|j: int| 0 <= j < rest.len() implies crate::value_laws::hex_worth(
            #[trigger] rest[j],
        ) is Some by {
            assert(crate::value_laws::hex_worth(digits[j + 2]) is Some);
        }
        lemma_pairs(rest, i - 1);
        reveal_with_fuel(crate::numbers::digits_value, 3);
        assert(pair.drop_last() =~= seq![digits[0]]);
        assert(pair.drop_last().drop_last() =~= Seq::<char>::empty());
        assert(pair.last() == digits[1]);
        assert(pair[0] == digits[0]);
        if i > 0 && i < digits.len() / 2 {
            assert(rest[2 * (i - 1)] == digits[2 * i]);
            assert(rest[2 * (i - 1) + 1] == digits[2 * i + 1]);
        }
    }
}

/// A key is refused for its length exactly when its digits are not two bytes of text for every
/// byte, and the refusal carries both numbers.
pub proof fn law_a_key_has_its_length(text: &str, size: usize, key: Result<Vec<u8>, KeyError>)
    requires
        2 * size <= usize::MAX,
        call_ensures(read_key, (text, size), key),
    ensures
        ({
            let found = encode_utf8(crate::hex::without_spaces(text@)).len();
            &&& found != 2 * size ==> (key matches Err(KeyError::WrongLength(expected, given))
                && expected == 2 * size && given == found)
            &&& found == 2 * size ==> !(key matches Err(KeyError::WrongLength(_, _)))
            &&& key matches Ok(bytes) ==> bytes@.len() == size
        }),
{
    lemma_no_length_fault(crate::hex::without_spaces(text@));
}

proof fn lemma_no_length_fault(digits: Seq<char>)
    ensures
        !(crate::hex::pairs_value(digits) matches Err(KeyFault::WrongLength(_, _))),
    decreases digits.len(),
{
    if digits.len() >= 2 {
        lemma_no_length_fault(digits.skip(2));
    }
}

/// The first pair that is no number is what a key is refused for.
pub proof fn law_the_first_pair_that_is_no_number_is_named(front: Seq<char>, a: char, b: char, back: Seq<char>)
    requires
        front.len() % 2 == 0,
        forall|j: int|
            0 <= j < front.len() ==> crate::value_laws::hex_worth(#[trigger] front[j]) is Some,
        a as u32 <= 0x7F,
        b as u32 <= 0x7F,
        crate::value_laws::hex_worth(a) is None && a != '+' || crate::value_laws::hex_worth(b) is None,
    ensures
        crate::hex::pairs_value(front + seq![a, b] + back) == Err::<Seq<u8>, KeyFault>(
            KeyFault::NotHex(seq![a, b]),
        ),
    decreases front.len(),
{
    let text = front + seq![a, b] + back;
    if front.len() == 0 {
        let pair = text.take(2);
        assert(pair =~= seq![a, b]);
        reveal_with_fuel(crate::numbers::digits_value, 3);
        assert(pair.drop_first() =~= seq![b]);
        assert(pair.drop_last() =~= seq![a]);
        assert(seq![b].drop_last() =~= Seq::<char>::empty());
        assert(text[0] == a && text[1] == b);
    } else {
        let rest = front.skip(2);
        assert(text.skip(2) =~= rest + seq![a, b] + back);
        assert forall|j: int| 0 <= j < rest.len() implies crate::value_laws::hex_worth(
            #[trigger] rest[j],
        ) is Some by {
            assert(crate::value_laws::hex_worth(front[j + 2]) is Some);
        }
        law_the_first_pair_that_is_no_number_is_named(rest, a, b, back);
        assert(crate::value_laws::hex_worth(front[0]) is Some);
        assert(crate::value_laws::hex_worth(front[1]) is Some);
        assert(text[0] == front[0] && text[1] == front[1]);
        let pair = text.take(2);
        reveal_with_fuel(crate::numbers::digits_value, 3);
        assert(pair.drop_last() =~= seq![front[0]]);
        assert(pair.drop_last().drop_last() =~= Seq::<char>::empty());
        assert(pair.last() == front[1]);
    }
}

/// Each fault of a key has its message.
pub proof fn law_each_fault_of_a_key_has_its_message(error: KeyError, text: String)
    requires
        call_ensures(KeyError::rendered, (&error,), text),
    ensures
        match error {
            KeyError::WrongLength(expected, found) => text@ == "expected "@
                + crate::numbers::decimal(expected as nat) + " hex digits, found "@
                + crate::numbers::decimal(found as nat),
            KeyError::NotHex(pair) => text@ == "`"@ + pair@ + "` is not hex"@,
            KeyError::SplitCharacter => text@
                == "a character does not end where a pair of bytes ends"@,
        },
{
}

/// A character outside ASCII at the start of a pair is refused as a pair of its own where it
/// takes two bytes, and as one that does not end with a pair where it takes more. So is one
/// that takes more than a byte behind an ASCII character.
pub proof fn law_other_characters_are_no_pair(c: char, d: char, back: Seq<char>)
    ensures
        0x80 <= c as u32 <= 0x7FF ==> crate::hex::pairs_value(seq![c] + back) == Err::<
            Seq<u8>,
            KeyFault,
        >(KeyFault::NotHex(seq![c])),
        c as u32 > 0x7FF ==> crate::hex::pairs_value(seq![c] + back) == Err::<Seq<u8>, KeyFault>(
            KeyFault::SplitCharacter,
        ),
        c as u32 <= 0x7F && d as u32 > 0x7F ==> crate::hex::pairs_value(seq![c, d] + back) == Err::<
            Seq<u8>,
            KeyFault,
        >(KeyFault::SplitCharacter),
{
    let text = seq![c] + back;
    assert(text[0] == c);
    assert(text.take(1) =~= seq![c]);
    let two = seq![c, d] + back;
    assert(two[0] == c && two[1] == d);
}

} // verus!
