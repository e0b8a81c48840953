//! Operations on character sequences.
//!
//! Text is taken apart as a slice of characters, so that an index is a position in the
//! sequence that the contracts speak of.

use vstd::prelude::*;

verus! {

/// Appends one character to a string.
///
/// `String::push` puts the character at the end, after what the string already holds.
pub assume_specification[ String::push ](text: &mut String, c: char)
    ensures
        final(text)@ == old(text)@.push(c),
;

/// The characters of a string.
pub fn characters(text: &str) -> (chars: Vec<char>)
    ensures
        chars@ == text@,
{
    let mut chars: Vec<char> = Vec::new();
    for c in it: text.chars()
        invariant
            it.seq() == text@,
            chars@ == text@.take(it.index() as int),
    {
        proof {
            assert(text@.take(it.index() + 1) =~= text@.take(it.index() as int).push(c));
        }
        chars.push(c);
    }
    assert(text@.take(text@.len() as int) =~= text@);
    chars
}

/// Appends characters to a string.
pub fn push_all(out: &mut String, chars: &[char])
    ensures
        final(out)@ == old(out)@ + chars@,
{
    let ghost before = out@;
    let mut i: usize = 0;
    assert(before + chars@.take(0) =~= before);
    while i < chars.len()
        invariant
            i <= chars@.len(),
            out@ == before + chars@.take(i as int),
        decreases chars@.len() - i,
    {
        out.push(chars[i]);
        i = i + 1;
        assert(before + chars@.take(i as int) =~= (before + chars@.take(i - 1)).push(
            chars@[i - 1],
        ));
    }
    assert(chars@.take(chars@.len() as int) =~= chars@);
}

/// A string of the given characters.
pub fn string_of(chars: &[char]) -> (text: String)
    ensures
        text@ == chars@,
{
    let mut text = String::new();
    push_all(&mut text, chars);
    assert(Seq::<char>::empty() + chars@ =~= chars@);
    text
}

/// Whether two runs of characters are the same.
pub fn same(one: &[char], other: &[char]) -> (equal: bool)
    ensures
        equal == (one@ == other@),
{
    if one.len() != other.len() {
        return false;
    }
    let mut i: usize = 0;
    while i < one.len()
        invariant
            i <= one@.len(),
            one@.len() == other@.len(),
            forall|j: int| 0 <= j < i ==> one@[j] == other@[j],
        decreases one@.len() - i,
    {
        if one[i] != other[i] {
            assert(one@[i as int] != other@[i as int]);
            return false;
        }
        i = i + 1;
    }
    assert(one@ =~= other@);
    true
}

/// Whether a character has the Unicode `White_Space` property.
pub open spec fn is_space(c: char) -> bool {
    let point = c as u32;
    ||| 0x09 <= point <= 0x0D
    ||| point == 0x20
    ||| point == 0x85
    ||| point == 0xA0
    ||| point == 0x1680
    ||| 0x2000 <= point <= 0x200A
    ||| point == 0x2028
    ||| point == 0x2029
    ||| point == 0x202F
    ||| point == 0x205F
    ||| point == 0x3000
}

/// Whether a character has the Unicode `White_Space` property.
pub fn is_whitespace(c: char) -> (space: bool)
    ensures
        space == is_space(c),
{
    let point: u32 = c as u32;
    (point >= 0x09 && point <= 0x0D) || point == 0x20 || point == 0x85 || point == 0xA0 || point
        == 0x1680 || (point >= 0x2000 && point <= 0x200A) || point == 0x2028 || point == 0x2029
        || point == 0x202F || point == 0x205F || point == 0x3000
}

/// `text` without the whitespace in front of it.
pub open spec fn trim_start_of(text: Seq<char>) -> Seq<char>
    decreases text.len(),
{
    if text.len() > 0 && is_space(text[0]) {
        trim_start_of(text.drop_first())
    } else {
        text
    }
}

/// `text` without the whitespace behind it.
pub open spec fn trim_end_of(text: Seq<char>) -> Seq<char>
    decreases text.len(),
{
    if text.len() > 0 && is_space(text.last()) {
        trim_end_of(text.drop_last())
    } else {
        text
    }
}

/// `text` without the whitespace around it.
pub open spec fn trim_of(text: Seq<char>) -> Seq<char> {
    trim_end_of(trim_start_of(text))
}

/// `text` without the whitespace around it.
pub fn trim<'a>(text: &'a [char]) -> (trimmed: &'a [char])
    ensures
        trimmed@ == trim_of(text@),
{
    let mut start: usize = 0;
    assert(text@.skip(0) =~= text@);
    while start < text.len() && is_whitespace(text[start])
        invariant
            start <= text@.len(),
            trim_start_of(text@) == trim_start_of(text@.skip(start as int)),
        decreases text@.len() - start,
    {
        assert(text@.skip(start as int).drop_first() =~= text@.skip(start + 1));
        start = start + 1;
    }
    let mut end: usize = text.len();
    let ghost from = text@.skip(start as int);
    assert(trim_start_of(text@) == from);
    assert(text@.subrange(start as int, end as int) =~= from);
    while end > start && is_whitespace(text[end - 1])
        invariant
            start <= end <= text@.len(),
            trim_end_of(from) == trim_end_of(text@.subrange(start as int, end as int)),
        decreases end,
    {
        assert(text@.subrange(start as int, end as int).drop_last() =~= text@.subrange(
            start as int,
            end - 1,
        ));
        end = end - 1;
    }
    vstd::slice::slice_subrange(text, start, end)
}

/// The position of the first `c` in `text`, or its length where there is none.
pub open spec fn position_of(text: Seq<char>, c: char) -> nat
    decreases text.len(),
{
    if text.len() == 0 || text[0] == c {
        0
    } else {
        1 + position_of(text.drop_first(), c)
    }
}

pub proof fn lemma_position_of(text: Seq<char>, c: char)
    ensures
        position_of(text, c) <= text.len(),
        position_of(text, c) < text.len() ==> text[position_of(text, c) as int] == c,
        forall|i: int| 0 <= i < position_of(text, c) ==> text[i] != c,
    decreases text.len(),
{
    if text.len() > 0 && text[0] != c {
        let rest = text.drop_first();
        lemma_position_of(rest, c);
        assert forall|i: int| 0 <= i < position_of(text, c) implies text[i] != c by {
            if i > 0 {
                assert(text[i] == rest[i - 1]);
            }
        }
    }
}

/// The position of the first `c` in `text`, or its length where there is none.
pub fn position(text: &[char], c: char) -> (index: usize)
    ensures
        index == position_of(text@, c),
        index <= text@.len(),
        index < text@.len() ==> text@[index as int] == c,
{
    let mut i: usize = 0;
    assert(text@.skip(0) =~= text@);
    while i < text.len() && text[i] != c
        invariant
            i <= text@.len(),
            position_of(text@, c) == i + position_of(text@.skip(i as int), c),
        decreases text@.len() - i,
    {
        assert(text@.skip(i as int).drop_first() =~= text@.skip(i + 1));
        i = i + 1;
    }
    i
}

/// The lines of `text`. A line ends with a line feed, or a carriage return and a line
/// feed, which are not part of it. The last line may lack its ending.
pub open spec fn lines_of(text: Seq<char>) -> Seq<Seq<char>>
    decreases text.len(),
{
    let end = position_of(text, '\n');
    if text.len() == 0 {
        Seq::empty()
    } else if end >= text.len() {
        seq![text]
    } else {
        seq![without_return(text.take(end as int))] + lines_of(text.skip((end + 1) as int))
    }
}

/// `line` without a carriage return at its end.
pub open spec fn without_return(line: Seq<char>) -> Seq<char> {
    if line.len() > 0 && line.last() == '\r' {
        line.drop_last()
    } else {
        line
    }
}

/// The models of a run of lines.
pub open spec fn line_models(lines: Seq<&[char]>) -> Seq<Seq<char>> {
    lines.map_values(|line: &[char]| line@)
}

/// Splits `text` into lines.
pub fn lines<'a>(text: &'a [char]) -> (lines: Vec<&'a [char]>)
    ensures
        line_models(lines@) == lines_of(text@),
{
    let mut lines: Vec<&'a [char]> = Vec::new();
    let mut start: usize = 0;
    assert(text@.skip(0) =~= text@);
    assert(line_models(lines@) + lines_of(text@) =~= lines_of(text@));
    while start < text.len()
        invariant
            start <= text@.len(),
            line_models(lines@) + lines_of(text@.skip(start as int)) == lines_of(text@),
        decreases text@.len() - start,
    {
        let ghost before = line_models(lines@);
        let ghost left = text@.skip(start as int);
        let rest: &'a [char] = vstd::slice::slice_subrange(text, start, text.len());
        assert(rest@ =~= left);
        let end: usize = position(rest, '\n');
        if end == rest.len() {
            lines.push(rest);
            start = text.len();
            proof {
                assert(text@.skip(start as int) =~= Seq::<char>::empty());
                assert(line_models(lines@) =~= before.push(left));
                assert(line_models(lines@) + Seq::<Seq<char>>::empty() =~= before + seq![left]);
            }
        } else {
            let kept: usize = if end > 0 && rest[end - 1] == '\r' {
                end - 1
            } else {
                end
            };
            let line: &'a [char] = vstd::slice::slice_subrange(rest, 0, kept);
            proof {
                assert(line@ =~= without_return(left.take(end as int)));
                assert(left.skip(end + 1) =~= text@.skip(start + end + 1));
            }
            lines.push(line);
            start = start + end + 1;
            proof {
                assert(line_models(lines@) =~= before.push(line@));
                assert(line_models(lines@) + lines_of(text@.skip(start as int)) =~= before + (
                seq![line@] + lines_of(text@.skip(start as int))));
            }
        }
    }
    assert(text@.skip(start as int) =~= Seq::<char>::empty());
    assert(line_models(lines@) + Seq::<Seq<char>>::empty() =~= line_models(lines@));
    lines
}

/// Whether `c` separates fields: whitespace, and the comma where `commas` says so.
pub open spec fn separates(c: char, commas: bool) -> bool {
    is_space(c) || (commas && c == ',')
}

/// How many characters stand in front of the first separator.
pub open spec fn field_len(text: Seq<char>, commas: bool) -> nat
    decreases text.len(),
{
    if text.len() == 0 || separates(text[0], commas) {
        0
    } else {
        1 + field_len(text.drop_first(), commas)
    }
}

pub proof fn lemma_field_len(text: Seq<char>, commas: bool)
    ensures
        field_len(text, commas) <= text.len(),
        text.len() > 0 && !separates(text[0], commas) ==> field_len(text, commas) > 0,
    decreases text.len(),
{
    if text.len() > 0 {
        lemma_field_len(text.drop_first(), commas);
    }
}

/// The fields of `text`: its longest runs without a separator.
pub open spec fn fields_of(text: Seq<char>, commas: bool) -> Seq<Seq<char>>
    decreases text.len(),
{
    if text.len() == 0 {
        Seq::empty()
    } else if separates(text[0], commas) {
        fields_of(text.drop_first(), commas)
    } else {
        proof {
            lemma_field_len(text, commas);
        }
        let len = field_len(text, commas);
        seq![text.take(len as int)] + fields_of(text.skip(len as int), commas)
    }
}

/// How many characters stand in front of the first separator.
pub fn field_end(text: &[char], commas: bool) -> (len: usize)
    ensures
        len == field_len(text@, commas),
        len <= text@.len(),
{
    let mut i: usize = 0;
    assert(text@.skip(0) =~= text@);
    while i < text.len() && !(is_whitespace(text[i]) || (commas && text[i] == ','))
        invariant
            i <= text@.len(),
            field_len(text@, commas) == i + field_len(text@.skip(i as int), commas),
        decreases text@.len() - i,
    {
        assert(text@.skip(i as int).drop_first() =~= text@.skip(i + 1));
        i = i + 1;
    }
    i
}

/// Splits `text` into fields.
pub fn fields<'a>(text: &'a [char], commas: bool) -> (fields: Vec<&'a [char]>)
    ensures
        line_models(fields@) == fields_of(text@, commas),
{
    let mut fields: Vec<&'a [char]> = Vec::new();
    let mut start: usize = 0;
    assert(text@.skip(0) =~= text@);
    assert(line_models(fields@) + fields_of(text@, commas) =~= fields_of(text@, commas));
    while start < text.len()
        invariant
            start <= text@.len(),
            line_models(fields@) + fields_of(text@.skip(start as int), commas) == fields_of(
                text@,
                commas,
            ),
        decreases text@.len() - start,
    {
        let ghost left = text@.skip(start as int);
        if is_whitespace(text[start]) || (commas && text[start] == ',') {
            assert(left.drop_first() =~= text@.skip(start + 1));
            start = start + 1;
        } else {
            let ghost before = line_models(fields@);
            let rest: &'a [char] = vstd::slice::slice_subrange(text, start, text.len());
            assert(rest@ =~= left);
            let len: usize = field_end(rest, commas);
            let field: &'a [char] = vstd::slice::slice_subrange(rest, 0, len);
            proof {
                lemma_field_len(left, commas);
                assert(field@ =~= left.take(len as int));
                assert(left.skip(len as int) =~= text@.skip(start + len));
            }
            fields.push(field);
            start = start + len;
            proof {
                assert(line_models(fields@) =~= before.push(field@));
                assert(line_models(fields@) + fields_of(text@.skip(start as int), commas)
                    =~= before + (seq![field@] + fields_of(text@.skip(start as int), commas)));
            }
        }
    }
    assert(text@.skip(start as int) =~= Seq::<char>::empty());
    assert(line_models(fields@) + Seq::<Seq<char>>::empty() =~= line_models(fields@));
    fields
}

/// Whether `c` may stand in a parameter name: an ASCII letter, a digit or an underscore.
pub open spec fn is_name_char(c: char) -> bool {
    ('a' <= c <= 'z') || ('A' <= c <= 'Z') || ('0' <= c <= '9') || c == '_'
}

/// How long the name at the front of `text` is.
pub open spec fn name_len(text: Seq<char>) -> nat
    decreases text.len(),
{
    if text.len() == 0 || !is_name_char(text[0]) {
        0
    } else {
        1 + name_len(text.drop_first())
    }
}

pub proof fn lemma_name_len(text: Seq<char>)
    ensures
        name_len(text) <= text.len(),
    decreases text.len(),
{
    if text.len() > 0 {
        lemma_name_len(text.drop_first());
    }
}

/// How long the name at the front of `text` is.
pub fn name_end(text: &[char]) -> (len: usize)
    ensures
        len == name_len(text@),
        len <= text@.len(),
{
    let mut i: usize = 0;
    assert(text@.skip(0) =~= text@);
    while i < text.len() && ((text[i] >= 'a' && text[i] <= 'z') || (text[i] >= 'A' && text[i]
        <= 'Z') || (text[i] >= '0' && text[i] <= '9') || text[i] == '_')
        invariant
            i <= text@.len(),
            name_len(text@) == i + name_len(text@.skip(i as int)),
        decreases text@.len() - i,
    {
        assert(text@.skip(i as int).drop_first() =~= text@.skip(i + 1));
        i = i + 1;
    }
    i
}

/// `c` with an ASCII capital made small.
pub open spec fn ascii_lower(c: char) -> char {
    if 'A' <= c <= 'Z' {
        (c as u32 + 32) as char
    } else {
        c
    }
}

/// `c` with an ASCII capital made small.
fn lower(c: char) -> (small: char)
    ensures
        small == ascii_lower(c),
{
    if c >= 'A' && c <= 'Z' {
        ((c as u8) + 32) as char
    } else {
        c
    }
}

/// Whether two runs of characters are the same but for the case of ASCII letters.
pub open spec fn same_but_for_case(one: Seq<char>, other: Seq<char>) -> bool {
    &&& one.len() == other.len()
    &&& forall|i: int|
        0 <= i < one.len() ==> ascii_lower(#[trigger] one[i]) == ascii_lower(other[i])
}

/// Whether two runs of characters are the same but for the case of ASCII letters.
pub fn same_ignoring_case(one: &[char], other: &[char]) -> (equal: bool)
    ensures
        equal == same_but_for_case(one@, other@),
{
    if one.len() != other.len() {
        return false;
    }
    let mut i: usize = 0;
    while i < one.len()
        invariant
            i <= one@.len(),
            one@.len() == other@.len(),
            forall|j: int| 0 <= j < i ==> ascii_lower(#[trigger] one@[j]) == ascii_lower(other@[j]),
        decreases one@.len() - i,
    {
        if lower(one[i]) != lower(other[i]) {
            assert(ascii_lower(one@[i as int]) != ascii_lower(other@[i as int]));
            return false;
        }
        i = i + 1;
    }
    true
}

} // verus!
