//! Laws of program text: how references are resolved, and which reads of a parameter stand.

use vstd::prelude::*;

use crate::diagnostics::{EncodeError, EncodeFault};
use crate::programs::{check_getparam_arity, resolve_references};
use crate::registry::ParameterSpec;

verus! {

/// Two texts are the same but for case exactly when they are as long and each character is the
/// same, or the one is a capital ASCII letter and the other the small one of it.
pub proof fn law_case_is_that_of_ascii_letters(one: Seq<char>, other: Seq<char>)
    ensures
        crate::text::same_but_for_case(one, other) <==> {
            &&& one.len() == other.len()
            &&& forall|i: int|
                0 <= i < one.len() ==> {
                    ||| #[trigger] one[i] == other[i]
                    ||| 'A' <= one[i] <= 'Z' && other[i] as u32 == one[i] as u32 + 32
                    ||| 'A' <= other[i] <= 'Z' && one[i] as u32 == other[i] as u32 + 32
                }
        },
{
    assert forall|a: char, b: char| #[trigger]
        crate::text::ascii_lower(a) == #[trigger] crate::text::ascii_lower(b) implies {
        ||| a == b
        ||| 'A' <= a <= 'Z' && b as u32 == a as u32 + 32
        ||| 'A' <= b <= 'Z' && a as u32 == b as u32 + 32
    } by {
        lemma_lower(a);
        lemma_lower(b);
    }
    assert forall|a: char, b: char|
        {
            ||| a == b
            ||| 'A' <= a <= 'Z' && b as u32 == a as u32 + 32
            ||| 'A' <= b <= 'Z' && a as u32 == b as u32 + 32
        } implies #[trigger] crate::text::ascii_lower(a) == #[trigger] crate::text::ascii_lower(
        b,
    ) by {
        lemma_lower(a);
        lemma_lower(b);
        if a as u32 == b as u32 {
            assert(a == b);
        }
        if 'A' <= a <= 'Z' && b as u32 == a as u32 + 32 {
            assert(crate::text::ascii_lower(a) as u32 == b as u32);
        }
        if 'A' <= b <= 'Z' && a as u32 == b as u32 + 32 {
            assert(crate::text::ascii_lower(b) as u32 == a as u32);
        }
    }
    if crate::text::same_but_for_case(one, other) {
        assert forall|i: int| 0 <= i < one.len() implies {
            ||| #[trigger] one[i] == other[i]
            ||| 'A' <= one[i] <= 'Z' && other[i] as u32 == one[i] as u32 + 32
            ||| 'A' <= other[i] <= 'Z' && one[i] as u32 == other[i] as u32 + 32
        } by {
            assert(crate::text::ascii_lower(one[i]) == crate::text::ascii_lower(other[i]));
        }
    }
}

proof fn lemma_lower(c: char)
    ensures
        'A' <= c <= 'Z' ==> crate::text::ascii_lower(c) as u32 == c as u32 + 32,
        !('A' <= c <= 'Z') ==> crate::text::ascii_lower(c) == c,
{
}

/// Whether `text` is an instruction: a word, what stands behind it, and perhaps a comment.
pub open spec fn is_instruction(text: Seq<char>, word: Seq<char>, rest: Seq<char>) -> bool {
    &&& word.len() > 0
    &&& crate::value_laws::no_separators(word, false)
    &&& !word.contains(';')
    &&& rest.len() > 0 ==> crate::text::is_space(rest[0]) && !crate::text::is_space(rest.last())
    &&& !rest.contains(';')
    &&& exists|front: Seq<char>, back: Seq<char>, comment: Seq<char>|
        #[trigger] (front + word + rest + back + comment) == text
            && crate::value_laws::all_spaces(front) && crate::value_laws::all_spaces(back) && (
        comment.len() > 0 ==> comment[0] == ';')
}

/// How an instruction is taken apart.
proof fn lemma_instruction(text: Seq<char>, word: Seq<char>, rest: Seq<char>)
    requires
        is_instruction(text, word, rest),
    ensures
        ({
            let code = crate::text::trim_of(
                text.take(crate::text::position_of(text, ';') as int),
            );
            let end = crate::text::field_len(code, false) as int;
            code == word + rest && code.take(end) == word && code.skip(end) == rest
        }),
{
    let (front, back, comment) = choose|front: Seq<char>, back: Seq<char>, comment: Seq<char>|
        #[trigger] (front + word + rest + back + comment) == text
            && crate::value_laws::all_spaces(front) && crate::value_laws::all_spaces(back) && (
        comment.len() > 0 ==> comment[0] == ';');
    let core = word + rest;
    let kept = front + core + back;
    assert(text =~= kept + comment);
    crate::writing_laws::lemma_spaces_hold_neither(front);
    crate::writing_laws::lemma_spaces_hold_neither(back);
    crate::writing_laws::lemma_sum_holds(word, rest, ';');
    crate::writing_laws::lemma_sum_holds(front, core, ';');
    crate::writing_laws::lemma_sum_holds(front + core, back, ';');
    crate::writing_laws::lemma_cut(kept, comment, ';');
    assert(core[0] == word[0]);
    assert(!crate::text::is_space(word[0]));
    assert(!crate::text::is_space(word[word.len() - 1]));
    assert(core.last() == if rest.len() > 0 {
        rest.last()
    } else {
        word[word.len() - 1]
    });
    crate::value_laws::law_trimming_leaves_the_core(front, core, back);
    if rest.len() > 0 {
        assert(rest.take(1)[0] == rest[0]);
    }
    crate::value_laws::lemma_field_len_is(word, rest, false);
    assert(core.take(word.len() as int) =~= word);
    assert(core.skip(word.len() as int) =~= rest);
}

/// An instruction with another word has no fault, whatever stands behind it.
pub proof fn law_other_instructions_are_left_alone(
    line: nat,
    text: Seq<char>,
    word: Seq<char>,
    rest: Seq<char>,
)
    requires
        is_instruction(text, word, rest),
        !crate::text::same_but_for_case(word, "GETPARAM"@),
    ensures
        crate::programs::getparam_fault(line, text) is None,
{
    lemma_instruction(text, word, rest);
}

/// A `GETPARAM` with anything but two operands is refused.
pub proof fn law_getparam_takes_two_operands(
    line: nat,
    text: Seq<char>,
    word: Seq<char>,
    rest: Seq<char>,
)
    requires
        is_instruction(text, word, rest),
        crate::text::same_but_for_case(word, "GETPARAM"@),
        crate::text::fields_of(rest, true).len() != 2,
    ensures
        crate::programs::getparam_fault(line, text) == Some(
            EncodeFault {
                line,
                message: "GETPARAM takes a parameter identifier and an argument count"@,
            },
        ),
{
    lemma_instruction(text, word, rest);
}

/// Whether `rest` holds two operands, with separators in front of each.
pub open spec fn holds_operands(rest: Seq<char>, one: Seq<char>, other: Seq<char>) -> bool {
    &&& one.len() > 0
    &&& other.len() > 0
    &&& crate::value_laws::no_separators(one, true)
    &&& crate::value_laws::no_separators(other, true)
    &&& exists|gap: Seq<char>, between: Seq<char>|
        #[trigger] (gap + one + between + other) == rest && between.len() > 0
            && crate::value_laws::all_separators(gap, true) && crate::value_laws::all_separators(
            between,
            true,
        )
}

proof fn lemma_operands(rest: Seq<char>, one: Seq<char>, other: Seq<char>)
    requires
        holds_operands(rest, one, other),
    ensures
        crate::text::fields_of(rest, true) == seq![one, other],
{
    let none = Seq::<char>::empty();
    let (gap, between) = choose|gap: Seq<char>, between: Seq<char>|
        #[trigger] (gap + one + between + other) == rest && between.len() > 0
            && crate::value_laws::all_separators(gap, true) && crate::value_laws::all_separators(
            between,
            true,
        );
    let behind = between + other;
    assert(rest =~= gap + one + behind);
    assert(behind.take(1)[0] == between[0]);
    crate::value_laws::law_fields_stand_between_separators(gap, one, behind, true);
    assert(behind =~= between + other + none);
    crate::value_laws::law_fields_stand_between_separators(between, other, none, true);
    crate::value_laws::law_fields_stand_between_separators(none, one, none, true);
    assert(crate::text::fields_of(behind, true) =~= seq![other]);
    assert(crate::text::fields_of(rest, true) =~= seq![one, other]);
}

/// A `GETPARAM` with two numbers has no fault exactly when the first is the identifier of an
/// allocated parameter, and the second is the number of arguments that it takes: one for the
/// registration price, none for every other. A fault names what is wrong.
pub proof fn law_getparam_is_held_to_the_registry(
    line: usize,
    text: &[char],
    checked: Result<(), EncodeError>,
    word: Seq<char>,
    rest: Seq<char>,
    one: Seq<char>,
    other: Seq<char>,
    id: u64,
    argc: u64,
)
    requires
        call_ensures(check_getparam_arity, (line, text), checked),
        is_instruction(text@, word, rest),
        crate::text::same_but_for_case(word, "GETPARAM"@),
        holds_operands(rest, one, other),
        crate::numbers::number_value(one) == Some(id),
        crate::numbers::number_value(other) == Some(argc),
    ensures
        checked is Ok <==> {
            &&& 1 <= id <= 29
            &&& id == 24 ==> argc == 1
            &&& id != 24 ==> argc == 0
        },
        checked is Ok <==> crate::programs::getparam_fault(line as nat, text@) is None,
        checked matches Err(error) ==> {
            &&& crate::programs::getparam_fault(line as nat, text@) == Some(error@)
            &&& error.line == line
            &&& !(1 <= id <= 29) ==> error.message@ == "GETPARAM names identifier "@
                + crate::numbers::decimal(id as nat) + ", which the registry does not allocate"@
            &&& 1 <= id <= 29 ==> error.message@ == "GETPARAM declares "@
                + crate::numbers::decimal(argc as nat) + " argument(s) for identifier "@
                + crate::numbers::decimal(id as nat) + ", but the registry records arity "@
                + crate::numbers::decimal(ParameterSpec::registered(id as u8).args as nat)
        },
{
    lemma_instruction(text@, word, rest);
    lemma_operands(rest, one, other);
}

/// A `GETPARAM` with an operand that is no number is left to the assembler.
pub proof fn law_other_operands_are_left_to_the_assembler(
    line: nat,
    text: Seq<char>,
    word: Seq<char>,
    rest: Seq<char>,
    one: Seq<char>,
    other: Seq<char>,
)
    requires
        is_instruction(text, word, rest),
        holds_operands(rest, one, other),
        crate::numbers::number_value(one) is None || crate::numbers::number_value(other) is None,
    ensures
        crate::programs::getparam_fault(line, text) is None,
{
    lemma_instruction(text, word, rest);
    lemma_operands(rest, one, other);
}

/// A line of whitespace, or with nothing but a comment, has no fault.
pub proof fn law_a_blank_line_has_no_fault(
    line: nat,
    spaces: Seq<char>,
    comment: Seq<char>,
)
    requires
        crate::value_laws::all_spaces(spaces),
        comment.len() > 0 ==> comment[0] == ';',
    ensures
        crate::programs::getparam_fault(line, spaces + comment) is None,
{
    let none = Seq::<char>::empty();
    crate::writing_laws::lemma_spaces_hold_neither(spaces);
    crate::writing_laws::lemma_cut(spaces, comment, ';');
    assert(spaces =~= spaces + none + none);
    crate::value_laws::law_trimming_leaves_the_core(spaces, none, none);
    reveal_strlit("GETPARAM");
}

// References.

/// Whether every character may stand in a name.
pub open spec fn all_name_chars(text: Seq<char>) -> bool {
    forall|i: int|
        0 <= i < text.len() ==> {
            ||| 'a' <= #[trigger] text[i] <= 'z'
            ||| 'A' <= text[i] <= 'Z'
            ||| '0' <= text[i] <= '9'
            ||| text[i] == '_'
        }
}

/// A line without `@` stays as it is.
pub proof fn law_a_line_without_references_stays(text: Seq<char>)
    requires
        !text.contains('@'),
    ensures
        crate::programs::rewritten(text) == Ok::<Seq<char>, Seq<char>>(text),
{
    crate::value_laws::lemma_position_nowhere(text, '@');
}

/// The first `@name` is rewritten to the identifier that the name stands for, in decimal, and
/// what stands round it stays. A name that stands for none is the fault. The name ends with the
/// first character that is neither an ASCII letter, nor a digit, nor an underscore.
pub proof fn law_a_reference_becomes_an_identifier(
    front: Seq<char>,
    name: Seq<char>,
    rest: Seq<char>,
    id: u8,
)
    requires
        !front.contains('@'),
        all_name_chars(name),
        rest.len() > 0 ==> !all_name_chars(rest.take(1)),
    ensures
        1 <= id <= 29 && name == crate::names::name_of(id) ==> crate::programs::rewritten(
            front + seq!['@'] + name + rest,
        ) == match crate::programs::rewritten(rest) {
            Ok(text) => Ok(front + crate::numbers::decimal(id as nat) + text),
            Err(unknown) => Err(unknown),
        },
        (forall|other: u8| 1 <= other <= 29 ==> name != #[trigger] crate::names::name_of(other))
            ==> crate::programs::rewritten(front + seq!['@'] + name + rest) == Err::<
            Seq<char>,
            Seq<char>,
        >(name),
{
    let text = front + seq!['@'] + name + rest;
    let after = name + rest;
    assert(text =~= front.push('@') + after);
    crate::value_laws::lemma_position_behind(front, '@', after);
    assert(text.skip(front.len() as int + 1) =~= after);
    assert(text.take(front.len() as int) =~= front);
    lemma_name_len_is(name, rest);
    assert(after.take(name.len() as int) =~= name);
    assert(after.skip(name.len() as int) =~= rest);
    crate::names::lemma_identifier_from(name, 0);
    if 1 <= id <= 29 && name == crate::names::name_of(id) {
        crate::names::law_names_match_the_registry(id, id);
        if let Ok(more) = crate::programs::rewritten(rest) {
            assert(front + (crate::numbers::decimal(id as nat) + more) =~= front
                + crate::numbers::decimal(id as nat) + more);
        }
    }
}

proof fn lemma_name_len_is(name: Seq<char>, rest: Seq<char>)
    requires
        all_name_chars(name),
        rest.len() > 0 ==> !all_name_chars(rest.take(1)),
    ensures
        crate::text::name_len(name + rest) == name.len(),
    decreases name.len(),
{
    let text = name + rest;
    if name.len() > 0 {
        assert(text[0] == name[0]);
        assert(crate::text::is_name_char(name[0]));
        assert(text.drop_first() =~= name.drop_first() + rest);
        assert forall|i: int| 0 <= i < name.drop_first().len() implies {
            ||| 'a' <= #[trigger] name.drop_first()[i] <= 'z'
            ||| 'A' <= name.drop_first()[i] <= 'Z'
            ||| '0' <= name.drop_first()[i] <= '9'
            ||| name.drop_first()[i] == '_'
        } by {
            assert(crate::text::is_name_char(name[i + 1]));
        }
        lemma_name_len_is(name.drop_first(), rest);
    } else if rest.len() > 0 {
        assert(text =~= rest);
        assert(rest.take(1)[0] == rest[0]);
    }
}

/// Program text is resolved line by line: each line is rewritten, checked and closed by a line
/// feed, and the first line with a fault decides, under its own number.
pub proof fn law_program_text_is_resolved_line_by_line(
    first: Seq<char>,
    body: Seq<Seq<char>>,
    line: nat,
)
    ensures
        crate::programs::references(Seq::empty(), line) == Ok::<Seq<char>, EncodeFault>(
            Seq::empty(),
        ),
        crate::programs::references(seq![first] + body, line) == match crate::programs::rewritten(
            first,
        ) {
            Err(name) => Err(
                EncodeFault { line, message: "unknown parameter `@"@ + name + "`"@ },
            ),
            Ok(text) => match (
                crate::programs::getparam_fault(line, text),
                crate::programs::references(body, line + 1),
            ) {
                (Some(fault), _) => Err(fault),
                (None, Err(fault)) => Err(fault),
                (None, Ok(rest)) => Ok(text + seq!['\n'] + rest),
            },
        },
{
    let all = seq![first] + body;
    assert(all[0] == first);
    assert(all.drop_first() =~= body);
    if let Ok(text) = crate::programs::rewritten(first) {
        assert(text.push('\n') =~= text + seq!['\n']);
    }
}

/// Resolving references is what the laws of program text speak of. The first line of the body
/// stands behind `offset` lines.
pub proof fn law_resolving_gives_the_text(
    body: &[&[char]],
    offset: usize,
    resolved: Result<String, EncodeError>,
)
    requires
        offset + body@.len() <= usize::MAX,
        call_ensures(resolve_references, (body, offset), resolved),
    ensures
        match resolved {
            Ok(text) => crate::programs::references(
                crate::text::line_models(body@),
                (offset + 1) as nat,
            ) == Ok::<Seq<char>, EncodeFault>(text@),
            Err(error) => crate::programs::references(
                crate::text::line_models(body@),
                (offset + 1) as nat,
            ) == Err::<Seq<char>, EncodeFault>(error@),
        },
{
}

} // verus!
