//! Laws of writing: what a line of a written configuration comes to.

use vstd::arithmetic::power::pow;
use vstd::prelude::*;

use crate::acceptance::Platform;
use crate::diagnostics::{EncodeError, EncodeFault};
use crate::framing::PayloadModel;
use crate::literals::{parse_byte_list, parse_integer};
use crate::registry::ParameterSpec;
use crate::resolution::{Commitment, ProgramOutcome};
use crate::statements::{
    parse_statement, OverrideModel, ProgramModel, Statement, StatementModel, ValueModel,
};

verus! {

/// A line that assigns `value` to `name`, with whitespace round both and a tail behind.
pub open spec fn assignment(
    front: Seq<char>,
    name: Seq<char>,
    before: Seq<char>,
    after: Seq<char>,
    value: Seq<char>,
    tail: Seq<char>,
) -> Seq<char> {
    front + name + before + seq!['='] + after + value + tail
}

/// Whether `tail` is whitespace, perhaps with a comment behind it.
pub open spec fn is_tail(tail: Seq<char>) -> bool {
    exists|back: Seq<char>, comment: Seq<char>|
        #[trigger] (back + comment) == tail && crate::value_laws::all_spaces(back) && (
        comment.len() > 0 ==> comment[0] == '#')
}

/// Whether `text` has no whitespace at its ends, and no `#` in it.
pub open spec fn is_core(text: Seq<char>) -> bool {
    &&& !text.contains('#')
    &&& text.len() > 0 ==> !crate::text::is_space(text[0]) && !crate::text::is_space(text.last())
}

/// Whether the line at `index` assigns `value` to `name`.
pub open spec fn assigns(
    lines: Seq<Seq<char>>,
    index: int,
    name: Seq<char>,
    value: Seq<char>,
) -> bool {
    &&& 0 <= index < lines.len()
    &&& is_core(name)
    &&& !name.contains('=')
    &&& is_core(value)
    &&& exists|front: Seq<char>, before: Seq<char>, after: Seq<char>, tail: Seq<char>|
        #[trigger] assignment(front, name, before, after, value, tail) == lines[index]
            && crate::value_laws::all_spaces(front) && crate::value_laws::all_spaces(before)
            && crate::value_laws::all_spaces(after) && is_tail(tail)
}

pub proof fn lemma_spaces_hold_neither(spaces: Seq<char>)
    requires
        crate::value_laws::all_spaces(spaces),
    ensures
        !spaces.contains('#'),
        !spaces.contains('='),
        !spaces.contains(';'),
{
    if spaces.contains('#') {
        let i = choose|i: int| 0 <= i < spaces.len() && spaces[i] == '#';
        assert(crate::text::is_space(spaces[i]));
    }
    if spaces.contains('=') {
        let i = choose|i: int| 0 <= i < spaces.len() && spaces[i] == '=';
        assert(crate::text::is_space(spaces[i]));
    }
    if spaces.contains(';') {
        let i = choose|i: int| 0 <= i < spaces.len() && spaces[i] == ';';
        assert(crate::text::is_space(spaces[i]));
    }
}

pub proof fn lemma_sum_holds(one: Seq<char>, other: Seq<char>, c: char)
    requires
        !one.contains(c),
        !other.contains(c),
    ensures
        !(one + other).contains(c),
{
    if (one + other).contains(c) {
        let i = choose|i: int| 0 <= i < (one + other).len() && (one + other)[i] == c;
        if i < one.len() {
            assert(one[i] == c);
        } else {
            assert(other[i - one.len()] == c);
        }
    }
}

/// What stands in front of a character, where it occurs behind or nothing does.
pub proof fn lemma_cut(front: Seq<char>, rest: Seq<char>, c: char)
    requires
        !front.contains(c),
        rest.len() > 0 ==> rest[0] == c,
    ensures
        crate::text::position_of(front + rest, c) == front.len(),
        (front + rest).take(front.len() as int) == front,
{
    assert((front + rest).take(front.len() as int) =~= front);
    if rest.len() > 0 {
        assert(front + rest =~= front.push(c) + rest.drop_first());
        crate::value_laws::lemma_position_behind(front, c, rest.drop_first());
    } else {
        assert(front + rest =~= front);
        crate::value_laws::lemma_position_nowhere(front, c);
    }
}

proof fn lemma_spaces_sum(one: Seq<char>, other: Seq<char>)
    requires
        crate::value_laws::all_spaces(one),
        crate::value_laws::all_spaces(other),
    ensures
        crate::value_laws::all_spaces(one + other),
{
}

/// How an assignment is taken apart.
proof fn lemma_assignment(lines: Seq<Seq<char>>, index: int, name: Seq<char>, value: Seq<char>)
    requires
        assigns(lines, index, name, value),
    ensures
        ({
            let text = crate::text::trim_of(crate::statements::without_comment(lines[index]));
            let equals = crate::text::position_of(text, '=') as int;
            &&& text.len() > 0
            &&& 0 <= equals < text.len()
            &&& crate::text::trim_of(text.take(equals)) == name
            &&& crate::text::trim_of(text.skip(equals + 1)) == value
        }),
{
    let (front, before, after, tail) = choose|
        front: Seq<char>,
        before: Seq<char>,
        after: Seq<char>,
        tail: Seq<char>,
    |
        #[trigger] assignment(front, name, before, after, value, tail) == lines[index]
            && crate::value_laws::all_spaces(front) && crate::value_laws::all_spaces(before)
            && crate::value_laws::all_spaces(after) && is_tail(tail);
    let (back, comment) = choose|back: Seq<char>, comment: Seq<char>|
        #[trigger] (back + comment) == tail && crate::value_laws::all_spaces(back) && (
        comment.len() > 0 ==> comment[0] == '#');
    let none = Seq::<char>::empty();
    let left = name + before;
    let code = front + (left + seq!['='] + after + value) + back;
    assert(lines[index] =~= code + comment);
    lemma_spaces_hold_neither(front);
    lemma_spaces_hold_neither(before);
    lemma_spaces_hold_neither(after);
    lemma_spaces_hold_neither(back);
    lemma_sum_holds(name, before, '#');
    lemma_sum_holds(left, seq!['='], '#');
    lemma_sum_holds(left + seq!['='], after, '#');
    lemma_sum_holds(left + seq!['='] + after, value, '#');
    lemma_sum_holds(front, left + seq!['='] + after + value, '#');
    lemma_sum_holds(front + (left + seq!['='] + after + value), back, '#');
    lemma_cut(code, comment, '#');
    assert(crate::statements::without_comment(lines[index]) == code);
    let (core, ending) = if value.len() > 0 {
        (left + seq!['='] + after + value, back)
    } else {
        (left + seq!['='], after + back)
    };
    lemma_spaces_sum(after, back);
    assert(code =~= front + core + ending);
    assert(core[0] == if left.len() > 0 {
        left[0]
    } else {
        '='
    });
    if name.len() > 0 {
        assert(left[0] == name[0]);
        crate::value_laws::law_trimming_leaves_the_core(front, core, ending);
    } else {
        let bare = if value.len() > 0 {
            seq!['='] + after + value
        } else {
            seq!['=']
        };
        assert(front + core + ending =~= (front + before) + bare + ending);
        lemma_spaces_sum(front, before);
        assert(bare[0] == '=');
        if value.len() > 0 {
            assert(bare.last() == value.last());
        }
        crate::value_laws::law_trimming_leaves_the_core(front + before, bare, ending);
    }
    let text = crate::text::trim_of(code);
    let (head, rest) = if name.len() > 0 {
        (left, if value.len() > 0 {
            after + value
        } else {
            none
        })
    } else {
        (none, if value.len() > 0 {
            after + value
        } else {
            none
        })
    };
    assert(text =~= head + (seq!['='] + rest));
    lemma_sum_holds(name, before, '=');
    lemma_cut(head, seq!['='] + rest, '=');
    assert(text.skip(head.len() as int + 1) =~= rest);
    if name.len() > 0 {
        assert(head =~= none + name + before);
        crate::value_laws::law_trimming_leaves_the_core(none, name, before);
    } else {
        assert(head =~= none + none + none);
        crate::value_laws::law_trimming_leaves_the_core(none, none, none);
        assert(name =~= none);
    }
    if value.len() > 0 {
        assert(rest =~= after + value + none);
        crate::value_laws::law_trimming_leaves_the_core(after, value, none);
    } else {
        assert(rest =~= none + none + none);
        crate::value_laws::law_trimming_leaves_the_core(none, none, none);
        assert(value =~= none);
    }
}

/// Whether every character is a small letter or an underscore.
pub open spec fn plain(name: Seq<char>) -> bool {
    forall|i: int| 0 <= i < name.len() ==> ('a' <= #[trigger] name[i] <= 'z' || name[i] == '_')
}

/// Every name is made of small letters and underscores.
pub proof fn law_names_are_plain(id: u8)
    requires
        1 <= id <= 29,
    ensures
        plain(crate::names::name_of(id)),
        crate::names::name_of(id).len() > 0,
{
    reveal_strlit("inter_block_interval_ms");
    reveal_strlit("grace_period_window_ms");
    reveal_strlit("block_size_limit");
    reveal_strlit("max_block_utxo_output");
    reveal_strlit("max_aggregated_signatures");
    reveal_strlit("vote_scale");
    reveal_strlit("vote_interest");
    reveal_strlit("parent_recovery_per_head_retry_interval_ms");
    reveal_strlit("parent_recovery_min_emit_interval_ms");
    reveal_strlit("required_support");
    reveal_strlit("echo_request_minimal_interval");
    reveal_strlit("echo_messages_target_interval");
    reveal_strlit("echo_gathering_timeout");
    reveal_strlit("delay_between_tx_packets");
    reveal_strlit("delay_between_tx_messages");
    reveal_strlit("relay_position_delay");
    reveal_strlit("scoring_matrix");
    reveal_strlit("retry_interval_for_missing_packets");
    reveal_strlit("tx_maximum_random_delay");
    reveal_strlit("block_fill_threshold_percent");
    reveal_strlit("active_chain_length");
    reveal_strlit("mempool_replenishment_interval_ms");
    reveal_strlit("custodian_fee");
    reveal_strlit("registration_price");
    reveal_strlit("tx_fee_per_byte_min");
    reveal_strlit("tx_fee_per_byte_max");
    reveal_strlit("deviation_replay_insertion_delay_ms");
    reveal_strlit("replay_block_reward");
    reveal_strlit("vm_fuel_limit");
}


proof fn lemma_named(lines: Seq<Seq<char>>, index: int, id: u8, value: Seq<char>)
    requires
        1 <= id <= 29,
        assigns(lines, index, crate::names::name_of(id), value),
    ensures
        crate::names::identifier_named(crate::names::name_of(id)) == Some(id),
{
    crate::names::law_names_match_the_registry(id, id);
}

/// A line that assigns a number to a parameter sets it, on that line, to a literal of the
/// declared width that writes the number lowest byte first. The next statement begins on the
/// next line.
pub proof fn law_an_integer_sets_its_parameter(
    lines: Seq<Seq<char>>,
    index: int,
    id: u8,
    text: Seq<char>,
    number: u64,
)
    requires
        1 <= id <= 29,
        assigns(lines, index, crate::names::name_of(id), text),
        crate::numbers::number_value(text) == Some(number),
        number < pow(256, ParameterSpec::registered(id).width as nat),
    ensures
        crate::statements::statement_at(lines, index) matches Ok(
            (StatementModel::Literal(entry), next),
        ) && {
            &&& next == index + 1
            &&& entry.line == index + 1
            &&& entry.id == id
            &&& entry.value matches ValueModel::Literal(bytes) && {
                &&& bytes.len() == ParameterSpec::registered(id).width
                &&& crate::bytes::le_value(bytes) == number
                &&& forall|i: int|
                    0 <= i < bytes.len() ==> #[trigger] bytes[i] == number as int / pow(
                        256,
                        i as nat,
                    ) % 256
            }
        },
{
    let width = ParameterSpec::registered(id).width as nat;
    lemma_assignment(lines, index, crate::names::name_of(id), text);
    lemma_named(lines, index, id, text);
    lemma_numbers_are_no_other_value(text);
    let bytes = crate::bytes::le_bytes(number as nat, width);
    crate::bytes::lemma_le_bytes_len(number as nat, width);
    crate::value_laws::law_a_width_bounds_the_number(bytes);
    crate::bytes::law_le_round_trip(number as nat, width);
    assert forall|i: int| 0 <= i < bytes.len() implies #[trigger] bytes[i] == number as int / pow(
        256,
        i as nat,
    ) % 256 by {
        crate::value_laws::law_the_first_byte_is_the_lowest(bytes, i);
    }
}

/// A number begins neither a list nor a program.
proof fn lemma_numbers_are_no_other_value(text: Seq<char>)
    requires
        crate::numbers::number_value(text) is Some,
        is_core(text),
    ensures
        text.len() > 0,
        text[0] != '[',
        text != seq!['{'],
{
    if text.len() == 0 {
        crate::value_laws::law_a_plus_sign_is_no_digit(text);
    } else if text[0] == '[' {
        crate::value_laws::law_other_characters_are_no_number(text, 0);
    } else if text == seq!['{'] {
        crate::value_laws::law_other_characters_are_no_number(text, 0);
    }
}

/// A line that assigns a number too large for the width of the parameter is refused with the
/// number, the name and the width.
pub proof fn law_an_integer_that_does_not_fit_is_refused(
    lines: Seq<Seq<char>>,
    index: int,
    id: u8,
    text: Seq<char>,
    number: u64,
)
    requires
        1 <= id <= 29,
        assigns(lines, index, crate::names::name_of(id), text),
        crate::numbers::number_value(text) == Some(number),
        number >= pow(256, ParameterSpec::registered(id).width as nat),
    ensures
        crate::statements::statement_at(lines, index) == Err::<(StatementModel, int), EncodeFault>(
            EncodeFault {
                line: (index + 1) as nat,
                message: crate::numbers::decimal(number as nat) + " does not fit `"@
                    + crate::names::name_of(id) + "`'s "@ + crate::numbers::decimal(
                    ParameterSpec::registered(id).width as nat,
                ) + "-byte width"@,
            },
        ),
{
    let width = ParameterSpec::registered(id).width as nat;
    lemma_assignment(lines, index, crate::names::name_of(id), text);
    lemma_named(lines, index, id, text);
    lemma_numbers_are_no_other_value(text);
    let bytes = crate::bytes::le_bytes(0, width);
    crate::bytes::lemma_le_bytes_len(0, width);
    crate::value_laws::law_a_width_bounds_the_number(bytes);
}

/// A line that assigns what is neither a number, nor a list, nor a program is refused with the
/// text.
pub proof fn law_what_is_no_number_is_refused(
    lines: Seq<Seq<char>>,
    index: int,
    id: u8,
    text: Seq<char>,
)
    requires
        1 <= id <= 29,
        assigns(lines, index, crate::names::name_of(id), text),
        crate::numbers::number_value(text) is None,
        text.len() > 0 ==> text[0] != '[',
        text != seq!['{'],
    ensures
        crate::statements::statement_at(lines, index) == Err::<(StatementModel, int), EncodeFault>(
            EncodeFault {
                line: (index + 1) as nat,
                message: "`"@ + text + "` is not an integer literal"@,
            },
        ),
{
    lemma_assignment(lines, index, crate::names::name_of(id), text);
    lemma_named(lines, index, id, text);
}

/// A line that assigns to a name that stands for no parameter is refused with the name.
pub proof fn law_an_unknown_name_is_refused(
    lines: Seq<Seq<char>>,
    index: int,
    name: Seq<char>,
    value: Seq<char>,
)
    requires
        assigns(lines, index, name, value),
        forall|id: u8| 1 <= id <= 29 ==> name != #[trigger] crate::names::name_of(id),
    ensures
        crate::statements::statement_at(lines, index) == Err::<(StatementModel, int), EncodeFault>(
            EncodeFault {
                line: (index + 1) as nat,
                message: "unknown parameter `"@ + name + "`"@,
            },
        ),
{
    lemma_assignment(lines, index, name, value);
    crate::names::lemma_identifier_from(name, 0);
}

/// A line of whitespace, or with nothing but a comment, says nothing.
pub proof fn law_a_blank_line_says_nothing(lines: Seq<Seq<char>>, index: int)
    requires
        0 <= index < lines.len(),
        is_tail(lines[index]),
    ensures
        crate::statements::statement_at(lines, index) == Ok::<(StatementModel, int), EncodeFault>(
            (StatementModel::Blank, index + 1),
        ),
{
    let none = Seq::<char>::empty();
    let (back, comment) = choose|back: Seq<char>, comment: Seq<char>|
        #[trigger] (back + comment) == lines[index] && crate::value_laws::all_spaces(back) && (
        comment.len() > 0 ==> comment[0] == '#');
    lemma_spaces_hold_neither(back);
    lemma_cut(back, comment, '#');
    assert(back =~= back + none + none);
    crate::value_laws::law_trimming_leaves_the_core(back, none, none);
}

/// A line that says something and holds no `=` in front of its comment is refused.
pub proof fn law_a_line_without_an_assignment_is_refused(
    lines: Seq<Seq<char>>,
    index: int,
    front: Seq<char>,
    core: Seq<char>,
    tail: Seq<char>,
)
    requires
        0 <= index < lines.len(),
        lines[index] == front + core + tail,
        crate::value_laws::all_spaces(front),
        is_core(core),
        core.len() > 0,
        !core.contains('='),
        is_tail(tail),
    ensures
        crate::statements::statement_at(lines, index) == Err::<(StatementModel, int), EncodeFault>(
            EncodeFault { line: (index + 1) as nat, message: "expected `name = value`"@ },
        ),
{
    let (back, comment) = choose|back: Seq<char>, comment: Seq<char>|
        #[trigger] (back + comment) == tail && crate::value_laws::all_spaces(back) && (
        comment.len() > 0 ==> comment[0] == '#');
    let code = front + core + back;
    assert(lines[index] =~= code + comment);
    lemma_spaces_hold_neither(front);
    lemma_spaces_hold_neither(back);
    lemma_sum_holds(front, core, '#');
    lemma_sum_holds(front + core, back, '#');
    lemma_cut(code, comment, '#');
    crate::value_laws::law_trimming_leaves_the_core(front, core, back);
    crate::value_laws::lemma_position_nowhere(core, '=');
}

/// Reading a statement is what the laws of writing speak of.
pub proof fn law_parsing_gives_the_statement(
    lines: &[&[char]],
    index: usize,
    found: Result<(Statement, usize), EncodeError>,
)
    requires
        call_ensures(parse_statement, (lines, index), found),
        index < lines@.len(),
    ensures
        match found {
            Ok((statement, next)) => crate::statements::statement_at(
                crate::text::line_models(lines@),
                index as int,
            ) == Ok::<(StatementModel, int), EncodeFault>((statement@, next as int)),
            Err(error) => crate::statements::statement_at(
                crate::text::line_models(lines@),
                index as int,
            ) == Err::<(StatementModel, int), EncodeFault>(error@),
        },
{
}

// Byte lists.

/// A line that assigns a list of bytes sets the parameter to those bytes, in order, where they
/// are as many as the parameter is wide, and is refused with both numbers where they are not.
pub proof fn law_a_list_sets_its_parameter(
    lines: Seq<Seq<char>>,
    index: int,
    id: u8,
    inner: Seq<char>,
)
    requires
        1 <= id <= 29,
        assigns(lines, index, crate::names::name_of(id), seq!['['] + inner + seq![']']),
    ensures
        crate::statements::statement_at(lines, index) == match crate::literals::items_bytes(
            (index + 1) as nat,
            inner,
        ) {
            Err(fault) => Err(fault),
            Ok(bytes) => if bytes.len() == ParameterSpec::registered(id).width {
                Ok(
                    (
                        StatementModel::Literal(
                            OverrideModel {
                                line: (index + 1) as nat,
                                id,
                                value: ValueModel::Literal(bytes),
                            },
                        ),
                        index + 1,
                    ),
                )
            } else {
                Err(
                    EncodeFault {
                        line: (index + 1) as nat,
                        message: "`"@ + crate::names::name_of(id) + "` is "@
                            + crate::numbers::decimal(ParameterSpec::registered(id).width as nat)
                            + " bytes wide, but "@ + crate::numbers::decimal(bytes.len())
                            + " were given"@,
                    },
                )
            },
        },
{
    let text = seq!['['] + inner + seq![']'];
    lemma_assignment(lines, index, crate::names::name_of(id), text);
    lemma_named(lines, index, id, text);
    assert(text.subrange(1, text.len() - 1) =~= inner);
    assert(text.last() == ']');
    assert(text != seq!['{']);
}

/// A list that is not closed is refused.
pub proof fn law_an_open_list_is_refused(
    lines: Seq<Seq<char>>,
    index: int,
    id: u8,
    text: Seq<char>,
)
    requires
        1 <= id <= 29,
        assigns(lines, index, crate::names::name_of(id), text),
        text.len() > 0,
        text[0] == '[',
        text.last() != ']',
    ensures
        crate::statements::statement_at(lines, index) == Err::<(StatementModel, int), EncodeFault>(
            EncodeFault {
                line: (index + 1) as nat,
                message: "a byte list must be enclosed in `[` and `]`"@,
            },
        ),
{
    lemma_assignment(lines, index, crate::names::name_of(id), text);
    lemma_named(lines, index, id, text);
    assert(text != seq!['{']);
}

/// One item of a list gives one byte, the number that it writes. An empty item gives none. One
/// that writes no number, or one above 255, is refused with the item.
pub proof fn law_an_item_is_a_byte(
    line: nat,
    front: Seq<char>,
    item: Seq<char>,
    back: Seq<char>,
)
    requires
        crate::value_laws::all_spaces(front),
        crate::value_laws::all_spaces(back),
        item.len() > 0 ==> !crate::text::is_space(item[0]) && !crate::text::is_space(item.last()),
        !item.contains(','),
    ensures
        crate::literals::items_bytes(line, front + item + back) == if item.len() == 0 {
            Ok::<Seq<u8>, EncodeFault>(Seq::empty())
        } else {
            match crate::numbers::number_value(item) {
                Some(number) if number <= 255 => Ok(seq![number as u8]),
                Some(_) => Err(
                    EncodeFault { line, message: "`"@ + item + "` does not fit one byte"@ },
                ),
                None => Err(
                    EncodeFault { line, message: "`"@ + item + "` is not a byte value"@ },
                ),
            }
        },
{
    let text = front + item + back;
    lemma_no_comma(front);
    lemma_no_comma(back);
    lemma_sum_holds(front, item, ',');
    lemma_sum_holds(front + item, back, ',');
    crate::value_laws::lemma_position_nowhere(text, ',');
    assert(text.take(text.len() as int) =~= text);
    crate::value_laws::law_trimming_leaves_the_core(front, item, back);
}

proof fn lemma_no_comma(spaces: Seq<char>)
    requires
        crate::value_laws::all_spaces(spaces),
    ensures
        !spaces.contains(','),
{
    if spaces.contains(',') {
        let i = choose|i: int| 0 <= i < spaces.len() && spaces[i] == ',';
        assert(crate::text::is_space(spaces[i]));
    }
}

/// A comma puts the bytes of what stands behind it behind those of the item in front. The first
/// item that is refused decides.
pub proof fn law_a_comma_joins_bytes(line: nat, item: Seq<char>, rest: Seq<char>)
    requires
        !item.contains(','),
    ensures
        crate::literals::items_bytes(line, item + seq![','] + rest) == match (
            crate::literals::items_bytes(line, item),
            crate::literals::items_bytes(line, rest),
        ) {
            (Ok(bytes), Ok(more)) => Ok(bytes + more),
            (Ok(_), Err(fault)) => Err(fault),
            (Err(fault), _) => Err(fault),
        },
{
    let text = item + seq![','] + rest;
    assert(text =~= item.push(',') + rest);
    crate::value_laws::lemma_position_behind(item, ',', rest);
    assert(text.take(item.len() as int) =~= item);
    assert(text.skip(item.len() as int + 1) =~= rest);
    crate::value_laws::lemma_position_nowhere(item, ',');
    assert(item.take(item.len() as int) =~= item);
}

// Programs.

/// Whether the lines from `from` up to `end` are the body of a program, and the line at `end`
/// closes it: the first that holds a closing brace and nothing else but whitespace.
pub open spec fn is_body(lines: Seq<Seq<char>>, from: int, end: int) -> bool {
    &&& 0 <= from <= end < lines.len()
    &&& crate::text::trim_of(lines[end]) == seq!['}']
    &&& forall|i: int|
        from <= i < end ==> crate::text::trim_of(#[trigger] lines[i]) != seq!['}']
}

/// A line that opens a program under a parameter that takes one sets the parameter to the
/// program of the lines up to the closing brace, their references resolved. The next statement
/// begins behind the brace. A fault in a line of the program is that of its line.
pub proof fn law_a_program_sets_its_parameter(
    lines: Seq<Seq<char>>,
    index: int,
    id: u8,
    end: int,
)
    requires
        1 <= id <= 29,
        assigns(lines, index, crate::names::name_of(id), seq!['{']),
        is_body(lines, index + 1, end),
    ensures
        crate::statements::statement_at(lines, index)
            == if !ParameterSpec::registered(id).bytecode_allowed {
            Err(
                EncodeFault {
                    line: (index + 1) as nat,
                    message: "`"@ + crate::names::name_of(id)
                        + "` is literal-only and does not accept a program"@,
                },
            )
        } else {
            match crate::programs::references(
                lines.subrange(index + 1, end),
                (index + 2) as nat,
            ) {
                Err(fault) => Err(fault),
                Ok(text) => Ok(
                    (
                        StatementModel::Program(
                            ProgramModel {
                                line: (index + 1) as nat,
                                id,
                                text,
                                start: (index + 1) as nat,
                            },
                        ),
                        end + 1,
                    ),
                ),
            }
        },
{
    lemma_assignment(lines, index, crate::names::name_of(id), seq!['{']);
    lemma_named(lines, index, id, seq!['{']);
    lemma_block_end_is(lines, index + 1, end);
}

proof fn lemma_block_end_is(lines: Seq<Seq<char>>, from: int, end: int)
    requires
        is_body(lines, from, end),
    ensures
        crate::statements::block_end(lines, from) == end,
    decreases end - from,
{
    if from < end {
        assert(crate::text::trim_of(lines[from]) != seq!['}']);
        lemma_block_end_is(lines, from + 1, end);
    }
}

/// A program that no line closes is refused on the line that opens it.
pub proof fn law_an_open_program_is_refused(lines: Seq<Seq<char>>, index: int, id: u8)
    requires
        1 <= id <= 29,
        assigns(lines, index, crate::names::name_of(id), seq!['{']),
        forall|i: int|
            index < i < lines.len() ==> crate::text::trim_of(#[trigger] lines[i]) != seq!['}'],
    ensures
        crate::statements::statement_at(lines, index) == Err::<(StatementModel, int), EncodeFault>(
            EncodeFault { line: (index + 1) as nat, message: "unterminated program block"@ },
        ),
{
    lemma_assignment(lines, index, crate::names::name_of(id), seq!['{']);
    lemma_named(lines, index, id, seq!['{']);
    lemma_no_block_end(lines, index + 1);
}

proof fn lemma_no_block_end(lines: Seq<Seq<char>>, from: int)
    requires
        0 <= from <= lines.len(),
        forall|i: int|
            from <= i < lines.len() ==> crate::text::trim_of(#[trigger] lines[i]) != seq!['}'],
    ensures
        crate::statements::block_end(lines, from) == lines.len(),
    decreases lines.len() - from,
{
    if from < lines.len() {
        assert(crate::text::trim_of(lines[from]) != seq!['}']);
        lemma_no_block_end(lines, from + 1);
    }
}

// From the text to the value.

/// Every override comes from the statement on its line.
proof fn lemma_override_origin(
    lines: Seq<Seq<char>>,
    index: int,
    outcomes: Seq<Result<Seq<u8>, EncodeFault>>,
    i: int,
)
    requires
        0 <= index,
        crate::encoder::parsed(lines, index, outcomes) matches Ok(overrides) && 0 <= i
            < overrides.len(),
    ensures
        ({
            let entry = crate::encoder::parsed(lines, index, outcomes)->Ok_0[i];
            &&& index < entry.line <= lines.len()
            &&& crate::statements::statement_at(lines, entry.line - 1) matches Ok((statement, _))
                && match statement {
                StatementModel::Blank => false,
                StatementModel::Literal(literal) => literal == entry,
                StatementModel::Program(program) => program.id == entry.id && entry.value
                    is Program,
            }
        }),
    decreases lines.len() - index,
{
    if index < lines.len() {
        crate::statements::lemma_statement_at(lines, index);
        let overrides = crate::encoder::parsed(lines, index, outcomes)->Ok_0;
        let (statement, next) = crate::statements::statement_at(lines, index)->Ok_0;
        let left = if statement is Program {
            outcomes.drop_first()
        } else {
            outcomes
        };
        if statement is Blank {
            lemma_override_origin(lines, next, left, i);
        } else {
            let rest = crate::encoder::parsed(lines, next, left)->Ok_0;
            if i > 0 {
                assert(overrides[i] == rest[i - 1]);
                lemma_override_origin(lines, next, left, i - 1);
            } else {
                assert(overrides[0].line == index + 1);
            }
        }
    }
}

/// A number that is written down is read back. Where a line assigns a number to a parameter,
/// and the overrides that were parsed are framed and accepted, the parameter has that number,
/// whatever programs do.
pub proof fn law_the_number_on_a_line_is_read_back(
    lines: Seq<Seq<char>>,
    outcomes: Seq<Result<Seq<u8>, EncodeFault>>,
    overrides: Seq<OverrideModel>,
    payload: PayloadModel,
    platform: Platform,
    commitment: Commitment,
    i: int,
    id: u8,
    text: Seq<char>,
    first: ProgramOutcome,
    second: ProgramOutcome,
)
    requires
        crate::encoder::parsed(lines, 0, outcomes) == Ok::<Seq<OverrideModel>, EncodeFault>(
            overrides,
        ),
        crate::encoding_laws::frames(overrides, payload),
        payload.well_framed(),
        payload.acceptance(platform) is Ok,
        0 <= i < overrides.len(),
        1 <= id <= 29,
        assigns(lines, overrides[i].line - 1, crate::names::name_of(id), text),
        crate::numbers::number_value(text) is Some,
    ensures
        overrides[i].id == id,
        crate::numbers::number_value(text) == Some(
            crate::laws::configuration_of(payload, commitment, platform).value_of(
                ParameterSpec::registered(id),
                first,
                second,
            ),
        ),
{
    let index = overrides[i].line - 1;
    let number = crate::numbers::number_value(text)->0;
    lemma_override_origin(lines, 0, outcomes, i);
    if number >= pow(256, ParameterSpec::registered(id).width as nat) {
        law_an_integer_that_does_not_fit_is_refused(lines, index, id, text, number);
    } else {
        law_an_integer_sets_its_parameter(lines, index, id, text, number);
    }
    assert(overrides[i].framed_as(payload.entries[i]));
    crate::laws::law_accepted_literals_read_exactly(
        payload,
        platform,
        commitment,
        i,
        first,
        second,
    );
}

/// A literal integer is read at any width of up to eight bytes: lowest byte first where it
/// fits, and refused where it does not or is no number.
pub proof fn law_an_integer_is_read_at_a_width(
    line: usize,
    text: &[char],
    width: u8,
    name: &[char],
    bytes: Result<Vec<u8>, EncodeError>,
)
    requires
        width <= 8,
        call_ensures(parse_integer, (line, text, width, name), bytes),
    ensures
        match crate::numbers::number_value(text@) {
            None => bytes matches Err(error) && error.line == line && error.message@ == "`"@ + text@
                + "` is not an integer literal"@,
            Some(number) => {
                &&& number < pow(256, width as nat) ==> (bytes matches Ok(bytes) && bytes@.len()
                    == width && crate::bytes::le_value(bytes@) == number)
                &&& number >= pow(256, width as nat) ==> (bytes matches Err(error) && error.line
                    == line && error.message@ == crate::numbers::decimal(number as nat)
                    + " does not fit `"@ + name@ + "`'s "@ + crate::numbers::decimal(width as nat)
                    + "-byte width"@)
            },
        },
{
    crate::bytes::lemma_le_bytes_len(0, width as nat);
    crate::value_laws::law_a_width_bounds_the_number(crate::bytes::le_bytes(0, width as nat));
    if let Some(number) = crate::numbers::number_value(text@) {
        if number < pow(256, width as nat) {
            crate::bytes::law_le_round_trip(number as nat, width as nat);
        }
    }
}

/// A byte list is read at any width: what stands between the brackets, where that is as many
/// bytes as the width.
pub proof fn law_a_byte_list_is_read_at_a_width(
    line: usize,
    text: &[char],
    width: u8,
    name: &[char],
    bytes: Result<Vec<u8>, EncodeError>,
    inner: Seq<char>,
)
    requires
        call_ensures(parse_byte_list, (line, text, width, name), bytes),
        text@ == seq!['['] + inner + seq![']'],
    ensures
        match crate::literals::items_bytes(line as nat, inner) {
            Err(fault) => bytes matches Err(error) && error@ == fault,
            Ok(items) => {
                &&& items.len() == width ==> (bytes matches Ok(bytes) && bytes@ == items)
                &&& items.len() != width ==> (bytes matches Err(error) && error.line == line
                    && error.message@ == "`"@ + name@ + "` is "@ + crate::numbers::decimal(
                    width as nat,
                ) + " bytes wide, but "@ + crate::numbers::decimal(items.len())
                    + " were given"@)
            },
        },
{
    assert(text@.subrange(1, text@.len() - 1) =~= inner);
    assert(text@.last() == ']');
}

} // verus!
