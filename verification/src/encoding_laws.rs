//! Laws of encoding: what holds of every written configuration.

use vstd::prelude::*;

use crate::acceptance::{ChainConfigError, Platform};
use crate::configuration::ModuleModel;
use crate::diagnostics::{EncodeError, EncodeFault};
use crate::encoder::{describe, encode, finish, parse, Sealing, SealingModel};
use crate::framing::{EntryModel, PayloadModel};
use crate::registry::ParameterSpec;
use crate::resolution::{Commitment, ProgramOutcome};
use crate::statements::{
    Override, OverrideModel, ProgramModel, StatementModel, Value, ValueModel,
};

verus! {

/// What encodes is what the network accepts: every module of the same build that is not
/// locked loads it.
pub proof fn law_what_encodes_is_accepted<
    A: Fn(&str) -> Result<Vec<u8>, EncodeError>,
    S: Fn(&[Override]) -> Sealing,
>(
    source: Seq<char>,
    assemble: A,
    seal: S,
    platform: Platform,
    outcomes: Seq<Result<Seq<u8>, EncodeFault>>,
    sealing: SealingModel,
    result: Result<Seq<u8>, EncodeFault>,
    module: ModuleModel,
)
    requires
        crate::encoder::encodes(source, assemble, seal, platform, outcomes, sealing, result),
        result is Ok,
        module.platform == platform,
        !module.is_durable_locked(),
    ensures
        sealing matches SealingModel::Sealed(Some(payload)) && payload.payload == result->Ok_0
            && payload.well_framed() && payload.acceptance(platform) is Ok && module.load_verdict(Some(payload)) is Ok,
{
}

/// What the network would refuse does not encode, and the diagnostic is about the whole
/// content and carries the reason.
pub proof fn law_what_is_refused_does_not_encode(
    overrides: Seq<OverrideModel>,
    payload: Option<PayloadModel>,
    platform: Platform,
    error: ChainConfigError,
)
    requires
        crate::acceptance::acceptance_of(payload, platform) == Err::<usize, ChainConfigError>(
            error,
        ),
    ensures
        crate::encoder::encoding(overrides, SealingModel::Sealed(payload), platform) == Err::<
            Seq<u8>,
            EncodeFault,
        >(EncodeFault { line: 0, message: crate::encoder::description(error) }),
{
}

/// Overrides keep the order of the input: each stands on a later line than the one before.
pub proof fn law_overrides_keep_the_order_of_the_input(
    lines: Seq<Seq<char>>,
    index: int,
    outcomes: Seq<Result<Seq<u8>, EncodeFault>>,
)
    requires
        0 <= index,
        crate::encoder::parsed(lines, index, outcomes) is Ok,
    ensures
        ({
            let overrides = crate::encoder::parsed(lines, index, outcomes)->Ok_0;
            &&& forall|i: int|
                0 <= i < overrides.len() ==> index < (#[trigger] overrides[i]).line <= lines.len()
            &&& forall|i: int, j: int|
                0 <= i < j < overrides.len() ==> (#[trigger] overrides[i]).line < (
                #[trigger] overrides[j]).line
        }),
    decreases lines.len() - index,
{
    if index < lines.len() {
        crate::statements::lemma_statement_at(lines, index);
        let overrides = crate::encoder::parsed(lines, index, outcomes)->Ok_0;
        let (statement, next) = crate::statements::statement_at(lines, index)->Ok_0;
        let left = if statement is Program {
            outcomes.drop_first()
        } else {
            outcomes
        };
        law_overrides_keep_the_order_of_the_input(lines, next, left);
        if !(statement is Blank) {
            let rest = crate::encoder::parsed(lines, next, left)->Ok_0;
            assert forall|i: int| 0 < i < overrides.len() implies overrides[i] == rest[i - 1] by {}
            assert(overrides[0].line == index + 1);
        }
    }
}

/// Every diagnostic of parsing names a line of the input, as far as parsing has come. Only a
/// diagnostic of the assembler can name one behind the end.
pub proof fn law_a_diagnostic_names_a_line<A: Fn(&str) -> Result<Vec<u8>, EncodeError>>(
    assemble: A,
    lines: Seq<Seq<char>>,
    index: int,
    outcomes: Seq<Result<Seq<u8>, EncodeFault>>,
)
    requires
        0 <= index,
        lines.len() <= usize::MAX,
        crate::encoder::assembled_in_turn(assemble, lines, index, outcomes),
        crate::encoder::parsed(lines, index, outcomes) is Err,
    ensures
        crate::encoder::parsed(lines, index, outcomes)->Err_0.line > index,
        (forall|i: int| 0 <= i < outcomes.len() ==> (#[trigger] outcomes[i]) is Ok)
            ==> crate::encoder::parsed(lines, index, outcomes)->Err_0.line <= lines.len(),
    decreases lines.len() - index,
{
    if index < lines.len() {
        crate::statements::lemma_statement_at(lines, index);
        match crate::statements::statement_at(lines, index) {
            Err(_) => {
                lemma_statement_fault(lines, index);
            },
            Ok((statement, next)) => {
                let left = if statement is Program {
                    outcomes.drop_first()
                } else {
                    outcomes
                };
                if statement is Program && outcomes[0] is Err {
                    assert(!(outcomes[0] is Ok));
                } else {
                    law_a_diagnostic_names_a_line(assemble, lines, next, left);
                }
            },
        }
    }
}

proof fn lemma_statement_fault(lines: Seq<Seq<char>>, index: int)
    requires
        0 <= index < lines.len(),
        crate::statements::statement_at(lines, index) is Err,
    ensures
        index < crate::statements::statement_at(lines, index)->Err_0.line <= lines.len(),
{
    crate::statements::lemma_block_end(lines, index + 1);
    let end = crate::statements::block_end(lines, index + 1);
    let body = lines.subrange(index + 1, end);
    if crate::programs::references(body, (index + 2) as nat) is Err {
        lemma_reference_fault(body, (index + 2) as nat);
    }
    let text = crate::text::trim_of(crate::statements::without_comment(lines[index]));
    let equals = crate::text::position_of(text, '=') as int;
    let value = crate::text::trim_of(text.skip(equals + 1));
    lemma_items_fault((index + 1) as nat, value.subrange(1, value.len() - 1));
}

proof fn lemma_items_fault(line: nat, inner: Seq<char>)
    ensures
        crate::literals::items_bytes(line, inner) matches Err(fault) ==> fault.line == line,
    decreases inner.len(),
{
    let end = crate::text::position_of(inner, ',');
    if end < inner.len() {
        lemma_items_fault(line, inner.skip((end + 1) as int));
    }
}

proof fn lemma_reference_fault(body: Seq<Seq<char>>, line: nat)
    requires
        crate::programs::references(body, line) is Err,
    ensures
        line <= crate::programs::references(body, line)->Err_0.line < line + body.len(),
    decreases body.len(),
{
    if crate::programs::references(body.drop_first(), line + 1) is Err {
        lemma_reference_fault(body.drop_first(), line + 1);
    }
}

impl OverrideModel {
    /// Whether the registry lets the override stand.
    pub open spec fn conforms(self) -> bool {
        &&& ParameterSpec::allocates(self.id)
        &&& match self.value {
            ValueModel::Literal(bytes) => bytes.len() == ParameterSpec::registered(self.id).width,
            ValueModel::Program(_) => ParameterSpec::registered(self.id).bytecode_allowed,
        }
    }

    /// Whether `entry` frames the override.
    pub open spec fn framed_as(self, entry: EntryModel) -> bool {
        &&& entry.parameter_id == self.id
        &&& match self.value {
            ValueModel::Literal(bytes) => !entry.bytecode && entry.value == bytes,
            ValueModel::Program(code) => entry.bytecode && entry.value == code,
        }
    }
}

/// Whether the entries of `payload` frame the overrides, in order.
pub open spec fn frames(overrides: Seq<OverrideModel>, payload: PayloadModel) -> bool {
    &&& overrides.len() == payload.entries.len()
    &&& forall|i: int|
        0 <= i < overrides.len() ==> (#[trigger] overrides[i]).framed_as(payload.entries[i])
}

/// Whether every payload that `seal` makes frames the overrides that it was handed.
pub open spec fn seals_faithfully<S: Fn(&[Override]) -> Sealing>(seal: S) -> bool {
    forall|overrides: Seq<OverrideModel>, payload: PayloadModel|
        #[trigger] crate::encoder::sealed(
            seal,
            overrides,
            SealingModel::Sealed(Some(payload)),
        ) ==> frames(overrides, payload)
}

/// What encodes holds what was written: where the sealing frames what it is handed, the
/// entries of the payload are the parsed overrides, in input order, one for one, with nothing
/// added. No parameter is set twice.
pub proof fn law_what_encodes_holds_what_was_written<
    A: Fn(&str) -> Result<Vec<u8>, EncodeError>,
    S: Fn(&[Override]) -> Sealing,
>(
    source: Seq<char>,
    assemble: A,
    seal: S,
    platform: Platform,
    outcomes: Seq<Result<Seq<u8>, EncodeFault>>,
    sealing: SealingModel,
    result: Result<Seq<u8>, EncodeFault>,
)
    requires
        crate::encoder::encodes(source, assemble, seal, platform, outcomes, sealing, result),
        result is Ok,
        seals_faithfully(seal),
    ensures
        ({
            let written = crate::encoder::parsed(crate::text::lines_of(source), 0, outcomes);
            &&& written is Ok
            &&& sealing matches SealingModel::Sealed(Some(payload)) && payload.payload
                == result->Ok_0 && frames(written->Ok_0, payload)
            &&& forall|i: int, j: int|
                0 <= i < j < written->Ok_0.len() ==> (#[trigger] written->Ok_0[i]).id != (
                #[trigger] written->Ok_0[j]).id
        }),
{
    let overrides = crate::encoder::parsed(crate::text::lines_of(source), 0, outcomes)->Ok_0;
    let payload = sealing->Sealed_0->0;
    assert(crate::encoder::sealed(seal, overrides, SealingModel::Sealed(Some(payload))));
    assert(frames(overrides, payload));
    assert forall|i: int, j: int| 0 <= i < j < overrides.len() implies (
    #[trigger] overrides[i]).id != (#[trigger] overrides[j]).id by {
        assert(overrides[i].framed_as(payload.entries[i]));
        assert(overrides[j].framed_as(payload.entries[j]));
    }
}

/// Every override that parses conforms to the registry: its parameter is allocated, a literal
/// has the declared width, and a program stands only where one may.
pub proof fn law_overrides_conform(
    lines: Seq<Seq<char>>,
    index: int,
    outcomes: Seq<Result<Seq<u8>, EncodeFault>>,
)
    requires
        0 <= index,
        crate::encoder::parsed(lines, index, outcomes) is Ok,
    ensures
        forall|i: int|
            0 <= i < crate::encoder::parsed(lines, index, outcomes)->Ok_0.len() ==> (
            #[trigger] crate::encoder::parsed(lines, index, outcomes)->Ok_0[i]).conforms(),
    decreases lines.len() - index,
{
    if index < lines.len() {
        crate::statements::lemma_statement_at(lines, index);
        let overrides = crate::encoder::parsed(lines, index, outcomes)->Ok_0;
        let (statement, next) = crate::statements::statement_at(lines, index)->Ok_0;
        let left = if statement is Program {
            outcomes.drop_first()
        } else {
            outcomes
        };
        law_overrides_conform(lines, next, left);
        if !(statement is Blank) {
            let rest = crate::encoder::parsed(lines, next, left)->Ok_0;
            assert forall|i: int| 0 < i < overrides.len() implies overrides[i] == rest[i - 1] by {}
            lemma_statement_conforms(lines, index);
            assert forall|i: int| 0 <= i < overrides.len() implies (
            #[trigger] overrides[i]).conforms() by {
                if i > 0 {
                    assert(rest[i - 1].conforms());
                }
            }
        }
    }
}

proof fn lemma_statement_conforms(lines: Seq<Seq<char>>, index: int)
    requires
        0 <= index < lines.len(),
        crate::statements::statement_at(lines, index) is Ok,
    ensures
        match crate::statements::statement_at(lines, index)->Ok_0.0 {
            StatementModel::Blank => true,
            StatementModel::Literal(entry) => entry.conforms(),
            StatementModel::Program(program) => ParameterSpec::allocates(program.id)
                && ParameterSpec::registered(program.id).bytecode_allowed,
        },
{
    let text = crate::text::trim_of(crate::statements::without_comment(lines[index]));
    let equals = crate::text::position_of(text, '=') as int;
    let name = crate::text::trim_of(text.take(equals));
    let value = crate::text::trim_of(text.skip(equals + 1));
    crate::names::law_names_are_allocated(name);
    if let Some(id) = crate::names::identifier_named(name) {
        if let Some(number) = crate::numbers::number_value(value) {
            crate::bytes::lemma_le_bytes_len(
                number as nat,
                ParameterSpec::registered(id).width as nat,
            );
        }
    }
}

/// A payload that frames what was parsed passes registry conformance: parsing finds those
/// faults first, and names their lines.
pub proof fn law_framed_overrides_conform(
    lines: Seq<Seq<char>>,
    outcomes: Seq<Result<Seq<u8>, EncodeFault>>,
    payload: PayloadModel,
)
    requires
        crate::encoder::parsed(lines, 0, outcomes) matches Ok(overrides) && frames(
            overrides,
            payload,
        ),
    ensures
        payload.conformance_fault() is None,
{
    law_overrides_conform(lines, 0, outcomes);
    let overrides = crate::encoder::parsed(lines, 0, outcomes)->Ok_0;
    let faults = payload.entries.map_values(|entry: EntryModel| entry.conformance_fault());
    assert forall|i: int| 0 <= i < faults.len() implies #[trigger] faults[i] is None by {
        assert(overrides[i].framed_as(payload.entries[i]));
        assert(overrides[i].conforms());
    }
    crate::acceptance::lemma_first_fault(faults);
}

/// An integer that is written down reads back: where a payload frames the overrides and is
/// accepted, the parameter has the number that the text writes.
pub proof fn law_a_written_integer_is_read_back(
    overrides: Seq<OverrideModel>,
    payload: PayloadModel,
    platform: Platform,
    commitment: Commitment,
    i: int,
    text: Seq<char>,
    name: Seq<char>,
    first: ProgramOutcome,
    second: ProgramOutcome,
)
    requires
        payload.well_framed(),
        payload.acceptance(platform) is Ok,
        frames(overrides, payload),
        0 <= i < overrides.len(),
        overrides[i].value matches ValueModel::Literal(bytes)
            && crate::literals::integer_bytes(
            overrides[i].line,
            text,
            ParameterSpec::registered(overrides[i].id).width as nat,
            name,
        ) == Ok::<Seq<u8>, EncodeFault>(bytes),
    ensures
        crate::numbers::number_value(text) == Some(
            crate::laws::configuration_of(payload, commitment, platform).value_of(
                ParameterSpec::registered(overrides[i].id),
                first,
                second,
            ),
        ),
{
    assert(overrides[i].framed_as(payload.entries[i]));
    crate::laws::law_accepted_literals_read_exactly(
        payload,
        platform,
        commitment,
        i,
        first,
        second,
    );
    crate::bytes::law_le_round_trip(
        crate::numbers::number_value(text)->0 as nat,
        ParameterSpec::registered(overrides[i].id).width as nat,
    );
}

/// Every number that fits the width of a parameter can be written down in decimal.
pub proof fn law_every_fitting_integer_can_be_written(
    line: nat,
    value: u64,
    width: nat,
    name: Seq<char>,
)
    requires
        value < crate::bytes::pow256(width),
    ensures
        crate::literals::integer_bytes(
            line,
            crate::numbers::decimal(value as nat),
            width,
            name,
        ) == Ok::<Seq<u8>, EncodeFault>(crate::bytes::le_bytes(value as nat, width)),
{
    crate::numbers::law_decimal_is_read_back(value);
}

// A comment in front.

/// The line behind `line`, as far as a `usize` can name it.
pub open spec fn next_line(line: nat) -> nat {
    if line >= usize::MAX {
        usize::MAX as nat
    } else {
        line + 1
    }
}

/// A diagnostic about the next line.
pub open spec fn fault_moved(fault: EncodeFault) -> EncodeFault {
    EncodeFault { line: next_line(fault.line), message: fault.message }
}

/// An override on the next line.
pub open spec fn override_moved(entry: OverrideModel) -> OverrideModel {
    OverrideModel { line: next_line(entry.line), ..entry }
}

/// What parsing comes to, with every line moved by one.
pub open spec fn outcome_moved(result: Result<Seq<OverrideModel>, EncodeFault>) -> Result<
    Seq<OverrideModel>,
    EncodeFault,
> {
    match result {
        Ok(overrides) => Ok(overrides.map_values(|entry: OverrideModel| override_moved(entry))),
        Err(fault) => Err(fault_moved(fault)),
    }
}

/// A comment line in front of the input moves every line by one and changes nothing else: the
/// same programs are assembled, the same parameters are set to the same values in the same
/// order, and a diagnostic says the same.
pub proof fn law_a_comment_in_front_moves_every_line<
    A: Fn(&str) -> Result<Vec<u8>, EncodeError>,
>(
    assemble: A,
    comment: Seq<char>,
    source: Seq<char>,
    outcomes: Seq<Result<Seq<u8>, EncodeFault>>,
)
    requires
        comment.len() > 0,
        comment[0] == '#',
        !comment.contains('\n'),
        crate::text::lines_of(source).len() < usize::MAX,
    ensures
        ({
            let before = crate::text::lines_of(source);
            let after = crate::text::lines_of(comment.push('\n') + source);
            &&& crate::encoder::parsed(after, 0, outcomes) == outcome_moved(
                crate::encoder::parsed(before, 0, outcomes),
            )
            &&& crate::encoder::assembled_in_turn(assemble, after, 0, outcomes)
                == crate::encoder::assembled_in_turn(assemble, before, 0, outcomes)
        }),
{
    let before = crate::text::lines_of(source);
    let text = comment.push('\n') + source;
    let after = crate::text::lines_of(text);
    let line = crate::text::without_return(comment);
    crate::value_laws::lemma_position_behind(comment, '\n', source);
    assert(text.take(comment.len() as int) =~= comment);
    assert(text.skip((comment.len() + 1) as int) =~= source);
    assert(after == seq![line] + before);
    assert(line[0] == '#');
    assert(crate::text::position_of(line, '#') == 0);
    assert(crate::statements::without_comment(line) =~= Seq::<char>::empty());
    assert(after[0] == line);
    assert(crate::statements::statement_at(after, 0) == Ok::<(StatementModel, int), EncodeFault>(
        (StatementModel::Blank, 1),
    ));
    lemma_front_moved(line, before, 0, outcomes);
    lemma_assembly_moved(assemble, line, before, 0, outcomes);
}

proof fn lemma_assembly_moved<A: Fn(&str) -> Result<Vec<u8>, EncodeError>>(
    assemble: A,
    front: Seq<char>,
    lines: Seq<Seq<char>>,
    index: int,
    outcomes: Seq<Result<Seq<u8>, EncodeFault>>,
)
    requires
        0 <= index,
    ensures
        crate::encoder::assembled_in_turn(assemble, seq![front] + lines, index + 1, outcomes)
            == crate::encoder::assembled_in_turn(assemble, lines, index, outcomes),
    decreases lines.len() - index,
{
    if index < lines.len() {
        crate::statements::lemma_statement_at(lines, index);
        lemma_statement_moved(front, lines, index);
        match crate::statements::statement_at(lines, index) {
            Err(_) => {},
            Ok((StatementModel::Program(_), next)) => {
                if outcomes[0] is Ok {
                    lemma_assembly_moved(assemble, front, lines, next, outcomes.drop_first());
                }
            },
            Ok((_, next)) => {
                lemma_assembly_moved(assemble, front, lines, next, outcomes);
            },
        }
    }
}

proof fn lemma_behind_moved(entry: OverrideModel, rest: Result<Seq<OverrideModel>, EncodeFault>)
    ensures
        outcome_moved(crate::diagnostics::behind(seq![entry], rest)) == crate::diagnostics::behind(
            seq![override_moved(entry)],
            outcome_moved(rest),
        ),
{
    if let Ok(overrides) = rest {
        let moving = |entry: OverrideModel| override_moved(entry);
        assert((seq![entry] + overrides).map_values(moving) =~= seq![override_moved(entry)]
            + overrides.map_values(moving));
    }
}

/// The statement with its line moved by one.
spec fn statement_moved(statement: StatementModel) -> StatementModel {
    match statement {
        StatementModel::Blank => StatementModel::Blank,
        StatementModel::Literal(entry) => StatementModel::Literal(
            OverrideModel { line: entry.line + 1, ..entry },
        ),
        StatementModel::Program(program) => StatementModel::Program(
            ProgramModel { line: program.line + 1, start: program.start + 1, ..program },
        ),
    }
}

/// The result with the line of its diagnostic moved by one.
spec fn diagnostic_moved<T>(result: Result<T, EncodeFault>) -> Result<T, EncodeFault> {
    match result {
        Ok(value) => Ok(value),
        Err(fault) => Err(EncodeFault { line: fault.line + 1, ..fault }),
    }
}

proof fn lemma_statement_moved(front: Seq<char>, lines: Seq<Seq<char>>, index: int)
    requires
        0 <= index < lines.len(),
    ensures
        crate::statements::statement_at(seq![front] + lines, index + 1) == match diagnostic_moved(
            crate::statements::statement_at(lines, index),
        ) {
            Ok(found) => Ok((statement_moved(found.0), found.1 + 1)),
            Err(fault) => Err(fault),
        },
        crate::statements::statement_at(lines, index) matches Ok(found) ==> match found.0 {
            StatementModel::Blank => true,
            StatementModel::Literal(entry) => entry.line == index + 1,
            StatementModel::Program(program) => program.line == index + 1 && program.start == index
                + 1,
        },
{
    let moved = seq![front] + lines;
    assert(moved[index + 1] == lines[index]);
    lemma_block_moved(front, lines, index + 1);
    crate::statements::lemma_block_end(lines, index + 1);
    let end = crate::statements::block_end(lines, index + 1);
    let body = lines.subrange(index + 1, end);
    assert(moved.subrange(index + 2, end + 1) =~= body);
    lemma_references_moved(body, (index + 2) as nat);
    let text = crate::text::trim_of(crate::statements::without_comment(lines[index]));
    let equals = crate::text::position_of(text, '=') as int;
    let value = crate::text::trim_of(text.skip(equals + 1));
    lemma_items_moved((index + 1) as nat, value.subrange(1, value.len() - 1));
}

proof fn lemma_block_moved(front: Seq<char>, lines: Seq<Seq<char>>, from: int)
    requires
        0 <= from,
    ensures
        crate::statements::block_end(seq![front] + lines, from + 1)
            == crate::statements::block_end(lines, from) + 1,
    decreases lines.len() - from,
{
    if from < lines.len() {
        assert((seq![front] + lines)[from + 1] == lines[from]);
        lemma_block_moved(front, lines, from + 1);
    }
}

proof fn lemma_references_moved(body: Seq<Seq<char>>, line: nat)
    ensures
        crate::programs::references(body, line + 1) == diagnostic_moved(
            crate::programs::references(body, line),
        ),
    decreases body.len(),
{
    if body.len() > 0 {
        lemma_references_moved(body.drop_first(), line + 1);
    }
}

proof fn lemma_items_moved(line: nat, inner: Seq<char>)
    ensures
        crate::literals::items_bytes(line + 1, inner) == diagnostic_moved(
            crate::literals::items_bytes(line, inner),
        ),
    decreases inner.len(),
{
    let end = crate::text::position_of(inner, ',');
    if end < inner.len() {
        lemma_items_moved(line, inner.skip((end + 1) as int));
    }
}

// Parsing, statement by statement.

/// Input without a line declares nothing.
pub proof fn law_no_line_declares_nothing(
    lines: Seq<Seq<char>>,
    outcomes: Seq<Result<Seq<u8>, EncodeFault>>,
)
    requires
        lines.len() == 0,
    ensures
        crate::encoder::parsed(lines, 0, outcomes) == Ok::<Seq<OverrideModel>, EncodeFault>(
            Seq::empty(),
        ),
{
}

/// A line in front of the input that says nothing moves the rest by one. One that sets a
/// parameter to a literal puts that override in front of the rest. One with a fault is all that
/// is said.
pub proof fn law_a_line_in_front(
    front: Seq<char>,
    lines: Seq<Seq<char>>,
    outcomes: Seq<Result<Seq<u8>, EncodeFault>>,
)
    requires
        lines.len() < usize::MAX,
        crate::statements::statement_at(seq![front] + lines, 0) matches Ok(found) ==> !(found.0
            is Program),
    ensures
        crate::encoder::parsed(seq![front] + lines, 0, outcomes)
            == match crate::statements::statement_at(seq![front] + lines, 0) {
            Err(fault) => Err(fault),
            Ok((StatementModel::Literal(entry), _)) => match outcome_moved(
                crate::encoder::parsed(lines, 0, outcomes),
            ) {
                Ok(rest) => Ok(seq![entry] + rest),
                Err(fault) => Err(fault),
            },
            Ok(_) => outcome_moved(crate::encoder::parsed(lines, 0, outcomes)),
        },
{
    let all = seq![front] + lines;
    crate::statements::lemma_statement_at(all, 0);
    lemma_front_moved(front, lines, 0, outcomes);
}

proof fn lemma_front_moved(
    front: Seq<char>,
    lines: Seq<Seq<char>>,
    index: int,
    outcomes: Seq<Result<Seq<u8>, EncodeFault>>,
)
    requires
        0 <= index,
        lines.len() < usize::MAX,
    ensures
        crate::encoder::parsed(seq![front] + lines, index + 1, outcomes) == outcome_moved(
            crate::encoder::parsed(lines, index, outcomes),
        ),
    decreases lines.len() - index,
{
    let none = Seq::<OverrideModel>::empty();
    if index >= lines.len() {
        assert(none.map_values(|entry: OverrideModel| override_moved(entry)) =~= none);
    } else {
        crate::statements::lemma_statement_at(lines, index);
        lemma_statement_moved(front, lines, index);
        match crate::statements::statement_at(lines, index) {
            Err(_) => {
                lemma_statement_fault(lines, index);
            },
            Ok((StatementModel::Blank, next)) => {
                lemma_front_moved(front, lines, next, outcomes);
            },
            Ok((StatementModel::Literal(entry), next)) => {
                lemma_front_moved(front, lines, next, outcomes);
                lemma_behind_moved(entry, crate::encoder::parsed(lines, next, outcomes));
            },
            Ok((StatementModel::Program(program), next)) => {
                if let Ok(code) = outcomes[0] {
                    let left = outcomes.drop_first();
                    lemma_front_moved(front, lines, next, left);
                    lemma_behind_moved(
                        crate::encoder::program_override(program, code),
                        crate::encoder::parsed(lines, next, left),
                    );
                }
            },
        }
    }
}

/// A program is handed to the assembler as its references were resolved. What it is assembled
/// to is the value of its parameter, on the line of the parameter. What the assembler refuses
/// is refused with its message, on the line of the program that it names, counted from the
/// start of the input and as far as a `usize` goes.
pub proof fn law_a_program_is_what_it_is_assembled_to<
    A: Fn(&str) -> Result<Vec<u8>, EncodeError>,
>(
    assemble: A,
    lines: Seq<Seq<char>>,
    index: int,
    outcomes: Seq<Result<Seq<u8>, EncodeFault>>,
    program: ProgramModel,
    next: int,
)
    requires
        0 <= index < lines.len(),
        crate::encoder::assembled_in_turn(assemble, lines, index, outcomes),
        crate::statements::statement_at(lines, index) == Ok::<(StatementModel, int), EncodeFault>(
            (StatementModel::Program(program), next),
        ),
    ensures
        outcomes.len() > 0,
        exists|handed: &str, result: Result<Vec<u8>, EncodeError>|
            {
                &&& handed@ == program.text
                &&& #[trigger] call_ensures(assemble, (handed,), result)
                &&& match (result, outcomes[0]) {
                    (Ok(code), Ok(model)) => code@ == model,
                    (Err(error), Err(fault)) => error.line == fault.line && error.message@
                        == fault.message,
                    _ => false,
                }
            },
        outcomes[0] is Ok ==> crate::encoder::assembled_in_turn(
            assemble,
            lines,
            next,
            outcomes.drop_first(),
        ),
        crate::encoder::parsed(lines, index, outcomes) == match outcomes[0] {
            Err(fault) => Err(
                EncodeFault {
                    line: if program.start + fault.line <= usize::MAX {
                        program.start + fault.line
                    } else {
                        usize::MAX as nat
                    },
                    message: fault.message,
                },
            ),
            Ok(code) => match crate::encoder::parsed(lines, next, outcomes.drop_first()) {
                Err(fault) => Err(fault),
                Ok(rest) => Ok(
                    seq![
                        OverrideModel {
                            line: program.line,
                            id: program.id,
                            value: ValueModel::Program(code),
                        },
                    ] + rest,
                ),
            },
        },
{
    crate::statements::lemma_statement_at(lines, index);
    let (handed, result) = choose|handed: &str, result: Result<Vec<u8>, EncodeError>|
        handed@ == program.text && #[trigger] call_ensures(assemble, (handed,), result)
            && crate::diagnostics::bytes_outcome(result) == outcomes[0];
    assert(call_ensures(assemble, (handed,), result));
}

/// The assembler is asked about nothing but programs.
pub proof fn law_nothing_but_programs_is_assembled<
    A: Fn(&str) -> Result<Vec<u8>, EncodeError>,
>(
    assemble: A,
    lines: Seq<Seq<char>>,
    index: int,
    outcomes: Seq<Result<Seq<u8>, EncodeFault>>,
)
    requires
        0 <= index < lines.len(),
        crate::encoder::assembled_in_turn(assemble, lines, index, outcomes),
        crate::statements::statement_at(lines, index) matches Ok(found) ==> !(found.0 is Program),
    ensures
        match crate::statements::statement_at(lines, index) {
            Err(_) => outcomes.len() == 0,
            Ok((_, next)) => crate::encoder::assembled_in_turn(assemble, lines, next, outcomes),
        },
{
    crate::statements::lemma_statement_at(lines, index);
}

/// Parsing is what the laws of encoding speak of, over the lines of the whole input.
pub proof fn law_parsing_gives_the_overrides<A: Fn(&str) -> Result<Vec<u8>, EncodeError>>(
    source: &str,
    assemble: A,
    result: Result<Vec<Override>, EncodeError>,
)
    requires
        call_ensures(parse::<A>, (source, &assemble), result),
    ensures
        exists|outcomes: Seq<Result<Seq<u8>, EncodeFault>>|
            {
                &&& #[trigger] crate::encoder::assembled_in_turn(
                    assemble,
                    crate::text::lines_of(source@),
                    0,
                    outcomes,
                )
                &&& match (
                    result,
                    crate::encoder::parsed(crate::text::lines_of(source@), 0, outcomes),
                ) {
                    (Ok(overrides), Ok(models)) => overrides@.len() == models.len() && forall|
                        i: int,
                    |
                        0 <= i < models.len() ==> (#[trigger] overrides@[i])@ == models[i],
                    (Err(error), Err(fault)) => error@ == fault,
                    _ => false,
                }
            },
{
    let lines = crate::text::lines_of(source@);
    let outcomes = choose|outcomes: Seq<Result<Seq<u8>, EncodeFault>>|
        #[trigger] crate::encoder::assembled_in_turn(assemble, lines, 0, outcomes)
            && crate::encoder::overrides_outcome(result) == crate::encoder::parsed(
            lines,
            0,
            outcomes,
        );
    assert(crate::encoder::assembled_in_turn(assemble, lines, 0, outcomes));
    if let Ok(overrides) = result {
        let models = crate::encoder::parsed(lines, 0, outcomes)->Ok_0;
        assert(models == crate::encoder::override_models(overrides@));
    }
}

// Sealing.

/// What a sealing comes to. An override that could not be framed is refused on its own line, a
/// key that was refused under the whole content. What was sealed is the payload that comes out,
/// every byte of it, once it is accepted.
pub proof fn law_what_a_sealing_comes_to(
    overrides: &[Override],
    sealing: Sealing,
    platform: Platform,
    result: Result<Vec<u8>, EncodeError>,
)
    requires
        call_ensures(finish, (overrides, sealing, &platform), result),
    ensures
        match sealing {
            Sealing::EntryRefused(position) => {
                &&& result matches Err(error) && error.message@
                    == "cannot frame this entry — the parameter is already set, or the override set no longer fits one chain-config payload"@
                &&& position < overrides@.len() ==> result->Err_0.line
                    == overrides@[position as int].line
                &&& position >= overrides@.len() ==> result->Err_0.line == 0
            },
            Sealing::KeyRefused => result matches Err(error) && error.line == 0 && error.message@
                == "the signing key was refused by the crypto backend"@,
            Sealing::Sealed(None) => result matches Err(error) && error.line == 0
                && error.message@ == "the framed content is malformed"@,
            Sealing::Sealed(Some(payload)) => match payload@.acceptance(platform) {
                Ok(_) => result matches Ok(bytes) && bytes@ == payload@.payload,
                Err(refusal) => result matches Err(error) && error.line == 0 && error.message@
                    == crate::encoder::description(refusal),
            },
        },
{
    if let Sealing::EntryRefused(position) = sealing {
        if position < overrides@.len() {
            assert(crate::encoder::override_models(overrides@)[position as int]
                == overrides@[position as int]@);
        }
    }
}

/// Each refusal has its message, with the key byte in hexadecimal and an identifier in decimal.
pub proof fn law_each_refusal_has_its_message(
    key_byte: u8,
    id: u8,
    messages: (String, String, String, String, String, String, String),
)
    requires
        call_ensures(describe, (&ChainConfigError::MalformedContent,), messages.0),
        call_ensures(describe, (&ChainConfigError::UnknownParameter(key_byte),), messages.1),
        call_ensures(describe, (&ChainConfigError::ValueWidthMismatch(id),), messages.2),
        call_ensures(describe, (&ChainConfigError::BytecodeNotPermitted(id),), messages.3),
        call_ensures(describe, (&ChainConfigError::BoundViolation(id),), messages.4),
        call_ensures(describe, (&ChainConfigError::DurableLocked,), messages.5),
        call_ensures(describe, (&ChainConfigError::NotLoaded,), messages.6),
    ensures
        messages.0@ == "the framed content is malformed"@,
        messages.1@ == "key byte 0x"@ + crate::numbers::hex_byte(key_byte)
            + " names a parameter the registry does not allocate"@,
        messages.2@ == "the literal for identifier "@ + crate::numbers::decimal(id as nat)
            + " does not match its declared width"@,
        messages.3@ == "identifier "@ + crate::numbers::decimal(id as nat)
            + " is literal-only and does not accept a program"@,
        messages.4@ == "the declared value for identifier "@ + crate::numbers::decimal(id as nat)
            + " is outside the structural bound this build can honour"@,
        messages.5@ == "the configuration is durably locked"@,
        messages.6@ == "no configuration is loaded"@,
        messages.4@ == crate::encoder::description(ChainConfigError::BoundViolation(id)),
        messages.2@ == crate::encoder::description(ChainConfigError::ValueWidthMismatch(id)),
        messages.3@ == crate::encoder::description(ChainConfigError::BytecodeNotPermitted(id)),
        messages.1@ == crate::encoder::description(ChainConfigError::UnknownParameter(key_byte)),
        messages.0@ == crate::encoder::description(ChainConfigError::MalformedContent),
{
}

/// A diagnostic is shown behind the number of its line, and alone where it is about the whole
/// content.
pub proof fn law_a_diagnostic_shows_its_line(error: EncodeError, text: String)
    requires
        call_ensures(EncodeError::rendered, (&error,), text),
    ensures
        error.line == 0 ==> text@ == error.message@,
        error.line > 0 ==> text@ == "line "@ + crate::numbers::decimal(error.line as nat) + ": "@
            + error.message@,
{
}

/// Encoding parses, seals what was parsed, and finishes what was sealed. A fault of parsing is
/// the answer as it is, and nothing is sealed for it.
pub proof fn law_encoding_is_parsing_and_sealing<
    A: Fn(&str) -> Result<Vec<u8>, EncodeError>,
    S: Fn(&[Override]) -> Sealing,
>(
    source: &str,
    assemble: A,
    seal: S,
    platform: Platform,
    result: Result<Vec<u8>, EncodeError>,
)
    requires
        call_ensures(encode::<A, S>, (source, &assemble, &seal, &platform), result),
    ensures
        exists|outcomes: Seq<Result<Seq<u8>, EncodeFault>>|
            {
                &&& #[trigger] crate::encoder::assembled_in_turn(
                    assemble,
                    crate::text::lines_of(source@),
                    0,
                    outcomes,
                )
                &&& match crate::encoder::parsed(
                    crate::text::lines_of(source@),
                    0,
                    outcomes,
                ) {
                    Err(fault) => result matches Err(error) && error@ == fault,
                    Ok(overrides) => exists|handed: &[Override], sealing: Sealing|
                        {
                            &&& handed@.len() == overrides.len()
                            &&& forall|i: int|
                                0 <= i < overrides.len() ==> (#[trigger] handed@[i])@
                                    == overrides[i]
                            &&& #[trigger] call_ensures(seal, (handed,), sealing)
                            &&& comes_to(overrides, sealing, platform, result)
                        },
                }
            },
{
    let lines = crate::text::lines_of(source@);
    let (outcomes, model) = choose|
        outcomes: Seq<Result<Seq<u8>, EncodeFault>>,
        sealing: SealingModel,
    |
        #[trigger] crate::encoder::encodes(
            source@,
            assemble,
            seal,
            platform,
            outcomes,
            sealing,
            crate::diagnostics::bytes_outcome(result),
        );
    assert(crate::encoder::assembled_in_turn(assemble, lines, 0, outcomes));
    if let Ok(overrides) = crate::encoder::parsed(lines, 0, outcomes) {
        let (handed, sealing) = choose|handed: &[Override], sealing: Sealing|
            crate::encoder::override_models(handed@) == overrides && #[trigger] call_ensures(
                seal,
                (handed,),
                sealing,
            ) && sealing@ == model;
        assert(call_ensures(seal, (handed,), sealing));
        assert forall|i: int| 0 <= i < overrides.len() implies (#[trigger] handed@[i])@
            == overrides[i] by {
            assert(crate::encoder::override_models(handed@)[i] == handed@[i]@);
        }
        assert(comes_to(overrides, sealing, platform, result));
    }
}

/// Whether `result` is what a sealing of `overrides` comes to: a payload that was accepted
/// comes out whole, and everything else is refused.
pub open spec fn comes_to(
    overrides: Seq<OverrideModel>,
    sealing: Sealing,
    platform: Platform,
    result: Result<Vec<u8>, EncodeError>,
) -> bool {
    match sealing {
        Sealing::EntryRefused(position) => result matches Err(error) && error.line == if position
            < overrides.len() {
            overrides[position as int].line
        } else {
            0
        },
        Sealing::KeyRefused => result matches Err(error) && error.line == 0,
        Sealing::Sealed(None) => result matches Err(error) && error.line == 0,
        Sealing::Sealed(Some(payload)) => match payload@.acceptance(platform) {
            Ok(_) => result matches Ok(bytes) && bytes@ == payload@.payload,
            Err(_) => result matches Err(error) && error.line == 0,
        },
    }
}

/// A model holds the values of what it is the model of.
pub proof fn law_models_hold_the_values(entry: Override, error: EncodeError)
    ensures
        entry@.line == entry.line,
        entry@.id == entry.id,
        match entry.value {
            Value::Literal(bytes) => entry@.value == ValueModel::Literal(bytes@),
            Value::Program(code) => entry@.value == ValueModel::Program(code@),
        },
        error@.line == error.line,
        error@.message == error.message@,
{
}

} // verus!
