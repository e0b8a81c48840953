//! Encoding a configuration that was written down as text.
//!
//! Two things lie outside this library and are handed in as functions: the assembler, which
//! turns program text into a program, and the sealing, which frames the overrides and signs
//! them. What was sealed then passes the acceptance rules of the runtime, so that a
//! configuration that encodes is one that the network accepts.
//!
//! # Input format
//!
//! One `name = value` assignment per line. `#` begins a comment. A value is
//!
//! - an integer, decimal or `0x`-prefixed hexadecimal, encoded little-endian at the
//!   parameter's declared width;
//! - a byte list such as `[255, 243, 65, 82, 143]`, carried verbatim;
//! - an assembly program in braces, where a parameter may be referenced as `@name`:
//!
//! ```text
//! # half the inter-block interval, read rather than restated
//! grace_period_window_ms = {
//!     GETPARAM @inter_block_interval_ms, 0
//!     PUSH 2
//!     DIV
//!     RET
//! }
//! ```

use vstd::prelude::*;

use crate::acceptance::{accept_content, ChainConfigError, Platform};
use crate::diagnostics::{err, EncodeError, EncodeFault};
use crate::framing::{FramedPayload, PayloadModel};
use crate::numbers::{push_decimal, push_hex_byte};
use crate::statements::{
    parse_statement, Override, OverrideModel, ProgramModel, Statement, StatementModel, Value,
    ValueModel,
};
use crate::text::{characters, lines};

verus! {

// Parsing.

/// Whether `assemble` may be handed every text.
pub open spec fn assembles_anything<A: Fn(&str) -> Result<Vec<u8>, EncodeError>>(
    assemble: A,
) -> bool {
    forall|text: &str| #[trigger] call_requires(assemble, (text,))
}

/// Whether `outcome` is what `assemble` makes of `text`.
pub open spec fn assembled<A: Fn(&str) -> Result<Vec<u8>, EncodeError>>(
    assemble: A,
    text: Seq<char>,
    outcome: Result<Seq<u8>, EncodeFault>,
) -> bool {
    exists|handed: &str, result: Result<Vec<u8>, EncodeError>|
        handed@ == text && #[trigger] call_ensures(assemble, (handed,), result)
            && crate::diagnostics::bytes_outcome(result) == outcome
}

/// The diagnostic of the assembler, with its line counted from the start of the input.
pub open spec fn relocated(start: nat, fault: EncodeFault) -> EncodeFault {
    EncodeFault {
        line: if start + fault.line > usize::MAX {
            usize::MAX as nat
        } else {
            start + fault.line
        },
        message: fault.message,
    }
}

/// The override that an assembled program makes.
pub open spec fn program_override(program: ProgramModel, code: Seq<u8>) -> OverrideModel {
    OverrideModel { line: program.line, id: program.id, value: ValueModel::Program(code) }
}

/// The overrides that the lines from `index` on declare, in order, or the first diagnostic.
/// `outcomes` holds what the assembler made of each program, in order.
pub open spec fn parsed(
    lines: Seq<Seq<char>>,
    index: int,
    outcomes: Seq<Result<Seq<u8>, EncodeFault>>,
) -> Result<Seq<OverrideModel>, EncodeFault>
    decreases lines.len() - index,
{
    if index < 0 || index >= lines.len() {
        Ok(Seq::empty())
    } else {
        proof {
            crate::statements::lemma_statement_at(lines, index);
        }
        match crate::statements::statement_at(lines, index) {
            Err(fault) => Err(fault),
            Ok((StatementModel::Blank, next)) => parsed(lines, next, outcomes),
            Ok((StatementModel::Literal(entry), next)) => crate::diagnostics::behind(
                seq![entry],
                parsed(lines, next, outcomes),
            ),
            Ok((StatementModel::Program(program), next)) => match outcomes[0] {
                Err(fault) => Err(relocated(program.start, fault)),
                Ok(code) => crate::diagnostics::behind(
                    seq![program_override(program, code)],
                    parsed(lines, next, outcomes.drop_first()),
                ),
            },
        }
    }
}

/// Whether `outcomes` is what `assemble` makes of the programs from `index` on, each in its
/// turn and none behind the first diagnostic.
pub open spec fn assembled_in_turn<A: Fn(&str) -> Result<Vec<u8>, EncodeError>>(
    assemble: A,
    lines: Seq<Seq<char>>,
    index: int,
    outcomes: Seq<Result<Seq<u8>, EncodeFault>>,
) -> bool
    decreases lines.len() - index,
{
    if index < 0 || index >= lines.len() {
        outcomes.len() == 0
    } else {
        proof {
            crate::statements::lemma_statement_at(lines, index);
        }
        match crate::statements::statement_at(lines, index) {
            Err(_) => outcomes.len() == 0,
            Ok((StatementModel::Program(program), next)) => {
                &&& outcomes.len() > 0
                &&& assembled(assemble, program.text, outcomes[0])
                &&& match outcomes[0] {
                    Err(_) => outcomes.len() == 1,
                    Ok(_) => assembled_in_turn(assemble, lines, next, outcomes.drop_first()),
                }
            },
            Ok((_, next)) => assembled_in_turn(assemble, lines, next, outcomes),
        }
    }
}

/// The models of a list of overrides.
pub open spec fn override_models(overrides: Seq<Override>) -> Seq<OverrideModel> {
    Seq::new(overrides.len(), |i: int| overrides[i]@)
}

/// A list of overrides or a diagnostic, as a model.
pub open spec fn overrides_outcome(result: Result<Vec<Override>, EncodeError>) -> Result<
    Seq<OverrideModel>,
    EncodeFault,
> {
    match result {
        Ok(overrides) => Ok(override_models(overrides@)),
        Err(error) => Err(error@),
    }
}

/// Whether the lines in front of `index` declared `done`, with `seen` the outcomes of the
/// programs among them.
spec fn reached<A: Fn(&str) -> Result<Vec<u8>, EncodeError>>(
    assemble: A,
    lines: Seq<Seq<char>>,
    index: int,
    seen: Seq<Result<Seq<u8>, EncodeFault>>,
    done: Seq<OverrideModel>,
) -> bool {
    forall|rest: Seq<Result<Seq<u8>, EncodeFault>>|
        {
            &&& #[trigger] parsed(lines, 0, seen + rest) == crate::diagnostics::behind(
                done,
                parsed(lines, index, rest),
            )
            &&& assembled_in_turn(assemble, lines, index, rest) ==> assembled_in_turn(
                assemble,
                lines,
                0,
                seen + rest,
            )
        }
}

/// Parses the input into overrides, in input order.
pub fn parse<A: Fn(&str) -> Result<Vec<u8>, EncodeError>>(source: &str, assemble: &A) -> (result:
    Result<Vec<Override>, EncodeError>)
    requires
        assembles_anything(*assemble),
    ensures
        exists|outcomes: Seq<Result<Seq<u8>, EncodeFault>>|
            #[trigger] assembled_in_turn(
                *assemble,
                crate::text::lines_of(source@),
                0,
                outcomes,
            ) && overrides_outcome(result) == parsed(
                crate::text::lines_of(source@),
                0,
                outcomes,
            ),
{
    let text: Vec<char> = characters(source);
    let rows: Vec<&[char]> = lines(text.as_slice());
    let ghost models = crate::text::lines_of(source@);
    let mut overrides: Vec<Override> = Vec::new();
    let mut index: usize = 0;
    let ghost mut seen: Seq<Result<Seq<u8>, EncodeFault>> = Seq::empty();
    proof {
        assert(override_models(overrides@) =~= Seq::empty());
        assert forall|rest: Seq<Result<Seq<u8>, EncodeFault>>|
            #[trigger] parsed(models, 0, seen + rest) == crate::diagnostics::behind(
                Seq::empty(),
                parsed(models, 0, rest),
            ) && (assembled_in_turn(*assemble, models, 0, rest) ==> assembled_in_turn(
                *assemble,
                models,
                0,
                seen + rest,
            )) by {
            assert(seen + rest =~= rest);
            crate::diagnostics::lemma_behind_nothing(parsed(models, 0, rest));
        }
    }
    while index < rows.len()
        invariant
            assembles_anything(*assemble),
            models == crate::text::lines_of(source@),
            models == crate::text::line_models(rows@),
            index <= rows@.len(),
            reached(*assemble, models, index as int, seen, override_models(overrides@)),
        decreases rows@.len() - index,
    {
        let ghost done = override_models(overrides@);
        let ghost none = Seq::<Result<Seq<u8>, EncodeFault>>::empty();
        let (statement, next): (Statement, usize) = match parse_statement(rows.as_slice(), index) {
            Ok(found) => found,
            Err(error) => {
                assert(parsed(models, 0, seen + none) == Err::<Seq<OverrideModel>, EncodeFault>(
                    error@,
                ));
                assert(assembled_in_turn(*assemble, models, index as int, none));
                return Err(error);
            },
        };
        match statement {
            Statement::Blank => {},
            Statement::Literal(entry) => {
                let ghost added = entry@;
                overrides.push(entry);
                proof {
                    assert(override_models(overrides@) =~= done + seq![added]);
                    lemma_reached_literal(*assemble, models, index as int, seen, done);
                }
            },
            Statement::Program(program) => {
                let result: Result<Vec<u8>, EncodeError> = assemble(program.text.as_str());
                let ghost outcome = crate::diagnostics::bytes_outcome(result);
                assert(assembled(*assemble, program@.text, outcome));
                match result {
                    Err(fault) => {
                        assert(assembled_in_turn(
                            *assemble,
                            models,
                            index as int,
                            seq![outcome],
                        ));
                        assert(parsed(models, 0, seen + seq![outcome]) is Err);
                        return Err(err(program.start.saturating_add(fault.line), fault.message));
                    },
                    Ok(code) => {
                        proof {
                            lemma_reached_program(
                                *assemble,
                                models,
                                index as int,
                                seen,
                                done,
                                outcome,
                            );
                            seen = seen.push(outcome);
                        }
                        let ghost added = program_override(program@, code@);
                        overrides.push(
                            Override {
                                line: program.line,
                                id: program.id,
                                value: Value::Program(code),
                            },
                        );
                        assert(override_models(overrides@) =~= done + seq![added]);
                    },
                }
            },
        }
        index = next;
    }
    proof {
        let none = Seq::<Result<Seq<u8>, EncodeFault>>::empty();
        assert(parsed(models, 0, seen + none) is Ok);
        assert(assembled_in_turn(*assemble, models, index as int, none));
        assert(override_models(overrides@) + Seq::empty() =~= override_models(overrides@));
    }
    Ok(overrides)
}

proof fn lemma_reached_literal<A: Fn(&str) -> Result<Vec<u8>, EncodeError>>(
    assemble: A,
    lines: Seq<Seq<char>>,
    index: int,
    seen: Seq<Result<Seq<u8>, EncodeFault>>,
    done: Seq<OverrideModel>,
)
    requires
        0 <= index < lines.len(),
        reached(assemble, lines, index, seen, done),
        crate::statements::statement_at(lines, index) matches Ok(found)
            && found.0 is Literal,
    ensures
        crate::statements::statement_at(lines, index) matches Ok(found) && reached(
            assemble,
            lines,
            found.1,
            seen,
            done + seq![found.0->Literal_0],
        ),
{
    let (statement, next) = crate::statements::statement_at(lines, index)->Ok_0;
    let entry = statement->Literal_0;
    assert forall|rest: Seq<Result<Seq<u8>, EncodeFault>>|
        #[trigger] parsed(lines, 0, seen + rest) == crate::diagnostics::behind(
            done + seq![entry],
            parsed(lines, next, rest),
        ) && (assembled_in_turn(assemble, lines, next, rest) ==> assembled_in_turn(
            assemble,
            lines,
            0,
            seen + rest,
        )) by {
        crate::diagnostics::lemma_behind_twice(done, seq![entry], parsed(lines, next, rest));
    }
}

proof fn lemma_reached_program<A: Fn(&str) -> Result<Vec<u8>, EncodeError>>(
    assemble: A,
    lines: Seq<Seq<char>>,
    index: int,
    seen: Seq<Result<Seq<u8>, EncodeFault>>,
    done: Seq<OverrideModel>,
    outcome: Result<Seq<u8>, EncodeFault>,
)
    requires
        0 <= index < lines.len(),
        reached(assemble, lines, index, seen, done),
        crate::statements::statement_at(lines, index) matches Ok(found) && found.0 is Program
            && assembled(assemble, found.0->Program_0.text, outcome),
        outcome is Ok,
    ensures
        crate::statements::statement_at(lines, index) matches Ok(found) && reached(
            assemble,
            lines,
            found.1,
            seen.push(outcome),
            done + seq![program_override(found.0->Program_0, outcome->Ok_0)],
        ),
{
    let (statement, next) = crate::statements::statement_at(lines, index)->Ok_0;
    let entry = program_override(statement->Program_0, outcome->Ok_0);
    assert forall|rest: Seq<Result<Seq<u8>, EncodeFault>>|
        #[trigger] parsed(lines, 0, seen.push(outcome) + rest) == crate::diagnostics::behind(
            done + seq![entry],
            parsed(lines, next, rest),
        ) && (assembled_in_turn(assemble, lines, next, rest) ==> assembled_in_turn(
            assemble,
            lines,
            0,
            seen.push(outcome) + rest,
        )) by {
        let left = seq![outcome] + rest;
        assert(seen.push(outcome) + rest =~= seen + left);
        assert(left.drop_first() =~= rest);
        assert(left[0] == outcome);
        crate::diagnostics::lemma_behind_twice(done, seq![entry], parsed(lines, next, rest));
    }
}

// Sealing.

/// What came of framing and signing a list of overrides.
pub enum SealingModel {
    EntryRefused(nat),
    KeyRefused,
    Sealed(Option<PayloadModel>),
}

/// What came of framing and signing a list of overrides.
pub enum Sealing {
    /// The framing refused the override at this position: its parameter is already set, or
    /// the overrides no longer fit one payload.
    EntryRefused(usize),
    /// The signing key was refused.
    KeyRefused,
    /// The overrides were framed and signed. The envelope walk made this of the payload.
    Sealed(Option<FramedPayload>),
}

impl View for Sealing {
    type V = SealingModel;

    open spec fn view(&self) -> SealingModel {
        match self {
            Sealing::EntryRefused(position) => SealingModel::EntryRefused(*position as nat),
            Sealing::KeyRefused => SealingModel::KeyRefused,
            Sealing::Sealed(payload) => SealingModel::Sealed(
                crate::acceptance::optional_model(*payload),
            ),
        }
    }
}

/// Whether `seal` may be handed every list of overrides.
pub open spec fn seals_anything<S: Fn(&[Override]) -> Sealing>(seal: S) -> bool {
    forall|overrides: &[Override]| #[trigger] call_requires(seal, (overrides,))
}

/// Whether `sealing` is what `seal` makes of `overrides`.
pub open spec fn sealed<S: Fn(&[Override]) -> Sealing>(
    seal: S,
    overrides: Seq<OverrideModel>,
    sealing: SealingModel,
) -> bool {
    exists|handed: &[Override], result: Sealing|
        override_models(handed@) == overrides && #[trigger] call_ensures(seal, (handed,), result)
            && result@ == sealing
}

/// The message for a refusal.
pub open spec fn description(error: ChainConfigError) -> Seq<char> {
    match error {
        ChainConfigError::MalformedContent => "the framed content is malformed"@,
        ChainConfigError::UnknownParameter(key_byte) => "key byte 0x"@ + crate::numbers::hex_byte(
            key_byte,
        ) + " names a parameter the registry does not allocate"@,
        ChainConfigError::ValueWidthMismatch(id) => "the literal for identifier "@
            + crate::numbers::decimal(id as nat) + " does not match its declared width"@,
        ChainConfigError::BytecodeNotPermitted(id) => "identifier "@ + crate::numbers::decimal(
            id as nat,
        ) + " is literal-only and does not accept a program"@,
        ChainConfigError::BoundViolation(id) => "the declared value for identifier "@
            + crate::numbers::decimal(id as nat)
            + " is outside the structural bound this build can honour"@,
        ChainConfigError::DurableLocked => "the configuration is durably locked"@,
        ChainConfigError::NotLoaded => "no configuration is loaded"@,
    }
}

/// The message for a refusal.
pub fn describe(error: &ChainConfigError) -> (message: String)
    ensures
        message@ == description(*error),
{
    match error {
        ChainConfigError::MalformedContent => "the framed content is malformed".to_owned(),
        ChainConfigError::UnknownParameter(key_byte) => {
            let mut message: String = "key byte 0x".to_owned();
            push_hex_byte(&mut message, *key_byte);
            message.append(" names a parameter the registry does not allocate");
            message
        },
        ChainConfigError::ValueWidthMismatch(id) => {
            let mut message: String = "the literal for identifier ".to_owned();
            push_decimal(&mut message, *id as u64);
            message.append(" does not match its declared width");
            message
        },
        ChainConfigError::BytecodeNotPermitted(id) => {
            let mut message: String = "identifier ".to_owned();
            push_decimal(&mut message, *id as u64);
            message.append(" is literal-only and does not accept a program");
            message
        },
        ChainConfigError::BoundViolation(id) => {
            let mut message: String = "the declared value for identifier ".to_owned();
            push_decimal(&mut message, *id as u64);
            message.append(" is outside the structural bound this build can honour");
            message
        },
        ChainConfigError::DurableLocked => "the configuration is durably locked".to_owned(),
        ChainConfigError::NotLoaded => "no configuration is loaded".to_owned(),
    }
}

/// What encoding comes to, given what came of the sealing: the payload, once it has passed
/// the acceptance rules of the runtime.
pub open spec fn encoding(
    overrides: Seq<OverrideModel>,
    sealing: SealingModel,
    platform: Platform,
) -> Result<Seq<u8>, EncodeFault> {
    match sealing {
        SealingModel::EntryRefused(position) => Err(
            EncodeFault {
                line: if position < overrides.len() {
                    overrides[position as int].line
                } else {
                    0
                },
                message:
                    "cannot frame this entry — the parameter is already set, or the override set no longer fits one chain-config payload"@,
            },
        ),
        SealingModel::KeyRefused => Err(
            EncodeFault { line: 0, message: "the signing key was refused by the crypto backend"@ },
        ),
        SealingModel::Sealed(payload) => match crate::acceptance::acceptance_of(
            payload,
            platform,
        ) {
            Err(error) => Err(EncodeFault { line: 0, message: description(error) }),
            Ok(_) => Ok(payload->Some_0.payload),
        },
    }
}

/// What encoding comes to, given what came of the sealing.
pub fn finish(overrides: &[Override], sealing: Sealing, platform: &Platform) -> (result: Result<
    Vec<u8>,
    EncodeError,
>)
    ensures
        crate::diagnostics::bytes_outcome(result) == encoding(
            override_models(overrides@),
            sealing@,
            *platform,
        ),
{
    match sealing {
        Sealing::EntryRefused(position) => {
            let line: usize = if position < overrides.len() {
                overrides[position].line
            } else {
                0
            };
            Err(
                err(
                    line,
                    "cannot frame this entry — the parameter is already set, or the override set no longer fits one chain-config payload".to_owned(),
                ),
            )
        },
        Sealing::KeyRefused => Err(
            err(0, "the signing key was refused by the crypto backend".to_owned()),
        ),
        Sealing::Sealed(None) => Err(err(0, describe(&ChainConfigError::MalformedContent))),
        Sealing::Sealed(Some(payload)) => match accept_content(Some(&payload), platform) {
            Err(error) => Err(err(0, describe(&error))),
            Ok(_) => Ok(payload.into_payload()),
        },
    }
}

/// Whether `result` is what encoding `source` comes to with this assembler and this sealing.
/// What was sealed is well framed: no identifier occurs twice in it.
pub open spec fn encodes<
    A: Fn(&str) -> Result<Vec<u8>, EncodeError>,
    S: Fn(&[Override]) -> Sealing,
>(
    source: Seq<char>,
    assemble: A,
    seal: S,
    platform: Platform,
    outcomes: Seq<Result<Seq<u8>, EncodeFault>>,
    sealing: SealingModel,
    result: Result<Seq<u8>, EncodeFault>,
) -> bool {
    let lines = crate::text::lines_of(source);
    &&& assembled_in_turn(assemble, lines, 0, outcomes)
    &&& sealing matches SealingModel::Sealed(Some(payload)) ==> payload.well_framed()
    &&& match parsed(lines, 0, outcomes) {
        Err(fault) => result == Err::<Seq<u8>, EncodeFault>(fault),
        Ok(overrides) => sealed(seal, overrides, sealing) && result == encoding(
            overrides,
            sealing,
            platform,
        ),
    }
}

/// Encodes `source` into a signed chain-config payload: the content region followed by its
/// signature.
pub fn encode<A: Fn(&str) -> Result<Vec<u8>, EncodeError>, S: Fn(&[Override]) -> Sealing>(
    source: &str,
    assemble: &A,
    seal: &S,
    platform: &Platform,
) -> (result: Result<Vec<u8>, EncodeError>)
    requires
        assembles_anything(*assemble),
        seals_anything(*seal),
    ensures
        exists|outcomes: Seq<Result<Seq<u8>, EncodeFault>>, sealing: SealingModel|
            #[trigger] encodes(
                source@,
                *assemble,
                *seal,
                *platform,
                outcomes,
                sealing,
                crate::diagnostics::bytes_outcome(result),
            ),
{
    let ghost lines = crate::text::lines_of(source@);
    let declared: Result<Vec<Override>, EncodeError> = parse(source, assemble);
    let ghost outcomes = choose|outcomes: Seq<Result<Seq<u8>, EncodeFault>>|
        #[trigger] assembled_in_turn(*assemble, lines, 0, outcomes) && overrides_outcome(declared)
            == parsed(lines, 0, outcomes);
    match declared {
        Err(error) => {
            assert(encodes(
                source@,
                *assemble,
                *seal,
                *platform,
                outcomes,
                SealingModel::KeyRefused,
                Err(error@),
            ));
            Err(error)
        },
        Ok(overrides) => {
            let sealing: Sealing = seal(overrides.as_slice());
            let ghost model = sealing@;
            if let Sealing::Sealed(Some(payload)) = &sealing {
                proof {
                    use_type_invariant(payload);
                }
            }
            assert(sealed(*seal, override_models(overrides@), model));
            let result: Result<Vec<u8>, EncodeError> = finish(
                overrides.as_slice(),
                sealing,
                platform,
            );
            assert(encodes(
                source@,
                *assemble,
                *seal,
                *platform,
                outcomes,
                model,
                crate::diagnostics::bytes_outcome(result),
            ));
            result
        },
    }
}

} // verus!
