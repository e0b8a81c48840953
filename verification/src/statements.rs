//! Statements: what one line, or one block of lines, of a written configuration says.

use vstd::prelude::*;

use crate::diagnostics::{err, EncodeError, EncodeFault};
use crate::literals::{parse_byte_list, parse_integer};
use crate::names::find_identifier;
use crate::programs::resolve_references;
use crate::registry::{spec, ParameterSpec};
use crate::text::{position, push_all, trim};

verus! {

/// What an override sets a parameter to.
pub enum ValueModel {
    Literal(Seq<u8>),
    Program(Seq<u8>),
}

/// One override: the line that it stands on, the parameter and its value.
pub struct OverrideModel {
    pub line: nat,
    pub id: u8,
    pub value: ValueModel,
}

/// What an override sets a parameter to.
#[derive(Debug, PartialEq, Eq)]
pub enum Value {
    /// The bytes of a literal.
    Literal(Vec<u8>),
    /// An assembled program.
    Program(Vec<u8>),
}

impl View for Value {
    type V = ValueModel;

    open spec fn view(&self) -> ValueModel {
        match self {
            Value::Literal(bytes) => ValueModel::Literal(bytes@),
            Value::Program(bytes) => ValueModel::Program(bytes@),
        }
    }
}

/// One parsed override.
#[derive(Debug, PartialEq, Eq)]
pub struct Override {
    /// One-based number of the line that it stands on.
    pub line: usize,
    /// The parameter.
    pub id: u8,
    /// Its value.
    pub value: Value,
}

impl View for Override {
    type V = OverrideModel;

    open spec fn view(&self) -> OverrideModel {
        OverrideModel { line: self.line as nat, id: self.id, value: self.value@ }
    }
}

/// A program that has yet to be assembled: the line that its parameter stands on, the
/// parameter, the program text, and how many lines stand in front of the text.
pub struct ProgramModel {
    pub line: nat,
    pub id: u8,
    pub text: Seq<char>,
    pub start: nat,
}

/// A program that has yet to be assembled.
pub struct ProgramText {
    /// One-based number of the line that its parameter stands on.
    pub line: usize,
    /// The parameter.
    pub id: u8,
    /// The program, with its references resolved.
    pub text: String,
    /// How many lines stand in front of the program.
    pub start: usize,
}

impl View for ProgramText {
    type V = ProgramModel;

    open spec fn view(&self) -> ProgramModel {
        ProgramModel {
            line: self.line as nat,
            id: self.id,
            text: self.text@,
            start: self.start as nat,
        }
    }
}

/// What a statement says.
pub enum StatementModel {
    Blank,
    Literal(OverrideModel),
    Program(ProgramModel),
}

/// What a statement says.
pub enum Statement {
    /// Nothing: the line is blank or holds a comment.
    Blank,
    /// A parameter is set to a literal.
    Literal(Override),
    /// A parameter is set to a program.
    Program(ProgramText),
}

impl View for Statement {
    type V = StatementModel;

    open spec fn view(&self) -> StatementModel {
        match self {
            Statement::Blank => StatementModel::Blank,
            Statement::Literal(entry) => StatementModel::Literal(entry@),
            Statement::Program(program) => StatementModel::Program(program@),
        }
    }
}

/// A line without its comment.
pub open spec fn without_comment(line: Seq<char>) -> Seq<char> {
    line.take(crate::text::position_of(line, '#') as int)
}

/// A line without its comment.
pub fn strip_comment<'a>(line: &'a [char]) -> (stripped: &'a [char])
    ensures
        stripped@ == without_comment(line@),
{
    let end: usize = position(line, '#');
    assert(line@.subrange(0, end as int) =~= line@.take(end as int));
    vstd::slice::slice_subrange(line, 0, end)
}

/// Where the block that begins at `from` ends: at the first line that holds a closing brace
/// and nothing else, or behind the last line where there is none.
pub open spec fn block_end(lines: Seq<Seq<char>>, from: int) -> int
    decreases lines.len() - from,
{
    if from >= lines.len() || crate::text::trim_of(lines[from]) == seq!['}'] {
        from
    } else {
        block_end(lines, from + 1)
    }
}

pub proof fn lemma_block_end(lines: Seq<Seq<char>>, from: int)
    requires
        from <= lines.len(),
    ensures
        from <= block_end(lines, from) <= lines.len(),
    decreases lines.len() - from,
{
    if from < lines.len() {
        lemma_block_end(lines, from + 1);
    }
}

/// Where the block that begins at `from` ends.
fn find_block_end(lines: &[&[char]], from: usize) -> (end: usize)
    requires
        from <= lines@.len(),
    ensures
        end == block_end(crate::text::line_models(lines@), from as int),
        from <= end <= lines@.len(),
{
    let ghost models = crate::text::line_models(lines@);
    let mut end: usize = from;
    while end < lines.len()
        invariant
            models == crate::text::line_models(lines@),
            from <= end <= lines@.len(),
            block_end(models, from as int) == block_end(models, end as int),
        decreases lines@.len() - end,
    {
        let line: &[char] = trim(lines[end]);
        assert(models[end as int] == lines@[end as int]@);
        if line.len() == 1 && line[0] == '}' {
            assert(line@ =~= seq!['}']);
            return end;
        }
        end = end + 1;
    }
    end
}

/// What a literal sets a parameter to.
pub open spec fn literal_bytes(line: nat, text: Seq<char>, id: u8, name: Seq<char>) -> Result<
    Seq<u8>,
    EncodeFault,
> {
    let width = ParameterSpec::registered(id).width as nat;
    if text.len() > 0 && text[0] == '[' {
        crate::literals::list_bytes(line, text, width, name)
    } else {
        crate::literals::integer_bytes(line, text, width, name)
    }
}

/// What an assignment says whose value is a program in braces, and where the next statement
/// begins.
pub open spec fn program_at(lines: Seq<Seq<char>>, index: int, id: u8, name: Seq<char>) -> Result<
    (StatementModel, int),
    EncodeFault,
> {
    let line = (index + 1) as nat;
    let end = block_end(lines, index + 1);
    if end >= lines.len() {
        Err(EncodeFault { line, message: "unterminated program block"@ })
    } else if !ParameterSpec::registered(id).bytecode_allowed {
        Err(
            EncodeFault {
                line,
                message: "`"@ + name + "` is literal-only and does not accept a program"@,
            },
        )
    } else {
        match crate::programs::references(lines.subrange(index + 1, end), line + 1) {
            Err(fault) => Err(fault),
            Ok(text) => Ok(
                (
                    StatementModel::Program(ProgramModel { line, id, text, start: line }),
                    end + 1,
                ),
            ),
        }
    }
}

/// What the statement at `index` says, and where the next one begins.
pub open spec fn statement_at(lines: Seq<Seq<char>>, index: int) -> Result<
    (StatementModel, int),
    EncodeFault,
> {
    let line = (index + 1) as nat;
    let text = crate::text::trim_of(without_comment(lines[index]));
    let equals = crate::text::position_of(text, '=') as int;
    if text.len() == 0 {
        Ok((StatementModel::Blank, index + 1))
    } else if equals >= text.len() {
        Err(EncodeFault { line, message: "expected `name = value`"@ })
    } else {
        let name = crate::text::trim_of(text.take(equals));
        let value = crate::text::trim_of(text.skip(equals + 1));
        match crate::names::identifier_named(name) {
            None => Err(EncodeFault { line, message: "unknown parameter `"@ + name + "`"@ }),
            Some(id) => if value == seq!['{'] {
                program_at(lines, index, id, name)
            } else {
                match literal_bytes(line, value, id, name) {
                    Err(fault) => Err(fault),
                    Ok(bytes) => Ok(
                        (
                            StatementModel::Literal(
                                OverrideModel { line, id, value: ValueModel::Literal(bytes) },
                            ),
                            index + 1,
                        ),
                    ),
                }
            },
        }
    }
}

/// Every statement takes up at least one line, and ends with the text at the latest.
pub proof fn lemma_statement_at(lines: Seq<Seq<char>>, index: int)
    requires
        0 <= index < lines.len(),
    ensures
        statement_at(lines, index) matches Ok(found) ==> index < found.1 <= lines.len(),
{
    lemma_block_end(lines, index + 1);
}

/// A parsed statement, as a model.
pub open spec fn statement_outcome(result: Result<(Statement, usize), EncodeError>) -> Result<
    (StatementModel, int),
    EncodeFault,
> {
    match result {
        Ok(found) => Ok((found.0@, found.1 as int)),
        Err(error) => Err(error@),
    }
}

/// Reads a program in braces. The body is handed on verbatim once its references are
/// resolved, so `;` comments inside it stay the assembler's.
fn parse_program(lines: &[&[char]], index: usize, id: u8, name: &[char]) -> (found: Result<
    (Statement, usize),
    EncodeError,
>)
    requires
        index < lines@.len(),
        ParameterSpec::allocates(id),
    ensures
        statement_outcome(found) == program_at(
            crate::text::line_models(lines@),
            index as int,
            id,
            name@,
        ),
{
    let ghost models = crate::text::line_models(lines@);
    assert(lines@.len() == lines.len());
    let line: usize = index + 1;
    let end: usize = find_block_end(lines, line);
    if end == lines.len() {
        return Err(err(line, "unterminated program block".to_owned()));
    }
    if !spec(id).bytecode_allowed {
        let mut message: String = "`".to_owned();
        push_all(&mut message, name);
        message.append("` is literal-only and does not accept a program");
        return Err(err(line, message));
    }
    let body: &[&[char]] = vstd::slice::slice_subrange(lines, line, end);
    assert(crate::text::line_models(body@) =~= models.subrange(index + 1, end as int));
    match resolve_references(body, line) {
        Ok(text) => Ok((Statement::Program(ProgramText { line, id, text, start: line }), end + 1)),
        Err(error) => Err(error),
    }
}

/// Reads a literal at the width of its parameter.
fn parse_literal(line: usize, text: &[char], id: u8, name: &[char]) -> (bytes: Result<
    Vec<u8>,
    EncodeError,
>)
    requires
        ParameterSpec::allocates(id),
    ensures
        crate::diagnostics::bytes_outcome(bytes) == literal_bytes(line as nat, text@, id, name@),
{
    let width: u8 = spec(id).width;
    if text.len() > 0 && text[0] == '[' {
        parse_byte_list(line, text, width, name)
    } else {
        parse_integer(line, text, width, name)
    }
}

/// Reads the statement at `index`, and tells where the next one begins.
pub fn parse_statement(lines: &[&[char]], index: usize) -> (found: Result<
    (Statement, usize),
    EncodeError,
>)
    requires
        index < lines@.len(),
    ensures
        statement_outcome(found) == statement_at(crate::text::line_models(lines@), index as int),
        found matches Ok(found) ==> index < found.1 <= lines@.len(),
{
    let ghost models = crate::text::line_models(lines@);
    proof {
        lemma_statement_at(models, index as int);
    }
    let raw: &[char] = lines[index];
    assert(models[index as int] == raw@);
    assert(lines@.len() == lines.len());
    let line: usize = index + 1;
    let text: &[char] = trim(strip_comment(raw));
    if text.len() == 0 {
        return Ok((Statement::Blank, line));
    }
    let equals: usize = position(text, '=');
    if equals == text.len() {
        return Err(err(line, "expected `name = value`".to_owned()));
    }
    let name: &[char] = trim(vstd::slice::slice_subrange(text, 0, equals));
    assert(text@.subrange(0, equals as int) =~= text@.take(equals as int));
    let value: &[char] = trim(vstd::slice::slice_subrange(text, equals + 1, text.len()));
    assert(text@.subrange(equals + 1, text@.len() as int) =~= text@.skip(equals + 1));
    let id: u8 = match find_identifier(name) {
        Some(id) => id,
        None => {
            let mut message: String = "unknown parameter `".to_owned();
            push_all(&mut message, name);
            message.append("`");
            return Err(err(line, message));
        },
    };
    proof {
        crate::names::law_names_are_allocated(name@);
    }
    if value.len() == 1 && value[0] == '{' {
        assert(value@ =~= seq!['{']);
        return parse_program(lines, index, id, name);
    }
    assert(value@ != seq!['{']);
    match parse_literal(line, value, id, name) {
        Ok(bytes) => Ok(
            (Statement::Literal(Override { line, id, value: Value::Literal(bytes) }), line),
        ),
        Err(error) => Err(error),
    }
}

} // verus!
