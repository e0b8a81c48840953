//! Program text: references to parameters, and the arity of the calls that read them.

use vstd::prelude::*;

use crate::diagnostics::{err, EncodeError, EncodeFault};
use crate::names::find_identifier;
use crate::numbers::{parse_number, push_decimal};
use crate::registry::{is_allocated, spec, ParameterSpec};
use crate::text::{
    characters, field_end, fields, name_end, position, push_all, same_ignoring_case, trim,
};

verus! {

/// What is wrong with a line of assembly that reads a parameter, if anything is.
///
/// A `GETPARAM` takes an identifier and an argument count. Where both are numbers they have
/// to be what the registry records. An operand that is no number is left to the assembler.
pub open spec fn getparam_fault(line: nat, text: Seq<char>) -> Option<EncodeFault> {
    let code = crate::text::trim_of(text.take(crate::text::position_of(text, ';') as int));
    let end = crate::text::field_len(code, false) as int;
    let operands = crate::text::fields_of(code.skip(end), true);
    if !crate::text::same_but_for_case(code.take(end), "GETPARAM"@) {
        None
    } else if operands.len() != 2 {
        Some(
            EncodeFault {
                line,
                message: "GETPARAM takes a parameter identifier and an argument count"@,
            },
        )
    } else {
        match (
            crate::numbers::number_value(operands[0]),
            crate::numbers::number_value(operands[1]),
        ) {
            (Some(id), Some(argc)) => operand_fault(line, id as nat, argc as nat),
            _ => None,
        }
    }
}

/// What is wrong with reading parameter `id` with `argc` arguments, if anything is.
pub open spec fn operand_fault(line: nat, id: nat, argc: nat) -> Option<EncodeFault> {
    if id > 255 || !ParameterSpec::allocates(id as u8) {
        Some(
            EncodeFault {
                line,
                message: "GETPARAM names identifier "@ + crate::numbers::decimal(id)
                    + ", which the registry does not allocate"@,
            },
        )
    } else {
        let arity = ParameterSpec::registered(id as u8).args;
        if argc != arity {
            Some(
                EncodeFault {
                    line,
                    message: "GETPARAM declares "@ + crate::numbers::decimal(argc)
                        + " argument(s) for identifier "@ + crate::numbers::decimal(id)
                        + ", but the registry records arity "@ + crate::numbers::decimal(
                        arity as nat,
                    ),
                },
            )
        } else {
            None
        }
    }
}

/// Refuses a `GETPARAM` whose declared argument count contradicts the registry.
///
/// Such a call would be declined while the program runs, and the parameter would fall back
/// to its default without a word. Here it is a diagnostic that names the line.
pub fn check_getparam_arity(line: usize, text: &[char]) -> (checked: Result<(), EncodeError>)
    ensures
        match checked {
            Ok(()) => getparam_fault(line as nat, text@) is None,
            Err(error) => getparam_fault(line as nat, text@) == Some(error@),
        },
{
    let comment: usize = position(text, ';');
    let code: &[char] = trim(vstd::slice::slice_subrange(text, 0, comment));
    assert(text@.subrange(0, comment as int) =~= text@.take(comment as int));
    let end: usize = field_end(code, false);
    let mnemonic: &[char] = vstd::slice::slice_subrange(code, 0, end);
    assert(mnemonic@ =~= code@.take(end as int));
    let getparam: Vec<char> = characters("GETPARAM");
    if !same_ignoring_case(mnemonic, getparam.as_slice()) {
        return Ok(());
    }
    let rest: &[char] = vstd::slice::slice_subrange(code, end, code.len());
    assert(rest@ =~= code@.skip(end as int));
    let operands: Vec<&[char]> = fields(rest, true);
    let ghost models = crate::text::line_models(operands@);
    if operands.len() != 2 {
        return Err(
            err(line, "GETPARAM takes a parameter identifier and an argument count".to_owned()),
        );
    }
    assert(models[0] == operands@[0]@ && models[1] == operands@[1]@);
    match (parse_number(operands[0]), parse_number(operands[1])) {
        (Some(id), Some(argc)) => check_operands(line, id, argc),
        _ => Ok(()),
    }
}

/// Holds the operands of a `GETPARAM` to the registry.
fn check_operands(line: usize, id: u64, argc: u64) -> (checked: Result<(), EncodeError>)
    ensures
        match checked {
            Ok(()) => operand_fault(line as nat, id as nat, argc as nat) is None,
            Err(error) => operand_fault(line as nat, id as nat, argc as nat) == Some(error@),
        },
{
    if id > 255 || !is_allocated(id as u8) {
        let mut message: String = "GETPARAM names identifier ".to_owned();
        push_decimal(&mut message, id);
        message.append(", which the registry does not allocate");
        return Err(err(line, message));
    }
    let arity: u8 = spec(id as u8).args;
    if argc != arity as u64 {
        let mut message: String = "GETPARAM declares ".to_owned();
        push_decimal(&mut message, argc);
        message.append(" argument(s) for identifier ");
        push_decimal(&mut message, id);
        message.append(", but the registry records arity ");
        push_decimal(&mut message, arity as u64);
        return Err(err(line, message));
    }
    Ok(())
}

/// A line with every `@name` rewritten to the identifier that the name stands for, or the
/// first name that stands for none.
pub open spec fn rewritten(text: Seq<char>) -> Result<Seq<char>, Seq<char>>
    decreases text.len(),
{
    let at = crate::text::position_of(text, '@') as int;
    if at >= text.len() {
        Ok(text)
    } else {
        let after = text.skip(at + 1);
        let end = crate::text::name_len(after) as int;
        proof {
            crate::text::lemma_name_len(after);
        }
        match crate::names::identifier_named(after.take(end)) {
            None => Err(after.take(end)),
            Some(id) => match rewritten(after.skip(end)) {
                Err(name) => Err(name),
                Ok(rest) => Ok(text.take(at) + (crate::numbers::decimal(id as nat) + rest)),
            },
        }
    }
}

/// The program text of `body`, whose first line has number `line`: every reference resolved,
/// every line closed by a line feed.
pub open spec fn references(body: Seq<Seq<char>>, line: nat) -> Result<Seq<char>, EncodeFault>
    decreases body.len(),
{
    if body.len() == 0 {
        Ok(Seq::empty())
    } else {
        match rewritten(body[0]) {
            Err(name) => Err(
                EncodeFault { line, message: "unknown parameter `@"@ + name + "`"@ },
            ),
            Ok(text) => match getparam_fault(line, text) {
                Some(fault) => Err(fault),
                None => crate::diagnostics::behind(text.push('\n'), references(body.drop_first(), line + 1)),
            },
        }
    }
}

/// Rewrites every `@name` of one line to the identifier that the name stands for.
fn rewrite(line: usize, text: &[char]) -> (resolved: Result<Vec<char>, EncodeError>)
    ensures
        match resolved {
            Ok(resolved) => rewritten(text@) == Ok::<Seq<char>, Seq<char>>(resolved@),
            Err(error) => rewritten(text@) is Err && error@ == (EncodeFault {
                line: line as nat,
                message: "unknown parameter `@"@ + rewritten(text@)->Err_0 + "`"@,
            }),
        },
{
    let mut resolved: Vec<char> = Vec::new();
    let mut start: usize = 0;
    assert(text@.skip(0) =~= text@);
    proof {
        if let Ok(all) = rewritten(text@) {
            assert(resolved@ + all =~= all);
        }
    }
    loop
        invariant
            start <= text@.len(),
            match rewritten(text@.skip(start as int)) {
                Ok(rest) => rewritten(text@) == Ok::<Seq<char>, Seq<char>>(resolved@ + rest),
                Err(name) => rewritten(text@) == Err::<Seq<char>, Seq<char>>(name),
            },
        decreases text@.len() - start,
    {
        let ghost before = resolved@;
        let rest: &[char] = vstd::slice::slice_subrange(text, start, text.len());
        assert(rest@ =~= text@.skip(start as int));
        let at: usize = position(rest, '@');
        let front: &[char] = vstd::slice::slice_subrange(rest, 0, at);
        assert(front@ =~= rest@.take(at as int));
        copy_all(&mut resolved, front);
        if at == rest.len() {
            assert(front@ =~= rest@);
            return Ok(resolved);
        }
        let after: &[char] = vstd::slice::slice_subrange(rest, at + 1, rest.len());
        assert(after@ =~= rest@.skip(at + 1));
        let end: usize = name_end(after);
        let name: &[char] = vstd::slice::slice_subrange(after, 0, end);
        assert(name@ =~= after@.take(end as int));
        match find_identifier(name) {
            None => {
                let mut message: String = "unknown parameter `@".to_owned();
                push_all(&mut message, name);
                message.append("`");
                return Err(err(line, message));
            },
            Some(id) => {
                let mut number: String = String::new();
                push_decimal(&mut number, id as u64);
                assert(number@ =~= crate::numbers::decimal(id as nat));
                let digits: Vec<char> = characters(number.as_str());
                copy_all(&mut resolved, digits.as_slice());
                proof {
                    assert(after@.skip(end as int) =~= text@.skip(start + at + 1 + end));
                    if let Ok(left) = rewritten(after@.skip(end as int)) {
                        assert(resolved@ + left =~= before + (front@ + (digits@ + left)));
                    }
                }
            },
        }
        start = start + at + 1 + end;
    }
}

/// Puts `chars` behind what `out` holds.
fn copy_all(out: &mut Vec<char>, chars: &[char])
    ensures
        final(out)@ == old(out)@ + chars@,
{
    let mut i: usize = 0;
    assert(out@ =~= old(out)@ + chars@.take(0));
    while i < chars.len()
        invariant
            i <= chars@.len(),
            out@ == old(out)@ + chars@.take(i as int),
        decreases chars@.len() - i,
    {
        assert(chars@.take(i + 1) =~= chars@.take(i as int).push(chars@[i as int]));
        out.push(chars[i]);
        i = i + 1;
        assert(out@ =~= old(out)@ + chars@.take(i as int));
    }
    assert(chars@.take(i as int) =~= chars@);
}

/// Rewrites `@name` references to registry identifiers and checks every `GETPARAM`'s declared
/// argument count against the registry.
///
/// The assembler can do neither: it knows nothing about the registry.
pub fn resolve_references(body: &[&[char]], offset: usize) -> (resolved: Result<
    String,
    EncodeError,
>)
    requires
        offset + body@.len() <= usize::MAX,
    ensures
        crate::diagnostics::text_outcome(resolved) == references(
            crate::text::line_models(body@),
            (offset + 1) as nat,
        ),
{
    let ghost models = crate::text::line_models(body@);
    let ghost first = (offset + 1) as nat;
    let mut resolved: String = String::new();
    let mut index: usize = 0;
    assert(models.skip(0) =~= models);
    proof {
        crate::diagnostics::lemma_behind_nothing(references(models, first));
    }
    assert(resolved@ =~= Seq::<char>::empty());
    while index < body.len()
        invariant
            models == crate::text::line_models(body@),
            first == offset + 1,
            offset + body@.len() <= usize::MAX,
            index <= body@.len(),
            references(models, first) == crate::diagnostics::behind(
                resolved@,
                references(models.skip(index as int), first + index as nat),
            ),
        decreases body@.len() - index,
    {
        let ghost before = resolved@;
        let line: usize = offset + index + 1;
        assert(models.skip(index as int)[0] == body@[index as int]@);
        assert(models.skip(index as int).drop_first() =~= models.skip(index + 1));
        let mut text: Vec<char> = match rewrite(line, body[index]) {
            Ok(text) => text,
            Err(error) => return Err(error),
        };
        match check_getparam_arity(line, text.as_slice()) {
            Ok(()) => {},
            Err(error) => return Err(error),
        }
        text.push('\n');
        push_all(&mut resolved, text.as_slice());
        proof {
            crate::diagnostics::lemma_behind_twice(
                before,
                text@,
                references(models.skip(index + 1), first + index as nat + 1),
            );
        }
        index = index + 1;
    }
    assert(models.skip(index as int) =~= Seq::<Seq<char>>::empty());
    assert(resolved@ + Seq::<char>::empty() =~= resolved@);
    Ok(resolved)
}

} // verus!
