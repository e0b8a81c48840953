//! Diagnostics about a configuration that was written down as text.

use vstd::prelude::*;

use crate::numbers::push_decimal;

verus! {

/// A diagnostic: the line it is about, and what went wrong there.
pub struct EncodeFault {
    pub line: nat,
    pub message: Seq<char>,
}

/// A diagnostic naming the input line that could not be encoded.
#[derive(Clone, Debug, PartialEq, Eq)]
pub struct EncodeError {
    /// One-based line number, or zero for a diagnostic about the whole content.
    pub line: usize,
    /// What went wrong.
    pub message: String,
}

impl View for EncodeError {
    type V = EncodeFault;

    open spec fn view(&self) -> EncodeFault {
        EncodeFault { line: self.line as nat, message: self.message@ }
    }
}

impl EncodeFault {
    /// The diagnostic as it is shown.
    pub open spec fn rendered(self) -> Seq<char> {
        if self.line == 0 {
            self.message
        } else {
            "line "@ + crate::numbers::decimal(self.line) + ": "@ + self.message
        }
    }
}

impl EncodeError {
    /// The diagnostic as it is shown.
    pub fn rendered(&self) -> (text: String)
        ensures
            text@ == self@.rendered(),
    {
        if self.line == 0 {
            return self.message.clone();
        }
        let mut text: String = "line ".to_owned();
        push_decimal(&mut text, self.line as u64);
        text.append(": ");
        text.append(self.message.as_str());
        text
    }
}

/// A diagnostic about `line`.
pub fn err(line: usize, message: String) -> (error: EncodeError)
    ensures
        error@ == (EncodeFault { line: line as nat, message: message@ }),
{
    EncodeError { line, message }
}

/// A result that holds bytes, as a model.
pub open spec fn bytes_outcome(result: Result<Vec<u8>, EncodeError>) -> Result<
    Seq<u8>,
    EncodeFault,
> {
    match result {
        Ok(bytes) => Ok(bytes@),
        Err(error) => Err(error@),
    }
}

/// A result that holds text, as a model.
pub open spec fn text_outcome(result: Result<String, EncodeError>) -> Result<
    Seq<char>,
    EncodeFault,
> {
    match result {
        Ok(text) => Ok(text@),
        Err(error) => Err(error@),
    }
}

/// A result with `front` put before what it holds.
pub open spec fn behind<A>(front: Seq<A>, result: Result<Seq<A>, EncodeFault>) -> Result<
    Seq<A>,
    EncodeFault,
> {
    match result {
        Ok(rest) => Ok(front + rest),
        Err(fault) => Err(fault),
    }
}

pub proof fn lemma_behind_nothing<A>(result: Result<Seq<A>, EncodeFault>)
    ensures
        behind(Seq::empty(), result) == result,
{
    if let Ok(rest) = result {
        assert(Seq::<A>::empty() + rest =~= rest);
    }
}

pub proof fn lemma_behind_twice<A>(one: Seq<A>, other: Seq<A>, result: Result<Seq<A>, EncodeFault>)
    ensures
        behind(one, behind(other, result)) == behind(one + other, result),
{
    if let Ok(rest) = result {
        assert(one + (other + rest) =~= (one + other) + rest);
    }
}

} // verus!
