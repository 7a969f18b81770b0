//! Parse failures: what a rule reports when it cannot produce a value.

use vstd::prelude::*;

verus! {

/// How much more input a rule asked for.
#[derive(Debug, PartialEq, Eq, Clone, Copy)]
pub enum Needed {
    /// More input is needed, but the amount is not known.
    Unknown,
    /// This many more characters are needed.
    Size(usize),
}

/// The grammar construct at which a rule stopped.
#[derive(Debug, PartialEq, Eq, Clone, Copy)]
pub enum ErrorKind {
    /// None of the alternatives matched.
    Alt,
    /// The next character is not in the expected set.
    OneOf,
    /// The next character is not the expected one.
    Char,
    /// The input ended where a character was required.
    Complete,
}

/// Why a rule rejected its input.
#[derive(Debug, PartialEq, Eq, Clone, Copy)]
pub enum Reason {
    /// The text does not have the shape that the rule asks for.
    Rule(ErrorKind),
    /// The digits denote a number above the largest supported one.
    NumberOutOfRange,
}

/// The outcome of a rule that did not produce a value.
#[derive(Debug, PartialEq)]
pub enum ParserError<'a> {
    /// The rule does not match here; another rule may. Carries the input at
    /// the point of failure.
    Error(&'a str, Reason),
    /// The rule does not match and no other rule should be tried.
    Failure(&'a str, Reason),
    /// The rule could match if more input followed.
    Incomplete(Needed),
}

/// The mathematical content of a `ParserError`: the same shape, with the
/// input at the point of failure as a sequence of characters.
pub enum Fault {
    /// The rule does not match this input, for this reason.
    Error(Seq<char>, Reason),
    /// The rule does not match this input, for this reason, and no other
    /// rule should be tried.
    Failure(Seq<char>, Reason),
    /// The rule could match if this much more input followed.
    Incomplete(Needed),
}

impl<'a> View for ParserError<'a> {
    type V = Fault;

    open spec fn view(&self) -> Fault {
        match self {
            ParserError::Error(rest, reason) => Fault::Error(rest@, *reason),
            ParserError::Failure(rest, reason) => Fault::Failure(rest@, *reason),
            ParserError::Incomplete(needed) => Fault::Incomplete(*needed),
        }
    }
}

/// What a rule yields in the model: the unconsumed input with the value, or
/// the fault.
pub type Parsed<T> = Result<(Seq<char>, T), Fault>;

/// What a rule yields in executable code.
pub type IResult<'a, T> = Result<(&'a str, T), ParserError<'a>>;

/// The model of an executable result.
pub open spec fn parsed<'a, T: View>(res: IResult<'a, T>) -> Parsed<T::V> {
    match res {
        Ok((rest, value)) => Ok((rest@, value@)),
        Err(e) => Err(e@),
    }
}

impl ErrorKind {
    /// The text by which a construct is named in messages.
    pub open spec fn description_text(self) -> Seq<char> {
        match self {
            ErrorKind::Alt => "Alternative"@,
            ErrorKind::OneOf => "OneOf"@,
            ErrorKind::Char => "Char"@,
            ErrorKind::Complete => "Complete"@,
        }
    }
}

/// Asks `nom::error::ErrorKind::description` for the name of a construct.
/// Trusted: for the four constructs of this grammar the text is the one that
/// `description_text` lists.
#[verifier::external_body]
fn kind_description(kind: ErrorKind) -> (text: String)
    ensures
        text@ == kind.description_text(),
{
    let outside = match kind {
        ErrorKind::Alt => nom::error::ErrorKind::Alt,
        ErrorKind::OneOf => nom::error::ErrorKind::OneOf,
        ErrorKind::Char => nom::error::ErrorKind::Char,
        ErrorKind::Complete => nom::error::ErrorKind::Complete,
    };
    outside.description().to_string()
}

impl Reason {
    /// The text that describes this reason in a message.
    pub open spec fn description_text(self) -> Seq<char> {
        match self {
            Reason::Rule(kind) => kind.description_text(),
            Reason::NumberOutOfRange => "Number out of range"@,
        }
    }

    /// Describes this reason in words.
    pub fn description(&self) -> (text: String)
        ensures
            text@ == self.description_text(),
    {
        match self {
            Reason::Rule(kind) => kind_description(*kind),
            Reason::NumberOutOfRange => "Number out of range".to_owned(),
        }
    }
}

} // verus!
