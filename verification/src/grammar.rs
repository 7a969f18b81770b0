//! The grammar of expressions: atoms, numbers, strings, and the rule that
//! tries them in turn.

use crate::chars::{
    all_in, leading_run, lemma_run_len, lemma_run_of_concat, run_len, stops, CharClass,
};
use crate::decimal::{decimal_text, decimal_u32, decimal_value, lemma_decimal_text};
use crate::error::{parsed, ErrorKind, Fault, IResult, Needed, Parsed, ParserError, Reason};
use crate::value::{Datum, LispVal};
use vstd::prelude::*;

verus! {

/// What the text of an atom stands for: `#t` and `#f` are the booleans,
/// every other text is an atom of that name.
pub open spec fn classify(text: Seq<char>) -> Datum {
    if text == seq!['#', 't'] {
        Datum::Bool(true)
    } else if text == seq!['#', 'f'] {
        Datum::Bool(false)
    } else {
        Datum::Atom(text)
    }
}

/// What `lisp_atom` yields on `s`: a symbol or a letter, then as many
/// symbols, letters and digits as follow, read as one text.
pub open spec fn atom_of(s: Seq<char>) -> Parsed<Datum> {
    let n = 1 + run_len(s.skip(1), CharClass::AtomTail) as int;
    if s.len() == 0 {
        Err(Fault::Incomplete(Needed::Size(1)))
    } else if !CharClass::AtomHead.contains(s[0]) {
        Err(Fault::Error(s, Reason::Rule(ErrorKind::Alt)))
    } else {
        Ok((s.skip(n), classify(s.take(n))))
    }
}

/// What `lisp_number` yields on `s`: as many digits as stand at the front,
/// at least one, read in decimal notation, as far as the number fits 32 bits.
pub open spec fn number_of(s: Seq<char>) -> Parsed<Datum> {
    let n = run_len(s, CharClass::Digit) as int;
    let value = decimal_value(s.take(n));
    if s.len() == 0 {
        Err(Fault::Error(s, Reason::Rule(ErrorKind::Complete)))
    } else if n == 0 {
        Err(Fault::Error(s, Reason::Rule(ErrorKind::OneOf)))
    } else if value > u32::MAX {
        Err(Fault::Error(s, Reason::NumberOutOfRange))
    } else {
        Ok((s.skip(n), Datum::Number(value as u32)))
    }
}

/// What `lisp_string` yields on `s`: a quote, the characters up to the next
/// quote, and that quote. Input that ends before the closing quote is
/// incomplete.
pub open spec fn string_of(s: Seq<char>) -> Parsed<Datum> {
    let n = run_len(s.skip(1), CharClass::StringBody) as int;
    if s.len() == 0 {
        Err(Fault::Incomplete(Needed::Size(1)))
    } else if s[0] != '"' {
        Err(Fault::Error(s, Reason::Rule(ErrorKind::Char)))
    } else if 1 + n == s.len() {
        Err(Fault::Incomplete(Needed::Size(1)))
    } else {
        Ok((s.skip(n + 2), Datum::Str(s.subrange(1, n + 1))))
    }
}

/// Whether an outcome says that the input does not have the shape that the
/// rule asks for, so that another rule may be tried.
pub open spec fn gives_way(outcome: Parsed<Datum>) -> bool {
    outcome matches Err(Fault::Error(_, Reason::Rule(_)))
}

/// The first of two outcomes, unless it gives way to the second.
pub open spec fn or_else(first: Parsed<Datum>, second: Parsed<Datum>) -> Parsed<Datum> {
    if gives_way(first) {
        second
    } else {
        first
    }
}

/// What `lisp_expr` yields on `s`: the outcome of the first of atom, number
/// and string that does not give way; where all three do, the error that no
/// alternative matched. A value, incomplete input and a number out of range
/// are final.
pub open spec fn expr_of(s: Seq<char>) -> Parsed<Datum> {
    or_else(
        atom_of(s),
        or_else(
            number_of(s),
            or_else(string_of(s), Err(Fault::Error(s, Reason::Rule(ErrorKind::Alt)))),
        ),
    )
}

/// What `parse` yields on `s`: the value of the expression at the front,
/// whatever follows it, or the fault.
pub open spec fn parse_of(s: Seq<char>) -> Result<Datum, Fault> {
    match expr_of(s) {
        Ok((_, value)) => Ok(value),
        Err(fault) => Err(fault),
    }
}

/// Reads an atom or a boolean from the front of `input`.
///
/// The text read is the first character, which must be a symbol or a letter,
/// and every symbol, letter and digit that follows it without a gap. Empty
/// input is incomplete; any other first character is an error of kind `Alt`
/// that carries the whole input.
pub fn lisp_atom<'a>(input: &'a str) -> (res: IResult<'a, LispVal>)
    ensures
        parsed(res) == atom_of(input@),
        res matches Ok((_, value)) ==> value@.well_formed(),
{
    let len: usize = input.unicode_len();
    if len == 0 {
        return Err(ParserError::Incomplete(Needed::Size(1)));
    }
    if !CharClass::AtomHead.accepts(input.get_char(0)) {
        return Err(ParserError::Error(input, Reason::Rule(ErrorKind::Alt)));
    }
    let n: usize = leading_run(input, CharClass::AtomTail);
    proof {
        lemma_run_len(input@, CharClass::AtomTail);
    }
    let text: &str = input.substring_char(0, n);
    let rest: &str = input.substring_char(n, len);
    let value = if n == 2 && text.get_char(0) == '#' && text.get_char(1) == 't' {
        assert(text@ == seq!['#', 't']);
        LispVal::LBool(true)
    } else if n == 2 && text.get_char(0) == '#' && text.get_char(1) == 'f' {
        assert(text@ == seq!['#', 'f']);
        LispVal::LBool(false)
    } else {
        LispVal::LAtom(text.to_owned())
    };
    Ok((rest, value))
}

/// Reads an unsigned decimal number from the front of `input`.
///
/// The digits read are all those that stand at the front. Empty input is an
/// error of kind `Complete`, a first character that is no digit an error of
/// kind `OneOf`, and digits that denote more than `u32::MAX` are refused as
/// out of range; each error carries the whole input.
pub fn lisp_number<'a>(input: &'a str) -> (res: IResult<'a, LispVal>)
    ensures
        parsed(res) == number_of(input@),
{
    let len: usize = input.unicode_len();
    if len == 0 {
        return Err(ParserError::Error(input, Reason::Rule(ErrorKind::Complete)));
    }
    let n: usize = leading_run(input, CharClass::Digit);
    if n == 0 {
        return Err(ParserError::Error(input, Reason::Rule(ErrorKind::OneOf)));
    }
    proof {
        lemma_run_len(input@, CharClass::Digit);
    }
    match decimal_u32(input.substring_char(0, n)) {
        Some(value) => Ok((input.substring_char(n, len), LispVal::LNumber(value))),
        None => Err(ParserError::Error(input, Reason::NumberOutOfRange)),
    }
}

/// Reads a string literal from the front of `input`.
///
/// The text of the string is what stands between the opening quote and the
/// next quote; a backslash has no special meaning. Input that is empty or
/// ends before the closing quote is incomplete; a first character that is
/// no quote is an error of kind `Char` that carries the whole input.
pub fn lisp_string<'a>(input: &'a str) -> (res: IResult<'a, LispVal>)
    ensures
        parsed(res) == string_of(input@),
{
    let len: usize = input.unicode_len();
    if len == 0 {
        return Err(ParserError::Incomplete(Needed::Size(1)));
    }
    if input.get_char(0) != '"' {
        return Err(ParserError::Error(input, Reason::Rule(ErrorKind::Char)));
    }
    let body: &str = input.substring_char(1, len);
    let n: usize = leading_run(body, CharClass::StringBody);
    proof {
        lemma_run_len(body@, CharClass::StringBody);
    }
    if n == len - 1 {
        return Err(ParserError::Incomplete(Needed::Size(1)));
    }
    let text: &str = body.substring_char(0, n);
    let rest: &str = body.substring_char(n + 1, len - 1);
    assert(text@ == input@.subrange(1, n + 1));
    assert(rest@ == input@.skip(n + 2));
    Ok((rest, LispVal::LString(text.to_owned())))
}

/// Reads one expression from the front of `input`: an atom, else a number,
/// else a string.
///
/// A rule whose input does not have its shape gives way to the next one; any
/// other outcome is final: a value, incomplete input, a number out of range.
/// Where the last rule gives way too, the outcome is an error of kind `Alt`
/// that carries the whole input.
pub fn lisp_expr<'a>(input: &'a str) -> (res: IResult<'a, LispVal>)
    ensures
        parsed(res) == expr_of(input@),
        res matches Ok((_, value)) ==> value@.well_formed(),
{
    match lisp_atom(input) {
        Err(ParserError::Error(_, Reason::Rule(_))) => {},
        outcome => {
            return outcome;
        },
    }
    match lisp_number(input) {
        Err(ParserError::Error(_, Reason::Rule(_))) => {},
        outcome => {
            return outcome;
        },
    }
    match lisp_string(input) {
        Err(ParserError::Error(_, Reason::Rule(_))) => Err(
            ParserError::Error(input, Reason::Rule(ErrorKind::Alt)),
        ),
        outcome => outcome,
    }
}

/// Reads the expression at the front of a line. What follows the expression
/// is ignored; a line without an expression at its front gives the error of
/// `lisp_expr`.
pub fn parse<'a>(s: &'a str) -> (res: Result<LispVal, ParserError<'a>>)
    ensures
        match res {
            Ok(value) => parse_of(s@) == Ok::<_, Fault>(value@),
            Err(e) => parse_of(s@) == Err::<Datum, _>(e@),
        },
        res matches Ok(value) ==> value@.well_formed(),
{
    match lisp_expr(s) {
        Ok((_, value)) => Ok(value),
        Err(e) => Err(e),
    }
}

/// Whether `text` has the shape of an atom: a symbol or a letter, then
/// symbols, letters and digits.
pub open spec fn atom_shaped(text: Seq<char>) -> bool {
    &&& text.len() > 0
    &&& CharClass::AtomHead.contains(text[0])
    &&& all_in(text, CharClass::AtomTail)
}

/// A text of the shape of an atom, followed by the end of the input or by a
/// character that cannot continue an atom, is read whole: the value is the
/// atom of that text, or the boolean where the text is `#t` or `#f`, and
/// what follows the text is left.
pub proof fn lemma_atom_reads(text: Seq<char>, rest: Seq<char>)
    requires
        atom_shaped(text),
        stops(rest, CharClass::AtomTail),
    ensures
        atom_of(text + rest) == Ok::<_, Fault>((rest, classify(text))),
{
    lemma_run_of_concat(text, rest, CharClass::AtomTail);
}

/// A run of digits whose value fits 32 bits, followed by the end of the
/// input or by a character that is not a digit, is read whole: the value is
/// the number that the digits denote, and what follows them is left.
pub proof fn lemma_number_reads(digits: Seq<char>, rest: Seq<char>)
    requires
        digits.len() > 0,
        all_in(digits, CharClass::Digit),
        decimal_value(digits) <= u32::MAX,
        stops(rest, CharClass::Digit),
    ensures
        number_of(digits + rest) == Ok::<_, Fault>(
            (rest, Datum::Number(decimal_value(digits) as u32)),
        ),
{
    lemma_run_of_concat(digits, rest, CharClass::Digit);
}

/// The decimal notation of a number that fits 32 bits is read back as that
/// number, with nothing left.
pub proof fn lemma_number_of_decimal_text(n: u32)
    ensures
        number_of(decimal_text(n as nat)) == Ok::<_, Fault>(
            (Seq::<char>::empty(), Datum::Number(n)),
        ),
{
    lemma_decimal_text(n as nat);
    lemma_number_reads(decimal_text(n as nat), Seq::empty());
}

/// A text without a quote, between two quotes, is read as the string of
/// that text, and what follows the closing quote is left. Without the
/// closing quote the input is incomplete.
pub proof fn lemma_string_reads(text: Seq<char>, rest: Seq<char>)
    requires
        all_in(text, CharClass::StringBody),
    ensures
        string_of(seq!['"'] + text + seq!['"'] + rest) == Ok::<_, Fault>((rest, Datum::Str(text))),
        string_of(seq!['"'] + text) == Err::<(Seq<char>, Datum), _>(
            Fault::Incomplete(Needed::Size(1)),
        ),
{
    let n = text.len() as int;
    let closed = seq!['"'] + text + seq!['"'] + rest;
    assert(closed.skip(1) == text + (seq!['"'] + rest));
    lemma_run_of_concat(text, seq!['"'] + rest, CharClass::StringBody);
    assert(closed.skip(n + 2) == rest);
    assert(closed.subrange(1, n + 1) == text);
    let open = seq!['"'] + text;
    assert(open.skip(1) == text + Seq::<char>::empty());
    lemma_run_of_concat(text, Seq::empty(), CharClass::StringBody);
}

/// No input is read by more than one of the three rules, so the order in
/// which `lisp_expr` tries them decides nothing: where one of them yields a
/// value, `lisp_expr` yields the same. Where the number is out of range,
/// `lisp_expr` says so.
pub proof fn lemma_rules_exclusive(s: Seq<char>)
    ensures
        number_of(s) matches Err(Fault::Error(_, Reason::NumberOutOfRange)) ==> expr_of(s)
            == number_of(s),
        atom_of(s) is Ok ==> number_of(s) is Err && string_of(s) is Err && expr_of(s) == atom_of(s),
        number_of(s) is Ok ==> atom_of(s) is Err && string_of(s) is Err && expr_of(s) == number_of(
            s,
        ),
        string_of(s) is Ok ==> atom_of(s) is Err && number_of(s) is Err && expr_of(s) == string_of(
            s,
        ),
        expr_of(s) is Ok ==> atom_of(s) is Ok || number_of(s) is Ok || string_of(s) is Ok,
{
}

/// Whether `rest` is what remains of `s` after at least one character.
pub open spec fn remains_of(rest: Seq<char>, s: Seq<char>) -> bool {
    rest.len() < s.len() && rest == s.skip(s.len() - rest.len())
}

/// A rule that yields a value has read at least one character, and leaves
/// the input that follows what it has read.
pub proof fn lemma_rules_consume(s: Seq<char>)
    ensures
        atom_of(s) matches Ok((rest, _)) ==> remains_of(rest, s),
        number_of(s) matches Ok((rest, _)) ==> remains_of(rest, s),
        string_of(s) matches Ok((rest, _)) ==> remains_of(rest, s),
        expr_of(s) matches Ok((rest, _)) ==> remains_of(rest, s),
{
    if s.len() > 0 {
        lemma_run_len(s.skip(1), CharClass::AtomTail);
        lemma_run_len(s, CharClass::Digit);
        lemma_run_len(s.skip(1), CharClass::StringBody);
    }
}

/// Each rule yields values of its own kind: `lisp_atom` atoms and
/// booleans, `lisp_number` numbers, `lisp_string` strings. No rule yields a
/// list, and every value that a rule yields is well formed.
pub proof fn lemma_rules_values(s: Seq<char>)
    ensures
        atom_of(s) matches Ok((_, value)) ==> value is Atom || value is Bool,
        number_of(s) matches Ok((_, value)) ==> value is Number,
        string_of(s) matches Ok((_, value)) ==> value is Str,
        expr_of(s) matches Ok((_, value)) ==> value.well_formed() && !(value is List) && !(value
            is DottedList),
{
    if s.len() > 0 {
        lemma_run_len(s.skip(1), CharClass::AtomTail);
    }
}

} // verus!
