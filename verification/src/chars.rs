//! Character classes of the surface syntax, and the rules that read one
//! character or one run of characters from the front of the input.

use crate::error::{parsed, ErrorKind, Fault, IResult, Needed, Parsed, ParserError, Reason};
use vstd::prelude::*;
use vstd::std_specs::iter::IteratorSpec;

verus! {

/// The punctuation characters that may appear in an atom.
pub open spec fn is_symbol(c: char) -> bool {
    ||| c == '!'
    ||| c == '$'
    ||| c == '%'
    ||| c == '&'
    ||| c == '|'
    ||| c == '*'
    ||| c == '+'
    ||| c == '-'
    ||| c == '/'
    ||| c == ':'
    ||| c == '<'
    ||| c == '='
    ||| c == '?'
    ||| c == '>'
    ||| c == '@'
    ||| c == '^'
    ||| c == '_'
    ||| c == '~'
    ||| c == '#'
}

/// The ASCII letters, either case.
pub open spec fn is_letter(c: char) -> bool {
    ('A' <= c && c <= 'Z') || ('a' <= c && c <= 'z')
}

/// The ASCII digits.
pub open spec fn is_digit(c: char) -> bool {
    '0' <= c && c <= '9'
}

/// The blank characters: space and newline.
pub open spec fn is_space(c: char) -> bool {
    c == ' ' || c == '\n'
}

/// A fixed set of characters.
#[derive(Debug, PartialEq, Eq, Clone, Copy)]
pub enum CharClass {
    /// The punctuation characters of atoms.
    Symbol,
    /// The ASCII letters.
    Letter,
    /// The ASCII digits.
    Digit,
    /// Space and newline.
    Space,
    /// What an atom may start with: a symbol or a letter.
    AtomHead,
    /// What an atom may continue with: a symbol, a letter or a digit.
    AtomTail,
    /// What may stand inside a string literal: anything but the quote.
    StringBody,
}

impl CharClass {
    /// Whether `c` belongs to the class.
    pub open spec fn contains(self, c: char) -> bool {
        match self {
            CharClass::Symbol => is_symbol(c),
            CharClass::Letter => is_letter(c),
            CharClass::Digit => is_digit(c),
            CharClass::Space => is_space(c),
            CharClass::AtomHead => is_symbol(c) || is_letter(c),
            CharClass::AtomTail => is_symbol(c) || is_letter(c) || is_digit(c),
            CharClass::StringBody => c != '"',
        }
    }

    /// Decides whether `c` belongs to the class.
    pub fn accepts(&self, c: char) -> (b: bool)
        ensures
            b == self.contains(c),
    {
        let symbol = c == '!' || c == '$' || c == '%' || c == '&' || c == '|' || c == '*' || c
            == '+' || c == '-' || c == '/' || c == ':' || c == '<' || c == '=' || c == '?' || c
            == '>' || c == '@' || c == '^' || c == '_' || c == '~' || c == '#';
        let letter = ('A' <= c && c <= 'Z') || ('a' <= c && c <= 'z');
        let digit = '0' <= c && c <= '9';
        match self {
            CharClass::Symbol => symbol,
            CharClass::Letter => letter,
            CharClass::Digit => digit,
            CharClass::Space => c == ' ' || c == '\n',
            CharClass::AtomHead => symbol || letter,
            CharClass::AtomTail => symbol || letter || digit,
            CharClass::StringBody => c != '"',
        }
    }
}

/// Whether every character of `s` belongs to `class`.
pub open spec fn all_in(s: Seq<char>, class: CharClass) -> bool {
    forall|i: int| 0 <= i < s.len() ==> class.contains(#[trigger] s[i])
}

/// Whether `s` is empty or starts with a character outside `class`.
pub open spec fn stops(s: Seq<char>, class: CharClass) -> bool {
    s.len() == 0 || !class.contains(s[0])
}

/// The number of characters at the front of `s` that belong to `class`: the
/// length of the longest prefix made of them.
pub open spec fn run_len(s: Seq<char>, class: CharClass) -> nat
    decreases s.len(),
{
    if s.len() > 0 && class.contains(s[0]) {
        1 + run_len(s.skip(1), class)
    } else {
        0
    }
}

/// The run is a prefix of the input, lies in the class, and is followed by
/// the end of the input or by a character outside the class.
pub proof fn lemma_run_len(s: Seq<char>, class: CharClass)
    ensures
        run_len(s, class) <= s.len(),
        all_in(s.take(run_len(s, class) as int), class),
        stops(s.skip(run_len(s, class) as int), class),
    decreases s.len(),
{
    if s.len() > 0 && class.contains(s[0]) {
        let tail = s.skip(1);
        let n = run_len(tail, class) as int;
        lemma_run_len(tail, class);
        assert forall|i: int| 0 <= i < n + 1 implies class.contains(
            #[trigger] s.take(n + 1)[i],
        ) by {
            if i > 0 {
                assert(s.take(n + 1)[i] == tail.take(n)[i - 1]);
            }
        }
    }
}

/// A prefix that lies in the class and cannot be extended is the run.
pub proof fn lemma_run_len_is(s: Seq<char>, class: CharClass, n: nat)
    requires
        n <= s.len(),
        all_in(s.take(n as int), class),
        stops(s.skip(n as int), class),
    ensures
        run_len(s, class) == n,
    decreases n,
{
    if n > 0 {
        assert(s.take(n as int)[0] == s[0]);
        let tail = s.skip(1);
        let m = (n - 1) as nat;
        assert forall|i: int| 0 <= i < m implies class.contains(#[trigger] tail.take(m as int)[i]) by {
            assert(tail.take(m as int)[i] == s.take(n as int)[i + 1]);
        }
        lemma_run_len_is(tail, class, m);
    }
}

/// Counts the characters at the front of `input` that belong to `class`.
pub fn leading_run(input: &str, class: CharClass) -> (n: usize)
    ensures
        n == run_len(input@, class),
{
    let len: usize = input.unicode_len();
    let mut chars = input.chars();
    let mut n: usize = 0;
    loop
        invariant_except_break
            chars.remaining() == input@.skip(n as int),
        invariant
            len == input@.len(),
            n <= len,
            all_in(input@.take(n as int), class),
        ensures
            stops(input@.skip(n as int), class),
        decreases len - n,
    {
        match chars.next() {
            Some(c) => {
                if !class.accepts(c) {
                    break;
                }
                assert(all_in(input@.take(n + 1), class)) by {
                    assert(input@.take(n + 1).drop_last() == input@.take(n as int));
                }
                n = n + 1;
            },
            None => {
                break;
            },
        }
    }
    proof {
        lemma_run_len_is(input@, class, n as nat);
    }
    n
}

/// What a one-character rule yields on `s`: the first character, if it
/// belongs to `class`, with the input after it.
pub open spec fn one_of(s: Seq<char>, class: CharClass) -> Parsed<char> {
    if s.len() == 0 {
        Err(Fault::Incomplete(Needed::Size(1)))
    } else if class.contains(s[0]) {
        Ok((s.skip(1), s[0]))
    } else {
        Err(Fault::Error(s, Reason::Rule(ErrorKind::OneOf)))
    }
}

/// What `spaces` yields on `s`: the input after the leading blanks, and the
/// blanks.
pub open spec fn spaces_of(s: Seq<char>) -> (Seq<char>, Seq<char>) {
    let n = run_len(s, CharClass::Space) as int;
    (s.skip(n), s.take(n))
}

/// Reads one character of `class` from the front of `input`. Empty input is
/// incomplete; a first character outside the class is an error of kind
/// `OneOf` that carries the whole input.
fn one_char<'a>(input: &'a str, class: CharClass) -> (res: IResult<'a, char>)
    ensures
        parsed(res) == one_of(input@, class),
{
    let len: usize = input.unicode_len();
    if len == 0 {
        return Err(ParserError::Incomplete(Needed::Size(1)));
    }
    let c: char = input.get_char(0);
    if class.accepts(c) {
        Ok((input.substring_char(1, len), c))
    } else {
        Err(ParserError::Error(input, Reason::Rule(ErrorKind::OneOf)))
    }
}

/// Reads one symbol character from the front of `input`. Empty input is
/// incomplete; any other first character is an error of kind `OneOf` that
/// carries the whole input.
pub fn symbol<'a>(input: &'a str) -> (res: IResult<'a, char>)
    ensures
        parsed(res) == one_of(input@, CharClass::Symbol),
{
    one_char(input, CharClass::Symbol)
}

/// Reads one ASCII letter from the front of `input`. Empty input is
/// incomplete; any other first character is an error of kind `OneOf` that
/// carries the whole input.
pub fn letter<'a>(input: &'a str) -> (res: IResult<'a, char>)
    ensures
        parsed(res) == one_of(input@, CharClass::Letter),
{
    one_char(input, CharClass::Letter)
}

/// Reads one ASCII digit from the front of `input`. Empty input is
/// incomplete; any other first character is an error of kind `OneOf` that
/// carries the whole input.
pub fn digit<'a>(input: &'a str) -> (res: IResult<'a, char>)
    ensures
        parsed(res) == one_of(input@, CharClass::Digit),
{
    one_char(input, CharClass::Digit)
}

/// Reads the leading run of spaces and newlines from the front of `input`.
/// The run may be empty and may be the whole input: this rule never fails.
pub fn spaces<'a>(input: &'a str) -> (res: IResult<'a, &'a str>)
    ensures
        parsed(res) == Ok::<_, Fault>(spaces_of(input@)),
{
    let len: usize = input.unicode_len();
    let n: usize = leading_run(input, CharClass::Space);
    proof {
        lemma_run_len(input@, CharClass::Space);
    }
    Ok((input.substring_char(n, len), input.substring_char(0, n)))
}

/// The length of a text that lies in the class and is followed by the end of
/// the input, or by a character outside the class, is the length of the run.
pub proof fn lemma_run_of_concat(text: Seq<char>, rest: Seq<char>, class: CharClass)
    requires
        all_in(text, class),
        stops(rest, class),
    ensures
        run_len(text + rest, class) == text.len(),
        (text + rest).take(text.len() as int) == text,
        (text + rest).skip(text.len() as int) == rest,
{
    lemma_run_len_is(text + rest, class, text.len());
}

/// A symbol at the front of the input is read, and what follows it is left.
/// A letter or a digit at the front is refused, with the whole input left.
pub proof fn lemma_symbol_reads(c: char, rest: Seq<char>)
    ensures
        is_symbol(c) ==> one_of(seq![c] + rest, CharClass::Symbol) == Ok::<_, Fault>((rest, c)),
        is_letter(c) || is_digit(c) ==> one_of(seq![c] + rest, CharClass::Symbol) == Err::<
            (Seq<char>, char),
            _,
        >(Fault::Error(seq![c] + rest, Reason::Rule(ErrorKind::OneOf))),
{
    assert((seq![c] + rest).skip(1) == rest);
}

/// Blanks that are followed by the end of the input, or by a character that
/// is not a blank, are read whole, and what follows them is left. The run of
/// blanks may be empty.
pub proof fn lemma_spaces_reads(blanks: Seq<char>, rest: Seq<char>)
    requires
        all_in(blanks, CharClass::Space),
        stops(rest, CharClass::Space),
    ensures
        spaces_of(blanks + rest) == (rest, blanks),
{
    lemma_run_of_concat(blanks, rest, CharClass::Space);
}

} // verus!
