use scheme_reader::error::{ErrorKind, Needed, ParserError, Reason};
use scheme_reader::grammar::{lisp_atom, lisp_expr, lisp_number, lisp_string, parse};
use scheme_reader::value::LispVal;

fn atom(text: &str) -> LispVal {
    LispVal::LAtom(text.to_string())
}

fn string(text: &str) -> LispVal {
    LispVal::LString(text.to_string())
}

#[test]
fn atom_reads_the_whole_run_and_leaves_the_rest() {
    assert_eq!(lisp_atom("abc def"), Ok((" def", atom("abc"))));
    assert_eq!(lisp_atom("set!(x)"), Ok(("(x)", atom("set!"))));
    assert_eq!(lisp_atom("a1b2 c"), Ok((" c", atom("a1b2"))));
    assert_eq!(lisp_atom("x\"y\""), Ok(("\"y\"", atom("x"))));
    assert_eq!(lisp_atom("caf\u{e9}"), Ok(("\u{e9}", atom("caf"))));
}

#[test]
fn atom_may_consist_of_symbols_alone() {
    assert_eq!(lisp_atom("@#$"), Ok(("", atom("@#$"))));
    assert_eq!(lisp_atom("+"), Ok(("", atom("+"))));
    assert_eq!(lisp_atom("<=?"), Ok(("", atom("<=?"))));
}

#[test]
fn atom_reads_back_texts_of_its_shape() {
    for text in ["x", "lambda", "list->vector", "string<=?", "_a1", "#", "#tt", "a#t", "T", "z9!"] {
        assert_eq!(lisp_atom(text), Ok(("", atom(text))));
        let followed = format!("{} 7", text);
        assert_eq!(lisp_atom(&followed), Ok((" 7", atom(text))));
    }
}

#[test]
fn booleans_are_the_exact_texts_only() {
    assert_eq!(lisp_atom("#t rest"), Ok((" rest", LispVal::LBool(true))));
    assert_eq!(lisp_atom("#f)"), Ok((")", LispVal::LBool(false))));
    assert_eq!(lisp_atom("#true"), Ok(("", atom("#true"))));
    assert_eq!(lisp_atom("#f1"), Ok(("", atom("#f1"))));
    assert_eq!(lisp_atom("#T"), Ok(("", atom("#T"))));
    assert_eq!(lisp_atom("t#"), Ok(("", atom("t#"))));
    assert_eq!(lisp_atom("#"), Ok(("", atom("#"))));
}

#[test]
fn atom_refuses_a_head_that_is_no_symbol_or_letter() {
    for input in ["1abc", "(a)", " a", "\"a\"", "\u{e9}a"] {
        assert_eq!(
            lisp_atom(input),
            Err(ParserError::Error(input, Reason::Rule(ErrorKind::Alt)))
        );
    }
}

#[test]
fn atom_asks_for_more_on_empty_input() {
    assert_eq!(lisp_atom(""), Err(ParserError::Incomplete(Needed::Size(1))));
}

#[test]
fn number_reads_the_digits_and_leaves_the_rest() {
    assert_eq!(lisp_number("42abc"), Ok(("abc", LispVal::LNumber(42))));
    assert_eq!(lisp_number("7 8"), Ok((" 8", LispVal::LNumber(7))));
    assert_eq!(lisp_number("0"), Ok(("", LispVal::LNumber(0))));
    assert_eq!(lisp_number("10)"), Ok((")", LispVal::LNumber(10))));
    assert_eq!(lisp_number("1.5"), Ok((".5", LispVal::LNumber(1))));
}

#[test]
fn number_reads_back_decimal_texts() {
    for n in [0u32, 1, 9, 10, 11, 99, 100, 101, 1000, 65535, 65536, 123456789, 4294967294, u32::MAX] {
        let text = n.to_string();
        assert_eq!(lisp_number(&text), Ok(("", LispVal::LNumber(n))));
    }
}

#[test]
fn number_ignores_leading_zeros() {
    assert_eq!(lisp_number("007"), Ok(("", LispVal::LNumber(7))));
    assert_eq!(lisp_number("0000000000000000000000000000042x"), Ok(("x", LispVal::LNumber(42))));
    assert_eq!(lisp_number("00004294967295"), Ok(("", LispVal::LNumber(4294967295))));
}

#[test]
fn number_holds_the_largest_value() {
    assert_eq!(lisp_number("4294967295"), Ok(("", LispVal::LNumber(4294967295))));
}

#[test]
fn number_rejects_what_does_not_fit() {
    for input in [
        "4294967296",
        "4294967300",
        "9999999999",
        "42949672950",
        "18446744073709551616",
        "99999999999999999999999999999999999999999999",
        "4294967296abc",
        "000004294967296",
    ] {
        assert_eq!(
            lisp_number(input),
            Err(ParserError::Error(input, Reason::NumberOutOfRange))
        );
    }
}

#[test]
fn number_refuses_a_head_that_is_no_digit() {
    for input in ["abc", "-1", "+1", " 1", "#1", "\u{663}"] {
        assert_eq!(
            lisp_number(input),
            Err(ParserError::Error(input, Reason::Rule(ErrorKind::OneOf)))
        );
    }
}

#[test]
fn number_refuses_empty_input() {
    assert_eq!(
        lisp_number(""),
        Err(ParserError::Error("", Reason::Rule(ErrorKind::Complete)))
    );
}

#[test]
fn string_reads_up_to_the_closing_quote() {
    assert_eq!(lisp_string("\"a b\" rest"), Ok((" rest", string("a b"))));
    assert_eq!(lisp_string("\"\""), Ok(("", string(""))));
    assert_eq!(lisp_string("\"\"\""), Ok(("\"", string(""))));
    assert_eq!(lisp_string("\"x\"\"y\""), Ok(("\"y\"", string("x"))));
    assert_eq!(lisp_string("\"1 #t (\n)\"x"), Ok(("x", string("1 #t (\n)"))));
}

#[test]
fn string_reads_back_texts_without_a_quote() {
    for text in ["", "hello", "two words", "#t", "42", "tab\there", "caf\u{e9} \u{4e2d}\u{1f600}"] {
        let input = format!("\"{}\"", text);
        assert_eq!(lisp_string(&input), Ok(("", string(text))));
    }
}

#[test]
fn string_does_not_interpret_escapes() {
    assert_eq!(lisp_string("\"a\\nb\""), Ok(("", string("a\\nb"))));
    assert_eq!(lisp_string("\"a\\\"b\""), Ok(("b\"", string("a\\"))));
}

#[test]
fn string_without_its_closing_quote_is_incomplete() {
    for input in ["\"", "\"hello", "\"two words ", "\"caf\u{e9}"] {
        assert_eq!(lisp_string(input), Err(ParserError::Incomplete(Needed::Size(1))));
    }
}

#[test]
fn string_refuses_a_head_that_is_no_quote() {
    for input in ["hello\"", "'a'", " \"a\"", "1"] {
        assert_eq!(
            lisp_string(input),
            Err(ParserError::Error(input, Reason::Rule(ErrorKind::Char)))
        );
    }
}

#[test]
fn string_asks_for_more_on_empty_input() {
    assert_eq!(lisp_string(""), Err(ParserError::Incomplete(Needed::Size(1))));
}

#[test]
fn expr_selects_the_number_for_digits_then_letters() {
    assert_eq!(lisp_expr("42abc"), Ok(("abc", LispVal::LNumber(42))));
    assert_eq!(parse("42abc"), Ok(LispVal::LNumber(42)));
}

#[test]
fn expr_yields_what_the_matching_rule_yields() {
    for input in ["variable", "#t", "@#$ x", "abc\"d\""] {
        assert_eq!(lisp_expr(input), lisp_atom(input));
    }
    for input in ["123", "0 1", "7up"] {
        assert_eq!(lisp_expr(input), lisp_number(input));
    }
    for input in ["\"hello\"", "\"\"x", "\"a b\" c"] {
        assert_eq!(lisp_expr(input), lisp_string(input));
    }
}

#[test]
fn expr_reports_that_no_alternative_matched() {
    for input in ["(a b)", " x", ")", "'a", ".5", "\u{e9}"] {
        assert_eq!(
            lisp_expr(input),
            Err(ParserError::Error(input, Reason::Rule(ErrorKind::Alt)))
        );
    }
}

#[test]
fn expr_reports_a_number_out_of_range() {
    assert_eq!(
        lisp_expr("4294967296"),
        Err(ParserError::Error("4294967296", Reason::NumberOutOfRange))
    );
    assert_eq!(
        parse("99999999999 x"),
        Err(ParserError::Error("99999999999 x", Reason::NumberOutOfRange))
    );
}

#[test]
fn expr_asks_for_more_where_a_rule_does() {
    assert_eq!(lisp_expr(""), Err(ParserError::Incomplete(Needed::Size(1))));
    assert_eq!(lisp_expr("\"open"), Err(ParserError::Incomplete(Needed::Size(1))));
    assert_eq!(parse("\""), Err(ParserError::Incomplete(Needed::Size(1))));
}

#[test]
fn parse_reads_one_value_of_each_kind() {
    assert_eq!(parse("123"), Ok(LispVal::LNumber(123)));
    assert_eq!(parse("variable"), Ok(atom("variable")));
    assert_eq!(parse("#t"), Ok(LispVal::LBool(true)));
    assert_eq!(parse("#f"), Ok(LispVal::LBool(false)));
    assert_eq!(parse("\"hello\""), Ok(string("hello")));
    assert_eq!(parse("@#$"), Ok(atom("@#$")));
}

#[test]
fn parse_names_the_offending_input() {
    assert_eq!(
        parse("(@#$)"),
        Err(ParserError::Error("(@#$)", Reason::Rule(ErrorKind::Alt)))
    );
}

#[test]
fn parse_ignores_what_follows_the_value() {
    assert_eq!(parse("abc def"), Ok(atom("abc")));
    assert_eq!(parse("12 34"), Ok(LispVal::LNumber(12)));
    assert_eq!(parse("\"a\"\"b\""), Ok(string("a")));
    assert_eq!(parse("#t)))"), Ok(LispVal::LBool(true)));
    assert_eq!(parse("x ("), Ok(atom("x")));
}

#[test]
fn values_compare_by_content() {
    assert_ne!(atom("1"), LispVal::LNumber(1));
    assert_ne!(atom("a"), string("a"));
    assert_eq!(
        LispVal::LList(vec![atom("a"), LispVal::LNumber(1)]),
        LispVal::LList(vec![atom("a"), LispVal::LNumber(1)])
    );
    assert_ne!(
        LispVal::LDottedList((vec![atom("a")], Box::new(LispVal::LBool(true)))),
        LispVal::LDottedList((vec![atom("a")], Box::new(LispVal::LBool(false))))
    );
}
