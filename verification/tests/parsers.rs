use scheme_reader::chars::{digit, letter, spaces, symbol};
use scheme_reader::grammar::{lisp_atom, lisp_number, lisp_string};
use scheme_reader::value::LispVal::{LAtom, LBool, LNumber, LString};

#[test]
fn test_basic_parsers() {
    assert_eq!(symbol("#hello"), Ok(("hello", '#')));
    assert_eq!(letter("hello"), Ok(("ello", 'h')));
    assert_eq!(digit("123"), Ok(("23", '1')));
    assert_eq!(spaces("   123"), Ok(("123", "   ")));
}

#[test]
fn test_lisp_atom() {
    assert_eq!(lisp_atom("#f"), Ok(("", LBool(false))));
    assert_eq!(lisp_atom("#t"), Ok(("", LBool(true))));
    assert_eq!(lisp_atom("variable"), Ok(("", LAtom("variable".to_string()))));
}

#[test]
fn test_lisp_number() {
    assert_eq!(lisp_number("123"), Ok(("", LNumber(123))));
}

#[test]
fn test_lisp_string() {
    assert_eq!(lisp_string("\"hello\""), Ok(("", LString("hello".to_string()))));
}
