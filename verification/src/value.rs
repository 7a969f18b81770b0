//! The values that the reader produces.

use crate::chars::CharClass;
use vstd::prelude::*;

verus! {

/// One parsed expression.
#[derive(Debug, PartialEq)]
pub enum LispVal {
    /// A symbol or identifier.
    LAtom(String),
    /// A proper list.
    LList(Vec<LispVal>),
    /// An improper list: the leading items and the tail.
    LDottedList((Vec<LispVal>, Box<LispVal>)),
    /// A numeric literal.
    LNumber(u32),
    /// A quoted string literal, escapes not interpreted.
    LString(String),
    /// One of the two reserved atoms `#t` and `#f`.
    LBool(bool),
}

/// The mathematical content of a `LispVal`: the same shape, with every text
/// as a sequence of characters and every list as a sequence of values.
pub enum Datum {
    /// The atom of this name.
    Atom(Seq<char>),
    /// The list of these items.
    List(Seq<Datum>),
    /// The improper list of these items, ended by this tail.
    DottedList(Seq<Datum>, Box<Datum>),
    /// This number.
    Number(u32),
    /// The string of this text.
    Str(Seq<char>),
    /// This truth value.
    Bool(bool),
}

impl Datum {
    /// What holds of every value that the reader builds: the text of an atom
    /// is not empty and starts with a symbol or a letter, and the parts of a
    /// list are themselves well formed.
    pub open spec fn well_formed(self) -> bool
        decreases self,
    {
        match self {
            Datum::Atom(text) => text.len() > 0 && CharClass::AtomHead.contains(text[0]),
            Datum::List(items) => forall|i: int|
                0 <= i < items.len() ==> (#[trigger] items[i]).well_formed(),
            Datum::DottedList(items, tail) => {
                &&& tail.well_formed()
                &&& forall|i: int| 0 <= i < items.len() ==> (#[trigger] items[i]).well_formed()
            },
            Datum::Number(_) => true,
            Datum::Str(_) => true,
            Datum::Bool(_) => true,
        }
    }
}

impl LispVal {
    /// The content of this value, with every text taken as its characters.
    pub open spec fn datum(&self) -> Datum
        decreases self,
    {
        match self {
            LispVal::LAtom(text) => Datum::Atom(text@),
            LispVal::LList(items) => Datum::List(
                Seq::new(
                    items.len() as nat,
                    |i: int|
                        if 0 <= i < items.len() {
                            items[i].datum()
                        } else {
                            arbitrary()
                        },
                ),
            ),
            LispVal::LDottedList((items, tail)) => Datum::DottedList(
                Seq::new(
                    items.len() as nat,
                    |i: int|
                        if 0 <= i < items.len() {
                            items[i].datum()
                        } else {
                            arbitrary()
                        },
                ),
                Box::new(tail.datum()),
            ),
            LispVal::LNumber(n) => Datum::Number(*n),
            LispVal::LString(text) => Datum::Str(text@),
            LispVal::LBool(b) => Datum::Bool(*b),
        }
    }
}

impl View for LispVal {
    type V = Datum;

    open spec fn view(&self) -> Datum {
        self.datum()
    }
}

} // verus!
