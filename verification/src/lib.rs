//! A reader for a small Lisp surface syntax: one line of text in, one value
//! (atom, number, string or boolean) or a structured parse error out.
//!
//! The rules of the grammar are functions from the remaining input to the
//! unconsumed input with a value, or to a [`ParserError`]. Each rule has a
//! model over sequences of characters, and its contract says that it yields
//! what the model yields.

pub mod chars;
pub mod decimal;
pub mod error;
pub mod grammar;
pub mod report;
pub mod value;

pub use chars::{digit, letter, spaces, symbol, CharClass};
pub use error::{ErrorKind, IResult, Needed, ParserError, Reason};
pub use grammar::{lisp_atom, lisp_expr, lisp_number, lisp_string, parse};
pub use report::error_message;
pub use value::LispVal;
