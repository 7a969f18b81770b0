//! The line that tells a person why the input was not read.

use crate::decimal::{decimal_string, decimal_text};
use crate::error::{Fault, Needed, ParserError};
use vstd::prelude::*;

verus! {

/// The line that reports `fault`.
pub open spec fn message_of(fault: Fault) -> Seq<char> {
    match fault {
        Fault::Error(rest, reason) => "Error parsing \""@ + rest + "\": "@
            + reason.description_text(),
        Fault::Failure(rest, reason) => "Failure parsing \""@ + rest + "\": "@
            + reason.description_text(),
        Fault::Incomplete(Needed::Unknown) => "Incomplete parsing: unknown"@,
        Fault::Incomplete(Needed::Size(n)) => "Incomplete parsing: need "@ + decimal_text(n as nat)
            + " more"@,
    }
}

/// Renders a parse failure as one line, without a line end.
pub fn error_message(err: &ParserError) -> (line: String)
    ensures
        line@ == message_of(err@),
{
    match err {
        ParserError::Error(rest, reason) => {
            let mut line = "Error parsing \"".to_owned();
            line.append(rest);
            line.append("\": ");
            line.append(reason.description().as_str());
            line
        },
        ParserError::Failure(rest, reason) => {
            let mut line = "Failure parsing \"".to_owned();
            line.append(rest);
            line.append("\": ");
            line.append(reason.description().as_str());
            line
        },
        ParserError::Incomplete(Needed::Unknown) => "Incomplete parsing: unknown".to_owned(),
        ParserError::Incomplete(Needed::Size(n)) => {
            let mut line = "Incomplete parsing: need ".to_owned();
            line.append(decimal_string(*n).as_str());
            line.append(" more");
            line
        },
    }
}

} // verus!
