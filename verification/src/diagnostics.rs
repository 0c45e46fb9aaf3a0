//! What a parse error says: the words for what was wanted and what was found.

use vstd::prelude::*;
use vstd::string::StringExecFns;
use crate::grammar::{Expected, Mismatch};
use crate::parse::ParseError;

verus! {

/// A character as a message shows it: between single quotes, with the line
/// feed, the carriage return and the tab written as escapes.
pub open spec fn shown(c: char) -> Seq<char> {
    if c == '\n' {
        "'\\n'"@
    } else if c == '\r' {
        "'\\r'"@
    } else if c == '\t' {
        "'\\t'"@
    } else {
        seq!['\'', c, '\'']
    }
}

impl Expected {
    /// The words for what was wanted.
    pub open spec fn description(self) -> Seq<char> {
        match self {
            Expected::Declaration => "`$the_cow`"@,
            Expected::HeredocOpener => "`<<`"@,
            Expected::Terminator => "`EOC`"@,
            Expected::LineBreak => "a line break"@,
            Expected::EndOfInput => "the end of the cowfile"@,
        }
    }

    /// The words for what was wanted.
    pub fn describe(self) -> (text: &'static str)
        ensures
            text@ == self.description(),
    {
        match self {
            Expected::Declaration => "`$the_cow`",
            Expected::HeredocOpener => "`<<`",
            Expected::Terminator => "`EOC`",
            Expected::LineBreak => "a line break",
            Expected::EndOfInput => "the end of the cowfile",
        }
    }
}

impl Mismatch {
    /// The words for what was found: the character, or the end of the
    /// cowfile.
    pub open spec fn found_description(self) -> Seq<char> {
        match self.found {
            Some(c) => shown(c),
            None => "the end of the cowfile"@,
        }
    }

    /// The message: what was wanted, then what was found.
    pub open spec fn message(self) -> Seq<char> {
        "expected "@ + self.expected.description() + " / found "@ + self.found_description()
    }
}

impl ParseError {
    /// The message of this error: what was wanted at its offset, then what
    /// was found there.
    pub fn message(&self) -> (text: String)
        ensures
            text@ == self@.message(),
    {
        let mut text = String::from_str("expected ");
        text.append(self.expected.describe());
        text.append(" / found ");
        match self.found {
            None => {
                text.append("the end of the cowfile");
            },
            Some(c) => {
                if c == '\n' {
                    text.append("'\\n'");
                } else if c == '\r' {
                    text.append("'\\r'");
                } else if c == '\t' {
                    text.append("'\\t'");
                } else {
                    let ghost before = text@;
                    text.push('\'');
                    text.push(c);
                    text.push('\'');
                    proof {
                        assert(text@ =~= before + seq!['\'', c, '\'']);
                    }
                }
            },
        }
        text
    }
}

} // verus!
