//! What can go wrong when a grid is made.
use vstd::prelude::*;

use crate::text::{decimal, decimal_text, push_str};

verus! {

/// An error returned when the size asked for a grid is wrong.
#[derive(Clone, Copy, Debug, PartialEq, Eq, Structural)]
pub enum GridSizeError {
    /// A dimension of the grid is 0.
    Zero,
}

/// An error returned when reading a grid from text failed.
#[derive(Clone, Copy, Debug, PartialEq, Eq, Structural)]
pub enum ParseGridError {
    /// The grid has no cells.
    Empty,
    /// The grid is not rectangular.
    NotRectangular {
        /// Line on which the error occurred, counted from 1.
        line: usize,
        /// Number of cells found.
        found: usize,
        /// Number of cells expected.
        expected: usize,
    },
}

impl GridSizeError {
    /// What went wrong, in words.
    pub fn to_string(&self) -> (r: String)
        ensures
            r@ == "size provided for the grid is 0"@,
    {
        let mut out = String::new();
        proof {
            reveal_strlit("size provided for the grid is 0");
        }
        push_str(&mut out, "size provided for the grid is 0");
        out
    }
}

/// The words that describe an error of reading a grid.
pub open spec fn parse_error_text(e: ParseGridError) -> Seq<char> {
    match e {
        ParseGridError::Empty => "grid is empty"@,
        ParseGridError::NotRectangular { line, found, expected } => "grid is not rectangular (line "@
            + decimal(line as nat) + ", expected "@ + decimal(expected as nat) + " cells, found "@
            + decimal(found as nat) + ")"@,
    }
}

impl ParseGridError {
    /// What went wrong, in words.
    pub fn to_string(&self) -> (r: String)
        ensures
            r@ == parse_error_text(*self),
    {
        let mut out = String::new();
        match *self {
            ParseGridError::Empty => {
                proof {
                    reveal_strlit("grid is empty");
                }
                push_str(&mut out, "grid is empty");
            },
            ParseGridError::NotRectangular { line, found, expected } => {
                proof {
                    reveal_strlit("grid is not rectangular (line ");
                    reveal_strlit(", expected ");
                    reveal_strlit(" cells, found ");
                    reveal_strlit(")");
                }
                push_str(&mut out, "grid is not rectangular (line ");
                let text = decimal_text(line as u64);
                push_str(&mut out, text.as_str());
                push_str(&mut out, ", expected ");
                let text = decimal_text(expected as u64);
                push_str(&mut out, text.as_str());
                push_str(&mut out, " cells, found ");
                let text = decimal_text(found as u64);
                push_str(&mut out, text.as_str());
                push_str(&mut out, ")");
                proof {
                    assert(out@ =~= parse_error_text(*self));
                }
            },
        }
        out
    }
}

} // verus!
