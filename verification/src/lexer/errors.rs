use vstd::prelude::*;

verus! {

/// Why the source text could not be cut into tokens.
#[derive(Debug, Clone, PartialEq, Eq)]
pub enum TokenizeError {
    NotSymbol,
    InvalidCharacters { c: char, position: usize },
    UnusableWhitespace { c: char, position: usize },
}

} // verus!
