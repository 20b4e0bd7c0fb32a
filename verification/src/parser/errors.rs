use vstd::prelude::*;

verus! {

#[verifier::external_type_specification]
#[verifier::external_body]
pub struct ExParseFloatError(std::num::ParseFloatError);

#[verifier::external_type_specification]
#[verifier::external_body]
pub struct ExParseIntError(std::num::ParseIntError);

/// Why the syntax tree could not be built.
#[derive(Debug, PartialEq, Eq)]
pub enum ParseError {
    TokenStreamError(TokenStreamParseError),
    UnexpectedEof,
    UnexpectedAST,
    UnexpectedOperator,
    Recursed,
    NotMatch,
    FloatErr(std::num::ParseFloatError),
    IntErr(std::num::ParseIntError),
}

/// `Clone::clone` of `std::num::ParseFloatError`; nothing is stated of the copy.
pub assume_specification[ <std::num::ParseFloatError as Clone>::clone ](
    e: &std::num::ParseFloatError,
) -> std::num::ParseFloatError;

/// `Clone::clone` of `std::num::ParseIntError`; nothing is stated of the copy.
pub assume_specification[ <std::num::ParseIntError as Clone>::clone ](
    e: &std::num::ParseIntError,
) -> std::num::ParseIntError;

impl ParseError {
    /// A copy of the error, of the same variant.
    pub fn duplicate(&self) -> (r: Self)
        ensures
            match *self {
                ParseError::FloatErr(_) => r is FloatErr,
                ParseError::IntErr(_) => r is IntErr,
                _ => r == *self,
            },
    {
        match self {
            ParseError::TokenStreamError(e) => ParseError::TokenStreamError(*e),
            ParseError::UnexpectedEof => ParseError::UnexpectedEof,
            ParseError::UnexpectedAST => ParseError::UnexpectedAST,
            ParseError::UnexpectedOperator => ParseError::UnexpectedOperator,
            ParseError::Recursed => ParseError::Recursed,
            ParseError::NotMatch => ParseError::NotMatch,
            ParseError::FloatErr(e) => ParseError::FloatErr(e.clone()),
            ParseError::IntErr(e) => ParseError::IntErr(e.clone()),
        }
    }
}

/// Why the tokens could not be turned into the parser's tokens.
#[derive(Debug, Clone, Copy, PartialEq, Eq)]
pub enum TokenStreamParseError {
    UnexpectedEof,
    NotKeyword,
    InvalidNumber,
    InvalidDecDigit,
    InvalidFloat,
    InvalidFloatExponent,
    InvalidInteger,
    InvalidOperator,
    InvalidIdentifier,
}

} // verus!
