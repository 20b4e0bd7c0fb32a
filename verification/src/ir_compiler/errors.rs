use vstd::prelude::*;

verus! {

/// Why a function could not be lowered to machine instructions.
#[derive(Debug, Clone, Copy, PartialEq, Eq)]
pub enum IRCompileError {
    IllegalBreak,
    IllegalContinue,
    InvalidLoopStatement,
    ExpectRegister,
}

} // verus!
