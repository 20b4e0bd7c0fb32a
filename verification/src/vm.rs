use vstd::prelude::*;

verus! {

/// Why the virtual machine stopped.
#[derive(Debug, Clone, Copy, PartialEq, Eq)]
pub enum VMError {
    StackOverflow,
    IllegalFunctionCall,
    InvalidDestinationAddressException,
    IndexOutOfBounds,
    UnreachableIndexOutOfBounds,
}

} // verus!
