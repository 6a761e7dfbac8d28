//! Error types for the pipeline: lexing, parsing and execution.
//!
//! The machine reports every failure as a value of `VmError` instead of
//! aborting the process; the distinction between recoverable type errors
//! and fatal bytecode-contract violations is left to the caller.

use vstd::prelude::*;

verus! {

/// A runtime failure of the virtual machine.
///
/// `InvalidOperation` and `DivisionByZero` are user-level type errors of the
/// arithmetic instructions. The remaining variants signal a malformed program
/// (a compiler defect) or the `angry` native, which carries its message.
#[derive(Debug, Clone, PartialEq)]
pub enum VmError {
    /// An arithmetic instruction met operands of incompatible kinds.
    InvalidOperation,
    /// Integer division by zero.
    DivisionByZero,
    /// A `Define` instruction found a non-string name on the stack.
    BrokenAssignment,
    /// A `Call` instruction found a non-object callee on the stack.
    InvalidCall,
    /// A `Call` instruction found a non-integer or negative argument count.
    BadArgCount,
    /// An instruction needed more operands than the stack holds.
    StackUnderflow,
    /// A jump targeted a position before the start of the program.
    BadJump,
    /// The step budget of the machine ran out.
    OutOfFuel,
    /// The `angry` native was called; the payload is its joined message.
    Abort(String),
}

/// The mathematical model of a `VmError`: the abort message is a `Seq<char>`.
pub ghost enum AbsVmError {
    InvalidOperation,
    DivisionByZero,
    BrokenAssignment,
    InvalidCall,
    BadArgCount,
    StackUnderflow,
    BadJump,
    OutOfFuel,
    Abort(Seq<char>),
}

/// The model of an error value.
pub open spec fn err_view(e: VmError) -> AbsVmError {
    match e {
        VmError::InvalidOperation => AbsVmError::InvalidOperation,
        VmError::DivisionByZero => AbsVmError::DivisionByZero,
        VmError::BrokenAssignment => AbsVmError::BrokenAssignment,
        VmError::InvalidCall => AbsVmError::InvalidCall,
        VmError::BadArgCount => AbsVmError::BadArgCount,
        VmError::StackUnderflow => AbsVmError::StackUnderflow,
        VmError::BadJump => AbsVmError::BadJump,
        VmError::OutOfFuel => AbsVmError::OutOfFuel,
        VmError::Abort(s) => AbsVmError::Abort(s@),
    }
}

/// A fatal parse failure: the whole parse aborts with no partial result.
#[derive(Debug, Clone, PartialEq)]
pub enum ParseError {
    /// A token that no rule of the grammar accepts, at this token index.
    UnexpectedToken(usize),
    /// A symbol where the grammar needed another one, at this token index.
    UnexpectedSymbol(usize),
    /// An operator token that names no operator of the language.
    UnknownOperator(usize),
    /// A keyword the parser does not know.
    UnknownKeyword(usize),
    /// An integer literal whose digits do not fit the integer type,
    /// or a literal form the machine has no value for.
    BadLiteral(usize),
    /// The token stream ended in the middle of a form.
    UnexpectedEnd,
    /// The nesting budget of the parser ran out.
    TooDeep,
}

/// A lexing failure: a character no matcher accepts, at this position.
#[derive(Debug, Clone, PartialEq)]
pub struct LexError {
    pub position: usize,
}

} // verus!
