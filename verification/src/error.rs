//! The ways in which running a program ends early.
use vstd::prelude::*;
use vstd::string::StringExecFns;

verus! {

pub type RuntimeResult<A> = Result<A, RuntimeError>;

#[derive(Debug, Clone, PartialEq, Eq)]
pub enum RuntimeError {
    /// The receiver of a field access, of a virtual call or of a cast was
    /// null.
    NullPointer,
    /// A native function was called that the host has not registered.
    UndefinedNative(String),
    /// The target of an assignment is nothing that can be assigned to.
    UnsupportedAssignmentOperand,
    /// The host called a function with the wrong number of arguments.
    InvalidInteropParameters,
    /// The instruction is not supported.
    Todo,
    /// The code does not fit the pool or the machine's state: a position
    /// that names nothing, an operand that is missing or of the wrong kind,
    /// a jump to a place between instructions.
    InvalidBytecode,
    /// An array was read or written outside its bounds.
    OutOfBounds,
    /// A value handed to a native function is not of the type that the
    /// function takes.
    InvalidArgument(String),
    /// A native function divided by zero, or its result has no
    /// representation.
    Arithmetic,
    /// The budget of instructions is used up.
    BudgetExhausted,
}

/// What a `RuntimeError` says, as a mathematical value.
pub enum Fault {
    NullPointer,
    UndefinedNative(Seq<char>),
    UnsupportedAssignmentOperand,
    InvalidInteropParameters,
    Todo,
    InvalidBytecode,
    OutOfBounds,
    InvalidArgument(Seq<char>),
    Arithmetic,
    BudgetExhausted,
}

impl View for RuntimeError {
    type V = Fault;

    open spec fn view(&self) -> Fault {
        match *self {
            RuntimeError::NullPointer => Fault::NullPointer,
            RuntimeError::UndefinedNative(name) => Fault::UndefinedNative(name@),
            RuntimeError::UnsupportedAssignmentOperand => Fault::UnsupportedAssignmentOperand,
            RuntimeError::InvalidInteropParameters => Fault::InvalidInteropParameters,
            RuntimeError::Todo => Fault::Todo,
            RuntimeError::InvalidBytecode => Fault::InvalidBytecode,
            RuntimeError::OutOfBounds => Fault::OutOfBounds,
            RuntimeError::InvalidArgument(message) => Fault::InvalidArgument(message@),
            RuntimeError::Arithmetic => Fault::Arithmetic,
            RuntimeError::BudgetExhausted => Fault::BudgetExhausted,
        }
    }
}

impl RuntimeError {
    /// The message of the error.
    pub open spec fn message(fault: Fault) -> Seq<char> {
        match fault {
            Fault::NullPointer => "null pointer dereference"@,
            Fault::UndefinedNative(name) => "native "@ + name + " is not defined"@,
            Fault::UnsupportedAssignmentOperand => "unsupported assingment operand"@,
            Fault::InvalidInteropParameters => "invalid parameters in interop call"@,
            Fault::Todo => "not yet implemented"@,
            Fault::InvalidBytecode => "invalid bytecode"@,
            Fault::OutOfBounds => "index out of bounds"@,
            Fault::InvalidArgument(message) => message,
            Fault::Arithmetic => "arithmetic fault in a native function"@,
            Fault::BudgetExhausted => "instruction budget exhausted"@,
        }
    }

    pub fn to_string(&self) -> (r: String)
        ensures
            r@ == Self::message(self@),
    {
        match self {
            RuntimeError::NullPointer => String::from_str("null pointer dereference"),
            RuntimeError::UndefinedNative(name) => {
                let mut text = String::from_str("native ");
                text.append(name.as_str());
                text.append(" is not defined");
                text
            },
            RuntimeError::UnsupportedAssignmentOperand => String::from_str(
                "unsupported assingment operand",
            ),
            RuntimeError::InvalidInteropParameters => String::from_str(
                "invalid parameters in interop call",
            ),
            RuntimeError::Todo => String::from_str("not yet implemented"),
            RuntimeError::InvalidBytecode => String::from_str("invalid bytecode"),
            RuntimeError::OutOfBounds => String::from_str("index out of bounds"),
            RuntimeError::InvalidArgument(message) => message.clone(),
            RuntimeError::Arithmetic => String::from_str("arithmetic fault in a native function"),
            RuntimeError::BudgetExhausted => String::from_str("instruction budget exhausted"),
        }
    }
}

} // verus!
