use vstd::prelude::*;

use crate::instruction::{concat3, decimal, decimal_m};

verus! {

/// Every way parsing or running a program can fail.
#[derive(Debug, PartialEq)]
pub enum InterpError {
    ParseError(String),
    EmptyStack,
    Numeric(String),
    UndefinedReference(String),
    FunctionDuplicate(String),
    FunctionArgumentsMissmatch(String, usize, usize),
    ProgramFileNotFound(String),
    UndefinedFunction(String),
    UndeclaredVariable(String),
    EvalError(String),
}

/// The model of an error, with texts as character sequences.
pub ghost enum ErrM {
    ParseError(Seq<char>),
    EmptyStack,
    Numeric(Seq<char>),
    UndefinedReference(Seq<char>),
    FunctionDuplicate(Seq<char>),
    FunctionArgumentsMissmatch(Seq<char>, nat, nat),
    ProgramFileNotFound(Seq<char>),
    UndefinedFunction(Seq<char>),
    UndeclaredVariable(Seq<char>),
    EvalError(Seq<char>),
}

impl View for InterpError {
    type V = ErrM;

    open spec fn view(&self) -> ErrM {
        match self {
            InterpError::ParseError(s) => ErrM::ParseError(s@),
            InterpError::EmptyStack => ErrM::EmptyStack,
            InterpError::Numeric(s) => ErrM::Numeric(s@),
            InterpError::UndefinedReference(s) => ErrM::UndefinedReference(s@),
            InterpError::FunctionDuplicate(s) => ErrM::FunctionDuplicate(s@),
            InterpError::FunctionArgumentsMissmatch(s, e, g) => ErrM::FunctionArgumentsMissmatch(
                s@,
                *e as nat,
                *g as nat,
            ),
            InterpError::ProgramFileNotFound(s) => ErrM::ProgramFileNotFound(s@),
            InterpError::UndefinedFunction(s) => ErrM::UndefinedFunction(s@),
            InterpError::UndeclaredVariable(s) => ErrM::UndeclaredVariable(s@),
            InterpError::EvalError(s) => ErrM::EvalError(s@),
        }
    }
}

impl InterpError {
    /// The message shown for this error.
    pub fn message(&self) -> (r: String)
        ensures
            r@ == message_m(self@),
    {
        match self {
            InterpError::EvalError(msg) => concat3("Evaluation error: ", msg.as_str(), "!"),
            InterpError::EmptyStack => "Cannot pop from empty stack!".to_owned(),
            InterpError::UndefinedFunction(id) => concat3("Cannot find function with id '", id.as_str(), "'!"),
            InterpError::ParseError(line) => concat3("Parse error: ", line.as_str(), "!"),
            InterpError::Numeric(msg) => concat3("Numeric error: ", msg.as_str(), "!"),
            InterpError::UndefinedReference(id) => concat3("Undefined reference '", id.as_str(), "'!"),
            InterpError::ProgramFileNotFound(f) => concat3("Program file: '", f.as_str(), "' cannot be found!"),
            InterpError::UndeclaredVariable(id) => concat3("Undefined variable '", id.as_str(), "'!"),
            InterpError::FunctionDuplicate(id) => concat3("Function with the id: '", id.as_str(), "' already defined"),
            InterpError::FunctionArgumentsMissmatch(id, expected, got) => {
                let head = concat3("Unexpected number of function arguments. Function '", id.as_str(), "' expected ");
                let counts = concat3(decimal(*expected as u64).as_str(), " but got ", decimal(*got as u64).as_str());
                let r = concat3(head.as_str(), counts.as_str(), " arguments");
                proof {
                    assert(r@ =~= message_m(self@));
                }
                r
            },
        }
    }

    /// The name of the kind of error.
    pub fn description(&self) -> (r: &'static str)
        ensures
            r@ == kind_name(self@),
    {
        match self {
            InterpError::EvalError(..) => "EvalError",
            InterpError::UndefinedFunction(..) => "UndefinedFunction",
            InterpError::EmptyStack => "EmptyStack",
            InterpError::ParseError(..) => "ParseError",
            InterpError::Numeric(..) => "Numeric",
            InterpError::UndefinedReference(..) => "VariableNotFound",
            InterpError::ProgramFileNotFound(..) => "ProgramFileNotFound",
            InterpError::UndeclaredVariable(..) => "UndeclaredVariable",
            InterpError::FunctionDuplicate(..) => "FunctionDuplicate",
            InterpError::FunctionArgumentsMissmatch(..) => "FunctionArgumentsMissmatch",
        }
    }
}

/// The message shown for each error.
pub open spec fn message_m(e: ErrM) -> Seq<char> {
    match e {
        ErrM::EvalError(msg) => "Evaluation error: "@ + msg + "!"@,
        ErrM::EmptyStack => "Cannot pop from empty stack!"@,
        ErrM::UndefinedFunction(id) => "Cannot find function with id '"@ + id + "'!"@,
        ErrM::ParseError(line) => "Parse error: "@ + line + "!"@,
        ErrM::Numeric(msg) => "Numeric error: "@ + msg + "!"@,
        ErrM::UndefinedReference(id) => "Undefined reference '"@ + id + "'!"@,
        ErrM::ProgramFileNotFound(f) => "Program file: '"@ + f + "' cannot be found!"@,
        ErrM::UndeclaredVariable(id) => "Undefined variable '"@ + id + "'!"@,
        ErrM::FunctionDuplicate(id) => "Function with the id: '"@ + id + "' already defined"@,
        ErrM::FunctionArgumentsMissmatch(id, expected, got) => "Unexpected number of function arguments. Function '"@
            + id + "' expected "@ + decimal_m(expected) + " but got "@ + decimal_m(got)
            + " arguments"@,
    }
}

/// The name of each kind of error.
pub open spec fn kind_name(e: ErrM) -> Seq<char> {
    match e {
        ErrM::EvalError(..) => "EvalError"@,
        ErrM::UndefinedFunction(..) => "UndefinedFunction"@,
        ErrM::EmptyStack => "EmptyStack"@,
        ErrM::ParseError(..) => "ParseError"@,
        ErrM::Numeric(..) => "Numeric"@,
        ErrM::UndefinedReference(..) => "VariableNotFound"@,
        ErrM::ProgramFileNotFound(..) => "ProgramFileNotFound"@,
        ErrM::UndeclaredVariable(..) => "UndeclaredVariable"@,
        ErrM::FunctionDuplicate(..) => "FunctionDuplicate"@,
        ErrM::FunctionArgumentsMissmatch(..) => "FunctionArgumentsMissmatch"@,
    }
}

} // verus!
