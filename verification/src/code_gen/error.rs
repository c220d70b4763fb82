//! The errors of code generation.

use vstd::prelude::*;

verus! {

/// Why a service could not be compiled.
#[derive(Debug, Clone, PartialEq, Eq)]
pub enum CodeGenError {
    /// A statement stands where the language does not allow it; holds a
    /// message that says what was expected and describes the statement.
    InvalidStatement(String),
}

/// The mathematical content of a [`CodeGenError`].
pub enum SpecCodeGenError {
    InvalidStatement(Seq<char>),
}

impl View for CodeGenError {
    type V = SpecCodeGenError;

    open spec fn view(&self) -> SpecCodeGenError {
        match self {
            CodeGenError::InvalidStatement(message) => SpecCodeGenError::InvalidStatement(
                message@,
            ),
        }
    }
}

/// The text of the error: `Invalid statement: ` and the message.
pub open spec fn code_gen_error_text(e: SpecCodeGenError) -> Seq<char> {
    match e {
        SpecCodeGenError::InvalidStatement(message) => "Invalid statement: "@ + message,
    }
}

impl CodeGenError {
    /// The text of the error.
    pub fn to_string(&self) -> (text: String)
        ensures
            text@ == code_gen_error_text(self@),
    {
        match self {
            CodeGenError::InvalidStatement(message) => "Invalid statement: ".to_owned().concat(
                message.as_str(),
            ),
        }
    }
}

/// Why a log task could not be compiled.
#[derive(Debug, Clone, PartialEq, Eq)]
pub enum ByteCodeError {
    /// The count of the task is a constant other than `Infinite`; holds the
    /// constant.
    UnsupportedConst(String),
}

/// The mathematical content of a [`ByteCodeError`].
pub enum SpecByteCodeError {
    UnsupportedConst(Seq<char>),
}

impl View for ByteCodeError {
    type V = SpecByteCodeError;

    open spec fn view(&self) -> SpecByteCodeError {
        match self {
            ByteCodeError::UnsupportedConst(name) => SpecByteCodeError::UnsupportedConst(name@),
        }
    }
}

/// The text of the error: `Unsupported constant: ` and the constant.
pub open spec fn byte_code_error_text(e: SpecByteCodeError) -> Seq<char> {
    match e {
        SpecByteCodeError::UnsupportedConst(name) => "Unsupported constant: "@ + name,
    }
}

impl ByteCodeError {
    /// The text of the error.
    pub fn to_string(&self) -> (text: String)
        ensures
            text@ == byte_code_error_text(self@),
    {
        match self {
            ByteCodeError::UnsupportedConst(name) => "Unsupported constant: ".to_owned().concat(
                name.as_str(),
            ),
        }
    }
}

} // verus!
