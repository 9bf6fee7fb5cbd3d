//! The errors that parsing and evaluation report.

use vstd::prelude::*;

verus! {

/// Every failure of parsing or running a program; the first one ends the run.
#[derive(Debug)]
pub enum RSLogoError {
    ParseError { input: String, span: (usize, usize), message: String },
    IOError(String),
    InvalidArgument { command: String, argument: String, expected: String },
    DrawError(String),
    ImageSaveError(String),
    UndefinedVariable { variable_name: String, defined_variables: Vec<String> },
    StackUnderflow,
    DivisionByZero,
    TypeMismatch,
    InvalidExpression(String),
    InvalidOperator(String),
    UnexpectedValue { expected: String, got: String },
    Overflow,
    /// The run used up the step budget it was given.
    StepLimit,
}

/// An error with its texts seen as character sequences.
pub ghost enum ErrorV {
    ParseError { input: Seq<char>, span: (usize, usize), message: Seq<char> },
    IOError(Seq<char>),
    InvalidArgument { command: Seq<char>, argument: Seq<char>, expected: Seq<char> },
    DrawError(Seq<char>),
    ImageSaveError(Seq<char>),
    UndefinedVariable { variable_name: Seq<char>, defined_variables: Seq<Seq<char>> },
    StackUnderflow,
    DivisionByZero,
    TypeMismatch,
    InvalidExpression(Seq<char>),
    InvalidOperator(Seq<char>),
    UnexpectedValue { expected: Seq<char>, got: Seq<char> },
    Overflow,
    StepLimit,
}

impl View for RSLogoError {
    type V = ErrorV;

    open spec fn view(&self) -> ErrorV {
        match self {
            RSLogoError::ParseError { input, span, message } => ErrorV::ParseError {
                input: input@,
                span: *span,
                message: message@,
            },
            RSLogoError::IOError(m) => ErrorV::IOError(m@),
            RSLogoError::InvalidArgument { command, argument, expected } =>
                ErrorV::InvalidArgument {
                command: command@,
                argument: argument@,
                expected: expected@,
            },
            RSLogoError::DrawError(m) => ErrorV::DrawError(m@),
            RSLogoError::ImageSaveError(m) => ErrorV::ImageSaveError(m@),
            RSLogoError::UndefinedVariable { variable_name, defined_variables } =>
                ErrorV::UndefinedVariable {
                variable_name: variable_name@,
                defined_variables: crate::ast::names_view(defined_variables@),
            },
            RSLogoError::StackUnderflow => ErrorV::StackUnderflow,
            RSLogoError::DivisionByZero => ErrorV::DivisionByZero,
            RSLogoError::TypeMismatch => ErrorV::TypeMismatch,
            RSLogoError::InvalidExpression(m) => ErrorV::InvalidExpression(m@),
            RSLogoError::InvalidOperator(m) => ErrorV::InvalidOperator(m@),
            RSLogoError::UnexpectedValue { expected, got } => ErrorV::UnexpectedValue {
                expected: expected@,
                got: got@,
            },
            RSLogoError::Overflow => ErrorV::Overflow,
            RSLogoError::StepLimit => ErrorV::StepLimit,
        }
    }
}

/// The view of a result whose success value is kept as it is.
pub open spec fn result_view<T>(r: Result<T, RSLogoError>) -> Result<T, ErrorV> {
    match r {
        Ok(v) => Ok(v),
        Err(e) => Err(e@),
    }
}

} // verus!
