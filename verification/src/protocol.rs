//! What passes between the interpreter and the program that drives it.
//!
//! The interpreter neither reads nor prints, and it never computes with
//! floating-point numbers. Whenever it needs one of these done it hands
//! out a [`Request`]; the driver does the work and hands back a [`Reply`].
use vstd::prelude::*;
use crate::ast::BinaryOperation;
use crate::number::{Number, NumberView};
use crate::value::Kind;

verus! {

/// Why a program cannot be run, or why its run ended early.
#[derive(Debug, Clone, Copy, PartialEq, Eq, Structural)]
pub enum RuntimeError {
    /// The top level holds a node that is neither a function declaration
    /// nor an entry point.
    Misplaced,
    /// Two functions have the same name.
    DuplicateFunction,
    /// The top level holds no entry point.
    MissingEntry,
    /// The top level holds more than one entry point.
    DuplicateEntry,
    /// A node has a shape that the parser never builds.
    Malformed,
    /// A variable is read that no statement has bound.
    UndeclaredVariable,
    /// A function is called that the program does not declare.
    UndeclaredFunction,
    /// A value is not of the kind that its use asks for.
    TypeMismatch,
    /// A call gives more or fewer arguments than the function takes.
    ArityMismatch,
    /// A value is wanted where a function without a result was called.
    MissingValue,
    /// The body of a function with a result ended without a return.
    MissingReturn,
    /// A return was reached outside a function with a result.
    UnexpectedReturn,
    /// The count of a counted loop is negative, has a fraction, or is no
    /// number.
    InvalidCount,
    /// A line of input is not a value of the kind that was asked for.
    InvalidInput,
    /// The input ended where a line was wanted.
    EndOfInput,
    /// The reply does not answer the request that went before it.
    UnexpectedReply,
    /// There is no frame to run.
    Stuck,
}

/// What the interpreter waits for.
#[derive(Debug, Clone, Copy, PartialEq, Eq, Structural)]
pub enum Phase {
    /// Nothing: the next step runs the next task.
    Running,
    /// The number that a conversion or an arithmetic operation gives.
    AwaitNumber,
    /// The truth value that a comparison gives.
    AwaitBoolean,
    /// The word that a line was printed.
    AwaitPrinted,
    /// A line of input, to be read as a value of the given kind.
    AwaitLine(Kind),
    /// Nothing any more: the program ran to its end.
    Finished,
    /// Nothing any more: the run ended with an error.
    Failed(RuntimeError),
}

/// What a print statement hands out.
#[derive(Debug, PartialEq, Eq)]
pub enum Output {
    /// Text to be written as it is.
    Text(String),
    /// A number, to be written as the shortest decimal that reads back as
    /// the same number.
    Number(u32),
}

pub enum OutputView {
    Text(Seq<char>),
    Number(u32),
}

impl View for Output {
    type V = OutputView;

    open spec fn view(&self) -> OutputView {
        match self {
            Output::Text(text) => OutputView::Text(text@),
            Output::Number(bits) => OutputView::Number(*bits),
        }
    }
}

/// What the interpreter asks of its driver.
#[derive(Debug, PartialEq, Eq)]
pub enum Request {
    /// Nothing; the driver replies [`Reply::Ready`].
    Continue,
    /// The single-precision number nearest to a decimal numeral; the
    /// driver replies [`Reply::Number`].
    Convert(Number),
    /// The result of an arithmetic operation on two numbers, the running
    /// value first; the driver replies [`Reply::Number`].
    Arithmetic(BinaryOperation, u32, u32),
    /// The result of a comparison of two numbers, the running value
    /// first; the driver replies [`Reply::Boolean`].
    Compare(BinaryOperation, u32, u32),
    /// One line of output; the driver replies [`Reply::Ready`].
    Print(Output),
    /// One line of input; the driver replies [`Reply::Line`].
    Read,
    /// Nothing more: the program ran to its end.
    Finished,
    /// Nothing more: the run ended with an error.
    Failed(RuntimeError),
}

pub enum RequestView {
    Continue,
    Convert(NumberView),
    Arithmetic(BinaryOperation, u32, u32),
    Compare(BinaryOperation, u32, u32),
    Print(OutputView),
    Read,
    Finished,
    Failed(RuntimeError),
}

impl View for Request {
    type V = RequestView;

    open spec fn view(&self) -> RequestView {
        match self {
            Request::Continue => RequestView::Continue,
            Request::Convert(number) => RequestView::Convert(number@),
            Request::Arithmetic(operation, left, right) => RequestView::Arithmetic(
                *operation,
                *left,
                *right,
            ),
            Request::Compare(operation, left, right) => RequestView::Compare(
                *operation,
                *left,
                *right,
            ),
            Request::Print(output) => RequestView::Print(output@),
            Request::Read => RequestView::Read,
            Request::Finished => RequestView::Finished,
            Request::Failed(error) => RequestView::Failed(*error),
        }
    }
}

/// What the driver hands back.
#[derive(Debug, PartialEq, Eq)]
pub enum Reply {
    /// The request asked for nothing, or a line was printed.
    Ready,
    /// The bits of the number asked for.
    Number(u32),
    /// The outcome of a comparison.
    Boolean(bool),
    /// A line of input without its line end, or nothing where the input
    /// has ended.
    Line(Option<String>),
}

pub enum ReplyView {
    Ready,
    Number(u32),
    Boolean(bool),
    Line(Option<Seq<char>>),
}

impl View for Reply {
    type V = ReplyView;

    open spec fn view(&self) -> ReplyView {
        match self {
            Reply::Ready => ReplyView::Ready,
            Reply::Number(bits) => ReplyView::Number(*bits),
            Reply::Boolean(truth) => ReplyView::Boolean(*truth),
            Reply::Line(Some(text)) => ReplyView::Line(Some(text@)),
            Reply::Line(None) => ReplyView::Line(None),
        }
    }
}

/// What an error says, in words.
pub open spec fn spec_explain(error: RuntimeError) -> Seq<char> {
    match error {
        RuntimeError::Misplaced => "only functions and the entry point may stand at the top level"@,
        RuntimeError::DuplicateFunction => "two functions have the same name"@,
        RuntimeError::MissingEntry => "the program has no entry point"@,
        RuntimeError::DuplicateEntry => "the program has more than one entry point"@,
        RuntimeError::Malformed => "the program holds a node of an unexpected shape"@,
        RuntimeError::UndeclaredVariable => "a variable is used before it has a value"@,
        RuntimeError::UndeclaredFunction => "a function is called that is not declared"@,
        RuntimeError::TypeMismatch => "a value is of the wrong kind"@,
        RuntimeError::ArityMismatch => "a call gives the wrong number of arguments"@,
        RuntimeError::MissingValue => "a value is wanted where there is none"@,
        RuntimeError::MissingReturn => "a function ended without returning a value"@,
        RuntimeError::UnexpectedReturn => "a value is returned where none can be taken"@,
        RuntimeError::InvalidCount => "the count of a loop is not a non-negative integer"@,
        RuntimeError::InvalidInput => "the input is not a value of the kind asked for"@,
        RuntimeError::EndOfInput => "the input has ended"@,
        RuntimeError::UnexpectedReply => "the reply does not answer the request"@,
        RuntimeError::Stuck => "there is no frame to run"@,
    }
}

pub fn explain(error: RuntimeError) -> (r: &'static str)
    ensures
        r@ == spec_explain(error),
{
    match error {
        RuntimeError::Misplaced => "only functions and the entry point may stand at the top level",
        RuntimeError::DuplicateFunction => "two functions have the same name",
        RuntimeError::MissingEntry => "the program has no entry point",
        RuntimeError::DuplicateEntry => "the program has more than one entry point",
        RuntimeError::Malformed => "the program holds a node of an unexpected shape",
        RuntimeError::UndeclaredVariable => "a variable is used before it has a value",
        RuntimeError::UndeclaredFunction => "a function is called that is not declared",
        RuntimeError::TypeMismatch => "a value is of the wrong kind",
        RuntimeError::ArityMismatch => "a call gives the wrong number of arguments",
        RuntimeError::MissingValue => "a value is wanted where there is none",
        RuntimeError::MissingReturn => "a function ended without returning a value",
        RuntimeError::UnexpectedReturn => "a value is returned where none can be taken",
        RuntimeError::InvalidCount => "the count of a loop is not a non-negative integer",
        RuntimeError::InvalidInput => "the input is not a value of the kind asked for",
        RuntimeError::EndOfInput => "the input has ended",
        RuntimeError::UnexpectedReply => "the reply does not answer the request",
        RuntimeError::Stuck => "there is no frame to run",
    }
}

} // verus!
