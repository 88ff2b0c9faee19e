use vstd::prelude::*;

use crate::jml_type::JmlType;

verus! {

/// A region of the source text: a byte offset and a length in bytes.
#[derive(Debug, Copy, Clone, PartialEq, Eq, Structural)]
pub struct Span {
    pub offset: usize,
    pub length: usize,
}

/// The span of a node that covers the byte offsets `[l, r)`.
pub open spec fn span_of(l: usize, r: usize) -> Span {
    Span { offset: l, length: if l <= r { (r - l) as usize } else { 0 } }
}

impl Span {
    pub fn from_bounds(l: usize, r: usize) -> (s: Span)
        ensures
            s == span_of(l, r),
    {
        Span { offset: l, length: if l <= r { r - l } else { 0 } }
    }
}

#[derive(Debug, Clone)]
pub enum TypeErrorKind {
    MismatchedTypes { expected: Vec<JmlType>, found: JmlType },
    ArgumentCountMismatch { expected_count: usize, actual_count: usize },
    NotOrderedType { found: JmlType },
    InvalidBinaryOperator { operator: String, left: JmlType, right: JmlType },
    InvalidUnaryOperator { operator: String, right: JmlType },
}

#[derive(Debug, Clone)]
pub enum RuntimeErrorKind {
    DivisionByZero,
    UndefinedVariable { name: String },
    Overflow,
    GenericError { message: String },
}

/// A failure found while evaluating the node at `span`, before an operation
/// was performed because its operands had the wrong shape.
#[derive(Debug, Clone)]
pub struct TypeError {
    pub span: Span,
    pub kind: TypeErrorKind,
}

/// A failure found while performing an operation.
#[derive(Debug, Clone)]
pub struct RuntimeError {
    pub span: Span,
    pub kind: RuntimeErrorKind,
}

#[derive(Debug, Clone)]
pub enum EvalError {
    TypeError(TypeError),
    RuntimeError(RuntimeError),
}

/// An error that has not yet been given the span of its expression.
#[derive(Debug, Clone)]
pub enum ErrorKind {
    Type(TypeErrorKind),
    Runtime(RuntimeErrorKind),
}

/// The mathematical model of an error kind, of either family.
pub enum Fault {
    MismatchedTypes { expected: Seq<JmlType>, found: JmlType },
    ArgumentCountMismatch { expected_count: usize, actual_count: usize },
    NotOrderedType { found: JmlType },
    InvalidBinaryOperator { operator: Seq<char>, left: JmlType, right: JmlType },
    InvalidUnaryOperator { operator: Seq<char>, right: JmlType },
    DivisionByZero,
    UndefinedVariable { name: Seq<char> },
    Overflow,
    GenericError { message: Seq<char> },
}

impl Fault {
    /// Type errors are detected before an operation; the rest are runtime
    /// errors.
    pub open spec fn is_type_fault(self) -> bool {
        ||| self is MismatchedTypes
        ||| self is ArgumentCountMismatch
        ||| self is NotOrderedType
        ||| self is InvalidBinaryOperator
        ||| self is InvalidUnaryOperator
    }
}

impl View for TypeErrorKind {
    type V = Fault;

    open spec fn view(&self) -> Fault {
        match *self {
            TypeErrorKind::MismatchedTypes { expected, found } => Fault::MismatchedTypes {
                expected: expected@,
                found,
            },
            TypeErrorKind::ArgumentCountMismatch { expected_count, actual_count } =>
                Fault::ArgumentCountMismatch { expected_count, actual_count },
            TypeErrorKind::NotOrderedType { found } => Fault::NotOrderedType { found },
            TypeErrorKind::InvalidBinaryOperator { operator, left, right } =>
                Fault::InvalidBinaryOperator { operator: operator@, left, right },
            TypeErrorKind::InvalidUnaryOperator { operator, right } =>
                Fault::InvalidUnaryOperator { operator: operator@, right },
        }
    }
}

impl View for RuntimeErrorKind {
    type V = Fault;

    open spec fn view(&self) -> Fault {
        match *self {
            RuntimeErrorKind::DivisionByZero => Fault::DivisionByZero,
            RuntimeErrorKind::UndefinedVariable { name } => Fault::UndefinedVariable {
                name: name@,
            },
            RuntimeErrorKind::Overflow => Fault::Overflow,
            RuntimeErrorKind::GenericError { message } => Fault::GenericError {
                message: message@,
            },
        }
    }
}

impl View for ErrorKind {
    type V = Fault;

    open spec fn view(&self) -> Fault {
        match *self {
            ErrorKind::Type(k) => k@,
            ErrorKind::Runtime(k) => k@,
        }
    }
}

impl View for EvalError {
    type V = (Span, Fault);

    open spec fn view(&self) -> (Span, Fault) {
        match *self {
            EvalError::TypeError(e) => (e.span, e.kind@),
            EvalError::RuntimeError(e) => (e.span, e.kind@),
        }
    }
}

impl EvalError {
    /// The family of the error agrees with its kind.
    pub open spec fn well_formed(&self) -> bool {
        match *self {
            EvalError::TypeError(e) => e.kind@.is_type_fault(),
            EvalError::RuntimeError(e) => !e.kind@.is_type_fault(),
        }
    }

    pub fn span(&self) -> (s: Span)
        ensures
            s == self@.0,
    {
        match self {
            EvalError::TypeError(e) => e.span,
            EvalError::RuntimeError(e) => e.span,
        }
    }
}

impl ErrorKind {
    /// Attaches `span`: a type error kind gives a type error, a runtime one a
    /// runtime error.
    pub fn at(self, span: Span) -> (e: EvalError)
        ensures
            e@ == (span, self@),
            (e is TypeError) == (self is Type),
    {
        match self {
            ErrorKind::Type(kind) => EvalError::TypeError(TypeError { span, kind }),
            ErrorKind::Runtime(kind) => EvalError::RuntimeError(RuntimeError { span, kind }),
        }
    }
}

} // verus!
