//! The errors the engine reports, in executable form and as a
//! mathematical model. Every fallible operation returns one of these
//! rather than continuing with a degraded result.

use vstd::prelude::*;

use crate::ast::path_view;

verus! {

/// What went wrong during parsing.
#[derive(Clone, Copy, PartialEq, Eq, Structural, Debug)]
pub enum ParseFault {
    /// A `{{` or `{%` with no matching closer.
    UnclosedTag,
    /// A tag whose keyword is not one of the known tags.
    UnknownTag,
    /// An end tag that does not match the construct it closes, or an
    /// end tag with no construct open.
    MismatchedEnd,
    /// A malformed expression.
    BadExpression,
    /// An integer literal that does not fit a 64-bit signed integer.
    BadNumber,
    /// A string literal with no closing quote.
    UnclosedString,
    /// An `extends` tag anywhere but at the very start of a template.
    MisplacedExtends,
    /// Nesting beyond the parser's depth budget.
    TooDeep,
}

/// Mathematical model of an engine error.
pub enum SpecError {
    Parse(ParseFault, int),
    DuplicateName(Seq<u8>),
    Unresolved(Seq<Seq<u8>>),
    MissingTemplate(Seq<u8>),
    CircularInheritance(Seq<u8>),
    UndefinedVariable(Seq<Seq<u8>>),
    UnknownFilter(Seq<u8>),
    UnknownFunction(Seq<u8>),
    BadOperands,
    NumberOverflow,
}

/// An error reported by the engine: a parse failure with the byte offset
/// it was noticed at, a registry fault, or an evaluation fault.
#[derive(PartialEq, Eq, Debug)]
pub enum EngineError {
    /// The source could not be parsed; the offset points into it.
    Parse(ParseFault, usize),
    /// A template of this name is already registered.
    DuplicateName(Vec<u8>),
    /// Parents named by templates but never registered, in registry order.
    Unresolved(Vec<Vec<u8>>),
    /// No template of this name is registered.
    MissingTemplate(Vec<u8>),
    /// The inheritance chain through this template never reaches a root.
    CircularInheritance(Vec<u8>),
    /// A variable path that the context does not hold, in strict mode.
    UndefinedVariable(Vec<Vec<u8>>),
    /// A filter name that no built-in filter matches.
    UnknownFilter(Vec<u8>),
    /// A function name that no built-in function matches.
    UnknownFunction(Vec<u8>),
    /// An operator, filter or function applied to values of the wrong kind.
    BadOperands,
    /// Integer arithmetic left the 64-bit signed range.
    NumberOverflow,
}

impl EngineError {
    /// The mathematical model of an error.
    pub open spec fn model(&self) -> SpecError {
        match self {
            EngineError::Parse(f, at) => SpecError::Parse(*f, *at as int),
            EngineError::DuplicateName(n) => SpecError::DuplicateName(n@),
            EngineError::Unresolved(ns) => SpecError::Unresolved(path_view(ns@)),
            EngineError::MissingTemplate(n) => SpecError::MissingTemplate(n@),
            EngineError::CircularInheritance(n) => SpecError::CircularInheritance(n@),
            EngineError::UndefinedVariable(p) => SpecError::UndefinedVariable(path_view(p@)),
            EngineError::UnknownFilter(n) => SpecError::UnknownFilter(n@),
            EngineError::UnknownFunction(n) => SpecError::UnknownFunction(n@),
            EngineError::BadOperands => SpecError::BadOperands,
            EngineError::NumberOverflow => SpecError::NumberOverflow,
        }
    }
}

} // verus!
