//! Why a filter expression was refused.

use vstd::prelude::*;

verus! {

/// The reason a filter expression was refused.
#[derive(Clone, Copy, Debug, PartialEq, Eq, Structural)]
pub enum FilterExpressionErrorKind {
    /// A node or its operands have the wrong shape.
    InvalidStructure,
    /// The operator does not exist or does not apply to the field.
    UnknownOperator,
    /// The quantifier does not exist or does not apply to the relation.
    UnknownQuantifier,
    /// The target has no such field.
    UnknownField,
    /// The expression belongs to another target.
    InvalidTarget,
    /// A literal does not belong to the field's values.
    InvalidLiteral,
    /// A regular expression does not compile.
    InvalidRegex,
    /// The envelope's version is not supported.
    UnsupportedVersion,
}

/// A refused filter expression. It carries the reason and no operand.
#[derive(Clone, Copy, Debug, PartialEq, Eq, Structural)]
pub struct FilterExpressionError {
    kind: FilterExpressionErrorKind,
}

impl FilterExpressionError {
    /// The reason, in contracts.
    pub closed spec fn view(&self) -> FilterExpressionErrorKind {
        self.kind
    }

    /// Build an error from its reason.
    pub fn new(kind: FilterExpressionErrorKind) -> (error: Self)
        ensures
            error@ == kind,
    {
        FilterExpressionError { kind }
    }

    /// The reason.
    pub fn kind(&self) -> (kind: FilterExpressionErrorKind)
        ensures
            kind == self@,
    {
        self.kind
    }
}

/// The reason a result carries, if it is an error.
pub open spec fn reason<T>(result: Result<T, FilterExpressionError>) -> Option<
    FilterExpressionErrorKind,
> {
    match result {
        Ok(_) => None,
        Err(error) => Some(error@),
    }
}

} // verus!
