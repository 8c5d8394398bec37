//! Error kinds of the engine.

use vstd::prelude::*;

verus! {

/// A malformed field of an authorization request, or a failed fetch of the
/// stored policies or entities. Any of these short-circuits to a fail-closed
/// deny before evaluation starts.
#[derive(Debug, Clone, PartialEq, Eq)]
pub enum AuthorizationRequestError {
    InvalidPrincipal,
    InvalidAction,
    InvalidResource,
    InvalidContext,
    InvalidEntities,
    InvalidPolicies,
}

/// A fault during the evaluation of one policy. It makes that policy
/// unsatisfied and is recorded in the diagnostics; evaluation of the other
/// policies continues.
#[derive(Debug, Clone, Copy, PartialEq, Eq)]
pub enum EvaluationError {
    /// An entity or record was asked for an attribute it does not carry.
    MissingAttribute,
    /// An operator was applied to values of the wrong kind. Arithmetic
    /// overflow is reported under this kind as well.
    TypeMismatch,
    /// An entity referenced during attribute access is absent from the
    /// snapshot.
    EntityNotFound,
    /// The parent graph reachable from an entity contains a cycle.
    CyclicHierarchy,
}

/// A fault while building a policy from its stored form, surfaced to the
/// repository's caller at write time.
#[derive(Debug, Clone, Copy, PartialEq, Eq)]
pub enum PolicyError {
    /// A malformed scope or condition: a wrong shape, arity or literal.
    SyntaxError,
    /// A well-shaped construct the language does not know: an unknown
    /// operator, effect or scope form.
    SemanticError,
}

/// A fault while building a typed value from structured input.
#[derive(Debug, Clone, Copy, PartialEq, Eq)]
pub enum ValueError {
    /// The input has an ambiguous or unsupported shape.
    TypeError,
    /// A record was asked for a field it does not carry.
    FieldNotFound,
}

} // verus!
