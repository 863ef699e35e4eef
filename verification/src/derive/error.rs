//! Why a derive refuses a definition.
use vstd::prelude::*;

verus! {

/// The arguments that the `#[flowstate]` attribute knows by name.
#[derive(Clone, Copy, Debug, PartialEq, Eq, Structural)]
pub enum ArgName {
    Result,
    StateTrait,
    Name,
    IsAsync,
}

/// Why a derive refuses a definition. Positions count fields and tokens
/// from 0.
#[derive(Debug, PartialEq, Eq)]
pub enum DeriveError {
    /// Workflow can only be derived for structs.
    UnsupportedEnumOrUnion,
    /// Workflow cannot currently be derived for tuple structs.
    UnsupportedTupleStruct,
    /// Workflow cannot currently be derived for unit structs.
    UnsupportedUnitStruct,
    /// A named struct held a field without a name.
    UnexpectedUnnamedField { field: usize },
    /// A second field is marked with the `#[state]` attribute.
    DuplicateStateAttribute { field: usize },
    /// No field is marked with the `#[state]` attribute.
    MissingStateAttribute,
    /// The `#[state]` field's type is not the state type parameter.
    InvalidStateFieldType { field: usize, state_field_ident: String, state_param: String },
    /// The `#[state]` attribute was given as `#[state = ...]`.
    ExpectedStateAttributeList { field: usize },
    /// The `#[state]` attribute takes no arguments.
    UnexpectedArgumentsForStateAttribute { field: usize },
    /// A workflow has at most one lifetime parameter.
    ExtraGenericLifetimeParameter { lifetime: String },
    /// The workflow's lifetime parameter has bounds.
    UnsupportedBoundsOnGenericLifetimeParameterForWorkflow { lifetime: String },
    /// Generic const parameters are not currently supported for workflows.
    UnsupportedGenericConstParameter { ident: String },
    /// Workflow requires exactly one generic parameter for state.
    MissingGenericTypeParameterForState,
    /// Additional generic type parameters are not currently supported.
    UnsupportedAdditionalGenericTypeParameters { ident: String },
    /// Type parameter bounds on the state parameter are not supported.
    UnsupportedBoundsOnGenericTypeParameterForState { ident: String },
    /// Generic where clauses are not currently supported for workflows.
    UnsupportedGenericWhereClause,
    /// Workflow requires a `#[flowstate(result = ...)]` attribute.
    MissingFlowstateAttributeOnWorkflow,
    /// The `#[flowstate]` attribute was not given as a list of arguments.
    ExpectedFlowstateAttributeList,
    /// `true` or `false` was expected at this token.
    ExpectedBool { at: usize },
    /// An argument was given twice.
    DuplicateAttributeArgument { name: ArgName },
    /// An argument that the attribute does not know.
    UnknownAttributeArgument { name: String },
    /// A required argument is missing.
    MissingAttributeArgument { name: ArgName },
    /// An identifier was expected at this token.
    ExpectedIdent { at: usize },
    /// This punctuation character was expected at this token.
    ExpectedPunct { at: usize, punct: char },
    /// A path was expected at this token.
    ExpectedPath { at: usize },
    /// An expression was expected at this token.
    ExpectedExpression { at: usize },
    /// The source does not parse as a struct, an enum or a union.
    UnparsableItem,
    /// The left side of a context assignment is not a field or a path.
    ExpectedField { at: usize },
}

} // verus!
