//! What `#[derive(Workflow)]` accepts: a struct with named fields, exactly
//! one generic type parameter (the state), at most one lifetime, no const
//! parameters and no where clause, and exactly one field marked `#[state]`
//! whose type is the state parameter.
use crate::bytes_order::str_eq;
use crate::derive::args::{
    gathered, parse_state_args, parse_workflow_args, state_args_outcome, workflow_args_outcome,
    StateArgs, StateArgsView, WorkflowArgs, assignments_view,
};
use crate::derive::error::DeriveError;
use crate::derive::model::{
    Attr, Data, Definition, FieldDef, Fields, Generics, LifetimeParam, Meta, Type, TypeParam,
};
use vstd::prelude::*;

verus! {

/// The position, from `i` on, of the first attribute called `name`.
pub open spec fn first_attr_from(attrs: Seq<Attr>, name: Seq<char>, i: int) -> Option<int>
    decreases attrs.len() - i,
{
    if i < 0 || i >= attrs.len() {
        None
    } else if attrs[i].path@ == name {
        Some(i)
    } else {
        first_attr_from(attrs, name, i + 1)
    }
}

/// The position of the first attribute called `name`.
pub open spec fn first_attr(attrs: Seq<Attr>, name: Seq<char>) -> Option<int> {
    first_attr_from(attrs, name, 0)
}

/// The first attribute called `name`, if any.
pub fn find_attr(attrs: &Vec<Attr>, name: &str) -> (r: Option<usize>)
    ensures
        match r {
            Some(i) => first_attr(attrs@, name@) == Some(i as int) && i < attrs@.len(),
            None => first_attr(attrs@, name@) is None,
        },
{
    let mut i: usize = 0;
    while i < attrs.len()
        invariant
            i <= attrs@.len(),
            first_attr(attrs@, name@) == first_attr_from(attrs@, name@, i as int),
        decreases attrs.len() - i,
    {
        if str_eq(attrs[i].path.as_str(), name) {
            return Some(i);
        }
        i = i + 1;
    }
    None
}

/// The outcome of checking the workflow's lifetime parameters.
pub open spec fn lifetime_outcome(lifetimes: Seq<LifetimeParam>) -> Result<Option<int>, DeriveError> {
    if lifetimes.len() == 0 {
        Ok(None)
    } else if lifetimes.len() >= 2 {
        Err(DeriveError::ExtraGenericLifetimeParameter { lifetime: lifetimes[1].lifetime })
    } else if lifetimes[0].has_bounds {
        Err(
            DeriveError::UnsupportedBoundsOnGenericLifetimeParameterForWorkflow {
                lifetime: lifetimes[0].lifetime,
            },
        )
    } else {
        Ok(Some(0))
    }
}

/// A workflow has at most one lifetime parameter, without bounds.
pub fn validate_workflow_lifetime_generic(generics: &Generics) -> (r: Result<
    Option<&LifetimeParam>,
    DeriveError,
>)
    ensures
        match lifetime_outcome(generics.lifetimes@) {
            Ok(None) => r == Ok::<Option<&LifetimeParam>, DeriveError>(None),
            Ok(Some(i)) => r == Ok::<Option<&LifetimeParam>, DeriveError>(
                Some(&generics.lifetimes@[i]),
            ),
            Err(e) => r == Err::<Option<&LifetimeParam>, DeriveError>(e),
        },
{
    if generics.lifetimes.len() == 0 {
        return Ok(None);
    }
    if generics.lifetimes.len() >= 2 {
        return Err(
            DeriveError::ExtraGenericLifetimeParameter {
                lifetime: generics.lifetimes[1].lifetime.clone(),
            },
        );
    }
    let workflow_lifetime = &generics.lifetimes[0];
    if workflow_lifetime.has_bounds {
        return Err(
            DeriveError::UnsupportedBoundsOnGenericLifetimeParameterForWorkflow {
                lifetime: workflow_lifetime.lifetime.clone(),
            },
        );
    }
    Ok(Some(workflow_lifetime))
}

/// A workflow has no const parameters.
pub fn validate_generic_const_params(generics: &Generics) -> (r: Result<(), DeriveError>)
    ensures
        generics.const_params@.len() == 0 ==> r == Ok::<(), DeriveError>(()),
        generics.const_params@.len() > 0 ==> r == Err::<(), DeriveError>(
            DeriveError::UnsupportedGenericConstParameter {
                ident: generics.const_params@[0].ident,
            },
        ),
{
    if generics.const_params.len() > 0 {
        return Err(
            DeriveError::UnsupportedGenericConstParameter {
                ident: generics.const_params[0].ident.clone(),
            },
        );
    }
    Ok(())
}

/// The outcome of checking the workflow's type parameters.
pub open spec fn state_param_outcome(params: Seq<TypeParam>) -> Result<int, DeriveError> {
    if params.len() == 0 {
        Err(DeriveError::MissingGenericTypeParameterForState)
    } else if params.len() >= 2 {
        Err(DeriveError::UnsupportedAdditionalGenericTypeParameters { ident: params[1].ident })
    } else if params[0].has_bounds {
        Err(DeriveError::UnsupportedBoundsOnGenericTypeParameterForState { ident: params[0].ident })
    } else {
        Ok(0)
    }
}

/// A workflow has exactly one type parameter, the state, without bounds.
pub fn validate_state_type_generic(generics: &Generics) -> (r: Result<&TypeParam, DeriveError>)
    ensures
        match state_param_outcome(generics.type_params@) {
            Ok(i) => r == Ok::<&TypeParam, DeriveError>(&generics.type_params@[i]),
            Err(e) => r == Err::<&TypeParam, DeriveError>(e),
        },
{
    if generics.type_params.len() == 0 {
        return Err(DeriveError::MissingGenericTypeParameterForState);
    }
    if generics.type_params.len() >= 2 {
        return Err(
            DeriveError::UnsupportedAdditionalGenericTypeParameters {
                ident: generics.type_params[1].ident.clone(),
            },
        );
    }
    let state_type_param = &generics.type_params[0];
    if state_type_param.has_bounds {
        return Err(
            DeriveError::UnsupportedBoundsOnGenericTypeParameterForState {
                ident: state_type_param.ident.clone(),
            },
        );
    }
    Ok(state_type_param)
}

/// A workflow has no where clause.
pub fn validate_where_clause(generics: &Generics) -> (r: Result<(), DeriveError>)
    ensures
        !generics.has_where_clause ==> r == Ok::<(), DeriveError>(()),
        generics.has_where_clause ==> r == Err::<(), DeriveError>(
            DeriveError::UnsupportedGenericWhereClause,
        ),
{
    if generics.has_where_clause {
        return Err(DeriveError::UnsupportedGenericWhereClause);
    }
    Ok(())
}

/// The generics that a workflow may have.
pub struct ValidatedStructGenerics<'s> {
    pub workflow_lifetime_param: Option<&'s LifetimeParam>,
    pub state_type_param: &'s TypeParam,
}

/// The first error among the checks of the generics, in the order:
/// lifetimes, const parameters, type parameters, where clause.
pub open spec fn generics_error(generics: Generics) -> Option<DeriveError> {
    if lifetime_outcome(generics.lifetimes@) is Err {
        Some(lifetime_outcome(generics.lifetimes@)->Err_0)
    } else if generics.const_params@.len() > 0 {
        Some(
            DeriveError::UnsupportedGenericConstParameter {
                ident: generics.const_params@[0].ident,
            },
        )
    } else if state_param_outcome(generics.type_params@) is Err {
        Some(state_param_outcome(generics.type_params@)->Err_0)
    } else if generics.has_where_clause {
        Some(DeriveError::UnsupportedGenericWhereClause)
    } else {
        None
    }
}

/// The generics of a workflow: the checks in order, the first error wins.
pub fn validate_generics(generics: &Generics) -> (r: Result<ValidatedStructGenerics, DeriveError>)
    ensures
        match generics_error(*generics) {
            Some(e) => r matches Err(e2) && e2 == e,
            None => r matches Ok(v) && v.state_type_param == &generics.type_params@[0] && (
            generics.lifetimes@.len() == 0 ==> v.workflow_lifetime_param is None) && (
            generics.lifetimes@.len() == 1 ==> v.workflow_lifetime_param == Some(
                &generics.lifetimes@[0],
            )),
        },
{
    let workflow_lifetime_param = match validate_workflow_lifetime_generic(generics) {
        Ok(p) => p,
        Err(e) => return Err(e),
    };
    match validate_generic_const_params(generics) {
        Ok(()) => {},
        Err(e) => return Err(e),
    }
    let state_type_param = match validate_state_type_generic(generics) {
        Ok(p) => p,
        Err(e) => return Err(e),
    };
    match validate_where_clause(generics) {
        Ok(()) => {},
        Err(e) => return Err(e),
    }
    Ok(ValidatedStructGenerics { workflow_lifetime_param, state_type_param })
}

/// The type is the single identifier `param`.
pub open spec fn type_is_param(ty: Type, param: Seq<char>) -> bool {
    ty matches Type::Path { ident: Some(id), .. } && id@ == param
}

/// The outcome of checking the fields from position `i` on, given the
/// position of the `#[state]` field found before it, if any: the position
/// of the state field, or the first error.
pub open spec fn fields_outcome(fields: Seq<FieldDef>, param: String, i: int, state: Option<int>) -> Result<
    int,
    DeriveError,
>
    decreases fields.len() - i,
{
    if i < 0 || i >= fields.len() {
        match state {
            Some(s) => Ok(s),
            None => Err(DeriveError::MissingStateAttribute),
        }
    } else if fields[i].ident is None {
        Err(DeriveError::UnexpectedUnnamedField { field: i as usize })
    } else {
        match first_attr(fields[i].attrs@, "state"@) {
            None => fields_outcome(fields, param, i + 1, state),
            Some(a) => match fields[i].attrs@[a].meta {
                Meta::NameValue => Err(DeriveError::ExpectedStateAttributeList { field: i as usize }),
                Meta::List(tokens) if tokens@.len() > 0 => Err(
                    DeriveError::UnexpectedArgumentsForStateAttribute { field: i as usize },
                ),
                _ => if state is Some {
                    Err(DeriveError::DuplicateStateAttribute { field: i as usize })
                } else if !type_is_param(fields[i].ty, param@) {
                    Err(
                        DeriveError::InvalidStateFieldType {
                            field: i as usize,
                            state_field_ident: fields[i].ident->Some_0,
                            state_param: param,
                        },
                    )
                } else {
                    fields_outcome(fields, param, i + 1, Some(i))
                },
            },
        }
    }
}

/// A field of the workflow: its name and its type.
pub struct FieldRef<'a> {
    pub ident: &'a String,
    pub ty: &'a Type,
}

/// The state field of a workflow and the rest of its fields.
pub struct ValidatedStructFields<'a> {
    pub state: FieldRef<'a>,
    pub rest: Vec<FieldRef<'a>>,
}

/// `r` names the field `f`.
pub open spec fn refers_to(r: FieldRef, f: FieldDef) -> bool {
    f.ident == Some(*r.ident) && *r.ty == f.ty
}

/// `v` holds the field at position `s` as the state field and every other
/// field of `fields`, in order, as the rest.
pub open spec fn splits_fields(v: ValidatedStructFields, fields: Seq<FieldDef>, s: int) -> bool {
    &&& 0 <= s < fields.len()
    &&& refers_to(v.state, fields[s])
    &&& v.rest@.len() == fields.len() - 1
    &&& forall|k: int|
        0 <= k < v.rest@.len() ==> refers_to(
            #[trigger] v.rest@[k],
            fields[if k < s {
                k
            } else {
                k + 1
            }],
        )
}

/// The fields of a workflow: each named; exactly one marked `#[state]`,
/// without arguments, of the state parameter's type; the others in order.
pub fn validate_struct_fields<'a>(fields: &'a Vec<FieldDef>, state_param: &TypeParam) -> (r: Result<
    ValidatedStructFields<'a>,
    DeriveError,
>)
    ensures
        match fields_outcome(fields@, state_param.ident, 0, None) {
            Ok(s) => r matches Ok(v) && splits_fields(v, fields@, s),
            Err(e) => r matches Err(e2) && e2 == e,
        },
{
    let ghost param = state_param.ident;
    let mut state: Option<FieldRef<'a>> = None;
    let ghost mut state_at: Option<int> = None;
    let mut rest: Vec<FieldRef<'a>> = Vec::new();
    let mut i: usize = 0;
    while i < fields.len()
        invariant
            param == state_param.ident,
            i <= fields@.len(),
            fields_outcome(fields@, param, 0, None) == fields_outcome(fields@, param, i as int, state_at),
            match state_at {
                Some(s) => 0 <= s < i && (state matches Some(st) && refers_to(st, fields@[s])) && rest@.len()
                    == i - 1 && (forall|k: int|
                    0 <= k < rest@.len() ==> refers_to(
                        #[trigger] rest@[k],
                        fields@[if k < s {
                            k
                        } else {
                            k + 1
                        }],
                    )),
                None => state is None && rest@.len() == i && (forall|k: int|
                    0 <= k < rest@.len() ==> refers_to(#[trigger] rest@[k], fields@[k])),
            },
        decreases fields.len() - i,
    {
        let field = &fields[i];
        let ident = match &field.ident {
            Some(ident) => ident,
            None => return Err(DeriveError::UnexpectedUnnamedField { field: i }),
        };
        match find_attr(&field.attrs, "state") {
            Some(a) => {
                match &field.attrs[a].meta {
                    Meta::NameValue => {
                        return Err(DeriveError::ExpectedStateAttributeList { field: i });
                    },
                    Meta::List(tokens) => {
                        if tokens.len() > 0 {
                            return Err(DeriveError::UnexpectedArgumentsForStateAttribute { field: i });
                        }
                    },
                    Meta::Path => {},
                }
                if state.is_some() {
                    return Err(DeriveError::DuplicateStateAttribute { field: i });
                }
                let is_param = match &field.ty {
                    Type::Path { ident: Some(id), .. } => str_eq(id.as_str(), state_param.ident.as_str()),
                    _ => false,
                };
                if !is_param {
                    return Err(
                        DeriveError::InvalidStateFieldType {
                            field: i,
                            state_field_ident: ident.clone(),
                            state_param: state_param.ident.clone(),
                        },
                    );
                }
                state = Some(FieldRef { ident, ty: &field.ty });
                proof {
                    state_at = Some(i as int);
                }
            },
            None => {
                rest.push(FieldRef { ident, ty: &field.ty });
            },
        }
        i = i + 1;
    }
    match state {
        Some(state) => Ok(ValidatedStructFields { state, rest }),
        None => Err(DeriveError::MissingStateAttribute),
    }
}

/// The outcome of checking the item's kind and fields.
pub open spec fn struct_outcome(data: Data, param: String) -> Result<int, DeriveError> {
    match data {
        Data::Enum => Err(DeriveError::UnsupportedEnumOrUnion),
        Data::Union => Err(DeriveError::UnsupportedEnumOrUnion),
        Data::Struct(Fields::Unnamed) => Err(DeriveError::UnsupportedTupleStruct),
        Data::Struct(Fields::Unit) => Err(DeriveError::UnsupportedUnitStruct),
        Data::Struct(Fields::Named(fields)) => fields_outcome(fields@, param, 0, None),
    }
}

/// A workflow is a struct with named fields, checked as
/// [`validate_struct_fields`] checks them.
pub fn validate_struct<'a>(data: &'a Data, state_param: &TypeParam) -> (r: Result<
    ValidatedStructFields<'a>,
    DeriveError,
>)
    ensures
        match struct_outcome(*data, state_param.ident) {
            Ok(s) => r matches Ok(v) && (data matches Data::Struct(Fields::Named(fields))
                && splits_fields(v, fields@, s)),
            Err(e) => r matches Err(e2) && e2 == e,
        },
{
    match data {
        Data::Enum | Data::Union => Err(DeriveError::UnsupportedEnumOrUnion),
        Data::Struct(Fields::Unnamed) => Err(DeriveError::UnsupportedTupleStruct),
        Data::Struct(Fields::Unit) => Err(DeriveError::UnsupportedUnitStruct),
        Data::Struct(Fields::Named(fields)) => validate_struct_fields(fields, state_param),
    }
}

/// The outcome of reading a workflow's `#[flowstate(...)]` attribute: it is
/// required and takes a list of arguments.
pub open spec fn workflow_attr_outcome(attrs: Seq<Attr>) -> Result<
    crate::derive::args::WorkflowArgsView,
    DeriveError,
> {
    match first_attr(attrs, "flowstate"@) {
        None => Err(DeriveError::MissingFlowstateAttributeOnWorkflow),
        Some(a) => match attrs[a].meta {
            Meta::List(ts) => workflow_args_outcome(ts@),
            _ => Err(DeriveError::ExpectedFlowstateAttributeList),
        },
    }
}

/// The arguments of a workflow's `#[flowstate(...)]` attribute.
pub fn validate_flowstate_attr(input: &Definition) -> (r: Result<WorkflowArgs, DeriveError>)
    ensures
        match workflow_attr_outcome(input.attrs@) {
            Ok(v) => r matches Ok(a) && v == gathered(
                Some(a.result_type),
                a.state_trait_ident,
                a.name_expr,
                v.is_async,
                a.ctx_key_value_pairs@,
            ) && a.is_async == (v.is_async == Some(true)),
            Err(e) => r matches Err(e2) && e2 == e,
        },
{
    match find_attr(&input.attrs, "flowstate") {
        None => Err(DeriveError::MissingFlowstateAttributeOnWorkflow),
        Some(a) => match &input.attrs[a].meta {
            Meta::List(ts) => parse_workflow_args(ts),
            _ => Err(DeriveError::ExpectedFlowstateAttributeList),
        },
    }
}

/// A workflow definition that the derive accepts.
pub struct ValidatedWorkflowStruct<'s> {
    pub ident: &'s String,
    pub args: WorkflowArgs,
    pub generics: ValidatedStructGenerics<'s>,
    pub fields: ValidatedStructFields<'s>,
}

/// The first reason to refuse a workflow definition: its attribute, then
/// its generics, then its kind and fields.
pub open spec fn workflow_input_error(input: Definition) -> Option<DeriveError> {
    if workflow_attr_outcome(input.attrs@) is Err {
        Some(workflow_attr_outcome(input.attrs@)->Err_0)
    } else if generics_error(input.generics) is Some {
        generics_error(input.generics)
    } else if struct_outcome(input.data, input.generics.type_params@[0].ident) is Err {
        Some(struct_outcome(input.data, input.generics.type_params@[0].ident)->Err_0)
    } else {
        None
    }
}

/// `v` describes the accepted workflow definition `input`: its name, its
/// parsed attribute arguments, its lifetime and state parameter, and its
/// state field and other fields in order.
pub open spec fn validated_from(v: ValidatedWorkflowStruct, input: Definition) -> bool {
    &&& v.ident == &input.ident
    &&& v.generics.state_type_param == &input.generics.type_params@[0]
    &&& input.generics.lifetimes@.len() == 0 ==> v.generics.workflow_lifetime_param is None
    &&& input.generics.lifetimes@.len() == 1 ==> v.generics.workflow_lifetime_param == Some(
        &input.generics.lifetimes@[0],
    )
    &&& input.data matches Data::Struct(Fields::Named(fields)) && splits_fields(
        v.fields,
        fields@,
        struct_outcome(input.data, input.generics.type_params@[0].ident)->Ok_0,
    )
    &&& workflow_attr_outcome(input.attrs@) matches Ok(w) && w == gathered(
        Some(v.args.result_type),
        v.args.state_trait_ident,
        v.args.name_expr,
        w.is_async,
        v.args.ctx_key_value_pairs@,
    ) && v.args.is_async == (w.is_async == Some(true))
}

/// Checks a workflow definition: its `#[flowstate(...)]` attribute, its
/// generics and its fields, in that order; the first error wins.
pub fn validate_input(input: &Definition) -> (r: Result<ValidatedWorkflowStruct, DeriveError>)
    ensures
        match workflow_input_error(*input) {
            Some(e) => r matches Err(e2) && e2 == e,
            None => r matches Ok(v) && validated_from(v, *input),
        },
{
    let args = match validate_flowstate_attr(input) {
        Ok(args) => args,
        Err(e) => return Err(e),
    };
    let generics = match validate_generics(&input.generics) {
        Ok(generics) => generics,
        Err(e) => return Err(e),
    };
    let fields = match validate_struct(&input.data, generics.state_type_param) {
        Ok(fields) => fields,
        Err(e) => return Err(e),
    };
    Ok(ValidatedWorkflowStruct { ident: &input.ident, args, generics, fields })
}

/// The outcome of reading a state's `#[flowstate(...)]` attribute, which is
/// optional and takes a list of arguments.
pub open spec fn state_attr_outcome(attrs: Seq<Attr>) -> Result<Option<StateArgsView>, DeriveError> {
    match first_attr(attrs, "flowstate"@) {
        None => Ok(None),
        Some(a) => match attrs[a].meta {
            Meta::List(ts) => match state_args_outcome(ts@) {
                Ok(v) => Ok(Some(v)),
                Err(e) => Err(e),
            },
            _ => Err(DeriveError::ExpectedFlowstateAttributeList),
        },
    }
}

/// `args` holds the state arguments `o`.
pub open spec fn state_args_match(args: Option<StateArgs>, o: Option<StateArgsView>) -> bool {
    match o {
        None => args is None,
        Some(v) => args matches Some(a) && v == (StateArgsView {
            name_expr: a.name_expr,
            ctx_key_value_pairs: assignments_view(a.ctx_key_value_pairs@),
        }),
    }
}

/// The arguments of a state's `#[flowstate(...)]` attribute, if it has one.
pub fn validate_state_attr(input: &Definition) -> (r: Result<Option<StateArgs>, DeriveError>)
    ensures
        match state_attr_outcome(input.attrs@) {
            Ok(o) => r matches Ok(args) && state_args_match(args, o),
            Err(e) => r matches Err(e2) && e2 == e,
        },
{
    match find_attr(&input.attrs, "flowstate") {
        None => Ok(None),
        Some(a) => match &input.attrs[a].meta {
            Meta::List(ts) => match parse_state_args(ts) {
                Ok(args) => Ok(Some(args)),
                Err(e) => Err(e),
            },
            _ => Err(DeriveError::ExpectedFlowstateAttributeList),
        },
    }
}

} // verus!
