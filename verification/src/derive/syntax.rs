//! Reading the item that a derive is applied to, from its source text.
//!
//! `syn` parses the item; each trusted function below reads one part of
//! what it parsed as plain values, and the verified functions assemble the
//! [`model::Definition`] that the rules and the generators work on.
use crate::derive::error::DeriveError;
use crate::derive::generate::{
    derive_state_impl, derive_workflow_impl, flowstate_tokens, state_impl_source,
    workflow_impls_source,
};
use crate::derive::model;
use crate::derive::workflow_input::{
    state_args_match, state_attr_outcome, validated_from, workflow_input_error,
    ValidatedWorkflowStruct,
};
use crate::derive::args::StateArgs;
use proc_macro2::{Spacing, TokenTree};
use quote::ToTokens;
use vstd::prelude::*;

verus! {

/// An item as `syn` parsed it.
#[verifier::external_type_specification]
#[verifier::external_body]
pub struct ExItem(syn::DeriveInput);

/// An attribute as `syn` parsed it.
#[verifier::external_type_specification]
#[verifier::external_body]
pub struct ExAttribute(syn::Attribute);

/// A field as `syn` parsed it.
#[verifier::external_type_specification]
#[verifier::external_body]
pub struct ExField(syn::Field);

/// A generic parameter as `syn` parsed it.
#[verifier::external_type_specification]
#[verifier::external_body]
pub struct ExGenericParam(syn::GenericParam);

/// A token tree of `proc_macro2`.
#[verifier::external_type_specification]
#[verifier::external_body]
pub struct ExTokenTree(TokenTree);

/// Parses `source` as an item that a derive may be applied to, through
/// `syn::parse_str`; `None` where it is not one.
#[verifier::external_body]
fn parse_item(source: &str) -> Option<syn::DeriveInput> {
    syn::parse_str::<syn::DeriveInput>(source).ok()
}

/// The item's identifier, through `Ident`'s `to_string`.
#[verifier::external_body]
fn item_ident(item: &syn::DeriveInput) -> String {
    item.ident.to_string()
}

/// The item's attributes, in order.
#[verifier::external_body]
fn item_attrs(item: &syn::DeriveInput) -> &Vec<syn::Attribute> {
    &item.attrs
}

/// An attribute's path written out, through `ToTokens::to_token_stream`.
#[verifier::external_body]
fn attribute_path(attr: &syn::Attribute) -> String {
    attr.path().to_token_stream().to_string()
}

/// How an attribute's arguments are written: as a path, a list or a value.
#[derive(Clone, Copy, PartialEq, Eq, Structural)]
pub enum MetaForm {
    Path,
    List,
    NameValue,
}

/// How the attribute's arguments are written, by `syn::Meta`'s variant.
#[verifier::external_body]
fn attribute_form(attr: &syn::Attribute) -> MetaForm {
    match &attr.meta {
        syn::Meta::Path(_) => MetaForm::Path,
        syn::Meta::List(_) => MetaForm::List,
        syn::Meta::NameValue(_) => MetaForm::NameValue,
    }
}

/// The token trees of a list attribute's arguments, through
/// `TokenStream::into_iter`; none for another attribute.
#[verifier::external_body]
fn attribute_trees(attr: &syn::Attribute) -> Vec<TokenTree> {
    match &attr.meta {
        syn::Meta::List(list) => list.tokens.clone().into_iter().collect(),
        _ => Vec::new(),
    }
}

/// A token tree as a token: an identifier, punctuation with its spacing,
/// a literal, or a group written out with its delimiter.
#[verifier::external_body]
fn tree_token(tree: &TokenTree) -> model::Token {
    match tree {
        TokenTree::Ident(ident) => model::Token::Ident(ident.to_string()),
        TokenTree::Punct(punct) => model::Token::Punct(punct.as_char(), match punct.spacing() {
            Spacing::Joint => true,
            Spacing::Alone => false,
        }),
        TokenTree::Literal(literal) => model::Token::Literal(literal.to_string()),
        TokenTree::Group(group) => model::Token::Group(match group.delimiter() {
            proc_macro2::Delimiter::Parenthesis => model::Delimiter::Parenthesis,
            proc_macro2::Delimiter::Brace => model::Delimiter::Brace,
            proc_macro2::Delimiter::Bracket => model::Delimiter::Bracket,
            proc_macro2::Delimiter::None => model::Delimiter::Invisible,
        }, group.to_string()),
    }
}

/// The item's generic parameters, in order.
#[verifier::external_body]
fn item_params(item: &syn::DeriveInput) -> Vec<syn::GenericParam> {
    item.generics.params.iter().cloned().collect()
}

/// What kind of generic parameter it is.
#[derive(Clone, Copy, PartialEq, Eq, Structural)]
pub enum ParamKind {
    Lifetime,
    Type,
    Const,
}

/// A generic parameter's kind, its name (a lifetime with its quote) and
/// the number of its bounds, by `syn::GenericParam`'s variant.
#[verifier::external_body]
fn param_parts(param: &syn::GenericParam) -> (ParamKind, String, usize) {
    match param {
        syn::GenericParam::Lifetime(p) => (ParamKind::Lifetime, p.lifetime.to_string(), p.bounds.len()),
        syn::GenericParam::Type(p) => (ParamKind::Type, p.ident.to_string(), p.bounds.len()),
        syn::GenericParam::Const(p) => (ParamKind::Const, p.ident.to_string(), 0),
    }
}

/// The item's generic parameters as declared, and its where clause as
/// written, through `ToTokens::to_token_stream`; each empty where absent.
#[verifier::external_body]
fn generics_text(item: &syn::DeriveInput) -> (String, Option<String>) {
    let params = if item.generics.params.is_empty() {
        String::new()
    } else {
        item.generics.to_token_stream().to_string()
    };
    (params, item.generics.where_clause.as_ref().map(|w| w.to_token_stream().to_string()))
}

/// What kind of item it is, by `syn::Data`'s and `syn::Fields`' variants.
#[derive(Clone, Copy, PartialEq, Eq, Structural)]
pub enum ItemKind {
    NamedStruct,
    TupleStruct,
    UnitStruct,
    Enum,
    Union,
}

/// The item's kind.
#[verifier::external_body]
fn item_kind(item: &syn::DeriveInput) -> ItemKind {
    match &item.data {
        syn::Data::Struct(data) => match &data.fields {
            syn::Fields::Named(_) => ItemKind::NamedStruct,
            syn::Fields::Unnamed(_) => ItemKind::TupleStruct,
            syn::Fields::Unit => ItemKind::UnitStruct,
        },
        syn::Data::Enum(_) => ItemKind::Enum,
        syn::Data::Union(_) => ItemKind::Union,
    }
}

/// The fields of a struct, in order; none for another item.
#[verifier::external_body]
fn item_fields(item: &syn::DeriveInput) -> Vec<syn::Field> {
    match &item.data {
        syn::Data::Struct(data) => data.fields.iter().cloned().collect(),
        _ => Vec::new(),
    }
}

/// A field's name, where it has one.
#[verifier::external_body]
fn field_ident(field: &syn::Field) -> Option<String> {
    field.ident.as_ref().map(|ident| ident.to_string())
}

/// A field's attributes, in order.
#[verifier::external_body]
fn field_attrs(field: &syn::Field) -> &Vec<syn::Attribute> {
    &field.attrs
}

/// A field's type written out, and, for a path type, the path's single
/// identifier where it is one (`Path::get_ident`); `None` in the first
/// place where the type is not a path.
#[verifier::external_body]
fn field_type_parts(field: &syn::Field) -> (Option<Option<String>>, String) {
    let text = field.ty.to_token_stream().to_string();
    match &field.ty {
        syn::Type::Path(p) => (Some(p.path.get_ident().map(|ident| ident.to_string())), text),
        _ => (None, text),
    }
}

/// The tokens of a list attribute's arguments.
fn read_tokens(attr: &syn::Attribute) -> Vec<model::Token> {
    let trees = attribute_trees(attr);
    let mut tokens: Vec<model::Token> = Vec::new();
    let mut k: usize = 0;
    while k < trees.len()
        decreases trees.len() - k,
    {
        tokens.push(tree_token(&trees[k]));
        k = k + 1;
    }
    tokens
}

/// The attributes, in order.
fn read_attrs(attrs: &Vec<syn::Attribute>) -> Vec<model::Attr> {
    let mut out: Vec<model::Attr> = Vec::new();
    let mut k: usize = 0;
    while k < attrs.len()
        decreases attrs.len() - k,
    {
        let attr = &attrs[k];
        let meta = match attribute_form(attr) {
            MetaForm::Path => model::Meta::Path,
            MetaForm::List => model::Meta::List(read_tokens(attr)),
            MetaForm::NameValue => model::Meta::NameValue,
        };
        out.push(model::Attr { path: attribute_path(attr), meta });
        k = k + 1;
    }
    out
}

/// The item's generics.
fn read_generics(item: &syn::DeriveInput) -> model::Generics {
    let params = item_params(item);
    let mut lifetimes: Vec<model::LifetimeParam> = Vec::new();
    let mut type_params: Vec<model::TypeParam> = Vec::new();
    let mut const_params: Vec<model::ConstParam> = Vec::new();
    let mut k: usize = 0;
    while k < params.len()
        decreases params.len() - k,
    {
        let (kind, name, bounds) = param_parts(&params[k]);
        match kind {
            ParamKind::Lifetime => lifetimes.push(model::LifetimeParam { lifetime: name, has_bounds: bounds > 0 }),
            ParamKind::Type => type_params.push(model::TypeParam { ident: name, has_bounds: bounds > 0 }),
            ParamKind::Const => const_params.push(model::ConstParam { ident: name }),
        }
        k = k + 1;
    }
    let (decl, where_clause) = generics_text(item);
    let has_where_clause = where_clause.is_some();
    let where_text = match where_clause {
        Some(text) => text,
        None => String::new(),
    };
    model::Generics { lifetimes, type_params, const_params, has_where_clause, decl, where_text }
}

/// The item's kind and fields.
fn read_data(item: &syn::DeriveInput) -> model::Data {
    match item_kind(item) {
        ItemKind::NamedStruct => {
            let fields = item_fields(item);
            let mut out: Vec<model::FieldDef> = Vec::new();
            let mut k: usize = 0;
            while k < fields.len()
                decreases fields.len() - k,
            {
                let field = &fields[k];
                let (path_ident, text) = field_type_parts(field);
                let ty = match path_ident {
                    Some(ident) => model::Type::Path { ident, text },
                    None => model::Type::Other { text },
                };
                out.push(model::FieldDef { ident: field_ident(field), ty, attrs: read_attrs(field_attrs(field)) });
                k = k + 1;
            }
            model::Data::Struct(model::Fields::Named(out))
        },
        ItemKind::TupleStruct => model::Data::Struct(model::Fields::Unnamed),
        ItemKind::UnitStruct => model::Data::Struct(model::Fields::Unit),
        ItemKind::Enum => model::Data::Enum,
        ItemKind::Union => model::Data::Union,
    }
}

/// The description of an item that `syn` parsed.
pub fn read_item(item: &syn::DeriveInput) -> model::Definition {
    model::Definition {
        ident: item_ident(item),
        attrs: read_attrs(item_attrs(item)),
        generics: read_generics(item),
        data: read_data(item),
    }
}

/// What `#[derive(Workflow)]` emits for the item written in `source`, or
/// why it refuses it: an item that does not parse, or the first rule it
/// breaks. What is emitted is what [`derive_workflow_impl`] emits for the
/// description of the parsed item.
pub fn derive_workflow(source: &str) -> (r: Result<String, DeriveError>)
    ensures
        r matches Ok(t) ==> exists|input: model::Definition, v: ValidatedWorkflowStruct|
            workflow_input_error(input) is None && #[trigger] validated_from(v, input) && t@
                == workflow_impls_source(v, flowstate_tokens(input.attrs@)),
        r matches Err(e) ==> e == DeriveError::UnparsableItem || exists|input: model::Definition|
            #[trigger] workflow_input_error(input) == Some(e),
{
    match parse_item(source) {
        None => Err(DeriveError::UnparsableItem),
        Some(item) => {
            let input = read_item(&item);
            let r = derive_workflow_impl(&input);
            proof {
                if workflow_input_error(input) is Some {
                    assert(workflow_input_error(input) == Some(r->Err_0));
                }
            }
            r
        },
    }
}

/// What `#[derive(State)]`, or with `is_async` `#[derive(AsyncState)]`,
/// emits for the item written in `source`, or why it refuses it: an item
/// that does not parse, or an error in its `#[flowstate(...)]` arguments.
/// What is emitted is what [`derive_state_impl`] emits for the description
/// of the parsed item.
pub fn derive_state(source: &str, is_async: bool) -> (r: Result<String, DeriveError>)
    ensures
        r matches Ok(t) ==> exists|input: model::Definition, args: Option<StateArgs>|
            state_attr_outcome(input.attrs@) is Ok && #[trigger] state_args_match(
                args,
                state_attr_outcome(input.attrs@)->Ok_0,
            ) && t@ == state_impl_source(input, args, flowstate_tokens(input.attrs@), is_async),
        r matches Err(e) ==> e == DeriveError::UnparsableItem || exists|input: model::Definition|
            #[trigger] state_attr_outcome(input.attrs@) == Err::<
                Option<crate::derive::args::StateArgsView>,
                DeriveError,
            >(e),
{
    match parse_item(source) {
        None => Err(DeriveError::UnparsableItem),
        Some(item) => {
            let input = read_item(&item);
            derive_state_impl(&input, is_async)
        },
    }
}

} // verus!
