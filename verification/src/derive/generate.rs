//! The source text that the derives emit for an accepted definition.
//!
//! Each function returns Rust source; a procedural-macro front end parses
//! it into tokens. Token sequences taken over from the attribute's
//! arguments are written out with a space after each token.
//!
//! The emitted source is written for the trait-object form of the workflow
//! traits: steps take `self: Box<Self>` and return
//! `Transition<'workflow, Result>`, a workflow hands out its state as
//! `&dyn State`, and contexts hold values of any type. It does not compile
//! against the traits of this crate, whose steps return the workflow's own
//! type and whose contexts hold values of one type.
use crate::derive::args::{
    lemma_state_args_within, lemma_workflow_args_within, push_char, token_text, FieldAssignment,
    StateArgs, StateArgsView, TokenRange, WorkflowArgsView, assignments_view, state_args_outcome,
};
use crate::derive::error::DeriveError;
use crate::derive::model::{
    Attr, ConstParam, Definition, LifetimeParam, Meta, Token, Type, TypeParam,
};
use crate::derive::workflow_input::{
    find_attr, first_attr, state_args_match, state_attr_outcome, validate_input,
    validate_state_attr, validated_from, workflow_input_error, FieldRef, ValidatedWorkflowStruct,
};
use vstd::prelude::*;
use vstd::string::{StrSliceExecFns, StringExecFns};

verus! {

/// The source of the tokens in `lo..hi`, each followed by a space.
pub open spec fn tokens_source(ts: Seq<Token>, lo: int, hi: int) -> Seq<char>
    decreases hi - lo,
{
    if hi <= lo {
        Seq::empty()
    } else {
        tokens_source(ts, lo, hi - 1) + token_text(ts[hi - 1]) + " "@
    }
}

/// The range lies within `ts`.
pub open spec fn range_in(r: TokenRange, ts: Seq<Token>) -> bool {
    r.start <= r.end <= ts.len()
}

/// Appends the source of the tokens of `r`.
fn append_tokens(text: &mut String, ts: &Vec<Token>, r: TokenRange)
    requires
        range_in(r, ts@),
    ensures
        final(text)@ == old(text)@ + tokens_source(ts@, r.start as int, r.end as int),
{
    let ghost start = text@;
    proof {
        assert(start + tokens_source(ts@, r.start as int, r.start as int) =~= start);
    }
    let mut k = r.start;
    while k < r.end
        invariant
            r.start <= k <= r.end <= ts@.len(),
            text@ == start + tokens_source(ts@, r.start as int, k as int),
        decreases r.end - k,
    {
        match &ts[k] {
            Token::Ident(s) => text.append(s.as_str()),
            Token::Punct(c, _) => push_char(text, *c),
            Token::Literal(s) => text.append(s.as_str()),
            Token::Group(_, s) => text.append(s.as_str()),
        }
        text.append(" ");
        proof {
            assert(text@ =~= start + tokens_source(ts@, r.start as int, k + 1));
        }
        k = k + 1;
    }
}

/// The source of a field's type.
pub open spec fn type_text(t: Type) -> Seq<char> {
    match t {
        Type::Path { text, .. } => text@,
        Type::Other { text } => text@,
    }
}

fn type_str(t: &Type) -> (r: &String)
    ensures
        r@ == type_text(*t),
{
    match t {
        Type::Path { text, .. } => text,
        Type::Other { text } => text,
    }
}

/// How the fields other than the state field are written.
#[derive(Clone, Copy, PartialEq, Eq, Structural)]
pub enum RestForm {
    /// As constructor parameters: `name: Type, `.
    Param,
    /// As struct initialisers on a line of their own: `name,`.
    Init,
    /// As moved over from `self`: `name: self.name, `.
    Move,
}

/// One field other than the state field, written in `form`.
pub open spec fn rest_piece(f: FieldRef, form: RestForm) -> Seq<char> {
    match form {
        RestForm::Param => f.ident@ + ": "@ + type_text(*f.ty) + ", "@,
        RestForm::Init => "            "@ + f.ident@ + ",\n"@,
        RestForm::Move => f.ident@ + ": self."@ + f.ident@ + ", "@,
    }
}

/// The first `n` fields of `rest`, in order, each written in `form`.
pub open spec fn rest_source(rest: Seq<FieldRef>, n: int, form: RestForm) -> Seq<char>
    decreases n,
{
    if n <= 0 {
        Seq::empty()
    } else {
        rest_source(rest, n - 1, form) + rest_piece(rest[n - 1], form)
    }
}

/// Every field of `rest` written in `form`, one after the other in order.
pub open spec fn rest_pieces(rest: Seq<FieldRef>, form: RestForm) -> Seq<Seq<char>> {
    rest.map_values(|f: FieldRef| rest_piece(f, form))
}

/// The fields other than the state field are written each once, in
/// declaration order: the text of the first `n` is the concatenation of
/// each one's piece, the first field's piece first.
pub proof fn law_rest_in_declaration_order(rest: Seq<FieldRef>, n: int, form: RestForm)
    requires
        0 <= n <= rest.len(),
    ensures
        rest_source(rest, n, form) == rest_pieces(rest.take(n), form).flatten(),
    decreases n,
{
    if n > 0 {
        law_rest_in_declaration_order(rest, n - 1, form);
        assert(rest.take(n) =~= rest.take(n - 1).push(rest[n - 1]));
        assert(rest_pieces(rest.take(n), form) =~= rest_pieces(rest.take(n - 1), form).push(
            rest_piece(rest[n - 1], form),
        ));
        rest_pieces(rest.take(n - 1), form).lemma_flatten_push(rest_piece(rest[n - 1], form));
    } else {
        assert(rest_pieces(rest.take(0), form) =~= Seq::<Seq<char>>::empty());
    }
}

fn append_rest(text: &mut String, rest: &Vec<FieldRef>, form: RestForm)
    ensures
        final(text)@ == old(text)@ + rest_source(rest@, rest@.len() as int, form),
        final(text)@ == old(text)@ + rest_pieces(rest@, form).flatten(),
{
    let ghost start = text@;
    proof {
        assert(start + rest_source(rest@, 0, form) =~= start);
    }
    let mut k: usize = 0;
    while k < rest.len()
        invariant
            k <= rest@.len(),
            text@ == start + rest_source(rest@, k as int, form),
        decreases rest.len() - k,
    {
        let f = &rest[k];
        match form {
            RestForm::Param => {
                text.append(f.ident.as_str());
                text.append(": ");
                text.append(type_str(f.ty).as_str());
                text.append(", ");
            },
            RestForm::Init => {
                text.append("            ");
                text.append(f.ident.as_str());
                text.append(",\n");
            },
            RestForm::Move => {
                text.append(f.ident.as_str());
                text.append(": self.");
                text.append(f.ident.as_str());
                text.append(", ");
            },
        }
        proof {
            assert(text@ =~= start + rest_source(rest@, k + 1, form));
        }
        k = k + 1;
    }
    proof {
        law_rest_in_declaration_order(rest@, rest@.len() as int, form);
        assert(rest@.take(rest@.len() as int) =~= rest@);
    }
}

/// The workflow's generic arguments with `last` in place of the state
/// parameter: the lifetime first, where there is one.
pub open spec fn generics_ending(s: ValidatedWorkflowStruct, last: Seq<char>) -> Seq<char> {
    match s.generics.workflow_lifetime_param {
        Some(l) => l.lifetime@ + ", "@ + last,
        None => last,
    }
}

/// The workflow's generic arguments.
pub open spec fn workflow_generics(s: ValidatedWorkflowStruct) -> Seq<char> {
    generics_ending(s, s.generics.state_type_param.ident@)
}

/// The workflow's lifetime, or `'static` where it has none.
pub open spec fn workflow_lifetime(s: ValidatedWorkflowStruct) -> Seq<char> {
    match s.generics.workflow_lifetime_param {
        Some(l) => l.lifetime@,
        None => "'static"@,
    }
}

fn append_generics_ending(text: &mut String, s: &ValidatedWorkflowStruct, last: &str)
    ensures
        final(text)@ == old(text)@ + generics_ending(*s, last@),
{
    let ghost start = text@;
    match s.generics.workflow_lifetime_param {
        Some(l) => {
            text.append(l.lifetime.as_str());
            text.append(", ");
            text.append(last);
            proof {
                assert(text@ =~= start + generics_ending(*s, last@));
            }
        },
        None => {
            text.append(last);
        },
    }
}

fn append_workflow_generics(text: &mut String, s: &ValidatedWorkflowStruct)
    ensures
        final(text)@ == old(text)@ + workflow_generics(*s),
{
    append_generics_ending(text, s, s.generics.state_type_param.ident.as_str());
}

fn append_workflow_lifetime(text: &mut String, s: &ValidatedWorkflowStruct)
    ensures
        final(text)@ == old(text)@ + workflow_lifetime(*s),
{
    match s.generics.workflow_lifetime_param {
        Some(l) => text.append(l.lifetime.as_str()),
        None => text.append("'static"),
    }
}

/// The source of the workflow's constructor: `new` takes the state field,
/// then the other fields in declaration order.
pub open spec fn constructor_source(s: ValidatedWorkflowStruct) -> Seq<char> {
    "impl<"@ + workflow_generics(s) + "> "@ + s.ident@ + "<"@ + workflow_generics(s)
        + "> {\n    fn new("@ + s.fields.state.ident@ + ": "@ + s.generics.state_type_param.ident@
        + ", "@ + rest_source(s.fields.rest@, s.fields.rest@.len() as int, RestForm::Param)
        + ") -> Self {\n        Self {\n            "@ + s.fields.state.ident@ + ",\n"@
        + rest_source(s.fields.rest@, s.fields.rest@.len() as int, RestForm::Init)
        + "        }\n    }\n}\n"@
}

/// The workflow's constructor.
pub fn generate_constructor_impl(s: &ValidatedWorkflowStruct) -> (r: String)
    ensures
        r@ == constructor_source(*s),
{
    let mut t = String::from_str("impl<");
    append_workflow_generics(&mut t, s);
    t.append("> ");
    t.append(s.ident.as_str());
    t.append("<");
    append_workflow_generics(&mut t, s);
    t.append("> {\n    fn new(");
    t.append(s.fields.state.ident.as_str());
    t.append(": ");
    t.append(s.generics.state_type_param.ident.as_str());
    t.append(", ");
    append_rest(&mut t, &s.fields.rest, RestForm::Param);
    t.append(") -> Self {\n        Self {\n            ");
    t.append(s.fields.state.ident.as_str());
    t.append(",\n");
    append_rest(&mut t, &s.fields.rest, RestForm::Init);
    t.append("        }\n    }\n}\n");
    t
}

/// The source of the workflow's result type.
pub open spec fn result_source(s: ValidatedWorkflowStruct, ts: Seq<Token>) -> Seq<char> {
    tokens_source(ts, s.args.result_type.start as int, s.args.result_type.end as int)
}

/// The workflow-state trait that the workflow implements, with its
/// lifetime and result type: async or not.
pub open spec fn workflow_state_trait_source(s: ValidatedWorkflowStruct, ts: Seq<Token>) -> Seq<
    char,
> {
    (if s.args.is_async {
        "::flowstate::AsyncWorkflowState"@
    } else {
        "::flowstate::WorkflowState"@
    }) + "<"@ + workflow_lifetime(s) + ", "@ + result_source(s, ts) + ">"@
}

/// The transition type of a step, with its lifetime and result type.
pub open spec fn transition_type_source(s: ValidatedWorkflowStruct, ts: Seq<Token>) -> Seq<char> {
    (if s.args.is_async {
        "::flowstate::AsyncTransition"@
    } else {
        "::flowstate::Transition"@
    }) + "<"@ + workflow_lifetime(s) + ", "@ + result_source(s, ts) + ">"@
}

fn append_lifetime_and_result(text: &mut String, s: &ValidatedWorkflowStruct, ts: &Vec<Token>)
    requires
        range_in(s.args.result_type, ts@),
    ensures
        final(text)@ == old(text)@ + "<"@ + workflow_lifetime(*s) + ", "@ + result_source(*s, ts@)
            + ">"@,
{
    text.append("<");
    append_workflow_lifetime(text, s);
    text.append(", ");
    append_tokens(text, ts, s.args.result_type);
    text.append(">");
}

fn append_workflow_state_trait(text: &mut String, s: &ValidatedWorkflowStruct, ts: &Vec<Token>)
    requires
        range_in(s.args.result_type, ts@),
    ensures
        final(text)@ == old(text)@ + workflow_state_trait_source(*s, ts@),
{
    let ghost start = text@;
    if s.args.is_async {
        text.append("::flowstate::AsyncWorkflowState");
    } else {
        text.append("::flowstate::WorkflowState");
    }
    append_lifetime_and_result(text, s, ts);
    proof {
        assert(text@ =~= start + workflow_state_trait_source(*s, ts@));
    }
}

fn append_transition_type(text: &mut String, s: &ValidatedWorkflowStruct, ts: &Vec<Token>)
    requires
        range_in(s.args.result_type, ts@),
    ensures
        final(text)@ == old(text)@ + transition_type_source(*s, ts@),
{
    let ghost start = text@;
    if s.args.is_async {
        text.append("::flowstate::AsyncTransition");
    } else {
        text.append("::flowstate::Transition");
    }
    append_lifetime_and_result(text, s, ts);
    proof {
        assert(text@ =~= start + transition_type_source(*s, ts@));
    }
}

/// The bound that the workflow in its next state meets.
pub open spec fn next_state_bound_source(s: ValidatedWorkflowStruct, ts: Seq<Token>) -> Seq<char> {
    "    where\n        "@ + s.ident@ + "<"@ + generics_ending(s, "NextState"@) + ">: "@
        + workflow_state_trait_source(s, ts) + " + "@ + workflow_lifetime(s) + ",\n"@
}

fn append_next_state_bound(text: &mut String, s: &ValidatedWorkflowStruct, ts: &Vec<Token>)
    requires
        range_in(s.args.result_type, ts@),
    ensures
        final(text)@ == old(text)@ + next_state_bound_source(*s, ts@),
{
    let ghost start = text@;
    text.append("    where\n        ");
    text.append(s.ident.as_str());
    text.append("<");
    append_generics_ending(text, s, "NextState");
    text.append(">: ");
    append_workflow_state_trait(text, s, ts);
    text.append(" + ");
    append_workflow_lifetime(text, s);
    text.append(",\n");
    proof {
        assert(text@ =~= start + next_state_bound_source(*s, ts@));
    }
}

/// The source of the transition helpers: `transition` and
/// `transition_with` continue with the workflow in its next state, every
/// field but the state field moved over in order.
pub open spec fn transition_helpers_source(s: ValidatedWorkflowStruct, ts: Seq<Token>) -> Seq<
    char,
> {
    let moves = rest_source(s.fields.rest@, s.fields.rest@.len() as int, RestForm::Move);
    "impl<"@ + workflow_generics(s) + "> "@ + s.ident@ + "<"@ + workflow_generics(s)
        + "> {\n    fn transition<NextState>(self, next_state: NextState) -> "@
        + transition_type_source(s, ts) + "\n"@ + next_state_bound_source(s, ts)
        + "    {\n        ::std::ops::ControlFlow::Continue(Box::new("@ + s.ident@ + " { "@
        + s.fields.state.ident@ + ": next_state, "@ + moves
        + "}))\n    }\n\n    fn transition_with<NextState, Fn>(self, map_fn: Fn) -> "@
        + transition_type_source(s, ts) + "\n"@ + next_state_bound_source(s, ts)
        + "        Fn: FnOnce("@ + s.generics.state_type_param.ident@
        + ") -> NextState,\n    {\n        ::std::ops::ControlFlow::Continue(Box::new("@ + s.ident@
        + " { "@ + s.fields.state.ident@ + ": map_fn(self."@ + s.fields.state.ident@ + "), "@
        + moves + "}))\n    }\n}\n"@
}

/// The workflow's transition helpers.
pub fn generate_transition_helpers(s: &ValidatedWorkflowStruct, ts: &Vec<Token>) -> (r: String)
    requires
        range_in(s.args.result_type, ts@),
    ensures
        r@ == transition_helpers_source(*s, ts@),
{
    let mut t = String::from_str("impl<");
    append_workflow_generics(&mut t, s);
    t.append("> ");
    t.append(s.ident.as_str());
    t.append("<");
    append_workflow_generics(&mut t, s);
    t.append("> {\n    fn transition<NextState>(self, next_state: NextState) -> ");
    append_transition_type(&mut t, s, ts);
    t.append("\n");
    append_next_state_bound(&mut t, s, ts);
    t.append("    {\n        ::std::ops::ControlFlow::Continue(Box::new(");
    t.append(s.ident.as_str());
    t.append(" { ");
    t.append(s.fields.state.ident.as_str());
    t.append(": next_state, ");
    append_rest(&mut t, &s.fields.rest, RestForm::Move);
    t.append("}))\n    }\n\n    fn transition_with<NextState, Fn>(self, map_fn: Fn) -> ");
    append_transition_type(&mut t, s, ts);
    t.append("\n");
    append_next_state_bound(&mut t, s, ts);
    t.append("        Fn: FnOnce(");
    t.append(s.generics.state_type_param.ident.as_str());
    t.append(") -> NextState,\n    {\n        ::std::ops::ControlFlow::Continue(Box::new(");
    t.append(s.ident.as_str());
    t.append(" { ");
    t.append(s.fields.state.ident.as_str());
    t.append(": map_fn(self.");
    t.append(s.fields.state.ident.as_str());
    t.append("), ");
    append_rest(&mut t, &s.fields.rest, RestForm::Move);
    t.append("}))\n    }\n}\n");
    t
}

/// The source of the name a derived workflow reports: the `name`
/// argument's expression converted into a `String`, or else the struct's
/// identifier.
pub open spec fn workflow_name_source(s: ValidatedWorkflowStruct, ts: Seq<Token>) -> Seq<char> {
    match s.args.name_expr {
        Some(r) => tokens_source(ts, r.start as int, r.end as int) + ".into()"@,
        None => "\""@ + s.ident@ + "\".into()"@,
    }
}

/// The source of the workflow's `Workflow` impl: its name, and its state,
/// which is the state field.
pub open spec fn workflow_impl_source(s: ValidatedWorkflowStruct, ts: Seq<Token>) -> Seq<char> {
    "impl<"@ + workflow_generics(s) + "> ::flowstate::Workflow for "@ + s.ident@ + "<"@
        + workflow_generics(s) + ">\nwhere\n    "@ + s.generics.state_type_param.ident@
        + ": ::flowstate::State,\n{\n    fn workflow_name(&self) -> String {\n        "@
        + workflow_name_source(s, ts)
        + "\n    }\n\n    fn state(&self) -> &dyn ::flowstate::State {\n        &self."@
        + s.fields.state.ident@ + "\n    }\n}\n"@
}

/// The workflow's `Workflow` impl.
pub fn generate_workflow_impl(s: &ValidatedWorkflowStruct, ts: &Vec<Token>) -> (r: String)
    requires
        s.args.name_expr matches Some(r) ==> range_in(r, ts@),
    ensures
        r@ == workflow_impl_source(*s, ts@),
{
    let mut t = String::from_str("impl<");
    append_workflow_generics(&mut t, s);
    t.append("> ::flowstate::Workflow for ");
    t.append(s.ident.as_str());
    t.append("<");
    append_workflow_generics(&mut t, s);
    t.append(">\nwhere\n    ");
    t.append(s.generics.state_type_param.ident.as_str());
    t.append(": ::flowstate::State,\n{\n    fn workflow_name(&self) -> String {\n        ");
    let ghost before = t@;
    match s.args.name_expr {
        Some(r) => {
            append_tokens(&mut t, ts, r);
            t.append(".into()");
        },
        None => {
            t.append("\"");
            t.append(s.ident.as_str());
            t.append("\".into()");
        },
    }
    proof {
        assert(t@ =~= before + workflow_name_source(*s, ts@));
    }
    t.append("\n    }\n\n    fn state(&self) -> &dyn ::flowstate::State {\n        &self.");
    t.append(s.fields.state.ident.as_str());
    t.append("\n    }\n}\n");
    t
}

/// The state trait's generic arguments: the workflow's lifetime in angle
/// brackets, or nothing.
pub open spec fn state_trait_generics(s: ValidatedWorkflowStruct) -> Seq<char> {
    match s.generics.workflow_lifetime_param {
        Some(l) => "<"@ + l.lifetime@ + ">"@,
        None => Seq::empty(),
    }
}

fn append_state_trait_generics(text: &mut String, s: &ValidatedWorkflowStruct)
    ensures
        final(text)@ == old(text)@ + state_trait_generics(*s),
{
    let ghost start = text@;
    match s.generics.workflow_lifetime_param {
        Some(l) => {
            text.append("<");
            text.append(l.lifetime.as_str());
            text.append(">");
            proof {
                assert(text@ =~= start + state_trait_generics(*s));
            }
        },
        None => {
            assert(start + Seq::<char>::empty() =~= start);
        },
    }
}

/// Whichever of two texts the workflow's flavour picks: the first for an
/// async workflow.
pub open spec fn flavour(s: ValidatedWorkflowStruct, if_async: Seq<char>, if_not: Seq<char>) -> Seq<
    char,
> {
    if s.args.is_async {
        if_async
    } else {
        if_not
    }
}

fn append_flavour(text: &mut String, s: &ValidatedWorkflowStruct, if_async: &str, if_not: &str)
    ensures
        final(text)@ == old(text)@ + flavour(*s, if_async@, if_not@),
{
    if s.args.is_async {
        text.append(if_async);
    } else {
        text.append(if_not);
    }
}

/// The source of the state trait named by `state_trait`: a trait whose
/// `next` each state of the workflow implements, and the workflow-state
/// impl that forwards to it; async where the workflow is.
pub open spec fn state_trait_source(s: ValidatedWorkflowStruct, ts: Seq<Token>, ti: Seq<char>) -> Seq<
    char,
> {
    let attrs = flavour(s, "#[::flowstate::async_state]\n"@, Seq::empty());
    let am = flavour(s, "async "@, Seq::empty());
    "/// The workflow in one of its states, and the step it takes from there.\n"@ + attrs
        + "trait "@ + ti + state_trait_generics(s)
        + ": ::flowstate::Workflow {\n    fn state_name(&self) -> String {\n        self.state().name()\n    }\n\n    "@
        + am + "fn next(self: Box<Self>) -> "@ + transition_type_source(s, ts) + ";\n}\n\n"@
        + attrs + "impl<"@ + workflow_generics(s) + "> "@ + workflow_state_trait_source(s, ts)
        + " for "@ + s.ident@ + "<"@ + workflow_generics(s) + ">\nwhere\n    "@
        + s.generics.state_type_param.ident@ + ": "@ + flavour(
        s,
        "::flowstate::State + Send"@,
        "::flowstate::State"@,
    ) + ",\n    "@ + s.ident@ + "<"@ + workflow_generics(s) + ">: "@ + ti + state_trait_generics(s)
        + ",\n{\n    fn name(&self) -> String {\n        self.state_name()\n    }\n\n    "@ + am
        + "fn next(self: Box<Self>) -> "@ + transition_type_source(s, ts) + " {\n        "@ + ti
        + "::next(self)"@ + flavour(s, ".await"@, Seq::empty()) + "\n    }\n}\n"@
}

/// The name of the workflow's state trait: the `state_trait` argument, or
/// else the struct's identifier followed by `State`.
pub open spec fn state_trait_name(s: ValidatedWorkflowStruct, ts: Seq<Token>) -> Seq<char> {
    match s.args.state_trait_ident {
        Some(i) => token_text(ts[i as int]),
        None => s.ident@ + "State"@,
    }
}

/// `piece` occurs in `text`.
pub open spec fn occurs_in(piece: Seq<char>, text: Seq<char>) -> bool {
    exists|before: Seq<char>, after: Seq<char>| text == before + piece + after
}

proof fn lemma_occurs_at_end(x: Seq<char>, y: Seq<char>, p: Seq<char>)
    ensures
        occurs_in(x + y, p + x + y),
{
    assert(p + x + y =~= p + (x + y) + Seq::<char>::empty());
}

proof fn lemma_occurs_in_longer(piece: Seq<char>)
    ensures
        forall|t: Seq<char>, e: Seq<char>| occurs_in(piece, t) ==> #[trigger] occurs_in(piece, t + e),
{
    assert forall|t: Seq<char>, e: Seq<char>| occurs_in(piece, t) implies #[trigger] occurs_in(
        piece,
        t + e,
    ) by {
        let (a, b) = choose|a: Seq<char>, b: Seq<char>| t == a + piece + b;
        assert(t + e =~= a + piece + (b + e));
    }
}

/// The state trait is declared under the name it is given, and the
/// workflow-state impl forwards each step through that trait: the text
/// holds `trait <name>` and `<name>::next(self)`.
pub proof fn law_state_trait_declared_and_used(s: ValidatedWorkflowStruct, ts: Seq<Token>, name: Seq<
    char,
>)
    ensures
        occurs_in("trait "@ + name, state_trait_source(s, ts, name)),
        occurs_in(name + "::next(self)"@, state_trait_source(s, ts, name)),
{
    let attrs = flavour(s, "#[::flowstate::async_state]\n"@, Seq::empty());
    let doc = "/// The workflow in one of its states, and the step it takes from there.\n"@;
    lemma_occurs_at_end("trait "@, name, doc + attrs);
    lemma_occurs_in_longer("trait "@ + name);
    let am = flavour(s, "async "@, Seq::empty());
    let before_next = doc + attrs + "trait "@ + name + state_trait_generics(s)
        + ": ::flowstate::Workflow {\n    fn state_name(&self) -> String {\n        self.state().name()\n    }\n\n    "@
        + am + "fn next(self: Box<Self>) -> "@ + transition_type_source(s, ts) + ";\n}\n\n"@
        + attrs + "impl<"@ + workflow_generics(s) + "> "@ + workflow_state_trait_source(s, ts)
        + " for "@ + s.ident@ + "<"@ + workflow_generics(s) + ">\nwhere\n    "@
        + s.generics.state_type_param.ident@ + ": "@ + flavour(
        s,
        "::flowstate::State + Send"@,
        "::flowstate::State"@,
    ) + ",\n    "@ + s.ident@ + "<"@ + workflow_generics(s) + ">: "@ + name + state_trait_generics(s)
        + ",\n{\n    fn name(&self) -> String {\n        self.state_name()\n    }\n\n    "@ + am
        + "fn next(self: Box<Self>) -> "@ + transition_type_source(s, ts) + " {\n        "@;
    lemma_occurs_at_end(name, "::next(self)"@, before_next);
    lemma_occurs_in_longer(name + "::next(self)"@);
}

/// The state trait's name is the text of the `state_trait` argument where
/// there is one, and only otherwise the struct's identifier followed by
/// `State`.
pub proof fn law_state_trait_named_by_argument(s: ValidatedWorkflowStruct, ts: Seq<Token>)
    ensures
        s.args.state_trait_ident matches Some(i) ==> state_trait_name(s, ts) == token_text(
            ts[i as int],
        ),
        s.args.state_trait_ident is None ==> state_trait_name(s, ts) == s.ident@ + "State"@,
{
}

/// The workflow's state trait.
pub fn generate_state_trait(s: &ValidatedWorkflowStruct, ts: &Vec<Token>) -> (r: String)
    requires
        range_in(s.args.result_type, ts@),
        s.args.state_trait_ident matches Some(i) ==> i < ts@.len(),
    ensures
        r@ == state_trait_source(*s, ts@, state_trait_name(*s, ts@)),
        s.args.state_trait_ident matches Some(i) ==> r@ == state_trait_source(
            *s,
            ts@,
            token_text(ts@[i as int]),
        ),
        s.args.state_trait_ident is None ==> r@ == state_trait_source(
            *s,
            ts@,
            s.ident@ + "State"@,
        ),
{
    let mut name = String::new();
    match s.args.state_trait_ident {
        Some(i) => {
            match &ts[i] {
                Token::Ident(text) => name.append(text.as_str()),
                Token::Literal(text) => name.append(text.as_str()),
                Token::Group(_, text) => name.append(text.as_str()),
                Token::Punct(c, _) => push_char(&mut name, *c),
            }
        },
        None => {
            name.append(s.ident.as_str());
            name.append("State");
        },
    }
    proof {
        assert(name@ =~= state_trait_name(*s, ts@));
    }
    let t = String::from_str("/// The workflow in one of its states, and the step it takes from there.\n");
    state_trait_text(t, s, ts, name.as_str())
}

fn state_trait_text(t: String, s: &ValidatedWorkflowStruct, ts: &Vec<Token>, ti: &str) -> (r: String)
    requires
        range_in(s.args.result_type, ts@),
        t@ == "/// The workflow in one of its states, and the step it takes from there.\n"@,
    ensures
        r@ == state_trait_source(*s, ts@, ti@),
{
    let mut t = t;
    append_flavour(&mut t, s, "#[::flowstate::async_state]\n", "");
    t.append("trait ");
    t.append(ti);
    append_state_trait_generics(&mut t, s);
    t.append(": ::flowstate::Workflow {\n    fn state_name(&self) -> String {\n        self.state().name()\n    }\n\n    ");
    append_flavour(&mut t, s, "async ", "");
    t.append("fn next(self: Box<Self>) -> ");
    append_transition_type(&mut t, s, ts);
    t.append(";\n}\n\n");
    append_flavour(&mut t, s, "#[::flowstate::async_state]\n", "");
    t.append("impl<");
    append_workflow_generics(&mut t, s);
    t.append("> ");
    append_workflow_state_trait(&mut t, s, ts);
    t.append(" for ");
    t.append(s.ident.as_str());
    t.append("<");
    append_workflow_generics(&mut t, s);
    t.append(">\nwhere\n    ");
    t.append(s.generics.state_type_param.ident.as_str());
    t.append(": ");
    append_flavour(&mut t, s, "::flowstate::State + Send", "::flowstate::State");
    t.append(",\n    ");
    t.append(s.ident.as_str());
    t.append("<");
    append_workflow_generics(&mut t, s);
    t.append(">: ");
    t.append(ti);
    append_state_trait_generics(&mut t, s);
    t.append(",\n{\n    fn name(&self) -> String {\n        self.state_name()\n    }\n\n    ");
    append_flavour(&mut t, s, "async ", "");
    t.append("fn next(self: Box<Self>) -> ");
    append_transition_type(&mut t, s, ts);
    t.append(" {\n        ");
    t.append(ti);
    t.append("::next(self)");
    append_flavour(&mut t, s, ".await", "");
    t.append("\n    }\n}\n");
    proof {
        reveal_strlit("");
        assert(""@ =~= Seq::<char>::empty());
    }
    t
}

/// The first `n` lifetimes, each followed by `, `.
pub open spec fn lifetime_args(ls: Seq<LifetimeParam>, n: int) -> Seq<char>
    decreases n,
{
    if n <= 0 {
        Seq::empty()
    } else {
        lifetime_args(ls, n - 1) + ls[n - 1].lifetime@ + ", "@
    }
}

/// The first `n` const parameters' names, each followed by `, `.
pub open spec fn const_args(cs: Seq<ConstParam>, n: int) -> Seq<char>
    decreases n,
{
    if n <= 0 {
        Seq::empty()
    } else {
        const_args(cs, n - 1) + cs[n - 1].ident@ + ", "@
    }
}

/// The first `n` type parameters' names, each followed by `, `.
pub open spec fn type_args(tps: Seq<TypeParam>, n: int) -> Seq<char>
    decreases n,
{
    if n <= 0 {
        Seq::empty()
    } else {
        type_args(tps, n - 1) + tps[n - 1].ident@ + ", "@
    }
}

/// The generic arguments of a type with the generics `g`, in angle
/// brackets: lifetimes, then const parameters, then type parameters; or
/// nothing where it has no parameters.
pub open spec fn generic_args_bracketed(
    ls: Seq<LifetimeParam>,
    cs: Seq<ConstParam>,
    tps: Seq<TypeParam>,
) -> Seq<char> {
    if ls.len() + cs.len() + tps.len() == 0 {
        Seq::empty()
    } else {
        "<"@ + lifetime_args(ls, ls.len() as int) + const_args(cs, cs.len() as int) + type_args(
            tps,
            tps.len() as int,
        ) + ">"@
    }
}

fn append_generic_args(
    text: &mut String,
    ls: &Vec<LifetimeParam>,
    cs: &Vec<ConstParam>,
    tps: &Vec<TypeParam>,
)
    ensures
        final(text)@ == old(text)@ + generic_args_bracketed(ls@, cs@, tps@),
{
    let ghost start = text@;
    if ls.len() == 0 && cs.len() == 0 && tps.len() == 0 {
        assert(start + Seq::<char>::empty() =~= start);
        return ;
    }
    text.append("<");
    let ghost s1 = text@;
    proof {
        assert(s1 + lifetime_args(ls@, 0) =~= s1);
    }
    let mut k: usize = 0;
    while k < ls.len()
        invariant
            k <= ls@.len(),
            text@ == s1 + lifetime_args(ls@, k as int),
        decreases ls.len() - k,
    {
        text.append(ls[k].lifetime.as_str());
        text.append(", ");
        proof {
            assert(text@ =~= s1 + lifetime_args(ls@, k + 1));
        }
        k = k + 1;
    }
    let ghost s2 = text@;
    proof {
        assert(s2 + const_args(cs@, 0) =~= s2);
    }
    let mut k: usize = 0;
    while k < cs.len()
        invariant
            k <= cs@.len(),
            text@ == s2 + const_args(cs@, k as int),
        decreases cs.len() - k,
    {
        text.append(cs[k].ident.as_str());
        text.append(", ");
        proof {
            assert(text@ =~= s2 + const_args(cs@, k + 1));
        }
        k = k + 1;
    }
    let ghost s3 = text@;
    proof {
        assert(s3 + type_args(tps@, 0) =~= s3);
    }
    let mut k: usize = 0;
    while k < tps.len()
        invariant
            k <= tps@.len(),
            text@ == s3 + type_args(tps@, k as int),
        decreases tps.len() - k,
    {
        text.append(tps[k].ident.as_str());
        text.append(", ");
        proof {
            assert(text@ =~= s3 + type_args(tps@, k + 1));
        }
        k = k + 1;
    }
    text.append(">");
    proof {
        assert(text@ =~= start + generic_args_bracketed(ls@, cs@, tps@));
    }
}

/// The value ranges of the state's context assignments lie within `ts`.
pub open spec fn state_args_in(args: Option<StateArgs>, ts: Seq<Token>) -> bool {
    args matches Some(a) ==> ((a.name_expr matches Some(r) ==> range_in(r, ts)) && forall|k: int|
        0 <= k < a.ctx_key_value_pairs@.len() ==> range_in(
            #[trigger] a.ctx_key_value_pairs@[k].value,
            ts,
        ))
}

/// One context assignment: the value stored under the field's text.
pub open spec fn ctx_insert_source(f: FieldAssignment, ts: Seq<Token>) -> Seq<char> {
    "        ctx.insert(::flowstate::TypedKey::new(\""@ + f.field@ + "\"), "@ + tokens_source(
        ts,
        f.value.start as int,
        f.value.end as int,
    ) + ");\n"@
}

/// The first `n` context assignments, in order.
pub open spec fn ctx_inserts_source(fs: Seq<FieldAssignment>, n: int, ts: Seq<Token>) -> Seq<char>
    decreases n,
{
    if n <= 0 {
        Seq::empty()
    } else {
        ctx_inserts_source(fs, n - 1, ts) + ctx_insert_source(fs[n - 1], ts)
    }
}

/// The insert of each context assignment, in order.
pub open spec fn ctx_insert_pieces(fs: Seq<FieldAssignment>, ts: Seq<Token>) -> Seq<Seq<char>> {
    fs.map_values(|f: FieldAssignment| ctx_insert_source(f, ts))
}

/// Every context assignment is recorded, each once and in source order:
/// the text of the first `n` is the concatenation of each one's insert,
/// the first assignment's insert first.
pub proof fn law_every_ctx_assignment_recorded(fs: Seq<FieldAssignment>, n: int, ts: Seq<Token>)
    requires
        0 <= n <= fs.len(),
    ensures
        ctx_inserts_source(fs, n, ts) == ctx_insert_pieces(fs.take(n), ts).flatten(),
    decreases n,
{
    if n > 0 {
        law_every_ctx_assignment_recorded(fs, n - 1, ts);
        assert(fs.take(n) =~= fs.take(n - 1).push(fs[n - 1]));
        assert(ctx_insert_pieces(fs.take(n), ts) =~= ctx_insert_pieces(fs.take(n - 1), ts).push(
            ctx_insert_source(fs[n - 1], ts),
        ));
        ctx_insert_pieces(fs.take(n - 1), ts).lemma_flatten_push(ctx_insert_source(fs[n - 1], ts));
    } else {
        assert(ctx_insert_pieces(fs.take(0), ts) =~= Seq::<Seq<char>>::empty());
    }
}

fn append_ctx_inserts(text: &mut String, fs: &Vec<FieldAssignment>, ts: &Vec<Token>)
    requires
        forall|k: int| 0 <= k < fs@.len() ==> range_in(#[trigger] fs@[k].value, ts@),
    ensures
        final(text)@ == old(text)@ + ctx_inserts_source(fs@, fs@.len() as int, ts@),
        final(text)@ == old(text)@ + ctx_insert_pieces(fs@, ts@).flatten(),
{
    let ghost start = text@;
    proof {
        assert(start + ctx_inserts_source(fs@, 0, ts@) =~= start);
    }
    let mut k: usize = 0;
    while k < fs.len()
        invariant
            k <= fs@.len(),
            forall|m: int| 0 <= m < fs@.len() ==> range_in(#[trigger] fs@[m].value, ts@),
            text@ == start + ctx_inserts_source(fs@, k as int, ts@),
        decreases fs.len() - k,
    {
        let f = &fs[k];
        assert(range_in(fs@[k as int].value, ts@));
        text.append("        ctx.insert(::flowstate::TypedKey::new(\"");
        text.append(f.field.as_str());
        text.append("\"), ");
        append_tokens(text, ts, f.value);
        text.append(");\n");
        proof {
            assert(text@ =~= start + ctx_inserts_source(fs@, k + 1, ts@));
        }
        k = k + 1;
    }
    proof {
        law_every_ctx_assignment_recorded(fs@, fs@.len() as int, ts@);
        assert(fs@.take(fs@.len() as int) =~= fs@);
    }
}

/// The name a derived state reports: the `name` argument's expression
/// converted into a `String`, or else the type's path as written in its
/// module.
pub open spec fn state_name_source(input: Definition, args: Option<StateArgs>, ts: Seq<Token>) -> Seq<
    char,
> {
    match args {
        Some(a) if a.name_expr is Some => tokens_source(
            ts,
            a.name_expr->Some_0.start as int,
            a.name_expr->Some_0.end as int,
        ) + ".into()"@,
        _ => "concat!(module_path!(), \"::\", stringify!("@ + input.ident@ + generic_args_bracketed(
            input.generics.lifetimes@,
            input.generics.const_params@,
            input.generics.type_params@,
        ) + ")).to_string()"@,
    }
}

/// The context assignments of a derived state, in source order.
pub open spec fn state_ctx_source(args: Option<StateArgs>, ts: Seq<Token>) -> Seq<char> {
    match args {
        Some(a) => ctx_inserts_source(a.ctx_key_value_pairs@, a.ctx_key_value_pairs@.len() as int, ts),
        None => Seq::empty(),
    }
}

/// The source of a derived state's impl: its generics as declared, its
/// name, and its `record_context`, which inserts each `ctx` value under its
/// field's text.
pub open spec fn state_impl_source(
    input: Definition,
    args: Option<StateArgs>,
    ts: Seq<Token>,
    is_async: bool,
) -> Seq<char> {
    "impl"@ + input.generics.decl@ + " "@ + (if is_async {
        "::flowstate::AsyncState"@
    } else {
        "::flowstate::State"@
    }) + " for "@ + input.ident@ + generic_args_bracketed(
        input.generics.lifetimes@,
        input.generics.const_params@,
        input.generics.type_params@,
    ) + " "@ + input.generics.where_text@ + " {\n    fn name(&self) -> String {\n        "@
        + state_name_source(input, args, ts)
        + "\n    }\n\n    fn record_context(&self, ctx: &mut "@ + (if is_async {
        "::flowstate::AsyncContext"@
    } else {
        "::flowstate::Context"@
    }) + ") {\n"@ + state_ctx_source(args, ts) + "    }\n}\n"@
}

/// The impl of `State` (or `AsyncState`) that `#[derive(State)]` emits.
pub fn impl_state(input: &Definition, args: &Option<StateArgs>, ts: &Vec<Token>, is_async: bool) -> (r:
    String)
    requires
        state_args_in(*args, ts@),
    ensures
        r@ == state_impl_source(*input, *args, ts@, is_async),
{
    let mut t = String::from_str("impl");
    t.append(input.generics.decl.as_str());
    t.append(" ");
    if is_async {
        t.append("::flowstate::AsyncState");
    } else {
        t.append("::flowstate::State");
    }
    t.append(" for ");
    t.append(input.ident.as_str());
    append_generic_args(
        &mut t,
        &input.generics.lifetimes,
        &input.generics.const_params,
        &input.generics.type_params,
    );
    t.append(" ");
    t.append(input.generics.where_text.as_str());
    t.append(" {\n    fn name(&self) -> String {\n        ");
    let ghost before_name = t@;
    match args {
        Some(StateArgs { name_expr: Some(r), .. }) => {
            append_tokens(&mut t, ts, *r);
            t.append(".into()");
        },
        _ => {
            t.append("concat!(module_path!(), \"::\", stringify!(");
            t.append(input.ident.as_str());
            append_generic_args(
                &mut t,
                &input.generics.lifetimes,
                &input.generics.const_params,
                &input.generics.type_params,
            );
            t.append(")).to_string()");
        },
    }
    proof {
        assert(t@ =~= before_name + state_name_source(*input, *args, ts@));
    }
    t.append("\n    }\n\n    fn record_context(&self, ctx: &mut ");
    if is_async {
        t.append("::flowstate::AsyncContext");
    } else {
        t.append("::flowstate::Context");
    }
    t.append(") {\n");
    let ghost before_ctx = t@;
    match args {
        Some(a) => append_ctx_inserts(&mut t, &a.ctx_key_value_pairs, ts),
        None => {
            assert(before_ctx + Seq::<char>::empty() =~= before_ctx);
        },
    }
    t.append("    }\n}\n");
    proof {
        assert(t@ =~= state_impl_source(*input, *args, ts@, is_async));
    }
    t
}

/// All that `#[derive(Workflow)]` emits: the constructor, the transition
/// helpers, the `Workflow` impl and the state trait.
pub open spec fn workflow_impls_source(s: ValidatedWorkflowStruct, ts: Seq<Token>) -> Seq<char> {
    constructor_source(s) + transition_helpers_source(s, ts) + workflow_impl_source(s, ts)
        + state_trait_source(s, ts, state_trait_name(s, ts))
}

/// Everything that `#[derive(Workflow)]` emits for an accepted workflow.
pub fn generate_impls(s: &ValidatedWorkflowStruct, ts: &Vec<Token>) -> (r: String)
    requires
        range_in(s.args.result_type, ts@),
        s.args.name_expr matches Some(r) ==> range_in(r, ts@),
        s.args.state_trait_ident matches Some(i) ==> i < ts@.len(),
    ensures
        r@ == workflow_impls_source(*s, ts@),
{
    let mut t = generate_constructor_impl(s);
    let transition_helpers = generate_transition_helpers(s, ts);
    t.append(transition_helpers.as_str());
    let workflow_impl = generate_workflow_impl(s, ts);
    t.append(workflow_impl.as_str());
    let state_trait = generate_state_trait(s, ts);
    t.append(state_trait.as_str());
    t
}

/// The tokens of the first `#[flowstate(...)]` attribute among `attrs`, or
/// none.
pub open spec fn flowstate_tokens(attrs: Seq<Attr>) -> Seq<Token> {
    match first_attr(attrs, "flowstate"@) {
        Some(a) => match attrs[a].meta {
            Meta::List(ts) => ts@,
            _ => Seq::empty(),
        },
        None => Seq::empty(),
    }
}

/// What `#[derive(Workflow)]` emits for `input`, or why it refuses it.
pub fn derive_workflow_impl(input: &Definition) -> (r: Result<String, DeriveError>)
    ensures
        match workflow_input_error(*input) {
            Some(e) => r == Err::<String, DeriveError>(e),
            None => r matches Ok(t) && exists|v: ValidatedWorkflowStruct|
                #[trigger] validated_from(v, *input) && t@ == workflow_impls_source(
                    v,
                    flowstate_tokens(input.attrs@),
                ),
        },
{
    let s = match validate_input(input) {
        Ok(s) => s,
        Err(e) => return Err(e),
    };
    let a = match find_attr(&input.attrs, "flowstate") {
        Some(a) => a,
        None => return Err(DeriveError::MissingFlowstateAttributeOnWorkflow),
    };
    match &input.attrs[a].meta {
        Meta::List(ts) => {
            let _count = ts.len();
            proof {
                lemma_workflow_args_within(
                    ts@,
                    0,
                    WorkflowArgsView {
                        result_type: None,
                        state_trait_ident: None,
                        name_expr: None,
                        is_async: None,
                        ctx_key_value_pairs: Seq::empty(),
                    },
                );
            }
            let t = generate_impls(&s, ts);
            assert(validated_from(s, *input));
            Ok(t)
        },
        _ => Err(DeriveError::ExpectedFlowstateAttributeList),
    }
}

/// What `#[derive(State)]`, or with `is_async` `#[derive(AsyncState)]`,
/// emits for `input`, or why it refuses it.
pub fn derive_state_impl(input: &Definition, is_async: bool) -> (r: Result<String, DeriveError>)
    ensures
        match state_attr_outcome(input.attrs@) {
            Err(e) => r == Err::<String, DeriveError>(e),
            Ok(o) => r matches Ok(t) && exists|args: Option<StateArgs>|
                #[trigger] state_args_match(args, o) && t@ == state_impl_source(
                    *input,
                    args,
                    flowstate_tokens(input.attrs@),
                    is_async,
                ),
        },
{
    let args = match validate_state_attr(input) {
        Ok(args) => args,
        Err(e) => return Err(e),
    };
    let empty: Vec<Token> = Vec::new();
    let ts = match find_attr(&input.attrs, "flowstate") {
        Some(a) => match &input.attrs[a].meta {
            Meta::List(ts) => ts,
            _ => &empty,
        },
        None => &empty,
    };
    let _count = ts.len();
    proof {
        lemma_state_args_within(
            ts@,
            0,
            StateArgsView { name_expr: None, ctx_key_value_pairs: Seq::empty() },
        );
        if args is Some {
            let a = args->Some_0;
            let v = state_attr_outcome(input.attrs@)->Ok_0->Some_0;
            assert(v == state_args_outcome(ts@)->Ok_0);
            assert forall|k: int| 0 <= k < a.ctx_key_value_pairs@.len() implies range_in(
                #[trigger] a.ctx_key_value_pairs@[k].value,
                ts@,
            ) by {
                assert(v.ctx_key_value_pairs[k] == a.ctx_key_value_pairs@[k]@);
            }
        }
    }
    let t = impl_state(input, &args, ts, is_async);
    assert(state_args_match(args, state_attr_outcome(input.attrs@)->Ok_0));
    Ok(t)
}

} // verus!
