use flowstate::derive::args::{parse_state_args, parse_workflow_args, TokenRange};
use flowstate::derive::error::{ArgName, DeriveError};
use flowstate::derive::model::{
    Attr, ConstParam, Data, Definition, Delimiter, FieldDef, Fields, Generics, LifetimeParam,
    Meta, Token, Type, TypeParam,
};
use flowstate::derive::generate::{
    generate_constructor_impl, generate_impls, generate_state_trait, generate_transition_helpers,
    generate_workflow_impl, impl_state, derive_state_impl, derive_workflow_impl,
};
use flowstate::derive::syntax::{derive_state, derive_workflow};
use flowstate::derive::workflow_input::{validate_input, validate_state_attr};

fn ident(s: &str) -> Token {
    Token::Ident(s.to_string())
}

fn punct(c: char) -> Token {
    Token::Punct(c, false)
}

fn joint(c: char) -> Token {
    Token::Punct(c, true)
}

fn lit(s: &str) -> Token {
    Token::Literal(s.to_string())
}

// `result = WorkflowResult, state_trait = BasicWorkflowState,
//  ctx.a.b.c.0 = "first (workflow)", ctx.a.b.c.1 = "second (workflow)",`
fn middleware_context_args() -> Vec<Token> {
    vec![
        ident("result"), punct('='), ident("WorkflowResult"), punct(','),
        ident("state_trait"), punct('='), ident("BasicWorkflowState"), punct(','),
        ident("ctx"), punct('.'), ident("a"), punct('.'), ident("b"), punct('.'), ident("c"),
        punct('.'), lit("0"), punct('='), lit("\"first (workflow)\""), punct(','),
        ident("ctx"), punct('.'), ident("a"), punct('.'), ident("b"), punct('.'), ident("c"),
        punct('.'), lit("1"), punct('='), lit("\"second (workflow)\""), punct(','),
    ]
}

#[test]
fn workflow_args_with_context_fields() {
    let ts = middleware_context_args();
    let args = parse_workflow_args(&ts).unwrap();
    assert_eq!(args.result_type, TokenRange { start: 2, end: 3 });
    assert_eq!(args.state_trait_ident, Some(6));
    assert_eq!(args.name_expr, None);
    assert_eq!(args.ctx_key_value_pairs.len(), 2);
    assert_eq!(args.ctx_key_value_pairs[0].field, "a.b.c.0");
    assert_eq!(args.ctx_key_value_pairs[0].value, TokenRange { start: 18, end: 19 });
    assert_eq!(args.ctx_key_value_pairs[1].field, "a.b.c.1");
}

#[test]
fn workflow_args_result_path_with_generics_and_name() {
    // result = std::result::Result<Vec<u8>, String>, name = "BasicWorkflow"
    let ts = vec![
        ident("result"), punct('='), ident("std"), joint(':'), punct(':'), ident("result"),
        joint(':'), punct(':'), ident("Result"), punct('<'), ident("Vec"), punct('<'), ident("u8"),
        joint('>'), punct(','), ident("String"), punct('>'), punct(','), ident("name"), punct('='),
        lit("\"BasicWorkflow\""),
    ];
    let args = parse_workflow_args(&ts).unwrap();
    assert_eq!(args.result_type, TokenRange { start: 2, end: 17 });
    assert_eq!(args.name_expr, Some(TokenRange { start: 20, end: 21 }));
}

#[test]
fn workflow_args_errors() {
    assert_eq!(
        parse_workflow_args(&vec![]).unwrap_err(),
        DeriveError::MissingAttributeArgument { name: ArgName::Result }
    );
    assert_eq!(
        parse_workflow_args(&vec![ident("is_async"), punct('='), ident("true")]).unwrap_err(),
        DeriveError::MissingAttributeArgument { name: ArgName::Result }
    );
    assert_eq!(
        parse_workflow_args(&vec![ident("is_async"), punct('='), lit("1")]).unwrap_err(),
        DeriveError::ExpectedBool { at: 2 }
    );
    assert_eq!(
        parse_workflow_args(&vec![
            ident("is_async"), punct('='), ident("true"), punct(','),
            ident("is_async"), punct('='), ident("false"),
        ])
        .unwrap_err(),
        DeriveError::DuplicateAttributeArgument { name: ArgName::IsAsync }
    );
    assert_eq!(
        parse_workflow_args(&vec![
            ident("result"), punct('='), ident("A"), punct(','),
            ident("result"), punct('='), ident("B"),
        ])
        .unwrap_err(),
        DeriveError::DuplicateAttributeArgument { name: ArgName::Result }
    );
    assert_eq!(
        parse_workflow_args(&vec![ident("colour"), punct('='), ident("blue")]).unwrap_err(),
        DeriveError::UnknownAttributeArgument { name: "colour".to_string() }
    );
    assert_eq!(
        parse_workflow_args(&vec![ident("result"), ident("A")]).unwrap_err(),
        DeriveError::ExpectedPunct { at: 1, punct: '=' }
    );
    assert_eq!(
        parse_workflow_args(&vec![ident("result"), punct('='), lit("1")]).unwrap_err(),
        DeriveError::ExpectedPath { at: 2 }
    );
    assert_eq!(
        parse_workflow_args(&vec![ident("result"), punct('='), ident("A"), ident("B")]).unwrap_err(),
        DeriveError::ExpectedPunct { at: 3, punct: ',' }
    );
    assert_eq!(
        parse_workflow_args(&vec![lit("1")]).unwrap_err(),
        DeriveError::ExpectedIdent { at: 0 }
    );
    assert_eq!(
        parse_workflow_args(&vec![ident("result"), punct('='), ident("A"), punct(','), ident("name"), punct('=')])
            .unwrap_err(),
        DeriveError::ExpectedExpression { at: 6 }
    );
    assert_eq!(
        parse_workflow_args(&vec![ident("result"), punct('='), ident("A"), punct(','), ident("ctx"), punct('.'), lit("1")])
            .unwrap_err(),
        DeriveError::ExpectedField { at: 6 }
    );
    assert_eq!(
        parse_workflow_args(&vec![
            ident("result"), punct('='), ident("A"), punct(','),
            ident("ctx"), punct('.'), ident("span"), joint('='), punct('='), ident("x"),
        ])
        .unwrap_err(),
        DeriveError::ExpectedPunct { at: 7, punct: '=' }
    );
}

#[test]
fn state_args_name_and_context() {
    // name = self.name(), ctx.c.b.a.0 = "first (state)"
    let ts = vec![
        ident("name"), punct('='), ident("self"), punct('.'), ident("name"),
        Token::Group(Delimiter::Parenthesis, "()".to_string()), punct(','),
        ident("ctx"), punct('.'), ident("c"), punct('.'), ident("b"), punct('.'), ident("a"),
        punct('.'), lit("0"), punct('='), lit("\"first (state)\""),
    ];
    let args = parse_state_args(&ts).unwrap();
    assert_eq!(args.name_expr, Some(TokenRange { start: 2, end: 6 }));
    assert_eq!(args.ctx_key_value_pairs.len(), 1);
    assert_eq!(args.ctx_key_value_pairs[0].field, "c.b.a.0");
    assert_eq!(args.ctx_key_value_pairs[0].value, TokenRange { start: 17, end: 18 });

    assert_eq!(
        parse_state_args(&vec![
            ident("name"), punct('='), lit("\"a\""), punct(','), ident("name"), punct('='), lit("\"b\""),
        ])
        .unwrap_err(),
        DeriveError::DuplicateAttributeArgument { name: ArgName::Name }
    );
    assert_eq!(
        parse_state_args(&vec![ident("result"), punct('='), ident("A")]).unwrap_err(),
        DeriveError::UnknownAttributeArgument { name: "result".to_string() }
    );
    assert!(parse_state_args(&vec![]).unwrap().ctx_key_value_pairs.is_empty());
}

fn state_field(attrs: Vec<Attr>, ty: &str) -> FieldDef {
    FieldDef {
        ident: Some("_state".to_string()),
        ty: Type::Path { ident: Some(ty.to_string()), text: ty.to_string() },
        attrs,
    }
}

fn state_attr() -> Attr {
    Attr { path: "state".to_string(), meta: Meta::Path }
}

fn flowstate_attr(tokens: Vec<Token>) -> Attr {
    Attr { path: "flowstate".to_string(), meta: Meta::List(tokens) }
}

fn basic_workflow(fields: Vec<FieldDef>) -> Definition {
    Definition {
        ident: "BasicWorkflow".to_string(),
        attrs: vec![flowstate_attr(vec![ident("result"), punct('='), ident("WorkflowResult")])],
        generics: Generics {
            lifetimes: vec![],
            type_params: vec![TypeParam { ident: "State".to_string(), has_bounds: false }],
            const_params: vec![],
            has_where_clause: false,
            decl: "<State>".to_string(),
            where_text: String::new(),
        },
        data: Data::Struct(Fields::Named(fields)),
    }
}

#[test]
fn workflow_input_accepted() {
    let drive = FieldDef {
        ident: Some("drive".to_string()),
        ty: Type::Path { ident: Some("DiskDrive".to_string()), text: "DiskDrive".to_string() },
        attrs: vec![],
    };
    let input = basic_workflow(vec![state_field(vec![state_attr()], "State"), drive]);
    let v = validate_input(&input).unwrap();
    assert_eq!(v.ident, "BasicWorkflow");
    assert_eq!(v.fields.state.ident, "_state");
    assert_eq!(v.fields.rest.len(), 1);
    assert_eq!(v.fields.rest[0].ident, "drive");
    assert!(v.generics.workflow_lifetime_param.is_none());
    assert_eq!(v.generics.state_type_param.ident, "State");
}

#[test]
fn workflow_input_field_errors() {
    let input = basic_workflow(vec![state_field(vec![], "State")]);
    assert_eq!(validate_input(&input).err(), Some(DeriveError::MissingStateAttribute));

    let input = basic_workflow(vec![
        state_field(vec![state_attr()], "State"),
        state_field(vec![state_attr()], "State"),
    ]);
    assert_eq!(validate_input(&input).err(), Some(DeriveError::DuplicateStateAttribute { field: 1 }));

    let input = basic_workflow(vec![state_field(vec![state_attr()], "String")]);
    assert_eq!(
        validate_input(&input).err(),
        Some(DeriveError::InvalidStateFieldType {
            field: 0,
            state_field_ident: "_state".to_string(),
            state_param: "State".to_string(),
        })
    );

    let with_args = Attr { path: "state".to_string(), meta: Meta::List(vec![ident("x")]) };
    let input = basic_workflow(vec![state_field(vec![with_args], "State")]);
    assert_eq!(
        validate_input(&input).err(),
        Some(DeriveError::UnexpectedArgumentsForStateAttribute { field: 0 })
    );

    let mut input = basic_workflow(vec![]);
    input.data = Data::Struct(Fields::Unnamed);
    assert_eq!(validate_input(&input).err(), Some(DeriveError::UnsupportedTupleStruct));
    input.data = Data::Enum;
    assert_eq!(validate_input(&input).err(), Some(DeriveError::UnsupportedEnumOrUnion));
    input.data = Data::Struct(Fields::Unit);
    assert_eq!(validate_input(&input).err(), Some(DeriveError::UnsupportedUnitStruct));
}

#[test]
fn workflow_input_generics_errors() {
    let mut input = basic_workflow(vec![state_field(vec![state_attr()], "State")]);
    input.generics.lifetimes = vec![
        LifetimeParam { lifetime: "'a".to_string(), has_bounds: false },
        LifetimeParam { lifetime: "'b".to_string(), has_bounds: false },
    ];
    assert_eq!(
        validate_input(&input).err(),
        Some(DeriveError::ExtraGenericLifetimeParameter { lifetime: "'b".to_string() })
    );
    input.generics.lifetimes = vec![LifetimeParam { lifetime: "'a".to_string(), has_bounds: false }];
    assert!(validate_input(&input).unwrap().generics.workflow_lifetime_param.is_some());

    input.generics.const_params = vec![ConstParam { ident: "N".to_string() }];
    assert_eq!(
        validate_input(&input).err(),
        Some(DeriveError::UnsupportedGenericConstParameter { ident: "N".to_string() })
    );
    input.generics.const_params = vec![];

    input.generics.type_params.push(TypeParam { ident: "T".to_string(), has_bounds: false });
    assert_eq!(
        validate_input(&input).err(),
        Some(DeriveError::UnsupportedAdditionalGenericTypeParameters { ident: "T".to_string() })
    );
    input.generics.type_params = vec![];
    assert_eq!(validate_input(&input).err(), Some(DeriveError::MissingGenericTypeParameterForState));
    input.generics.type_params = vec![TypeParam { ident: "State".to_string(), has_bounds: true }];
    assert_eq!(
        validate_input(&input).err(),
        Some(DeriveError::UnsupportedBoundsOnGenericTypeParameterForState { ident: "State".to_string() })
    );
    input.generics.type_params = vec![TypeParam { ident: "State".to_string(), has_bounds: false }];
    input.generics.has_where_clause = true;
    assert_eq!(validate_input(&input).err(), Some(DeriveError::UnsupportedGenericWhereClause));

    input.attrs = vec![];
    assert_eq!(validate_input(&input).err(), Some(DeriveError::MissingFlowstateAttributeOnWorkflow));
}

#[test]
fn state_attribute_is_optional() {
    let mut input = basic_workflow(vec![]);
    input.attrs = vec![];
    assert!(validate_state_attr(&input).unwrap().is_none());
    input.attrs = vec![Attr { path: "flowstate".to_string(), meta: Meta::NameValue }];
    assert_eq!(validate_state_attr(&input).err(), Some(DeriveError::ExpectedFlowstateAttributeList));
    input.attrs = vec![flowstate_attr(vec![ident("name"), punct('='), lit("\"This is state B!\"")])];
    let args = validate_state_attr(&input).unwrap().unwrap();
    assert_eq!(args.name_expr, Some(TokenRange { start: 2, end: 3 }));
}

#[test]
fn workflow_args_accept_is_async() {
    // is_async = true, result = WorkflowResult, state_trait = BasicWorkflowState
    let ts = vec![
        ident("is_async"), punct('='), ident("true"), punct(','),
        ident("result"), punct('='), ident("WorkflowResult"), punct(','),
        ident("state_trait"), punct('='), ident("BasicWorkflowState"),
    ];
    let args = parse_workflow_args(&ts).unwrap();
    assert!(args.is_async);
    assert_eq!(args.result_type, TokenRange { start: 6, end: 7 });
    assert_eq!(args.state_trait_ident, Some(10));
    let plain = parse_workflow_args(&vec![ident("result"), punct('='), ident("R")]).unwrap();
    assert!(!plain.is_async);
}

#[test]
fn workflow_args_paths_and_turbofish() {
    // result = ::a::B<fn() -> C>, name = f::<A, B>(), ctx.x = 1
    let ts = vec![
        ident("result"), punct('='), joint(':'), punct(':'), ident("a"), joint(':'), punct(':'),
        ident("B"), punct('<'), ident("fn"), Token::Group(Delimiter::Parenthesis, "()".to_string()),
        joint('-'), punct('>'), ident("C"), punct('>'), punct(','),
        ident("name"), punct('='), ident("f"), joint(':'), joint(':'), punct('<'), ident("A"),
        punct(','), ident("B"), punct('>'), Token::Group(Delimiter::Parenthesis, "()".to_string()),
        punct(','), ident("ctx"), punct('.'), ident("x"), punct('='), lit("1"),
    ];
    let args = parse_workflow_args(&ts).unwrap();
    assert_eq!(args.result_type, TokenRange { start: 2, end: 15 });
    assert_eq!(args.name_expr, Some(TokenRange { start: 18, end: 27 }));
    assert_eq!(args.ctx_key_value_pairs.len(), 1);
    assert_eq!(args.ctx_key_value_pairs[0].field, "x");
}

#[test]
fn generated_constructor_and_helpers() {
    let drive = FieldDef {
        ident: Some("drive".to_string()),
        ty: Type::Path { ident: Some("DiskDrive".to_string()), text: "DiskDrive".to_string() },
        attrs: vec![],
    };
    let input = basic_workflow(vec![state_field(vec![state_attr()], "State"), drive]);
    let ts = vec![ident("result"), punct('='), ident("WorkflowResult")];
    let v = validate_input(&input).unwrap();
    assert_eq!(
        generate_constructor_impl(&v),
        "impl<State> BasicWorkflow<State> {\n    fn new(_state: State, drive: DiskDrive, ) -> Self {\n        Self {\n            _state,\n            drive,\n        }\n    }\n}\n"
    );
    let helpers = generate_transition_helpers(&v, &ts);
    assert!(helpers.contains(
        "fn transition<NextState>(self, next_state: NextState) -> ::flowstate::Transition<'static, WorkflowResult >"
    ));
    assert!(helpers.contains("BasicWorkflow { _state: next_state, drive: self.drive, }"));
    assert!(helpers.contains("BasicWorkflow { _state: map_fn(self._state), drive: self.drive, }"));
    assert_eq!(
        generate_workflow_impl(&v, &ts),
        "impl<State> ::flowstate::Workflow for BasicWorkflow<State>\nwhere\n    State: ::flowstate::State,\n{\n    fn workflow_name(&self) -> String {\n        \"BasicWorkflow\".into()\n    }\n\n    fn state(&self) -> &dyn ::flowstate::State {\n        &self._state\n    }\n}\n"
    );
    let state_trait = generate_state_trait(&v, &ts);
    assert!(state_trait.contains("trait BasicWorkflowState: ::flowstate::Workflow {"));
    assert!(state_trait.contains(
        "impl<State> ::flowstate::WorkflowState<'static, WorkflowResult > for BasicWorkflow<State>"
    ));
}

fn async_args() -> Vec<Token> {
    vec![
        ident("is_async"), punct('='), ident("true"), punct(','),
        ident("result"), punct('='), ident("WorkflowResult"), punct(','),
        ident("state_trait"), punct('='), ident("BasicWorkflowState"),
    ]
}

#[test]
fn generated_async_state_trait() {
    let ts = async_args();
    let mut input = basic_workflow(vec![state_field(vec![state_attr()], "State")]);
    input.attrs = vec![flowstate_attr(async_args())];
    let v = validate_input(&input).unwrap();
    let text = generate_state_trait(&v, &ts);
    assert!(text.contains("#[::flowstate::async_state]\ntrait BasicWorkflowState: ::flowstate::Workflow {"));
    assert!(text.contains("async fn next(self: Box<Self>) -> ::flowstate::AsyncTransition<'static, WorkflowResult >;"));
    assert!(text.contains("impl<State> ::flowstate::AsyncWorkflowState<'static, WorkflowResult > for BasicWorkflow<State>"));
    assert!(text.contains("State: ::flowstate::State + Send,"));
    assert!(text.contains("BasicWorkflowState::next(self).await"));
    let all = generate_impls(&v, &ts);
    assert!(all.starts_with("impl<State> BasicWorkflow<State> {\n    fn new("));
    assert!(all.ends_with(&text));
}

// #[flowstate(name = "This is state B!", ctx.c.b.a.0 = "first (state)")]
fn state_b_args() -> Vec<Token> {
    vec![
        ident("name"), punct('='), lit("\"This is state B!\""), punct(','),
        ident("ctx"), punct('.'), ident("c"), punct('.'), ident("b"), punct('.'), ident("a"),
        punct('.'), lit("0"), punct('='), lit("\"first (state)\""),
    ]
}

#[test]
fn generated_state_impl() {
    let ts = state_b_args();
    let input = Definition {
        ident: "StateB".to_string(),
        attrs: vec![flowstate_attr(state_b_args())],
        generics: Generics {
            lifetimes: vec![LifetimeParam { lifetime: "'a".to_string(), has_bounds: false }],
            type_params: vec![TypeParam { ident: "T".to_string(), has_bounds: true }],
            const_params: vec![ConstParam { ident: "N".to_string() }],
            has_where_clause: false,
            decl: "<'a, const N: usize, T: AsRef<str>>".to_string(),
            where_text: String::new(),
        },
        data: Data::Struct(Fields::Unit),
    };
    let args = validate_state_attr(&input).unwrap();
    assert_eq!(
        impl_state(&input, &args, &ts, false),
        "impl<'a, const N: usize, T: AsRef<str>> ::flowstate::State for StateB<'a, N, T, >  {\n    fn name(&self) -> String {\n        \"This is state B!\" .into()\n    }\n\n    fn record_context(&self, ctx: &mut ::flowstate::Context) {\n        ctx.insert(::flowstate::TypedKey::new(\"c.b.a.0\"), \"first (state)\" );\n    }\n}\n"
    );
    let plain = Definition { attrs: vec![], ..input };
    let text = impl_state(&plain, &None, &vec![], true);
    assert!(text.starts_with("impl<'a, const N: usize, T: AsRef<str>> ::flowstate::AsyncState for StateB<'a, N, T, > "));
    assert!(text.contains("concat!(module_path!(), \"::\", stringify!(StateB<'a, N, T, >)).to_string()"));
    assert!(text.contains("ctx: &mut ::flowstate::AsyncContext) {\n    }\n"));
}

#[test]
fn derive_workflow_emits_or_refuses() {
    let input = basic_workflow(vec![state_field(vec![state_attr()], "State")]);
    let text = derive_workflow_impl(&input).unwrap();
    assert!(text.starts_with("impl<State> BasicWorkflow<State> {\n    fn new(_state: State, ) -> Self {"));
    assert!(text.contains("::flowstate::Transition<'static, WorkflowResult >"));
    let unit = Definition { data: Data::Struct(Fields::Unit), ..basic_workflow(vec![]) };
    assert_eq!(derive_workflow_impl(&unit), Err(DeriveError::UnsupportedUnitStruct));
}

#[test]
fn derive_state_emits_or_refuses() {
    let mut input = basic_workflow(vec![]);
    input.ident = "StateA".to_string();
    input.attrs = vec![];
    let text = derive_state_impl(&input, false).unwrap();
    assert!(text.starts_with("impl<State> ::flowstate::State for StateA<State, > "));
    input.attrs = vec![flowstate_attr(vec![ident("colour"), punct('='), ident("blue")])];
    assert_eq!(
        derive_state_impl(&input, false),
        Err(DeriveError::UnknownAttributeArgument { name: "colour".to_string() })
    );
}

#[test]
fn generated_workflow_name_from_argument() {
    // result = R, name = "Flow"
    let ts = vec![ident("result"), punct('='), ident("R"), punct(','), ident("name"), punct('='), lit("\"Flow\"")];
    let mut input = basic_workflow(vec![state_field(vec![state_attr()], "State")]);
    input.attrs = vec![flowstate_attr(vec![
        ident("result"), punct('='), ident("R"), punct(','), ident("name"), punct('='), lit("\"Flow\""),
    ])];
    let v = validate_input(&input).unwrap();
    let text = generate_workflow_impl(&v, &ts);
    assert!(text.contains("fn workflow_name(&self) -> String {\n        \"Flow\" .into()\n    }"));
}

#[test]
fn closure_parameters_stay_in_the_expression() {
    // ctx.f = |a, b| a + b, result = R
    let ts = vec![
        ident("ctx"), punct('.'), ident("f"), punct('='), punct('|'), ident("a"), punct(','),
        ident("b"), punct('|'), ident("a"), punct('+'), ident("b"), punct(','),
        ident("result"), punct('='), ident("R"),
    ];
    let args = parse_workflow_args(&ts).unwrap();
    assert_eq!(args.ctx_key_value_pairs[0].value, TokenRange { start: 4, end: 12 });
    assert_eq!(args.result_type, TokenRange { start: 15, end: 16 });
}

#[test]
fn derive_workflow_from_source() {
    let text = derive_workflow(
        "#[flowstate(result = WorkflowResult, name = \"BasicWorkflow\")] \
         struct BasicWorkflow<'a, State> { #[state] _state: State, data: &'a str }",
    )
    .unwrap();
    assert!(text.starts_with(
        "impl<'a, State> BasicWorkflow<'a, State> {\n    fn new(_state: State, data: & 'a str, ) -> Self {"
    ));
    assert!(text.contains("fn workflow_name(&self) -> String {\n        \"BasicWorkflow\" .into()\n    }"));
    assert!(text.contains("trait BasicWorkflowState<'a>: ::flowstate::Workflow {"));
    assert_eq!(derive_workflow("not an item"), Err(DeriveError::UnparsableItem));
    assert_eq!(
        derive_workflow("#[flowstate(result = R)] struct W<S>(S);"),
        Err(DeriveError::UnsupportedTupleStruct)
    );
}

#[test]
fn derive_state_from_source() {
    let text = derive_state("#[flowstate(name = \"A\", ctx.x = 1)] struct StateA;", false).unwrap();
    assert_eq!(
        text,
        "impl ::flowstate::State for StateA  {\n    fn name(&self) -> String {\n        \"A\" .into()\n    }\n\n    fn record_context(&self, ctx: &mut ::flowstate::Context) {\n        ctx.insert(::flowstate::TypedKey::new(\"x\"), 1 );\n    }\n}\n"
    );
    assert_eq!(derive_state("fn f() {}", false), Err(DeriveError::UnparsableItem));
}
