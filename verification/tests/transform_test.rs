use decorator_rewriter::{
    is_constructor_decorate, is_simple_arrow, is_ts_decorate_call, is_ts_metadata_call,
    is_typeof_guard_conditional, is_typeof_undefined_check, rewrite_decorator_array, rewrite_expr,
    simplify_design_type_typeof_guards, simplify_metadata_typeof_guards, strip_metadata_calls,
    unwrap_decorator_arrow_args, unwrap_type_arrow_props, ArrowBody, BinOp, Config, Expr,
    OverrideRule, PluginConfig, Prop, PropKey, UnaryOp,
};

fn ident(name: &str) -> Expr {
    Expr::Ident(name.to_string())
}

fn strlit(value: &str) -> Expr {
    Expr::StrLit(value.to_string())
}

fn call(callee: Expr, args: Vec<Expr>) -> Expr {
    Expr::Call(Box::new(callee), args)
}

fn arrow(body: Expr) -> Expr {
    Expr::Arrow(0, ArrowBody::ExprBody(Box::new(body)))
}

fn typeof_check(name: &str) -> Expr {
    Expr::Bin(
        BinOp::StrictEq,
        Box::new(Expr::Unary(UnaryOp::TypeOf, Box::new(ident(name)))),
        Box::new(strlit("undefined")),
    )
}

fn typeof_guard(name: &str, alt: Expr) -> Expr {
    Expr::Cond(
        Box::new(typeof_check(name)),
        Box::new(ident("Object")),
        Box::new(alt),
    )
}

fn metadata_call(key: &str, arg: Expr) -> Expr {
    call(ident("_ts_metadata"), vec![strlit(key), arg])
}

// --- Detection ---

#[test]
fn detects_decorate_and_metadata_calls() {
    let dec = call(ident("_ts_decorate"), vec![Expr::Array(vec![])]);
    let meta = metadata_call("design:type", ident("Function"));
    assert!(is_ts_decorate_call(&dec));
    assert!(!is_ts_metadata_call(&dec));
    assert!(is_ts_metadata_call(&meta));
    assert!(!is_ts_decorate_call(&meta));
    assert!(!is_ts_decorate_call(&ident("_ts_decorate")));
}

#[test]
fn detects_typeof_check_in_either_operand_order() {
    assert!(is_typeof_undefined_check(&typeof_check("X")));
    let reversed = Expr::Bin(
        BinOp::StrictEq,
        Box::new(strlit("undefined")),
        Box::new(Expr::Unary(UnaryOp::TypeOf, Box::new(ident("X")))),
    );
    assert!(is_typeof_undefined_check(&reversed));
    let wrong_op = Expr::Bin(
        BinOp::Or,
        Box::new(Expr::Unary(UnaryOp::TypeOf, Box::new(ident("X")))),
        Box::new(strlit("undefined")),
    );
    assert!(!is_typeof_undefined_check(&wrong_op));
    let wrong_lit = Expr::Bin(
        BinOp::StrictEq,
        Box::new(Expr::Unary(UnaryOp::TypeOf, Box::new(ident("X")))),
        Box::new(strlit("function")),
    );
    assert!(!is_typeof_undefined_check(&wrong_lit));
}

#[test]
fn detects_chained_typeof_guard() {
    let chain = Expr::Cond(
        Box::new(Expr::Bin(
            BinOp::Or,
            Box::new(typeof_check("X")),
            Box::new(typeof_check("Y")),
        )),
        Box::new(ident("Object")),
        Box::new(Expr::Member(3)),
    );
    assert!(is_typeof_guard_conditional(&chain));
    let wrong_consequent = Expr::Cond(
        Box::new(typeof_check("X")),
        Box::new(ident("Array")),
        Box::new(ident("X")),
    );
    assert!(!is_typeof_guard_conditional(&wrong_consequent));
    let wrong_link = Expr::Cond(
        Box::new(Expr::Bin(
            BinOp::Or,
            Box::new(typeof_check("X")),
            Box::new(ident("Y")),
        )),
        Box::new(ident("Object")),
        Box::new(ident("X")),
    );
    assert!(!is_typeof_guard_conditional(&wrong_link));
}

#[test]
fn constructor_decorate_by_third_argument() {
    let two_args = call(ident("_ts_decorate"), vec![Expr::Array(vec![]), ident("C")]);
    assert!(is_constructor_decorate(&two_args));
    let undef_third = call(
        ident("_ts_decorate"),
        vec![Expr::Array(vec![]), Expr::Member(1), ident("undefined")],
    );
    assert!(is_constructor_decorate(&undef_third));
    let member_decorate = call(
        ident("_ts_decorate"),
        vec![Expr::Array(vec![]), Expr::Member(1), strlit("getVenue")],
    );
    assert!(!is_constructor_decorate(&member_decorate));
}

#[test]
fn simple_arrow_shapes() {
    assert!(is_simple_arrow(&arrow(ident("String"))));
    assert!(is_simple_arrow(&arrow(Expr::Member(5))));
    assert!(is_simple_arrow(&arrow(Expr::Array(vec![ident("String")]))));
    assert!(!is_simple_arrow(&arrow(call(ident("f"), vec![]))));
    assert!(!is_simple_arrow(&Expr::Arrow(0, ArrowBody::BlockBody(9))));
    assert!(!is_simple_arrow(&Expr::Arrow(
        1,
        ArrowBody::ExprBody(Box::new(ident("String")))
    )));
}

// --- Stripping (decorator array [d1, metadataCall, d2] keeps d1, d2 in order) ---

#[test]
fn strip_removes_only_metadata_calls() {
    let mut elems = vec![
        ident("d1"),
        metadata_call("design:type", ident("Function")),
        ident("d2"),
    ];
    strip_metadata_calls(&mut elems);
    assert_eq!(elems, vec![ident("d1"), ident("d2")]);
}

#[test]
fn strip_on_array_without_metadata_is_noop() {
    let mut elems = vec![ident("d1"), call(ident("Injectable"), vec![])];
    strip_metadata_calls(&mut elems);
    assert_eq!(elems, vec![ident("d1"), call(ident("Injectable"), vec![])]);
}

// --- Arrow unwrapping (conservative) ---

#[test]
fn unwraps_simple_arrow_arguments() {
    let mut elems = vec![call(ident("ResolveField"), vec![arrow(ident("String"))])];
    unwrap_decorator_arrow_args(&mut elems);
    assert_eq!(elems, vec![call(ident("ResolveField"), vec![ident("String")])]);

    let mut member_case = vec![call(ident("Deco"), vec![arrow(Expr::Member(7))])];
    unwrap_decorator_arrow_args(&mut member_case);
    assert_eq!(member_case, vec![call(ident("Deco"), vec![Expr::Member(7)])]);

    let mut array_case = vec![call(
        ident("Deco"),
        vec![arrow(Expr::Array(vec![ident("String")]))],
    )];
    unwrap_decorator_arrow_args(&mut array_case);
    assert_eq!(
        array_case,
        vec![call(ident("Deco"), vec![Expr::Array(vec![ident("String")])])]
    );
}

#[test]
fn never_unwraps_block_body_arrows() {
    // `() => { return String; }` keeps its block body.
    let block_arrow = Expr::Arrow(0, ArrowBody::BlockBody(42));
    let mut elems = vec![call(ident("Deco"), vec![block_arrow])];
    unwrap_decorator_arrow_args(&mut elems);
    assert_eq!(
        elems,
        vec![call(
            ident("Deco"),
            vec![Expr::Arrow(0, ArrowBody::BlockBody(42))]
        )]
    );
}

#[test]
fn never_unwraps_arrows_with_parameters_or_complex_bodies() {
    let param_arrow = Expr::Arrow(1, ArrowBody::ExprBody(Box::new(ident("String"))));
    let call_body_arrow = arrow(call(ident("compute"), vec![]));
    let mut elems = vec![call(ident("Deco"), vec![param_arrow, call_body_arrow])];
    unwrap_decorator_arrow_args(&mut elems);
    assert_eq!(
        elems,
        vec![call(
            ident("Deco"),
            vec![
                Expr::Arrow(1, ArrowBody::ExprBody(Box::new(ident("String")))),
                arrow(call(ident("compute"), vec![])),
            ]
        )]
    );
}

#[test]
fn unwraps_arrows_in_nested_wrapper_calls() {
    let mut elems = vec![call(
        ident("_ts_param"),
        vec![
            Expr::Opaque(0),
            call(ident("Args"), vec![arrow(ident("String"))]),
        ],
    )];
    unwrap_decorator_arrow_args(&mut elems);
    assert_eq!(
        elems,
        vec![call(
            ident("_ts_param"),
            vec![Expr::Opaque(0), call(ident("Args"), vec![ident("String")])]
        )]
    );
}

// --- Type-property unwrapping ---

#[test]
fn unwraps_type_properties_only() {
    let obj = Expr::Object(vec![
        Prop::KeyValue(PropKey::Ident("type".to_string()), arrow(ident("String"))),
        Prop::KeyValue(PropKey::Ident("factory".to_string()), arrow(ident("Maker"))),
    ]);
    let mut elems = vec![call(ident("Args"), vec![strlit("id"), obj])];
    unwrap_type_arrow_props(&mut elems);
    assert_eq!(
        elems,
        vec![call(
            ident("Args"),
            vec![
                strlit("id"),
                Expr::Object(vec![
                    Prop::KeyValue(PropKey::Ident("type".to_string()), ident("String")),
                    Prop::KeyValue(PropKey::Ident("factory".to_string()), arrow(ident("Maker"))),
                ]),
            ]
        )]
    );
}

#[test]
fn unwraps_string_keyed_type_properties() {
    let obj = Expr::Object(vec![Prop::KeyValue(
        PropKey::StrLit("type".to_string()),
        arrow(ident("String")),
    )]);
    let mut elems = vec![call(ident("Args"), vec![obj])];
    unwrap_type_arrow_props(&mut elems);
    assert_eq!(
        elems,
        vec![call(
            ident("Args"),
            vec![Expr::Object(vec![Prop::KeyValue(
                PropKey::StrLit("type".to_string()),
                ident("String")
            )])]
        )]
    );
}

// --- Typeof-guard simplification and its scoping ---

#[test]
fn simplifies_guards_in_paramtypes_metadata_only() {
    let mut elems = vec![
        metadata_call(
            "design:paramtypes",
            Expr::Array(vec![typeof_guard("X", ident("X"))]),
        ),
        metadata_call("design:type", typeof_guard("Y", ident("Y"))),
    ];
    simplify_metadata_typeof_guards(&mut elems);
    assert_eq!(
        elems,
        vec![
            metadata_call("design:paramtypes", Expr::Array(vec![ident("Object")])),
            // design:type metadata is out of scope for this pass
            metadata_call("design:type", typeof_guard("Y", ident("Y"))),
        ]
    );
}

#[test]
fn design_type_guards_need_their_own_switch() {
    let mut elems = vec![metadata_call("design:type", typeof_guard("Y", ident("Y")))];
    simplify_design_type_typeof_guards(&mut elems);
    assert_eq!(
        elems,
        vec![metadata_call("design:type", ident("Object"))]
    );
}

#[test]
fn simplifies_chained_guards_inside_nested_arrays() {
    let chain_guard = Expr::Cond(
        Box::new(Expr::Bin(
            BinOp::Or,
            Box::new(typeof_check("m")),
            Box::new(typeof_check("n")),
        )),
        Box::new(ident("Object")),
        Box::new(Expr::Member(2)),
    );
    let mut elems = vec![metadata_call(
        "design:paramtypes",
        Expr::Array(vec![Expr::Array(vec![chain_guard]), ident("Number")]),
    )];
    simplify_metadata_typeof_guards(&mut elems);
    assert_eq!(
        elems,
        vec![metadata_call(
            "design:paramtypes",
            Expr::Array(vec![Expr::Array(vec![ident("Object")]), ident("Number")])
        )]
    );
}

// --- The whole pipeline on one decorator array ---

fn scenario_array() -> Vec<Expr> {
    vec![
        call(
            ident("_ts_param"),
            vec![
                Expr::Opaque(0),
                call(
                    ident("Args"),
                    vec![
                        strlit("id"),
                        Expr::Object(vec![Prop::KeyValue(
                            PropKey::Ident("type".to_string()),
                            arrow(ident("String")),
                        )]),
                    ],
                ),
            ],
        ),
        metadata_call(
            "design:paramtypes",
            Expr::Array(vec![typeof_guard("X", ident("X"))]),
        ),
    ]
}

fn scenario_expected() -> Vec<Expr> {
    vec![
        call(
            ident("_ts_param"),
            vec![
                Expr::Opaque(0),
                call(
                    ident("Args"),
                    vec![
                        strlit("id"),
                        Expr::Object(vec![Prop::KeyValue(
                            PropKey::Ident("type".to_string()),
                            ident("String"),
                        )]),
                    ],
                ),
            ],
        ),
        metadata_call("design:paramtypes", Expr::Array(vec![ident("Object")])),
    ]
}

#[test]
fn end_to_end_scenario_with_default_switches() {
    let mut elems = scenario_array();
    rewrite_decorator_array(&mut elems, &Config::default());
    assert_eq!(elems, scenario_expected());
}

#[test]
fn stripping_switch_removes_metadata_in_pipeline() {
    let mut elems = scenario_array();
    let config = Config {
        strip_metadata: Some(true),
        ..Config::default()
    };
    rewrite_decorator_array(&mut elems, &config);
    let mut expected = scenario_expected();
    expected.pop();
    assert_eq!(elems, expected);
}

#[test]
fn unset_switches_act_as_their_defaults() {
    let mut elems = scenario_array();
    let all_unset = Config {
        unwrap_type_arrows: None,
        strip_metadata: None,
        unwrap_decorator_arrows: None,
        simplify_metadata_typeofs: None,
        simplify_design_type_typeofs: None,
    };
    rewrite_decorator_array(&mut elems, &all_unset);
    assert_eq!(elems, scenario_expected());
}

// --- The whole-tree rewriter ---

fn scenario_tree() -> Expr {
    call(
        ident("_ts_decorate"),
        vec![
            Expr::Array(scenario_array()),
            ident("VenueResolver"),
            ident("undefined"),
        ],
    )
}

#[test]
fn rewrite_expr_rewrites_decorate_arrays() {
    let rewritten = rewrite_expr(scenario_tree(), &Config::default());
    let expected = call(
        ident("_ts_decorate"),
        vec![
            Expr::Array(scenario_expected()),
            ident("VenueResolver"),
            ident("undefined"),
        ],
    );
    assert_eq!(rewritten, expected);
}

#[test]
fn rewrite_expr_reaches_nested_decorate_calls() {
    let tree = Expr::Array(vec![scenario_tree(), ident("untouched")]);
    let rewritten = rewrite_expr(tree, &Config::default());
    let expected = Expr::Array(vec![
        call(
            ident("_ts_decorate"),
            vec![
                Expr::Array(scenario_expected()),
                ident("VenueResolver"),
                ident("undefined"),
            ],
        ),
        ident("untouched"),
    ]);
    assert_eq!(rewritten, expected);
}

#[test]
fn rewrite_expr_leaves_unrelated_calls_untouched() {
    let tree = call(
        ident("factory"),
        vec![arrow(ident("String")), typeof_guard("X", ident("X"))],
    );
    let rewritten = rewrite_expr(tree, &Config::default());
    assert_eq!(
        rewritten,
        call(
            ident("factory"),
            vec![arrow(ident("String")), typeof_guard("X", ident("X"))]
        )
    );
}

#[test]
fn rewrite_is_idempotent_on_scenario_tree() {
    let once = rewrite_expr(scenario_tree(), &Config::default());
    let twice = rewrite_expr(
        rewrite_expr(scenario_tree(), &Config::default()),
        &Config::default(),
    );
    assert_eq!(once, twice);
}

#[test]
fn rewrite_is_idempotent_with_all_switches_on() {
    let config = Config {
        unwrap_type_arrows: Some(true),
        strip_metadata: Some(true),
        unwrap_decorator_arrows: Some(true),
        simplify_metadata_typeofs: Some(true),
        simplify_design_type_typeofs: Some(true),
    };
    let once = rewrite_expr(scenario_tree(), &config);
    let twice = rewrite_expr(rewrite_expr(scenario_tree(), &config), &config);
    assert_eq!(once, twice);
}

#[test]
fn rewrite_pipelines_arrays_that_arrow_unwrap_exposes() {
    // A nested decorator-application call whose array argument only appears
    // once the outer array's arrow unwrap has run: the top-down traversal
    // still pipelines it, and a second run changes nothing.
    let config = Config {
        strip_metadata: Some(true),
        ..Config::default()
    };
    let tree = || {
        call(
            ident("_ts_decorate"),
            vec![Expr::Array(vec![call(
                ident("_ts_decorate"),
                vec![arrow(Expr::Array(vec![metadata_call(
                    "design:type",
                    ident("Function"),
                )]))],
            )])],
        )
    };
    let once = rewrite_expr(tree(), &config);
    let expected = call(
        ident("_ts_decorate"),
        vec![Expr::Array(vec![call(
            ident("_ts_decorate"),
            vec![Expr::Array(vec![])],
        )])],
    );
    assert_eq!(once, expected);
    let twice = rewrite_expr(rewrite_expr(tree(), &config), &config);
    assert_eq!(twice, expected);
}

// --- Path normalization really produces segment boundaries ---

#[test]
fn backslash_paths_gain_segment_boundaries() {
    // `src/models/*` only matches when the backslashes have become real
    // path separators.
    let pc = PluginConfig {
        base: Config::default(),
        overrides: vec![OverrideRule {
            files: vec!["src/models/*".to_string()],
            config: Config {
                unwrap_type_arrows: None,
                strip_metadata: Some(true),
                unwrap_decorator_arrows: None,
                simplify_metadata_typeofs: None,
                simplify_design_type_typeofs: None,
            },
        }],
    };
    let resolved = pc.resolve(Some("src\\models\\venue.model.ts"));
    assert_eq!(resolved.strip_metadata, Some(true));
}
