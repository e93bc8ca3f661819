//! The emitted Datalog text: declarations, skip lists, delegation-depth
//! arities, and the error taxonomy of the passes.

use authorization_logic::ast::{
    AstAssertion, AstFact, AstFlatFact, AstKeybind, AstPredicate, AstPrincipal, AstProgram,
    AstQuery, AstRValue, AstRelationDeclaration, AstSaysAssertion, AstType, Sign,
};
use authorization_logic::compilation_top_level::{ast_to_souffle, compile, merge_multiprogram};
use authorization_logic::errors::CompileError;
use authorization_logic::export_assertions::export_assertions;

fn pred(name: &str, args: &[&str]) -> AstPredicate {
    AstPredicate {
        sign: Sign::Positive,
        name: name.to_string(),
        args: args.iter().map(|a| a.to_string()).collect(),
    }
}

fn fact_of(p: AstPredicate) -> AstFact {
    AstFact::AstFlatFactFact { f: AstFlatFact::AstPredFact { p } }
}

fn says(speaker: &str, assertions: Vec<AstAssertion>) -> AstSaysAssertion {
    AstSaysAssertion {
        prin: AstPrincipal { name: speaker.to_string() },
        assertions,
        export_file: None,
    }
}

fn decl(name: &str, is_attribute: bool, args: &[(&str, AstType)]) -> AstRelationDeclaration {
    AstRelationDeclaration {
        predicate_name: name.to_string(),
        is_attribute,
        arg_typings: args.iter().map(|(n, t)| (n.to_string(), t.clone())).collect(),
    }
}

fn symbol_type() -> AstType {
    AstType::CustomType { name: "symbol".to_string() }
}

fn program(
    decls: Vec<AstRelationDeclaration>,
    assertions: Vec<AstSaysAssertion>,
    queries: Vec<AstQuery>,
) -> AstProgram {
    AstProgram {
        relation_declarations: decls,
        assertions,
        queries,
        imports: vec![],
        priv_binds: vec![],
        pub_binds: vec![],
    }
}

fn file_line_list(text: &str) -> Vec<String> {
    text.split('\n').map(|s| s.to_string()).collect()
}

#[test]
fn test_decl_skip() {
    let prog = program(
        vec![decl("isRelevantFor", true, &[("subject", symbol_type())])],
        vec![],
        vec![],
    );

    // Compile with all declarations.
    let contents1 = file_line_list(&ast_to_souffle(&prog, &None).expect("compile failed"));
    assert!(contents1.contains(&".decl grounded_dummy(dummy_param: DummyType)".to_string()));
    assert!(contents1.contains(
        &".decl says_isRelevantFor(speaker: Principal, attributed_prin: Principal, subject: symbol)"
            .to_string()
    ));

    // Compile with some declarations removed.
    let skip = Some(vec!["grounded_dummy".to_string(), "says_isRelevantFor".to_string()]);
    let contents2 = file_line_list(&ast_to_souffle(&prog, &skip).expect("compile failed"));
    assert!(!contents2.contains(&".decl grounded_dummy(dummy_param: DummyType)".to_string()));
    assert!(!contents2.contains(
        &".decl says_isRelevantFor(speaker: Principal, attributed_prin: Principal, subject: symbol)"
            .to_string()
    ));
}

#[test]
fn test_type_declarations() {
    let prog = program(
        vec![decl("usesTag", false, &[("t", AstType::CustomType { name: "Tag".to_string() })])],
        vec![],
        vec![],
    );
    let text = ast_to_souffle(&prog, &None).expect("compile failed");
    let lines = file_line_list(&text);
    assert!(lines.contains(&".type Principal <: symbol".to_string()));
    assert!(lines.contains(&".type Tag <: symbol".to_string()));
    assert!(lines.contains(&".type DummyType <: symbol".to_string()));

    // With a skip list, the interop types are the consumer's to declare.
    let text2 = ast_to_souffle(&prog, &Some(vec!["says_usesTag".to_string()])).expect(
        "compile failed",
    );
    let lines2 = file_line_list(&text2);
    assert!(!lines2.contains(&".type Principal <: symbol".to_string()));
    assert!(!lines2.contains(&".type Tag <: symbol".to_string()));
}

#[test]
fn test_relation_declarations() {
    let prog = program(
        vec![decl("hasRole", false, &[("who", symbol_type()), ("role", symbol_type())])],
        vec![says("\"hr\"", vec![AstAssertion::AstFactAssertion {
            f: fact_of(pred("hasRole", &["\"ann\"", "\"auditor\""])),
        }])],
        vec![],
    );
    let lines = file_line_list(&ast_to_souffle(&prog, &None).expect("compile failed"));
    assert!(lines.contains(
        &".decl says_hasRole(speaker: Principal, who: symbol, role: symbol)".to_string()
    ));
    assert!(lines.contains(&".decl says_canActAs(speaker: Principal, p1: Principal, p2: Principal)".to_string()));
    assert!(lines.contains(&"says_hasRole(\"hr\", \"ann\", \"auditor\").".to_string()));
}

// The declaration synthesized for a predicate used under nested canSay has
// exactly the arity implied by the maximum observed nesting, and the
// shallower delegation relations are declared too.
#[test]
fn test_cansay_depth_declarations() {
    let nested = AstFact::AstCanSayFact {
        p: AstPrincipal { name: "\"b\"".to_string() },
        f: Box::new(AstFact::AstCanSayFact {
            p: AstPrincipal { name: "\"c\"".to_string() },
            f: Box::new(fact_of(pred("foo", &["\"x\""]))),
        }),
    };
    let prog = program(
        vec![decl("foo", false, &[("x", symbol_type())])],
        vec![says("\"a\"", vec![AstAssertion::AstFactAssertion { f: nested }])],
        vec![],
    );
    let lines = file_line_list(&ast_to_souffle(&prog, &None).expect("compile failed"));
    assert!(lines.contains(
        &".decl says_canSay_canSay_foo(speaker: Principal, delegatee2: Principal, delegatee1: Principal, x: symbol)"
            .to_string()
    ));
    assert!(lines.contains(
        &".decl says_canSay_foo(speaker: Principal, delegatee1: Principal, x: symbol)".to_string()
    ));
    assert!(lines.contains(&".decl says_foo(speaker: Principal, x: symbol)".to_string()));
}

#[test]
fn test_undeclared_relation_is_fatal() {
    let prog = program(
        vec![],
        vec![says("\"a\"", vec![AstAssertion::AstFactAssertion {
            f: fact_of(pred("neverDeclared", &["\"x\""])),
        }])],
        vec![],
    );
    match ast_to_souffle(&prog, &None) {
        Err(CompileError::UndeclaredRelation { relation }) => {
            assert_eq!(relation, "neverDeclared");
        }
        other => panic!("expected an undeclared-relation error, got {:?}", other.is_ok()),
    }
}

#[test]
fn test_type_conflict_is_fatal() {
    let prog = program(
        vec![
            decl("likes", false, &[("x", symbol_type())]),
            decl("counts", false, &[("n", AstType::NumberType)]),
        ],
        vec![says(
            "\"a\"",
            vec![
                AstAssertion::AstFactAssertion { f: fact_of(pred("likes", &["\"v\""])) },
                AstAssertion::AstFactAssertion { f: fact_of(pred("counts", &["\"v\""])) },
            ],
        )],
        vec![],
    );
    match ast_to_souffle(&prog, &None) {
        Err(CompileError::TypeConflict { constant }) => {
            assert_eq!(constant, "\"v\"");
        }
        other => panic!("expected a type-conflict error, got {:?}", other.is_ok()),
    }
}

#[test]
fn test_unbound_key_is_fatal() {
    let prog = AstProgram {
        relation_declarations: vec![decl("said", false, &[("x", symbol_type())])],
        assertions: vec![AstSaysAssertion {
            prin: AstPrincipal { name: "\"a\"".to_string() },
            assertions: vec![AstAssertion::AstFactAssertion {
                f: fact_of(pred("said", &["\"x\""])),
            }],
            export_file: Some("claimfile".to_string()),
        }],
        queries: vec![],
        imports: vec![],
        priv_binds: vec![],
        pub_binds: vec![],
    };
    match export_assertions(&prog, &vec![]) {
        Err(CompileError::UnboundKey { principal }) => {
            assert_eq!(principal, "\"a\"");
        }
        other => panic!("expected an unbound-key error, got {:?}", other.is_ok()),
    }
}

// Merging programs is a pure concatenation: either order yields the same
// declarations and assertions, only arranged differently.
#[test]
fn test_merge_order_independence() {
    let p1 = program(
        vec![decl("r1", false, &[("x", symbol_type())])],
        vec![says("\"a\"", vec![AstAssertion::AstFactAssertion {
            f: fact_of(pred("r1", &["\"u\""])),
        }])],
        vec![],
    );
    let p2 = program(
        vec![decl("r2", false, &[("x", symbol_type())])],
        vec![says("\"b\"", vec![AstAssertion::AstFactAssertion {
            f: fact_of(pred("r2", &["\"w\""])),
        }])],
        vec![],
    );
    let p3 = program(
        vec![decl("r3", false, &[("x", symbol_type())])],
        vec![says("\"c\"", vec![AstAssertion::AstFactAssertion {
            f: fact_of(pred("r3", &["\"z\""])),
        }])],
        vec![],
    );
    let m123 = merge_multiprogram(&vec![
        clone_program(&p1),
        clone_program(&p2),
        clone_program(&p3),
    ]);
    let m312 = merge_multiprogram(&vec![clone_program(&p3), clone_program(&p1), clone_program(
        &p2,
    )]);
    let mut a123: Vec<String> = m123.assertions.iter().map(|a| format!("{:?}", a)).collect();
    let mut a312: Vec<String> = m312.assertions.iter().map(|a| format!("{:?}", a)).collect();
    a123.sort();
    a312.sort();
    assert_eq!(a123, a312);
    let m12 = merge_multiprogram(&vec![clone_program(&p1), clone_program(&p2)]);
    let m21 = merge_multiprogram(&vec![p2, p1]);
    let mut d12: Vec<String> = m12.relation_declarations.iter().map(|d| format!("{:?}", d)).collect();
    let mut d21: Vec<String> = m21.relation_declarations.iter().map(|d| format!("{:?}", d)).collect();
    d12.sort();
    d21.sort();
    assert_eq!(d12, d21);
    let mut a12: Vec<String> = m12.assertions.iter().map(|a| format!("{:?}", a)).collect();
    let mut a21: Vec<String> = m21.assertions.iter().map(|a| format!("{:?}", a)).collect();
    a12.sort();
    a21.sort();
    assert_eq!(a12, a21);
}

fn clone_program(p: &AstProgram) -> AstProgram {
    p.dup()
}

#[test]
fn test_compile_one_program_matches_compile() {
    let prog = program(
        vec![decl("fact1", false, &[("x", symbol_type())])],
        vec![says("\"p\"", vec![AstAssertion::AstFactAssertion {
            f: fact_of(pred("fact1", &["\"v\""])),
        }])],
        vec![AstQuery {
            name: "q1".to_string(),
            principal: AstPrincipal { name: "\"p\"".to_string() },
            fact: fact_of(pred("fact1", &["\"v\""])),
        }],
    );
    let one = authorization_logic::compilation_top_level::compile_one_program(
        &prog,
        &None,
        &vec![],
        &vec![],
    )
    .expect("compile_one_program failed");
    let many = compile(&vec![prog], &None, &vec![], &vec![]).expect("compile failed");
    assert_eq!(one.datalog, many.datalog);
}

#[test]
fn test_rvalue_comparison_rendering() {
    let prog = program(
        vec![decl("ok", false, &[])],
        vec![says(
            "\"a\"",
            vec![AstAssertion::AstCondAssertion {
                lhs: fact_of(pred("ok", &[])),
                rhs: vec![AstRValue::BinopRValue {
                    lnum: "1".to_string(),
                    binop: authorization_logic::ast::AstBinop::NotEquals,
                    rnum: "2".to_string(),
                }],
            }],
        )],
        vec![],
    );
    let text = ast_to_souffle(&prog, &None).expect("compile failed");
    assert!(text.contains("says_ok(\"a\") :- 1 != 2."));
}
