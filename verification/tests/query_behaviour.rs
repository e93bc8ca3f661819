//! End-to-end behaviour of the compiler: programs are built as syntax
//! trees, compiled through the universe and lowering passes, and the
//! resulting Datalog is evaluated with a small bottom-up evaluator so that
//! query truth values can be checked.

use authorization_logic::ast::{
    AstAssertion, AstBinop, AstFact, AstFlatFact, AstPredicate, AstPrincipal, AstProgram,
    AstQuery, AstRValue, AstRelationDeclaration, AstSaysAssertion, AstType, AstVerbPhrase, Sign,
};
use authorization_logic::datalog_ir::{DLIRAssertion, DLIRProgram, DLIRRvalue};
use authorization_logic::lowering_ast_datalog::LoweringToDatalogPass;
use authorization_logic::universe_translation::UniverseHandlingPass;

// ---------------------------------------------------------------------------
// Builders
// ---------------------------------------------------------------------------

fn prin(name: &str) -> AstPrincipal {
    AstPrincipal { name: name.to_string() }
}

fn pred(name: &str, args: &[&str]) -> AstPredicate {
    AstPredicate {
        sign: Sign::Positive,
        name: name.to_string(),
        args: args.iter().map(|a| a.to_string()).collect(),
    }
}

fn neg_pred(name: &str, args: &[&str]) -> AstPredicate {
    AstPredicate {
        sign: Sign::Negated,
        name: name.to_string(),
        args: args.iter().map(|a| a.to_string()).collect(),
    }
}

fn fact_of(p: AstPredicate) -> AstFact {
    AstFact::AstFlatFactFact { f: AstFlatFact::AstPredFact { p } }
}

fn can_act_as(subject: &str, object: &str) -> AstFact {
    AstFact::AstFlatFactFact {
        f: AstFlatFact::AstPrinFact {
            p: prin(subject),
            v: AstVerbPhrase::AstCanActPhrase { p: prin(object) },
        },
    }
}

fn prin_pred_fact(subject: &str, p: AstPredicate) -> AstFact {
    AstFact::AstFlatFactFact {
        f: AstFlatFact::AstPrinFact { p: prin(subject), v: AstVerbPhrase::AstPredPhrase { p } },
    }
}

fn can_say(delegatee: &str, f: AstFact) -> AstFact {
    AstFact::AstCanSayFact { p: prin(delegatee), f: Box::new(f) }
}

fn says(speaker: &str, assertions: Vec<AstAssertion>) -> AstSaysAssertion {
    AstSaysAssertion { prin: prin(speaker), assertions, export_file: None }
}

fn fact_assertion(f: AstFact) -> AstAssertion {
    AstAssertion::AstFactAssertion { f }
}

fn cond_assertion(lhs: AstFact, rhs: Vec<AstRValue>) -> AstAssertion {
    AstAssertion::AstCondAssertion { lhs, rhs }
}

fn pred_rvalue(p: AstPredicate) -> AstRValue {
    AstRValue::FlatFactRValue { flat_fact: AstFlatFact::AstPredFact { p } }
}

fn binop_rvalue(l: &str, op: AstBinop, r: &str) -> AstRValue {
    AstRValue::BinopRValue { lnum: l.to_string(), binop: op, rnum: r.to_string() }
}

fn decl(name: &str, is_attribute: bool, args: &[(&str, AstType)]) -> AstRelationDeclaration {
    AstRelationDeclaration {
        predicate_name: name.to_string(),
        is_attribute,
        arg_typings: args.iter().map(|(n, t)| (n.to_string(), t.clone())).collect(),
    }
}

fn sym() -> AstType {
    AstType::CustomType { name: "Sym".to_string() }
}

fn query(name: &str, principal: &str, f: AstFact) -> AstQuery {
    AstQuery { name: name.to_string(), principal: prin(principal), fact: f }
}

fn program(
    decls: Vec<AstRelationDeclaration>,
    assertions: Vec<AstSaysAssertion>,
    queries: Vec<AstQuery>,
) -> AstProgram {
    AstProgram {
        relation_declarations: decls,
        assertions,
        queries,
        imports: vec![],
        priv_binds: vec![],
        pub_binds: vec![],
    }
}

// ---------------------------------------------------------------------------
// A small bottom-up Datalog evaluator over the lowered representation
// ---------------------------------------------------------------------------

type GroundFact = (String, Vec<String>);

fn is_constant(arg: &str) -> bool {
    if arg.starts_with('"') {
        return true;
    }
    !arg.is_empty() && arg.chars().all(|c| c.is_ascii_digit()) || arg.is_empty()
}

fn unify(
    pattern: &[String],
    fact_args: &[String],
    subst: &std::collections::BTreeMap<String, String>,
) -> Option<std::collections::BTreeMap<String, String>> {
    if pattern.len() != fact_args.len() {
        return None;
    }
    let mut out = subst.clone();
    for (p, a) in pattern.iter().zip(fact_args.iter()) {
        if is_constant(p) {
            if p != a {
                return None;
            }
        } else if let Some(bound) = out.get(p) {
            if bound != a {
                return None;
            }
        } else {
            out.insert(p.clone(), a.clone());
        }
    }
    Some(out)
}

fn substitute(args: &[String], subst: &std::collections::BTreeMap<String, String>) -> Vec<String> {
    args.iter()
        .map(|a| if is_constant(a) { a.clone() } else { subst.get(a).cloned().unwrap_or_else(|| a.clone()) })
        .collect()
}

fn binop_holds(l: &str, op: &AstBinop, r: &str) -> bool {
    let lv: i64 = l.parse().expect("left comparison operand is not numeric");
    let rv: i64 = r.parse().expect("right comparison operand is not numeric");
    match op {
        AstBinop::LessThan => lv < rv,
        AstBinop::GreaterThan => lv > rv,
        AstBinop::Equals => lv == rv,
        AstBinop::NotEquals => lv != rv,
        AstBinop::LessOrEquals => lv <= rv,
        AstBinop::GreaterOrEquals => lv >= rv,
    }
}

fn rule_has_negation(a: &DLIRAssertion) -> bool {
    match a {
        DLIRAssertion::DLIRFactAssertion { .. } => false,
        DLIRAssertion::DLIRCondAssertion { rhs, .. } => rhs.iter().any(|rv| match rv {
            DLIRRvalue::PredicateRvalue { predicate } => matches!(predicate.sign, Sign::Negated),
            _ => false,
        }),
    }
}

fn apply_assertion(a: &DLIRAssertion, facts: &mut Vec<GroundFact>) -> bool {
    let mut changed = false;
    match a {
        DLIRAssertion::DLIRFactAssertion { p } => {
            let f = (p.name.clone(), p.args.clone());
            if !facts.contains(&f) {
                facts.push(f);
                changed = true;
            }
        }
        DLIRAssertion::DLIRCondAssertion { lhs, rhs } => {
            let mut substs = vec![std::collections::BTreeMap::new()];
            for rv in rhs {
                if let DLIRRvalue::PredicateRvalue { predicate } = rv {
                    if matches!(predicate.sign, Sign::Positive) {
                        let mut next = Vec::new();
                        for s in &substs {
                            for (fname, fargs) in facts.iter() {
                                if *fname == predicate.name {
                                    if let Some(s2) = unify(&predicate.args, fargs, s) {
                                        next.push(s2);
                                    }
                                }
                            }
                        }
                        substs = next;
                    }
                }
            }
            for s in substs {
                let mut ok = true;
                for rv in rhs {
                    match rv {
                        DLIRRvalue::PredicateRvalue { predicate } => {
                            if matches!(predicate.sign, Sign::Negated) {
                                let inst = substitute(&predicate.args, &s);
                                if facts.contains(&(predicate.name.clone(), inst)) {
                                    ok = false;
                                }
                            }
                        }
                        DLIRRvalue::BinopRvalue { lnum, binop, rnum } => {
                            let l = substitute(std::slice::from_ref(lnum), &s).pop().unwrap();
                            let r = substitute(std::slice::from_ref(rnum), &s).pop().unwrap();
                            if !binop_holds(&l, binop, &r) {
                                ok = false;
                            }
                        }
                    }
                }
                if ok {
                    let head = (lhs.name.clone(), substitute(&lhs.args, &s));
                    assert!(
                        head.1.iter().all(|a| is_constant(a)),
                        "ungrounded head variable reached the evaluator: {:?}",
                        head
                    );
                    if !facts.contains(&head) {
                        facts.push(head);
                        changed = true;
                    }
                }
            }
        }
    }
    changed
}

fn evaluate(prog: &DLIRProgram) -> Vec<GroundFact> {
    let mut facts: Vec<GroundFact> = Vec::new();
    // First saturate the negation-free part, then the whole program; the
    // compiled programs only negate relations of the first stratum.
    for with_negation in [false, true] {
        loop {
            let mut changed = false;
            for a in &prog.assertions {
                if !with_negation && rule_has_negation(a) {
                    continue;
                }
                if apply_assertion(a, &mut facts) {
                    changed = true;
                }
            }
            if !changed {
                break;
            }
        }
    }
    facts
}

fn run_query_test(prog: AstProgram, query_expects: Vec<(&str, bool)>) {
    let grounded = UniverseHandlingPass::handle_universes(&prog).expect("universe pass failed");
    let dlir = LoweringToDatalogPass::lower(&grounded).expect("lowering failed");
    let facts = evaluate(&dlir);
    for (qname, expected) in query_expects {
        let holds = facts.iter().any(|(n, _)| n == qname);
        assert_eq!(holds, expected, "query {} expected {}", qname, expected);
    }
}

// ---------------------------------------------------------------------------
// Identifier shapes
// ---------------------------------------------------------------------------

#[test]
fn test_dots_in_ids() {
    let prog = program(
        vec![decl("some.dotted.relation", false, &[("x", sym())])],
        vec![says(
            "\"prin.one\"",
            vec![fact_assertion(fact_of(pred("some.dotted.relation", &["\"val.ue\""])))],
        )],
        vec![query(
            "q1",
            "\"prin.one\"",
            fact_of(pred("some.dotted.relation", &["\"val.ue\""])),
        )],
    );
    run_query_test(prog, vec![("q1", true)]);
}

#[test]
fn test_hyphen_ids() {
    let prog = program(
        vec![decl("has-role", false, &[("x", sym())])],
        vec![says(
            "\"prin-one\"",
            vec![fact_assertion(fact_of(pred("has-role", &["\"admin-user\""])))],
        )],
        vec![query("q1", "\"prin-one\"", fact_of(pred("has-role", &["\"admin-user\""])))],
    );
    run_query_test(prog, vec![("q1", true)]);
}

#[test]
fn test_num_string_names() {
    let prog = program(
        vec![decl("has2Ports", false, &[("n", AstType::NumberType), ("s", sym())])],
        vec![says(
            "\"server1\"",
            vec![fact_assertion(fact_of(pred("has2Ports", &["8080", "\"http2\""])))],
        )],
        vec![query("q1", "\"server1\"", fact_of(pred("has2Ports", &["8080", "\"http2\""])))],
    );
    run_query_test(prog, vec![("q1", true)]);
}

// ---------------------------------------------------------------------------
// Negation
// ---------------------------------------------------------------------------

#[test]
fn test_negation() {
    let prog = program(
        vec![decl("foo", false, &[("x", sym())]), decl("bar", false, &[("x", sym())])],
        vec![says(
            "\"jack\"",
            vec![
                fact_assertion(fact_of(pred("bar", &["\"y\""]))),
                cond_assertion(
                    fact_of(pred("foo", &["\"x\""])),
                    vec![pred_rvalue(neg_pred("bar", &["\"x\""]))],
                ),
                cond_assertion(
                    fact_of(pred("foo", &["\"y\""])),
                    vec![pred_rvalue(neg_pred("bar", &["\"y\""]))],
                ),
            ],
        )],
        vec![
            query("q1", "\"jack\"", fact_of(pred("foo", &["\"x\""]))),
            query("q2", "\"jack\"", fact_of(pred("foo", &["\"y\""]))),
            query("q3", "\"jack\"", fact_of(pred("bar", &["\"x\""]))),
        ],
    );
    run_query_test(prog, vec![("q1", true), ("q2", false), ("q3", false)]);
}

// ---------------------------------------------------------------------------
// Numeric comparisons
// ---------------------------------------------------------------------------

#[test]
fn test_basic_number_comparisons() {
    let cases: Vec<(&str, AstBinop, &str)> = vec![
        ("1", AstBinop::LessThan, "2"),
        ("2", AstBinop::LessThan, "1"),
        ("2", AstBinop::GreaterThan, "1"),
        ("1", AstBinop::GreaterThan, "2"),
        ("1", AstBinop::Equals, "1"),
        ("1", AstBinop::Equals, "2"),
        ("1", AstBinop::NotEquals, "2"),
        ("1", AstBinop::NotEquals, "1"),
        ("1", AstBinop::LessOrEquals, "2"),
        ("1", AstBinop::LessOrEquals, "1"),
        ("2", AstBinop::LessOrEquals, "1"),
        ("2", AstBinop::GreaterOrEquals, "1"),
        ("1", AstBinop::GreaterOrEquals, "1"),
        ("1", AstBinop::GreaterOrEquals, "2"),
    ];
    let mut decls = Vec::new();
    let mut assertions = Vec::new();
    let mut queries = Vec::new();
    let mut expects: Vec<(String, bool)> = Vec::new();
    for (i, (l, op, r)) in cases.iter().enumerate() {
        let rel = format!("res{}", i + 1);
        let qname = format!("q{}", i + 1);
        decls.push(decl(&rel, false, &[]));
        assertions.push(says(
            "\"a\"",
            vec![cond_assertion(fact_of(pred(&rel, &[])), vec![binop_rvalue(l, *op, r)])],
        ));
        queries.push(query(&qname, "\"a\"", fact_of(pred(&rel, &[]))));
        expects.push((qname, binop_holds(l, op, r)));
    }
    let expected: Vec<(String, bool)> = expects;
    // The expected pattern is fixed by the operator semantics on the
    // literal operands above.
    let flags: Vec<bool> = expected.iter().map(|e| e.1).collect();
    assert_eq!(
        flags,
        vec![
            true, false, true, false, true, false, true, false, true, true, false, true, true,
            false
        ]
    );
    let prog = program(decls, assertions, queries);
    let borrowed: Vec<(&str, bool)> = expected.iter().map(|(n, b)| (n.as_str(), *b)).collect();
    run_query_test(prog, borrowed);
}

#[test]
fn test_comparisons_with_delegation() {
    let prog = program(
        vec![
            decl("hasAge", false, &[("who", sym()), ("age", AstType::NumberType)]),
            decl("isAdult", false, &[("who", sym())]),
        ],
        vec![
            says(
                "\"a\"",
                vec![
                    fact_assertion(can_say("\"b\"", fact_of(pred("hasAge", &["\"alice\"", "21"])))),
                    fact_assertion(can_say("\"b\"", fact_of(pred("hasAge", &["\"bob\"", "10"])))),
                    cond_assertion(
                        fact_of(pred("isAdult", &["\"alice\""])),
                        vec![
                            pred_rvalue(pred("hasAge", &["\"alice\"", "21"])),
                            binop_rvalue("21", AstBinop::GreaterOrEquals, "18"),
                        ],
                    ),
                    cond_assertion(
                        fact_of(pred("isAdult", &["\"bob\""])),
                        vec![
                            pred_rvalue(pred("hasAge", &["\"bob\"", "10"])),
                            binop_rvalue("10", AstBinop::GreaterOrEquals, "18"),
                        ],
                    ),
                ],
            ),
            says(
                "\"b\"",
                vec![
                    fact_assertion(fact_of(pred("hasAge", &["\"alice\"", "21"]))),
                    fact_assertion(fact_of(pred("hasAge", &["\"bob\"", "10"]))),
                ],
            ),
        ],
        vec![
            query("q1", "\"a\"", fact_of(pred("isAdult", &["\"alice\""]))),
            query("q2", "\"a\"", fact_of(pred("isAdult", &["\"bob\""]))),
        ],
    );
    run_query_test(prog, vec![("q1", true), ("q2", false)]);
}

// ---------------------------------------------------------------------------
// Conditions, delegation and canActAs
// ---------------------------------------------------------------------------

#[test]
fn test_conditions() {
    let prog = program(
        vec![decl("fact1", false, &[("x", sym())]), decl("fact2", false, &[("x", sym())])],
        vec![
            says(
                "\"prin1\"",
                vec![
                    fact_assertion(fact_of(pred("fact2", &["\"x\""]))),
                    cond_assertion(
                        fact_of(pred("fact1", &["\"x\""])),
                        vec![pred_rvalue(pred("fact2", &["\"x\""]))],
                    ),
                ],
            ),
            says(
                "\"prin2\"",
                vec![cond_assertion(
                    fact_of(pred("fact1", &["\"x\""])),
                    vec![pred_rvalue(pred("fact2", &["\"x\""]))],
                )],
            ),
        ],
        vec![
            query("q_prin1_fact1", "\"prin1\"", fact_of(pred("fact1", &["\"x\""]))),
            query("q_prin1_fact2", "\"prin1\"", fact_of(pred("fact2", &["\"y\""]))),
            query("q_prin2_fact1", "\"prin2\"", fact_of(pred("fact1", &["\"x\""]))),
        ],
    );
    run_query_test(
        prog,
        vec![("q_prin1_fact1", true), ("q_prin1_fact2", false), ("q_prin2_fact1", false)],
    );
}

#[test]
fn test_delegations() {
    let prog = program(
        vec![
            decl("grantAccess", false, &[("x", sym())]),
            decl("mayUse", false, &[("x", sym())]),
        ],
        vec![
            says(
                "\"owner\"",
                vec![
                    fact_assertion(can_say("\"admin\"", fact_of(pred("grantAccess", &["\"fileA\""])))),
                    fact_assertion(can_say("\"admin\"", fact_of(pred("grantAccess", &["\"fileB\""])))),
                ],
            ),
            says(
                "\"admin\"",
                vec![
                    fact_assertion(fact_of(pred("grantAccess", &["\"fileA\""]))),
                    cond_assertion(
                        fact_of(pred("grantAccess", &["\"fileB\""])),
                        vec![pred_rvalue(pred("mayUse", &["\"fileB\""]))],
                    ),
                ],
            ),
            says("\"stranger\"", vec![fact_assertion(fact_of(pred("grantAccess", &["\"fileC\""])))]),
        ],
        vec![
            query("q_uncond1_t", "\"owner\"", fact_of(pred("grantAccess", &["\"fileA\""]))),
            query("q_uncond2_f", "\"owner\"", fact_of(pred("grantAccess", &["\"fileC\""]))),
            query("q_cond1_f", "\"owner\"", fact_of(pred("grantAccess", &["\"fileB\""]))),
            query("q_undel1_t", "\"admin\"", fact_of(pred("grantAccess", &["\"fileA\""]))),
            query("q_undel2_f", "\"admin\"", fact_of(pred("grantAccess", &["\"fileC\""]))),
        ],
    );
    run_query_test(
        prog,
        vec![
            ("q_uncond1_t", true),
            ("q_uncond2_f", false),
            ("q_cond1_f", false),
            ("q_undel1_t", true),
            ("q_undel2_f", false),
        ],
    );
}

#[test]
fn test_canactas() {
    let prog = program(
        vec![decl("isEdible", true, &[])],
        vec![says(
            "\"chef\"",
            vec![
                fact_assertion(can_act_as("\"chicken\"", "\"food\"")),
                fact_assertion(prin_pred_fact("\"food\"", pred("isEdible", &[]))),
            ],
        )],
        vec![
            query("q_chicken", "\"chef\"", prin_pred_fact("\"chicken\"", pred("isEdible", &[]))),
            query("q_ketchup", "\"chef\"", prin_pred_fact("\"ketchup\"", pred("isEdible", &[]))),
        ],
    );
    run_query_test(prog, vec![("q_chicken", true), ("q_ketchup", false)]);
}

// The inheritance of attributes through canActAs, checked end to end: from
// `A says B canActAs C` and `A says C foo`, the compiled program proves
// `A says B foo`.
#[test]
fn test_canactas_transitivity_property() {
    let prog = program(
        vec![decl("hasPermission", true, &[("perm", sym())])],
        vec![says(
            "\"a\"",
            vec![
                fact_assertion(can_act_as("\"b\"", "\"c\"")),
                fact_assertion(prin_pred_fact("\"c\"", pred("hasPermission", &["\"write\""]))),
            ],
        )],
        vec![
            query(
                "q_inherit",
                "\"a\"",
                prin_pred_fact("\"b\"", pred("hasPermission", &["\"write\""])),
            ),
            query(
                "q_direct",
                "\"a\"",
                prin_pred_fact("\"c\"", pred("hasPermission", &["\"write\""])),
            ),
            query(
                "q_unrelated",
                "\"a\"",
                prin_pred_fact("\"d\"", pred("hasPermission", &["\"write\""])),
            ),
        ],
    );
    run_query_test(prog, vec![("q_inherit", true), ("q_direct", true), ("q_unrelated", false)]);
}

// Grounding safety, observed on the lowered program: every variable in the
// head of an emitted rule is bound by a positive body predicate. The
// evaluator asserts this for every derived head; this test also checks it
// syntactically for every rule of a program with variables in rule heads.
#[test]
fn test_grounding_safety() {
    let prog = program(
        vec![decl("ownsFile", false, &[("f", sym())]), decl("mayRead", false, &[("f", sym())])],
        vec![says(
            "\"root\"",
            vec![
                fact_assertion(fact_of(pred("ownsFile", &["\"log\""]))),
                // x is a variable: the universe pass must ground it.
                cond_assertion(fact_of(pred("mayRead", &["x"])), vec![pred_rvalue(pred(
                    "ownsFile",
                    &["x"],
                ))]),
            ],
        )],
        vec![query("q1", "\"root\"", fact_of(pred("mayRead", &["\"log\""])))],
    );
    let grounded = UniverseHandlingPass::handle_universes(&prog).expect("universe pass failed");
    let dlir = LoweringToDatalogPass::lower(&grounded).expect("lowering failed");
    for a in &dlir.assertions {
        match a {
            DLIRAssertion::DLIRFactAssertion { p } => {
                assert!(p.args.iter().all(|arg| is_constant(arg)));
            }
            DLIRAssertion::DLIRCondAssertion { lhs, rhs } => {
                let mut bound: Vec<&String> = Vec::new();
                for rv in rhs {
                    if let DLIRRvalue::PredicateRvalue { predicate } = rv {
                        if matches!(predicate.sign, Sign::Positive) {
                            bound.extend(predicate.args.iter());
                        }
                    }
                }
                for arg in &lhs.args {
                    assert!(
                        is_constant(arg) || bound.contains(&arg),
                        "head variable {} not bound in a positive body atom",
                        arg
                    );
                }
            }
        }
    }
    run_query_test(prog, vec![("q1", true)]);
}

// Multi-file compilation: a fact from one program unit answers a query
// declared in another after the units are merged.
#[test]
fn multiprog_test() {
    let part1 = program(
        vec![decl("multiProgFact", false, &[("x", sym())])],
        vec![says(
            "\"prinA\"",
            vec![fact_assertion(fact_of(pred("multiProgFact", &["\"shared\""])))],
        )],
        vec![],
    );
    let part2 = program(
        vec![],
        vec![],
        vec![query(
            "multiprog_test_query",
            "\"prinA\"",
            fact_of(pred("multiProgFact", &["\"shared\""])),
        )],
    );
    let merged =
        authorization_logic::compilation_top_level::merge_multiprogram(&vec![part1, part2]);
    run_query_test(merged, vec![("multiprog_test_query", true)]);
}
