//! The lowering pass from the modal authorization logic to DLIR.
//!
//! Modifiers like "says", "canSay" and "canActAs" become ordinary relations
//! with the principals moved into argument positions: `A says B canSay
//! foo(x)` becomes `says_canSay_foo(A, B, x)`. For every `P canSay F` the
//! pass also emits the delegation rule `p says F :- x says F, p says x
//! canSay F` (x fresh), and for every `B <verbphrase>` the inheritance rule
//! `speaker says x vp :- speaker says x canActAs B, speaker says B vp`
//! (x fresh). Queries become output relations anchored on a fixed
//! `grounded_dummy("dummy_var")` fact.
//!
//! The pass owns two pieces of state: a fresh-variable counter and a map
//! recording, per base predicate, the maximum `canSay` nesting depth in
//! which it was used; the relation-declaration synthesis reads that map
//! after the program body is lowered.

use vstd::prelude::*;
use vstd::pervasive::VecAdditionalExecFns;
use vstd::string::StringExecFns;

use crate::ast::{
    decls_view, dup_arg_typings, dup_strings, strings_view, AstAssertion, AstFact, AstFlatFact,
    AstPredicate, AstPrincipal, AstProgram, AstQuery, AstRelationDeclaration, AstSaysAssertion,
    AstType, AstVerbPhrase, Sign, SpecAssertion, SpecFact, SpecFlatFact, SpecPredicate,
    SpecPrincipal, SpecProgram, SpecQuery, SpecRelationDeclaration, SpecSaysAssertion, SpecType,
    SpecVerbPhrase,
};
use crate::datalog_ir::{
    dlir_assertions_view, dlir_rvalues_view, DLIRAssertion, DLIRProgram, DLIRRvalue,
    SpecDLIRAssertion, SpecDLIRProgram, SpecDLIRRvalue,
};
use crate::errors::{CompileError, SpecCompileError};
use crate::text::{spec_u64_str, str_eq, u64_to_string};

verus! {

// ---------------------------------------------------------------------------
// Ghost model of the pass state
// ---------------------------------------------------------------------------

/// Ghost model of the lowering state: the fresh-variable counter and the
/// per-predicate maximum `canSay` depth, in order of first use.
pub ghost struct SpecLoweringState {
    pub fresh_var_count: u64,
    pub cansay_depth: Seq<(Seq<char>, u64)>,
}

/// A fresh variable: the counter is advanced (saturating at its maximum) and
/// the name is `x___` followed by the new counter value.
pub open spec fn spec_fresh(st: SpecLoweringState) -> (Seq<char>, SpecLoweringState) {
    let c = if st.fresh_var_count < u64::MAX {
        (st.fresh_var_count + 1) as u64
    } else {
        st.fresh_var_count
    };
    (
        "x___"@ + spec_u64_str(c),
        SpecLoweringState { fresh_var_count: c, cansay_depth: st.cansay_depth },
    )
}

/// The position of a predicate name in the depth map, searching from `i`;
/// negative when absent.
pub open spec fn spec_depth_index_from(
    m: Seq<(Seq<char>, u64)>,
    name: Seq<char>,
    i: int,
) -> int
    decreases m.len() - i,
{
    if i < 0 || i >= m.len() {
        -1
    } else if m[i].0 == name {
        i
    } else {
        spec_depth_index_from(m, name, i + 1)
    }
}

/// Records a `canSay` depth for a predicate, keeping the maximum.
pub open spec fn spec_update_depth(
    m: Seq<(Seq<char>, u64)>,
    name: Seq<char>,
    d: u64,
) -> Seq<(Seq<char>, u64)> {
    let i = spec_depth_index_from(m, name, 0);
    if i < 0 {
        m.push((name, d))
    } else if d > m[i].1 {
        m.update(i, (name, d))
    } else {
        m
    }
}

pub open spec fn spec_update_depth_state(
    st: SpecLoweringState,
    name: Seq<char>,
    d: u64,
) -> SpecLoweringState {
    SpecLoweringState {
        fresh_var_count: st.fresh_var_count,
        cansay_depth: spec_update_depth(st.cansay_depth, name, d),
    }
}

// ---------------------------------------------------------------------------
// Ghost model of the translation
// ---------------------------------------------------------------------------

/// Prefixes a predicate's name with `modifier` and its arguments with
/// `args_prefix`.
pub open spec fn spec_push_onto_pred(
    modifier: Seq<char>,
    args_prefix: Seq<Seq<char>>,
    pred: SpecPredicate,
) -> SpecPredicate {
    SpecPredicate {
        sign: pred.sign,
        name: modifier + pred.name,
        args: args_prefix + pred.args,
    }
}

/// Prefixes a predicate with a modifier and a principal's name as its first
/// argument.
pub open spec fn spec_push_prin(
    modifier: Seq<char>,
    p: SpecPrincipal,
    pred: SpecPredicate,
) -> SpecPredicate {
    spec_push_onto_pred(modifier, seq![p.name], pred)
}

/// Flattens a verb phrase into a predicate; `canActAs P` becomes the fixed
/// `canActAs` relation applied to `P`.
pub open spec fn spec_verbphrase_to_dlir(v: SpecVerbPhrase) -> SpecPredicate {
    match v {
        SpecVerbPhrase::PredPhrase { p } => p,
        SpecVerbPhrase::CanActPhrase { p } => SpecPredicate {
            sign: Sign::Positive,
            name: "canActAs"@,
            args: seq![p.name],
        },
    }
}

/// Lowers a flat fact under a speaker. For `B <verbphrase>` the result is the
/// verb-phrase predicate with `B` prepended, together with the inheritance
/// rule `speaker says x vp :- speaker says x canActAs B, speaker says B vp`
/// for a fresh `x`.
pub open spec fn spec_flat_fact_to_dlir(
    f: SpecFlatFact,
    speaker: SpecPrincipal,
    st: SpecLoweringState,
) -> (SpecPredicate, Seq<SpecDLIRAssertion>, SpecLoweringState) {
    match f {
        SpecFlatFact::PrinFact { p, v } => {
            let v_dlir = spec_verbphrase_to_dlir(v);
            let pred = spec_push_prin(Seq::empty(), p, v_dlir);
            let (x, st1) = spec_fresh(st);
            let gen_lhs = spec_push_prin(
                "says_"@,
                speaker,
                spec_push_prin(Seq::empty(), SpecPrincipal { name: x }, v_dlir),
            );
            let x_as_p = SpecPredicate {
                sign: Sign::Positive,
                name: "canActAs"@,
                args: seq![x, p.name],
            };
            let s_says_x_as_p = spec_push_prin("says_"@, speaker, x_as_p);
            let s_says_p_v = spec_push_prin("says_"@, speaker, pred);
            let gen = SpecDLIRAssertion::CondAssertion {
                lhs: gen_lhs,
                rhs: seq![
                    SpecDLIRRvalue::PredicateRvalue { predicate: s_says_x_as_p },
                    SpecDLIRRvalue::PredicateRvalue { predicate: s_says_p_v },
                ],
            };
            (pred, seq![gen], st1)
        },
        SpecFlatFact::PredFact { p } => (p, Seq::empty(), st),
    }
}

/// The saturating successor used for the `canSay` call depth.
pub open spec fn spec_depth_succ(d: u64) -> u64 {
    if d < u64::MAX {
        (d + 1) as u64
    } else {
        d
    }
}

/// Lowers a fact under a speaker at a given `canSay` call depth. Each
/// `canSay` level prefixes the inner predicate and emits the delegation rule
/// `p says F :- x says F, p says x canSay F` for a fresh `x`; at the base the
/// maximum observed depth of the predicate is recorded.
pub open spec fn spec_fact_to_dlir(
    f: SpecFact,
    p: SpecPrincipal,
    call_depth: u64,
    st: SpecLoweringState,
) -> (SpecPredicate, Seq<SpecDLIRAssertion>, SpecLoweringState)
    decreases f,
{
    match f {
        SpecFact::FlatFactFact { f: flat } => {
            let (gen_pred, gen_rules, st1) = spec_flat_fact_to_dlir(flat, p, st);
            (gen_pred, gen_rules, spec_update_depth_state(st1, gen_pred.name, call_depth))
        },
        SpecFact::CanSayFact { p: q, f: f_plus } => {
            let (fact_plus_prime, collected, st1) = spec_fact_to_dlir(
                *f_plus,
                p,
                spec_depth_succ(call_depth),
                st,
            );
            let f_prime = spec_push_prin("canSay_"@, q, fact_plus_prime);
            let (x, st2) = spec_fresh(st1);
            let lhs = spec_push_prin("says_"@, p, fact_plus_prime);
            let x_says_term = spec_push_prin("says_"@, SpecPrincipal { name: x }, fact_plus_prime);
            let can_say_term = spec_push_prin(
                "says_"@,
                p,
                spec_push_prin("canSay_"@, SpecPrincipal { name: x }, fact_plus_prime),
            );
            let gen = SpecDLIRAssertion::CondAssertion {
                lhs,
                rhs: seq![
                    SpecDLIRRvalue::PredicateRvalue { predicate: x_says_term },
                    SpecDLIRRvalue::PredicateRvalue { predicate: can_say_term },
                ],
            };
            (f_prime, collected.push(gen), st2)
        },
    }
}

/// Lowers a right-hand-side term: a flat fact becomes its speaker-prefixed
/// predicate (any generated rules are discarded, but the fresh-variable
/// counter still advances); a comparison passes through unchanged.
pub open spec fn spec_rvalue_to_dlir(
    speaker: SpecPrincipal,
    rv: crate::ast::SpecRValue,
    st: SpecLoweringState,
) -> (SpecDLIRRvalue, SpecLoweringState) {
    match rv {
        crate::ast::SpecRValue::FlatFactRValue { flat_fact } => {
            let (flat_pred, rules, st1) = spec_flat_fact_to_dlir(flat_fact, speaker, st);
            (
                SpecDLIRRvalue::PredicateRvalue {
                    predicate: spec_push_prin("says_"@, speaker, flat_pred),
                },
                st1,
            )
        },
        crate::ast::SpecRValue::BinopRValue { lnum, binop, rnum } => {
            (SpecDLIRRvalue::BinopRvalue { lnum, binop, rnum }, st)
        },
    }
}

pub open spec fn spec_rvalues_to_dlir_from(
    speaker: SpecPrincipal,
    rvs: Seq<crate::ast::SpecRValue>,
    i: int,
    acc: Seq<SpecDLIRRvalue>,
    st: SpecLoweringState,
) -> (Seq<SpecDLIRRvalue>, SpecLoweringState)
    decreases rvs.len() - i,
{
    if i < 0 || i >= rvs.len() {
        (acc, st)
    } else {
        let (rv, st1) = spec_rvalue_to_dlir(speaker, rvs[i], st);
        spec_rvalues_to_dlir_from(speaker, rvs, i + 1, acc.push(rv), st1)
    }
}

/// Lowers one assertion spoken by `speaker` into DLIR assertions: the
/// generated side rules, then the translated assertion itself, with every
/// predicate speaker-prefixed.
pub open spec fn spec_says_assertion_to_dlir_inner(
    speaker: SpecPrincipal,
    a: SpecAssertion,
    st: SpecLoweringState,
) -> (Seq<SpecDLIRAssertion>, SpecLoweringState) {
    match a {
        SpecAssertion::FactAssertion { f } => {
            let (pred, gen, st1) = spec_fact_to_dlir(f, speaker, 0, st);
            let pred_prime = spec_push_prin("says_"@, speaker, pred);
            (gen.push(SpecDLIRAssertion::FactAssertion { p: pred_prime }), st1)
        },
        SpecAssertion::CondAssertion { lhs, rhs } => {
            let (lhs_prime, gen, st1) = spec_fact_to_dlir(lhs, speaker, 0, st);
            let dlir_lhs = spec_push_prin("says_"@, speaker, lhs_prime);
            let (rhs_prime, st2) = spec_rvalues_to_dlir_from(speaker, rhs, 0, Seq::empty(), st1);
            (
                gen.push(SpecDLIRAssertion::CondAssertion { lhs: dlir_lhs, rhs: rhs_prime }),
                st2,
            )
        },
    }
}

pub open spec fn spec_says_inner_list_from(
    speaker: SpecPrincipal,
    asserts: Seq<SpecAssertion>,
    i: int,
    acc: Seq<SpecDLIRAssertion>,
    st: SpecLoweringState,
) -> (Seq<SpecDLIRAssertion>, SpecLoweringState)
    decreases asserts.len() - i,
{
    if i < 0 || i >= asserts.len() {
        (acc, st)
    } else {
        let (out, st1) = spec_says_assertion_to_dlir_inner(speaker, asserts[i], st);
        spec_says_inner_list_from(speaker, asserts, i + 1, acc + out, st1)
    }
}

/// Lowers one says-assertion: each of its assertions in order, under its
/// speaker.
pub open spec fn spec_says_assertion_to_dlir(sa: SpecSaysAssertion, st: SpecLoweringState) -> (
    Seq<SpecDLIRAssertion>,
    SpecLoweringState,
) {
    spec_says_inner_list_from(sa.prin, sa.assertions, 0, Seq::empty(), st)
}

pub open spec fn spec_says_list_from(
    says: Seq<SpecSaysAssertion>,
    i: int,
    acc: Seq<SpecDLIRAssertion>,
    st: SpecLoweringState,
) -> (Seq<SpecDLIRAssertion>, SpecLoweringState)
    decreases says.len() - i,
{
    if i < 0 || i >= says.len() {
        (acc, st)
    } else {
        let (out, st1) = spec_says_assertion_to_dlir(says[i], st);
        spec_says_list_from(says, i + 1, acc + out, st1)
    }
}

/// The fixed grounding anchor `grounded_dummy("dummy_var")`.
pub open spec fn spec_dummy_fact() -> SpecPredicate {
    SpecPredicate {
        sign: Sign::Positive,
        name: "grounded_dummy"@,
        args: seq!["\"dummy_var\""@],
    }
}

/// Compiles a query: its fact is lowered under the queried principal (side
/// rules discarded), and the query name becomes a rule anchored on the dummy
/// fact.
pub open spec fn spec_query_to_dlir(q: SpecQuery, st: SpecLoweringState) -> (
    SpecDLIRAssertion,
    SpecLoweringState,
) {
    let (main_fact, rules, st1) = spec_fact_to_dlir(q.fact, q.principal, 0, st);
    let main = spec_push_prin("says_"@, q.principal, main_fact);
    let lhs = SpecPredicate { sign: Sign::Positive, name: q.name, args: seq!["\"dummy_var\""@] };
    (
        SpecDLIRAssertion::CondAssertion {
            lhs,
            rhs: seq![
                SpecDLIRRvalue::PredicateRvalue { predicate: main },
                SpecDLIRRvalue::PredicateRvalue { predicate: spec_dummy_fact() },
            ],
        },
        st1,
    )
}

pub open spec fn spec_queries_to_dlir_from(
    qs: Seq<SpecQuery>,
    i: int,
    acc: Seq<SpecDLIRAssertion>,
    st: SpecLoweringState,
) -> (Seq<SpecDLIRAssertion>, SpecLoweringState)
    decreases qs.len() - i,
{
    if i < 0 || i >= qs.len() {
        (acc, st)
    } else {
        let (out, st1) = spec_query_to_dlir(qs[i], st);
        spec_queries_to_dlir_from(qs, i + 1, acc.push(out), st1)
    }
}

// ---------------------------------------------------------------------------
// Ghost model of the declaration synthesis
// ---------------------------------------------------------------------------

/// The fixed declaration of `canActAs(p1, p2)`.
pub open spec fn spec_canactas_declaration() -> SpecRelationDeclaration {
    SpecRelationDeclaration {
        predicate_name: "canActAs"@,
        is_attribute: false,
        arg_typings: seq![
            ("p1"@, SpecType::PrincipalType),
            ("p2"@, SpecType::PrincipalType),
        ],
    }
}

/// An attribute relation gains a leading subject-principal argument.
pub open spec fn spec_handle_attribute_declaration(d: SpecRelationDeclaration)
    -> SpecRelationDeclaration {
    if d.is_attribute {
        SpecRelationDeclaration {
            predicate_name: d.predicate_name,
            is_attribute: false,
            arg_typings: seq![("attributed_prin"@, SpecType::PrincipalType)] + d.arg_typings,
        }
    } else {
        d
    }
}

/// The base declarations: the program's own, plus `canActAs`, attributes
/// expanded.
pub open spec fn spec_base_decls(decls: Seq<SpecRelationDeclaration>) -> Seq<
    SpecRelationDeclaration,
> {
    (decls + seq![spec_canactas_declaration()]).map_values(
        |d: SpecRelationDeclaration| spec_handle_attribute_declaration(d),
    )
}

/// Looks a declaration up by predicate name; the last one wins.
pub open spec fn spec_lookup_decl(
    decls: Seq<SpecRelationDeclaration>,
    name: Seq<char>,
) -> Option<SpecRelationDeclaration>
    decreases decls.len(),
{
    if decls.len() == 0 {
        None
    } else if decls.last().predicate_name == name {
        Some(decls.last())
    } else {
        spec_lookup_decl(decls.drop_last(), name)
    }
}

/// Prefixes a declaration with `delegation_depth` further `canSay_` layers,
/// each adding a leading delegatee-principal argument.
pub open spec fn spec_prefix_with_cansay(t: SpecRelationDeclaration, d: u64)
    -> SpecRelationDeclaration
    decreases d,
{
    if d == 0 {
        t
    } else {
        let less = spec_prefix_with_cansay(t, (d - 1) as u64);
        SpecRelationDeclaration {
            predicate_name: "canSay_"@ + less.predicate_name,
            is_attribute: false,
            arg_typings: seq![("delegatee"@ + spec_u64_str(d), SpecType::PrincipalType)]
                + less.arg_typings,
        }
    }
}

/// The `canSay_` declarations of one base declaration for every depth from
/// one up to `d`, shallowest first: a predicate observed at depth `d` may
/// also be used at every shallower depth.
pub open spec fn spec_cansay_decl_range(t: SpecRelationDeclaration, d: u64) -> Seq<
    SpecRelationDeclaration,
>
    decreases d,
{
    if d == 0 {
        Seq::empty()
    } else {
        spec_cansay_decl_range(t, (d - 1) as u64).push(spec_prefix_with_cansay(t, d))
    }
}

/// The extra declarations for predicates used under `canSay`: for each
/// predicate, one declaration per depth up to its maximum observed depth.
pub open spec fn spec_cansay_decls_from(
    depth_map: Seq<(Seq<char>, u64)>,
    i: int,
    base: Seq<SpecRelationDeclaration>,
    acc: Seq<SpecRelationDeclaration>,
) -> Result<Seq<SpecRelationDeclaration>, SpecCompileError>
    decreases depth_map.len() - i,
{
    if i < 0 || i >= depth_map.len() {
        Ok(acc)
    } else if depth_map[i].1 > 0 {
        match spec_lookup_decl(base, depth_map[i].0) {
            None => Err(SpecCompileError::UndeclaredRelation { relation: depth_map[i].0 }),
            Some(t) => spec_cansay_decls_from(
                depth_map,
                i + 1,
                base,
                acc + spec_cansay_decl_range(t, depth_map[i].1),
            ),
        }
    } else {
        spec_cansay_decls_from(depth_map, i + 1, base, acc)
    }
}

/// Every synthesized declaration is re-prefixed with `says_` and a leading
/// speaker argument.
pub open spec fn spec_says_prefix_decl(d: SpecRelationDeclaration) -> SpecRelationDeclaration {
    SpecRelationDeclaration {
        predicate_name: "says_"@ + d.predicate_name,
        is_attribute: false,
        arg_typings: seq![("speaker"@, SpecType::PrincipalType)] + d.arg_typings,
    }
}

/// The full declaration synthesis from the source declarations and the depth
/// map collected during lowering.
pub open spec fn spec_relation_declarations_to_dlir(
    depth_map: Seq<(Seq<char>, u64)>,
    decls: Seq<SpecRelationDeclaration>,
) -> Result<Seq<SpecRelationDeclaration>, SpecCompileError> {
    let base = spec_base_decls(decls);
    match spec_cansay_decls_from(depth_map, 0, base, Seq::empty()) {
        Err(e) => Err(e),
        Ok(cansay) => Ok(
            (base + cansay).map_values(|d: SpecRelationDeclaration| spec_says_prefix_decl(d)),
        ),
    }
}

/// The declaration synthesized for one query.
pub open spec fn spec_query_declaration(name: Seq<char>) -> SpecRelationDeclaration {
    SpecRelationDeclaration {
        predicate_name: name,
        is_attribute: false,
        arg_typings: seq![("dummy_param"@, SpecType::CustomType { name: "DummyType"@ })],
    }
}

/// One declaration per query, plus the grounding anchor's.
pub open spec fn spec_relation_declarations_for_queries(qs: Seq<SpecQuery>) -> Seq<
    SpecRelationDeclaration,
> {
    qs.map_values(|q: SpecQuery| spec_query_declaration(q.name)).push(
        spec_query_declaration("grounded_dummy"@),
    )
}

/// The initial lowering state.
pub open spec fn spec_initial_state() -> SpecLoweringState {
    SpecLoweringState { fresh_var_count: 0, cansay_depth: Seq::empty() }
}

/// The whole translation of a program, from a given starting state.
pub open spec fn spec_prog_to_dlir(prog: SpecProgram, st0: SpecLoweringState) -> Result<
    SpecDLIRProgram,
    SpecCompileError,
> {
    let (asserts, st1) = spec_says_list_from(prog.assertions, 0, Seq::empty(), st0);
    let (queries, st2) = spec_queries_to_dlir_from(prog.queries, 0, Seq::empty(), st1);
    let all_asserts = asserts + queries + seq![
        SpecDLIRAssertion::FactAssertion { p: spec_dummy_fact() },
    ];
    match spec_relation_declarations_to_dlir(st2.cansay_depth, prog.relation_declarations) {
        Err(e) => Err(e),
        Ok(decls) => Ok(
            SpecDLIRProgram {
                relation_declarations: decls + spec_relation_declarations_for_queries(
                    prog.queries,
                ),
                assertions: all_asserts,
                outputs: prog.queries.map_values(|q: SpecQuery| q.name),
            },
        ),
    }
}

/// The whole lowering pass.
pub open spec fn spec_lower(prog: SpecProgram) -> Result<SpecDLIRProgram, SpecCompileError> {
    spec_prog_to_dlir(prog, spec_initial_state())
}


// ---------------------------------------------------------------------------
// Executable pass
// ---------------------------------------------------------------------------

/// Prefixes a predicate's name with `modifier` and its arguments with
/// `args_`.
fn push_onto_pred(modifier: &str, args_: Vec<String>, pred: &AstPredicate) -> (r: AstPredicate)
    ensures
        r@ == spec_push_onto_pred(modifier@, strings_view(args_@), pred@),
{
    let new_name = modifier.to_owned().concat(pred.name.as_str());
    let mut args = args_;
    let ghost prefix = strings_view(args@);
    let mut rest = dup_strings(&pred.args);
    args.append(&mut rest);
    let r = AstPredicate { sign: pred.sign, name: new_name, args };
    proof {
        assert(r@.args =~= prefix + pred@.args);
    }
    r
}

/// Prefixes a predicate with a modifier and a principal's first argument.
fn push_prin(modifier: &str, p: &AstPrincipal, pred: &AstPredicate) -> (r: AstPredicate)
    ensures
        r@ == spec_push_prin(modifier@, p@, pred@),
{
    let args = vec![p.name.clone()];
    proof {
        assert(strings_view(args@) =~= seq![p@.name]);
    }
    push_onto_pred(modifier, args, pred)
}

/// Flattens a verb phrase into a predicate.
fn verbphrase_to_dlir(v: &AstVerbPhrase) -> (r: AstPredicate)
    ensures
        r@ == spec_verbphrase_to_dlir(v@),
{
    match v {
        AstVerbPhrase::AstPredPhrase { p } => p.dup(),
        AstVerbPhrase::AstCanActPhrase { p } => {
            let r = AstPredicate {
                sign: Sign::Positive,
                name: String::from_str("canActAs"),
                args: vec![p.name.clone()],
            };
            proof {
                assert(r@.args =~= seq![p@.name]);
            }
            r
        },
    }
}

/// The fixed grounding anchor.
fn dummy_fact() -> (r: AstPredicate)
    ensures
        r@ == spec_dummy_fact(),
{
    let r = AstPredicate {
        sign: Sign::Positive,
        name: String::from_str("grounded_dummy"),
        args: vec![String::from_str("\"dummy_var\"")],
    };
    proof {
        assert(r@.args =~= seq!["\"dummy_var\""@]);
    }
    r
}

/// The lowering pass: a fresh-variable counter and the per-predicate
/// maximum `canSay` depth, owned by one pass invocation.
pub struct LoweringToDatalogPass {
    fresh_var_count: u64,
    cansay_depth: Vec<(String, u64)>,
}

impl View for LoweringToDatalogPass {
    type V = SpecLoweringState;

    closed spec fn view(&self) -> SpecLoweringState {
        SpecLoweringState {
            fresh_var_count: self.fresh_var_count,
            cansay_depth: self.cansay_depth@.map_values(|e: (String, u64)| (e.0@, e.1)),
        }
    }
}

impl LoweringToDatalogPass {
    fn new() -> (r: LoweringToDatalogPass)
        ensures
            r@ == spec_initial_state(),
    {
        let r = LoweringToDatalogPass { fresh_var_count: 0, cansay_depth: Vec::new() };
        proof {
            assert(r@.cansay_depth =~= Seq::<(Seq<char>, u64)>::empty());
        }
        r
    }

    /// A fresh variable name that programmers are unlikely to use.
    fn fresh_var(&mut self) -> (r: String)
        ensures
            ({
                let (n, st) = spec_fresh(old(self)@);
                r@ == n && final(self)@ == st
            }),
    {
        if self.fresh_var_count < u64::MAX {
            self.fresh_var_count = self.fresh_var_count + 1;
        }
        let num = u64_to_string(self.fresh_var_count);
        String::from_str("x___").concat(num.as_str())
    }

    /// Records the `canSay` depth of a predicate, keeping the maximum.
    #[verifier::loop_isolation(false)]
    fn update_cansay_depth(&mut self, predicate_name: &String, depth: u64)
        ensures
            final(self)@ == spec_update_depth_state(old(self)@, predicate_name@, depth),
    {
        let ghost dmap = self@.cansay_depth;
        let mut i: usize = 0;
        while i < self.cansay_depth.len()
            invariant
                i <= self.cansay_depth.len(),
                self == old(self),
                dmap == self@.cansay_depth,
                spec_depth_index_from(dmap, predicate_name@, 0) == spec_depth_index_from(
                    dmap,
                    predicate_name@,
                    i as int,
                ),
            decreases self.cansay_depth.len() - i,
        {
            proof {
                assert(dmap[i as int] == (
                    self.cansay_depth@[i as int].0@,
                    self.cansay_depth@[i as int].1,
                ));
            }
            if str_eq(&self.cansay_depth[i].0, predicate_name) {
                if depth > self.cansay_depth[i].1 {
                    self.cansay_depth.set(i, (predicate_name.clone(), depth));
                    proof {
                        assert(self@.cansay_depth =~= dmap.update(
                            i as int,
                            (predicate_name@, depth),
                        ));
                    }
                }
                return ;
            }
            i = i + 1;
        }
        self.cansay_depth.push((predicate_name.clone(), depth));
        proof {
            assert(self@.cansay_depth =~= dmap.push((predicate_name@, depth)));
        }
    }

    /// Lowers a flat fact under a speaker, together with the inheritance
    /// rule that passes properties through `canActAs`.
    fn flat_fact_to_dlir(&mut self, f: &AstFlatFact, speaker: &AstPrincipal) -> (r: (
        AstPredicate,
        Vec<DLIRAssertion>,
    ))
        ensures
            ({
                let (sp, sgen, st) = spec_flat_fact_to_dlir(f@, speaker@, old(self)@);
                r.0@ == sp && dlir_assertions_view(r.1@) == sgen && final(self)@ == st
            }),
    {
        proof {
            reveal_strlit("");
            assert(""@ =~= Seq::<char>::empty());
        }
        match f {
            AstFlatFact::AstPrinFact { p, v } => {
                let v_dlir = verbphrase_to_dlir(v);
                let pred = push_prin("", p, &v_dlir);
                let x = AstPrincipal { name: self.fresh_var() };
                let gen_lhs = push_prin("says_", speaker, &push_prin("", &x, &v_dlir));
                let x_as_p = AstPredicate {
                    sign: Sign::Positive,
                    name: String::from_str("canActAs"),
                    args: vec![x.name.clone(), p.name.clone()],
                };
                proof {
                    assert(x_as_p@.args =~= seq![x@.name, p@.name]);
                }
                let s_says_x_as_p = push_prin("says_", speaker, &x_as_p);
                let s_says_p_v = push_prin("says_", speaker, &pred);
                let gen = DLIRAssertion::DLIRCondAssertion {
                    lhs: gen_lhs,
                    rhs: vec![
                        DLIRRvalue::PredicateRvalue { predicate: s_says_x_as_p },
                        DLIRRvalue::PredicateRvalue { predicate: s_says_p_v },
                    ],
                };
                let gens = vec![gen];
                proof {
                    let (sp, sgen, st) = spec_flat_fact_to_dlir(f@, speaker@, old(self)@);
                    assert(gens@[0]@->CondAssertion_rhs =~= sgen[0]->CondAssertion_rhs);
                    assert(gens@[0]@ == sgen[0]);
                    assert(dlir_assertions_view(gens@) =~= sgen);
                }
                (pred, gens)
            },
            AstFlatFact::AstPredFact { p } => {
                let gens: Vec<DLIRAssertion> = Vec::new();
                proof {
                    assert(dlir_assertions_view(gens@) =~= Seq::<SpecDLIRAssertion>::empty());
                }
                (p.dup(), gens)
            },
        }
    }

    /// Lowers a fact at a `canSay` call depth, emitting the delegation rule
    /// at each level and recording the depth of the base predicate.
    fn fact_to_dlir_inner(&mut self, f: &AstFact, p: &AstPrincipal, call_depth: u64) -> (r: (
        AstPredicate,
        Vec<DLIRAssertion>,
    ))
        ensures
            ({
                let (sp, sgen, st) = spec_fact_to_dlir(f@, p@, call_depth, old(self)@);
                r.0@ == sp && dlir_assertions_view(r.1@) == sgen && final(self)@ == st
            }),
        decreases f,
    {
        match f {
            AstFact::AstFlatFactFact { f: flat } => {
                let (gen_pred, gen_rules) = self.flat_fact_to_dlir(flat, p);
                self.update_cansay_depth(&gen_pred.name, call_depth);
                (gen_pred, gen_rules)
            },
            AstFact::AstCanSayFact { p: q, f: f_plus } => {
                let next_depth: u64 = if call_depth < u64::MAX {
                    call_depth + 1
                } else {
                    call_depth
                };
                let (fact_plus_prime, mut collected) = self.fact_to_dlir_inner(
                    f_plus,
                    p,
                    next_depth,
                );
                let f_prime = push_prin("canSay_", q, &fact_plus_prime);
                let x = AstPrincipal { name: self.fresh_var() };
                let lhs = push_prin("says_", p, &fact_plus_prime);
                let x_says_term = push_prin("says_", &x, &fact_plus_prime);
                let can_say_term = push_prin(
                    "says_",
                    p,
                    &push_prin("canSay_", &x, &fact_plus_prime),
                );
                let gen = DLIRAssertion::DLIRCondAssertion {
                    lhs,
                    rhs: vec![
                        DLIRRvalue::PredicateRvalue { predicate: x_says_term },
                        DLIRRvalue::PredicateRvalue { predicate: can_say_term },
                    ],
                };
                let ghost before = dlir_assertions_view(collected@);
                let ghost genv = gen@;
                proof {
                    let (sp, sgen, st) = spec_fact_to_dlir(f@, p@, call_depth, old(self)@);
                    assert(genv->CondAssertion_rhs =~= sgen.last()->CondAssertion_rhs);
                }
                collected.push(gen);
                proof {
                    assert(dlir_assertions_view(collected@) =~= before.push(genv));
                }
                (f_prime, collected)
            },
        }
    }

    /// Lowers a fact under a speaker (top-level entry, depth zero).
    fn fact_to_dlir(&mut self, f: &AstFact, p: &AstPrincipal) -> (r: (
        AstPredicate,
        Vec<DLIRAssertion>,
    ))
        ensures
            ({
                let (sp, sgen, st) = spec_fact_to_dlir(f@, p@, 0, old(self)@);
                r.0@ == sp && dlir_assertions_view(r.1@) == sgen && final(self)@ == st
            }),
    {
        self.fact_to_dlir_inner(f, p, 0)
    }

    /// Lowers a right-hand-side term: its generated rules are discarded, but
    /// the fresh-variable counter still advances.
    fn rvalue_to_dlir(&mut self, speaker: &AstPrincipal, rv: &crate::ast::AstRValue) -> (r:
        DLIRRvalue)
        ensures
            ({
                let (srv, st) = spec_rvalue_to_dlir(speaker@, rv@, old(self)@);
                r@ == srv && final(self)@ == st
            }),
    {
        match rv {
            crate::ast::AstRValue::FlatFactRValue { flat_fact } => {
                let (flat_pred, _unused) = self.flat_fact_to_dlir(flat_fact, speaker);
                DLIRRvalue::PredicateRvalue { predicate: push_prin("says_", speaker, &flat_pred) }
            },
            crate::ast::AstRValue::BinopRValue { lnum, binop, rnum } => DLIRRvalue::BinopRvalue {
                lnum: lnum.clone(),
                binop: *binop,
                rnum: rnum.clone(),
            },
        }
    }

    /// Lowers one assertion spoken by a speaker.
    #[verifier::loop_isolation(false)]
    fn says_assertion_to_dlir_inner(
        &mut self,
        speaker: &AstPrincipal,
        assertion: &AstAssertion,
    ) -> (r: Vec<DLIRAssertion>)
        ensures
            ({
                let (sout, st) = spec_says_assertion_to_dlir_inner(
                    speaker@,
                    assertion@,
                    old(self)@,
                );
                dlir_assertions_view(r@) == sout && final(self)@ == st
            }),
    {
        match assertion {
            AstAssertion::AstFactAssertion { f } => {
                let (pred, mut gen_assert) = self.fact_to_dlir(f, speaker);
                let pred_prime = push_prin("says_", speaker, &pred);
                let ghost before = dlir_assertions_view(gen_assert@);
                let fact_assert = DLIRAssertion::DLIRFactAssertion { p: pred_prime };
                let ghost fv = fact_assert@;
                gen_assert.push(fact_assert);
                proof {
                    assert(dlir_assertions_view(gen_assert@) =~= before.push(fv));
                }
                gen_assert
            },
            AstAssertion::AstCondAssertion { lhs, rhs } => {
                let (lhs_prime, mut assertions) = self.fact_to_dlir(lhs, speaker);
                let dlir_lhs = push_prin("says_", speaker, &lhs_prime);
                let ghost srvs = crate::ast::rvalues_view(rhs@);
                let ghost st_mid = self@;
                let mut out_rhs: Vec<DLIRRvalue> = Vec::new();
                proof {
                    assert(dlir_rvalues_view(out_rhs@) =~= Seq::<SpecDLIRRvalue>::empty());
                }
                let mut i: usize = 0;
                while i < rhs.len()
                    invariant
                        i <= rhs.len(),
                        spec_rvalues_to_dlir_from(speaker@, srvs, 0, Seq::empty(), st_mid)
                            == spec_rvalues_to_dlir_from(
                            speaker@,
                            srvs,
                            i as int,
                            dlir_rvalues_view(out_rhs@),
                            self@,
                        ),
                    decreases rhs.len() - i,
                {
                    proof {
                        assert(srvs[i as int] == rhs@[i as int]@);
                    }
                    let rv = self.rvalue_to_dlir(speaker, &rhs[i]);
                    let ghost before = dlir_rvalues_view(out_rhs@);
                    let ghost rvv = rv@;
                    out_rhs.push(rv);
                    proof {
                        assert(dlir_rvalues_view(out_rhs@) =~= before.push(rvv));
                    }
                    i = i + 1;
                }
                let ghost before = dlir_assertions_view(assertions@);
                let this_assertion = DLIRAssertion::DLIRCondAssertion {
                    lhs: dlir_lhs,
                    rhs: out_rhs,
                };
                let ghost tv = this_assertion@;
                assertions.push(this_assertion);
                proof {
                    assert(dlir_assertions_view(assertions@) =~= before.push(tv));
                }
                assertions
            },
        }
    }

    /// Lowers every assertion of a says-assertion, in order.
    #[verifier::loop_isolation(false)]
    fn says_assertion_to_dlir(&mut self, x: &AstSaysAssertion) -> (r: Vec<DLIRAssertion>)
        ensures
            ({
                let (sout, st) = spec_says_assertion_to_dlir(x@, old(self)@);
                dlir_assertions_view(r@) == sout && final(self)@ == st
            }),
    {
        let ghost sasserts = crate::ast::assertions_view(x.assertions@);
        let ghost st0 = self@;
        let mut out: Vec<DLIRAssertion> = Vec::new();
        proof {
            assert(dlir_assertions_view(out@) =~= Seq::<SpecDLIRAssertion>::empty());
        }
        let mut i: usize = 0;
        while i < x.assertions.len()
            invariant
                i <= x.assertions.len(),
                spec_says_inner_list_from(x@.prin, sasserts, 0, Seq::empty(), st0)
                    == spec_says_inner_list_from(
                    x@.prin,
                    sasserts,
                    i as int,
                    dlir_assertions_view(out@),
                    self@,
                ),
            decreases x.assertions.len() - i,
        {
            proof {
                assert(sasserts[i as int] == x.assertions@[i as int]@);
            }
            let mut one = self.says_assertion_to_dlir_inner(&x.prin, &x.assertions[i]);
            let ghost before = dlir_assertions_view(out@);
            let ghost onev = dlir_assertions_view(one@);
            out.append(&mut one);
            proof {
                assert(dlir_assertions_view(out@) =~= before + onev);
            }
            i = i + 1;
        }
        out
    }

    /// Compiles a query into an output rule anchored on the dummy fact.
    fn query_to_dlir(&mut self, query: &AstQuery) -> (r: DLIRAssertion)
        ensures
            ({
                let (sq, st) = spec_query_to_dlir(query@, old(self)@);
                r@ == sq && final(self)@ == st
            }),
    {
        let (main_fact, _unused) = self.fact_to_dlir(&query.fact, &query.principal);
        let main_fact = push_prin("says_", &query.principal, &main_fact);
        let lhs = AstPredicate {
            sign: Sign::Positive,
            name: query.name.clone(),
            args: vec![String::from_str("\"dummy_var\"")],
        };
        proof {
            assert(lhs@.args =~= seq!["\"dummy_var\""@]);
        }
        let r = DLIRAssertion::DLIRCondAssertion {
            lhs,
            rhs: vec![
                DLIRRvalue::PredicateRvalue { predicate: main_fact },
                DLIRRvalue::PredicateRvalue { predicate: dummy_fact() },
            ],
        };
        proof {
            let (sq, st) = spec_query_to_dlir(query@, old(self)@);
            assert(r@->CondAssertion_rhs =~= sq->CondAssertion_rhs);
        }
        r
    }
}


// ---------------------------------------------------------------------------
// Executable declaration synthesis
// ---------------------------------------------------------------------------

/// The fixed declaration of `canActAs(p1, p2)`.
fn canactas_declaration() -> (r: AstRelationDeclaration)
    ensures
        r@ == spec_canactas_declaration(),
{
    let r = AstRelationDeclaration {
        predicate_name: String::from_str("canActAs"),
        is_attribute: false,
        arg_typings: vec![
            (String::from_str("p1"), AstType::PrincipalType),
            (String::from_str("p2"), AstType::PrincipalType),
        ],
    };
    proof {
        assert(r@.arg_typings =~= spec_canactas_declaration().arg_typings);
    }
    r
}

/// Expands an attribute declaration with its subject-principal argument.
fn handle_attribute_declaration(decl: &AstRelationDeclaration) -> (r: AstRelationDeclaration)
    ensures
        r@ == spec_handle_attribute_declaration(decl@),
{
    if decl.is_attribute {
        let mut args = vec![(String::from_str("attributed_prin"), AstType::PrincipalType)];
        let ghost prefix = args@.map_values(|t: (String, AstType)| (t.0@, t.1@));
        let mut rest = dup_arg_typings(&decl.arg_typings);
        args.append(&mut rest);
        let r = AstRelationDeclaration {
            predicate_name: decl.predicate_name.clone(),
            is_attribute: false,
            arg_typings: args,
        };
        proof {
            assert(prefix =~= seq![("attributed_prin"@, SpecType::PrincipalType)]);
            assert(r@.arg_typings =~= prefix + decl@.arg_typings);
        }
        r
    } else {
        decl.dup()
    }
}

/// The base declarations: the program's own plus `canActAs`, attributes
/// expanded.
#[verifier::loop_isolation(false)]
fn base_decls(decls: &Vec<AstRelationDeclaration>) -> (r: Vec<AstRelationDeclaration>)
    ensures
        decls_view(r@) == spec_base_decls(decls_view(decls@)),
{
    let ghost sdecls = decls_view(decls@);
    let mut r: Vec<AstRelationDeclaration> = Vec::new();
    let mut i: usize = 0;
    while i < decls.len()
        invariant
            i <= decls.len(),
            r@.len() == i as int,
            forall|j: int|
                0 <= j < i as int ==> (#[trigger] r@[j])@ == spec_handle_attribute_declaration(
                    sdecls[j],
                ),
        decreases decls.len() - i,
    {
        proof {
            assert(sdecls[i as int] == decls@[i as int]@);
        }
        r.push(handle_attribute_declaration(&decls[i]));
        i = i + 1;
    }
    r.push(canactas_declaration());
    proof {
        assert(decls_view(r@) =~= spec_base_decls(sdecls));
    }
    r
}

/// Looks a declaration up by name; the last one wins.
#[verifier::loop_isolation(false)]
fn lookup_decl(decls: &Vec<AstRelationDeclaration>, name: &String) -> (r: Option<
    AstRelationDeclaration,
>)
    ensures
        match r {
            Some(d) => spec_lookup_decl(decls_view(decls@), name@) == Some(d@),
            None => spec_lookup_decl(decls_view(decls@), name@) is None,
        },
{
    let ghost sdecls = decls_view(decls@);
    let mut i: usize = decls.len();
    proof {
        assert(sdecls.take(sdecls.len() as int) =~= sdecls);
    }
    while i > 0
        invariant
            i <= decls.len(),
            spec_lookup_decl(sdecls, name@) == spec_lookup_decl(sdecls.take(i as int), name@),
        decreases i,
    {
        proof {
            assert(sdecls.take(i as int).last() == sdecls[i - 1]);
            assert(sdecls.take(i as int).drop_last() =~= sdecls.take(i - 1));
            assert(sdecls[i - 1] == decls@[i - 1]@);
        }
        if str_eq(&decls[i - 1].predicate_name, name) {
            return Some(decls[i - 1].dup());
        }
        i = i - 1;
    }
    proof {
        assert(sdecls.take(0) =~= Seq::<SpecRelationDeclaration>::empty());
    }
    None
}

/// Prefixes a declaration with `d` further `canSay_` layers.
fn prefix_with_cansay(t: &AstRelationDeclaration, d: u64) -> (r: AstRelationDeclaration)
    ensures
        r@ == spec_prefix_with_cansay(t@, d),
    decreases d,
{
    if d == 0 {
        t.dup()
    } else {
        let less = prefix_with_cansay(t, d - 1);
        let delegatee = String::from_str("delegatee").concat(u64_to_string(d).as_str());
        let mut args = vec![(delegatee, AstType::PrincipalType)];
        let ghost prefix = args@.map_values(|x: (String, AstType)| (x.0@, x.1@));
        let mut rest = less.arg_typings;
        let ghost rest_view = rest@.map_values(|x: (String, AstType)| (x.0@, x.1@));
        args.append(&mut rest);
        let r = AstRelationDeclaration {
            predicate_name: String::from_str("canSay_").concat(less.predicate_name.as_str()),
            is_attribute: false,
            arg_typings: args,
        };
        proof {
            assert(prefix =~= seq![("delegatee"@ + spec_u64_str(d), SpecType::PrincipalType)]);
            assert(r@.arg_typings =~= prefix + rest_view);
        }
        r
    }
}

/// Re-prefixes a declaration with `says_` and a speaker argument.
fn says_prefix_decl(decl: &AstRelationDeclaration) -> (r: AstRelationDeclaration)
    ensures
        r@ == spec_says_prefix_decl(decl@),
{
    let mut args = vec![(String::from_str("speaker"), AstType::PrincipalType)];
    let ghost prefix = args@.map_values(|t: (String, AstType)| (t.0@, t.1@));
    let mut rest = dup_arg_typings(&decl.arg_typings);
    args.append(&mut rest);
    let r = AstRelationDeclaration {
        predicate_name: String::from_str("says_").concat(decl.predicate_name.as_str()),
        is_attribute: false,
        arg_typings: args,
    };
    proof {
        assert(prefix =~= seq![("speaker"@, SpecType::PrincipalType)]);
        assert(r@.arg_typings =~= prefix + decl@.arg_typings);
    }
    r
}

/// The declaration synthesized for one query name.
fn query_declaration(name: &String) -> (r: AstRelationDeclaration)
    ensures
        r@ == spec_query_declaration(name@),
{
    let r = AstRelationDeclaration {
        predicate_name: name.clone(),
        is_attribute: false,
        arg_typings: vec![
            (
                String::from_str("dummy_param"),
                AstType::CustomType { name: String::from_str("DummyType") },
            ),
        ],
    };
    proof {
        assert(r@.arg_typings =~= spec_query_declaration(name@).arg_typings);
    }
    r
}

impl LoweringToDatalogPass {
    /// Synthesizes the relation declarations; must run after the body is
    /// lowered, because it reads the depth map populated by the lowering.
    #[verifier::loop_isolation(false)]
    fn relation_declarations_to_dlir(&self, decls: &Vec<AstRelationDeclaration>) -> (r: Result<
        Vec<AstRelationDeclaration>,
        CompileError,
    >)
        ensures
            match r {
                Ok(out) => spec_relation_declarations_to_dlir(
                    self@.cansay_depth,
                    decls_view(decls@),
                ) == Ok::<Seq<SpecRelationDeclaration>, SpecCompileError>(decls_view(out@)),
                Err(e) => spec_relation_declarations_to_dlir(
                    self@.cansay_depth,
                    decls_view(decls@),
                ) == Err::<Seq<SpecRelationDeclaration>, SpecCompileError>(e@),
            },
    {
        let ghost dmap = self@.cansay_depth;
        let base = base_decls(decls);
        let ghost sbase = decls_view(base@);
        let mut cansay: Vec<AstRelationDeclaration> = Vec::new();
        proof {
            assert(decls_view(cansay@) =~= Seq::<SpecRelationDeclaration>::empty());
        }
        let mut i: usize = 0;
        while i < self.cansay_depth.len()
            invariant
                i <= self.cansay_depth.len(),
                spec_cansay_decls_from(dmap, 0, sbase, Seq::empty()) == spec_cansay_decls_from(
                    dmap,
                    i as int,
                    sbase,
                    decls_view(cansay@),
                ),
            decreases self.cansay_depth.len() - i,
        {
            proof {
                assert(dmap[i as int] == (
                    self.cansay_depth@[i as int].0@,
                    self.cansay_depth@[i as int].1,
                ));
            }
            if self.cansay_depth[i].1 > 0 {
                match lookup_decl(&base, &self.cansay_depth[i].0) {
                    None => {
                        return Err(
                            CompileError::UndeclaredRelation {
                                relation: self.cansay_depth[i].0.clone(),
                            },
                        );
                    },
                    Some(t) => {
                        let depth = self.cansay_depth[i].1;
                        let ghost before = decls_view(cansay@);
                        let ghost tv = t@;
                        proof {
                            assert(before + spec_cansay_decl_range(tv, 0) =~= before);
                        }
                        let mut d: u64 = 0;
                        while d < depth
                            invariant
                                d <= depth,
                                decls_view(cansay@) == before + spec_cansay_decl_range(tv, d),
                            decreases depth - d,
                        {
                            let prefixed = prefix_with_cansay(&t, d + 1);
                            let ghost pv = prefixed@;
                            cansay.push(prefixed);
                            proof {
                                assert(decls_view(cansay@) =~= (before + spec_cansay_decl_range(
                                    tv,
                                    d,
                                )).push(pv));
                                assert(before + spec_cansay_decl_range(tv, (d + 1) as u64) =~= (
                                before + spec_cansay_decl_range(tv, d)).push(
                                    spec_prefix_with_cansay(tv, (d + 1) as u64),
                                ));
                            }
                            d = d + 1;
                        }
                        proof {
                            assert(decls_view(cansay@) == before + spec_cansay_decl_range(
                                tv,
                                dmap[i as int].1,
                            ));
                            assert(spec_lookup_decl(sbase, dmap[i as int].0) == Some(tv));
                        }
                    },
                }
            }
            i = i + 1;
        }
        let mut out: Vec<AstRelationDeclaration> = Vec::new();
        let mut i: usize = 0;
        while i < base.len()
            invariant
                i <= base.len(),
                out@.len() == i as int,
                forall|j: int|
                    0 <= j < i as int ==> (#[trigger] out@[j])@ == spec_says_prefix_decl(sbase[j]),
            decreases base.len() - i,
        {
            proof {
                assert(sbase[i as int] == base@[i as int]@);
            }
            out.push(says_prefix_decl(&base[i]));
            i = i + 1;
        }
        let ghost scansay = decls_view(cansay@);
        let mut i: usize = 0;
        while i < cansay.len()
            invariant
                i <= cansay.len(),
                out@.len() == base@.len() + i as int,
                forall|j: int|
                    0 <= j < base@.len() as int ==> (#[trigger] out@[j])@ == spec_says_prefix_decl(
                        sbase[j],
                    ),
                forall|j: int|
                    base@.len() <= j < base@.len() + i as int ==> (#[trigger] out@[j])@
                        == spec_says_prefix_decl(scansay[j - base@.len()]),
            decreases cansay.len() - i,
        {
            proof {
                assert(scansay[i as int] == cansay@[i as int]@);
            }
            out.push(says_prefix_decl(&cansay[i]));
            i = i + 1;
        }
        proof {
            assert(decls_view(out@) =~= (sbase + scansay).map_values(
                |d: SpecRelationDeclaration| spec_says_prefix_decl(d),
            ));
        }
        Ok(out)
    }

    /// One output declaration per query, plus the grounding anchor's.
    #[verifier::loop_isolation(false)]
    fn relation_declarations_for_queries(&self, queries: &Vec<AstQuery>) -> (r: Vec<
        AstRelationDeclaration,
    >)
        ensures
            decls_view(r@) == spec_relation_declarations_for_queries(
                crate::ast::queries_view(queries@),
            ),
    {
        let ghost sqs = crate::ast::queries_view(queries@);
        let mut r: Vec<AstRelationDeclaration> = Vec::new();
        let mut i: usize = 0;
        while i < queries.len()
            invariant
                i <= queries.len(),
                r@.len() == i as int,
                forall|j: int|
                    0 <= j < i as int ==> (#[trigger] r@[j])@ == spec_query_declaration(
                        sqs[j].name,
                    ),
            decreases queries.len() - i,
        {
            proof {
                assert(sqs[i as int] == queries@[i as int]@);
            }
            r.push(query_declaration(&queries[i].name));
            i = i + 1;
        }
        r.push(query_declaration(&String::from_str("grounded_dummy")));
        proof {
            assert(decls_view(r@) =~= spec_relation_declarations_for_queries(sqs));
        }
        r
    }

    /// The whole translation of a program.
    #[verifier::loop_isolation(false)]
    fn prog_to_dlir(&mut self, prog: &AstProgram) -> (r: Result<DLIRProgram, CompileError>)
        ensures
            match r {
                Ok(p) => spec_prog_to_dlir(prog@, old(self)@) == Ok::<
                    SpecDLIRProgram,
                    SpecCompileError,
                >(p@),
                Err(e) => spec_prog_to_dlir(prog@, old(self)@) == Err::<
                    SpecDLIRProgram,
                    SpecCompileError,
                >(e@),
            },
    {
        let ghost st0 = self@;
        let ghost ssays = crate::ast::says_view(prog.assertions@);
        let mut dlir_assertions: Vec<DLIRAssertion> = Vec::new();
        proof {
            assert(dlir_assertions_view(dlir_assertions@) =~= Seq::<SpecDLIRAssertion>::empty());
        }
        let mut i: usize = 0;
        while i < prog.assertions.len()
            invariant
                i <= prog.assertions.len(),
                spec_says_list_from(ssays, 0, Seq::empty(), st0) == spec_says_list_from(
                    ssays,
                    i as int,
                    dlir_assertions_view(dlir_assertions@),
                    self@,
                ),
            decreases prog.assertions.len() - i,
        {
            proof {
                assert(ssays[i as int] == prog.assertions@[i as int]@);
            }
            let mut one = self.says_assertion_to_dlir(&prog.assertions[i]);
            let ghost before = dlir_assertions_view(dlir_assertions@);
            let ghost onev = dlir_assertions_view(one@);
            dlir_assertions.append(&mut one);
            proof {
                assert(dlir_assertions_view(dlir_assertions@) =~= before + onev);
            }
            i = i + 1;
        }
        let ghost st1 = self@;
        let ghost sqs = crate::ast::queries_view(prog.queries@);
        let mut dlir_queries: Vec<DLIRAssertion> = Vec::new();
        proof {
            assert(dlir_assertions_view(dlir_queries@) =~= Seq::<SpecDLIRAssertion>::empty());
        }
        let mut i: usize = 0;
        while i < prog.queries.len()
            invariant
                i <= prog.queries.len(),
                spec_queries_to_dlir_from(sqs, 0, Seq::empty(), st1) == spec_queries_to_dlir_from(
                    sqs,
                    i as int,
                    dlir_assertions_view(dlir_queries@),
                    self@,
                ),
            decreases prog.queries.len() - i,
        {
            proof {
                assert(sqs[i as int] == prog.queries@[i as int]@);
            }
            let one = self.query_to_dlir(&prog.queries[i]);
            let ghost before = dlir_assertions_view(dlir_queries@);
            let ghost onev = one@;
            dlir_queries.push(one);
            proof {
                assert(dlir_assertions_view(dlir_queries@) =~= before.push(onev));
            }
            i = i + 1;
        }
        let ghost sasserts = dlir_assertions_view(dlir_assertions@);
        let ghost squeries = dlir_assertions_view(dlir_queries@);
        dlir_assertions.append(&mut dlir_queries);
        let dummy_assertion = DLIRAssertion::DLIRFactAssertion { p: dummy_fact() };
        dlir_assertions.push(dummy_assertion);
        proof {
            assert(dlir_assertions_view(dlir_assertions@) =~= sasserts + squeries + seq![
                SpecDLIRAssertion::FactAssertion { p: spec_dummy_fact() },
            ]);
        }
        let mut dlir_relation_declarations = match self.relation_declarations_to_dlir(
            &prog.relation_declarations,
        ) {
            Err(e) => {
                return Err(e);
            },
            Ok(d) => d,
        };
        let ghost sdecls = decls_view(dlir_relation_declarations@);
        let mut query_decls = self.relation_declarations_for_queries(&prog.queries);
        let ghost sqdecls = decls_view(query_decls@);
        dlir_relation_declarations.append(&mut query_decls);
        proof {
            assert(decls_view(dlir_relation_declarations@) =~= sdecls + sqdecls);
        }
        let mut outs: Vec<String> = Vec::new();
        let mut i: usize = 0;
        while i < prog.queries.len()
            invariant
                i <= prog.queries.len(),
                outs@.len() == i as int,
                forall|j: int| 0 <= j < i as int ==> (#[trigger] outs@[j])@ == sqs[j].name,
            decreases prog.queries.len() - i,
        {
            proof {
                assert(sqs[i as int] == prog.queries@[i as int]@);
            }
            outs.push(prog.queries[i].name.clone());
            i = i + 1;
        }
        let result = DLIRProgram {
            relation_declarations: dlir_relation_declarations,
            assertions: dlir_assertions,
            outputs: outs,
        };
        proof {
            let sp = spec_prog_to_dlir(prog@, st0)->Ok_0;
            assert(result@.outputs =~= sp.outputs);
            assert(result@.relation_declarations =~= sp.relation_declarations);
            assert(result@.assertions =~= sp.assertions);
        }
        Ok(result)
    }

    /// Converts a program into DLIR; the entry point of this pass.
    pub fn lower(prog: &AstProgram) -> (r: Result<DLIRProgram, CompileError>)
        ensures
            match r {
                Ok(p) => spec_lower(prog@) == Ok::<SpecDLIRProgram, SpecCompileError>(p@),
                Err(e) => spec_lower(prog@) == Err::<SpecDLIRProgram, SpecCompileError>(e@),
            },
    {
        let mut lowering_pass = LoweringToDatalogPass::new();
        lowering_pass.prog_to_dlir(prog)
    }
}


// ---------------------------------------------------------------------------
// Laws of the lowering
// ---------------------------------------------------------------------------

/// Lowering `speaker says P <verbphrase>` always emits exactly one side
/// rule: the inheritance rule that passes the property to any principal
/// that can act as `P`, `speaker says x vp :- speaker says x canActAs P,
/// speaker says P vp`, with `x` the fresh variable drawn from the state.
/// This rule is what makes properties (and, for the `canActAs` verb phrase
/// itself, `canActAs`) propagate through `canActAs`.
pub proof fn lemma_flat_fact_inheritance_rule(
    p: SpecPrincipal,
    v: SpecVerbPhrase,
    speaker: SpecPrincipal,
    st: SpecLoweringState,
)
    ensures
        ({
            let f = SpecFlatFact::PrinFact { p, v };
            let (pred, gens, st2) = spec_flat_fact_to_dlir(f, speaker, st);
            let x = spec_fresh(st).0;
            let vp = spec_verbphrase_to_dlir(v);
            &&& pred == spec_push_prin(Seq::empty(), p, vp)
            &&& gens.len() == 1
            &&& gens[0] == (SpecDLIRAssertion::CondAssertion {
                lhs: spec_push_prin(
                    "says_"@,
                    speaker,
                    spec_push_prin(Seq::empty(), SpecPrincipal { name: x }, vp),
                ),
                rhs: seq![
                    SpecDLIRRvalue::PredicateRvalue {
                        predicate: SpecPredicate {
                            sign: Sign::Positive,
                            name: "says_"@ + "canActAs"@,
                            args: seq![speaker.name, x, p.name],
                        },
                    },
                    SpecDLIRRvalue::PredicateRvalue {
                        predicate: spec_push_prin("says_"@, speaker, pred),
                    },
                ],
            })
            &&& st2 == spec_fresh(st).1
        }),
{
    let f = SpecFlatFact::PrinFact { p, v };
    let (pred, gens, st2) = spec_flat_fact_to_dlir(f, speaker, st);
    let x = spec_fresh(st).0;
    let x_as_p = SpecPredicate {
        sign: Sign::Positive,
        name: "canActAs"@,
        args: seq![x, p.name],
    };
    assert(spec_push_prin("says_"@, speaker, x_as_p).args =~= seq![speaker.name, x, p.name]);
    assert(spec_push_prin("says_"@, speaker, x_as_p) == (SpecPredicate {
        sign: Sign::Positive,
        name: "says_"@ + "canActAs"@,
        args: seq![speaker.name, x, p.name],
    }));
    assert(gens[0]->CondAssertion_rhs =~= seq![
        SpecDLIRRvalue::PredicateRvalue {
            predicate: SpecPredicate {
                sign: Sign::Positive,
                name: "says_"@ + "canActAs"@,
                args: seq![speaker.name, x, p.name],
            },
        },
        SpecDLIRRvalue::PredicateRvalue { predicate: spec_push_prin("says_"@, speaker, pred) },
    ]);
}

/// Lowering `p says q canSay F` always emits, besides the rules of `F`, the
/// delegation rule `p says F' :- x says F', p says x canSay F'` for a fresh
/// `x`, where `F'` is the lowered inner fact: `p` comes to believe whatever
/// a trusted delegate asserts itself.
pub proof fn lemma_cansay_delegation_rule(
    q: SpecPrincipal,
    inner: SpecFact,
    p: SpecPrincipal,
    call_depth: u64,
    st: SpecLoweringState,
)
    ensures
        ({
            let f = SpecFact::CanSayFact { p: q, f: Box::new(inner) };
            let (f_prime, gens, st2) = spec_fact_to_dlir(f, p, call_depth, st);
            let (fpp, inner_gens, st1) = spec_fact_to_dlir(
                inner,
                p,
                spec_depth_succ(call_depth),
                st,
            );
            let x = spec_fresh(st1).0;
            &&& f_prime == spec_push_prin("canSay_"@, q, fpp)
            &&& gens.len() == inner_gens.len() + 1
            &&& gens.take(inner_gens.len() as int) == inner_gens
            &&& gens.last() == (SpecDLIRAssertion::CondAssertion {
                lhs: spec_push_prin("says_"@, p, fpp),
                rhs: seq![
                    SpecDLIRRvalue::PredicateRvalue {
                        predicate: spec_push_prin("says_"@, SpecPrincipal { name: x }, fpp),
                    },
                    SpecDLIRRvalue::PredicateRvalue {
                        predicate: spec_push_prin(
                            "says_"@,
                            p,
                            spec_push_prin("canSay_"@, SpecPrincipal { name: x }, fpp),
                        ),
                    },
                ],
            })
        }),
{
    let f = SpecFact::CanSayFact { p: q, f: Box::new(inner) };
    let (f_prime, gens, st2) = spec_fact_to_dlir(f, p, call_depth, st);
    let (fpp, inner_gens, st1) = spec_fact_to_dlir(inner, p, spec_depth_succ(call_depth), st);
    assert(gens =~= inner_gens.push(gens.last()));
    assert(gens.take(inner_gens.len() as int) =~= inner_gens);
}

/// The arity of a `canSay_`-prefixed declaration: depth `d` adds exactly
/// `d` leading delegatee-principal columns to the base declaration.
pub proof fn lemma_prefix_with_cansay_arity(t: SpecRelationDeclaration, d: u64)
    ensures
        spec_prefix_with_cansay(t, d).arg_typings.len() == t.arg_typings.len() + d,
    decreases d,
{
    if d > 0 {
        lemma_prefix_with_cansay_arity(t, (d - 1) as u64);
    }
}

/// The range of `canSay_` declarations of a base declaration contains the
/// declaration of every depth up to the maximum.
pub proof fn lemma_cansay_decl_range_contains(t: SpecRelationDeclaration, d: u64, k: u64)
    requires
        1 <= k <= d,
    ensures
        spec_cansay_decl_range(t, d).contains(spec_prefix_with_cansay(t, k)),
    decreases d,
{
    if k == d {
        assert(spec_cansay_decl_range(t, d).last() == spec_prefix_with_cansay(t, d));
    } else {
        lemma_cansay_decl_range_contains(t, (d - 1) as u64, k);
        let smaller = spec_cansay_decl_range(t, (d - 1) as u64);
        let j = choose|j: int| 0 <= j < smaller.len() && smaller[j] == spec_prefix_with_cansay(
            t,
            k,
        );
        assert(spec_cansay_decl_range(t, d)[j] == spec_prefix_with_cansay(t, k));
    }
}

/// A successful declaration fold only appends: its accumulator is a prefix
/// of its result.
proof fn lemma_cansay_decls_from_prefix(
    depth_map: Seq<(Seq<char>, u64)>,
    i: int,
    base: Seq<SpecRelationDeclaration>,
    acc: Seq<SpecRelationDeclaration>,
    out: Seq<SpecRelationDeclaration>,
)
    requires
        spec_cansay_decls_from(depth_map, i, base, acc) == Ok::<
            Seq<SpecRelationDeclaration>,
            SpecCompileError,
        >(out),
    ensures
        acc.len() <= out.len(),
        out.take(acc.len() as int) == acc,
    decreases depth_map.len() - i,
{
    if i < 0 || i >= depth_map.len() {
        assert(out.take(acc.len() as int) =~= acc);
    } else if depth_map[i].1 > 0 {
        match spec_lookup_decl(base, depth_map[i].0) {
            None => {},
            Some(t) => {
                let acc2 = acc + spec_cansay_decl_range(t, depth_map[i].1);
                lemma_cansay_decls_from_prefix(depth_map, i + 1, base, acc2, out);
                assert(out.take(acc.len() as int) =~= acc2.take(acc.len() as int));
                assert(acc2.take(acc.len() as int) =~= acc);
            },
        }
    } else {
        lemma_cansay_decls_from_prefix(depth_map, i + 1, base, acc, out);
    }
}

proof fn lemma_cansay_decls_from_contains(
    depth_map: Seq<(Seq<char>, u64)>,
    j: int,
    base: Seq<SpecRelationDeclaration>,
    acc: Seq<SpecRelationDeclaration>,
    out: Seq<SpecRelationDeclaration>,
    i: int,
    k: u64,
)
    requires
        spec_cansay_decls_from(depth_map, j, base, acc) == Ok::<
            Seq<SpecRelationDeclaration>,
            SpecCompileError,
        >(out),
        0 <= j <= i < depth_map.len(),
        depth_map[i].1 > 0,
        1 <= k <= depth_map[i].1,
        spec_lookup_decl(base, depth_map[i].0) is Some,
    ensures
        out.contains(
            spec_prefix_with_cansay(spec_lookup_decl(base, depth_map[i].0)->Some_0, k),
        ),
    decreases i - j,
{
    let t_i = spec_lookup_decl(base, depth_map[i].0)->Some_0;
    if j == i {
        let acc2 = acc + spec_cansay_decl_range(t_i, depth_map[i].1);
        lemma_cansay_decls_from_prefix(depth_map, j + 1, base, acc2, out);
        lemma_cansay_decl_range_contains(t_i, depth_map[i].1, k);
        let range = spec_cansay_decl_range(t_i, depth_map[i].1);
        let r = choose|r: int| 0 <= r < range.len() && range[r] == spec_prefix_with_cansay(
            t_i,
            k,
        );
        assert(acc2[acc.len() + r] == spec_prefix_with_cansay(t_i, k));
        assert(out[acc.len() + r] == acc2[acc.len() + r]);
    } else {
        if depth_map[j].1 > 0 {
            match spec_lookup_decl(base, depth_map[j].0) {
                None => {},
                Some(t) => {
                    lemma_cansay_decls_from_contains(
                        depth_map,
                        j + 1,
                        base,
                        acc + spec_cansay_decl_range(t, depth_map[j].1),
                        out,
                        i,
                        k,
                    );
                },
            }
        } else {
            lemma_cansay_decls_from_contains(depth_map, j + 1, base, acc, out, i, k);
        }
    }
}

/// The delegation-depth law of the declaration synthesis: when a predicate
/// was observed under `canSay` at maximum depth `d` and its base relation
/// is declared, then for every depth `k` up to `d` the synthesized
/// declarations contain the speaker-prefixed `canSay_^k` declaration, whose
/// arity is the base arity plus `k` delegatee principals plus the speaker.
pub proof fn lemma_cansay_depth_declarations(
    depth_map: Seq<(Seq<char>, u64)>,
    decls: Seq<SpecRelationDeclaration>,
    out: Seq<SpecRelationDeclaration>,
    i: int,
    k: u64,
)
    requires
        spec_relation_declarations_to_dlir(depth_map, decls) == Ok::<
            Seq<SpecRelationDeclaration>,
            SpecCompileError,
        >(out),
        0 <= i < depth_map.len(),
        depth_map[i].1 > 0,
        1 <= k <= depth_map[i].1,
        spec_lookup_decl(spec_base_decls(decls), depth_map[i].0) is Some,
    ensures
        ({
            let t = spec_lookup_decl(spec_base_decls(decls), depth_map[i].0)->Some_0;
            let synthesized = spec_says_prefix_decl(spec_prefix_with_cansay(t, k));
            &&& out.contains(synthesized)
            &&& synthesized.arg_typings.len() == t.arg_typings.len() + k + 1
        }),
{
    let base = spec_base_decls(decls);
    let t = spec_lookup_decl(base, depth_map[i].0)->Some_0;
    let cansay = spec_cansay_decls_from(depth_map, 0, base, Seq::empty())->Ok_0;
    lemma_cansay_decls_from_contains(depth_map, 0, base, Seq::empty(), cansay, i, k);
    lemma_prefix_with_cansay_arity(t, k);
    let j = choose|j: int| 0 <= j < cansay.len() && cansay[j] == spec_prefix_with_cansay(t, k);
    let all = base + cansay;
    assert(all[base.len() + j] == spec_prefix_with_cansay(t, k));
    let mapped = all.map_values(|d: SpecRelationDeclaration| spec_says_prefix_decl(d));
    assert(mapped[base.len() + j] == spec_says_prefix_decl(spec_prefix_with_cansay(t, k)));
    assert(out.contains(spec_says_prefix_decl(spec_prefix_with_cansay(t, k))));
}

} // verus!


