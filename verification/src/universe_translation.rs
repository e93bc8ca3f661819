//! The universe (grounding) pass. Universe relations are facts of the form
//! `isSymbol(x)` that keep Datalog rules grounded and finite: the pass
//! (1) infers a type for every constant from the declared relation
//! signatures, (2) adds universe-membership conditions to the right-hand side
//! of every rule for the variables of its left-hand side, and (3) emits, for
//! every constant speaker and every typed constant, one universe-membership
//! fact asserted by that speaker.
//!
//! The pass maps a program to a new program; it runs before the lowering
//! pass. Referencing an undeclared relation and using one constant at two
//! distinct types are fatal errors.

use vstd::prelude::*;
use vstd::string::StrSliceExecFns;
use vstd::string::StringExecFns;

use crate::ast::{
    assertions_view, decls_view, dup_rvalues, preds_view, principals_view, rvalues_view,
    says_view, strings_view, dup_types, AstAssertion, AstFact, AstFlatFact, AstPredicate, AstPrincipal, AstProgram,
    AstQuery, AstRValue, AstRelationDeclaration, AstSaysAssertion, AstType, AstVerbPhrase, Sign,
    SpecAssertion, SpecFact, SpecFlatFact, SpecPredicate, SpecPrincipal, SpecProgram, SpecQuery,
    SpecRValue, SpecRelationDeclaration, SpecSaysAssertion, SpecType, SpecVerbPhrase,
};
use crate::errors::{CompileError, SpecCompileError};
use crate::text::{spec_dedup_first, str_eq};

verus! {

// ---------------------------------------------------------------------------
// Ghost model of the pass
// ---------------------------------------------------------------------------

/// A relation-type environment: relation name to the types of its argument
/// positions. A later entry shadows an earlier one with the same name.
pub type SpecRelTypeEnv = Seq<(Seq<char>, Seq<SpecType>)>;

/// A constant-type environment: constant name to its inferred type, in order
/// of first inference; names are unique.
pub type SpecConstTypeEnv = Seq<(Seq<char>, SpecType)>;

/// Whether a principal name or predicate argument is a constant: anything
/// quoted is a constant, and so is an all-digit numeric literal. "Digit"
/// means the ASCII digits 0-9, the characters Souffle evaluates as numbers.
pub open spec fn spec_is_name_constant(s: Seq<char>) -> bool {
    if s.len() > 0 && s[0] == '"' {
        true
    } else {
        forall|i: int| 0 <= i < s.len() ==> 48 <= (#[trigger] s[i]) as u32 <= 57
    }
}

/// The name of the universe relation of a type.
pub open spec fn spec_type_to_universe_name(t: SpecType) -> Seq<char> {
    match t {
        SpecType::NumberType => "isNumber"@,
        SpecType::PrincipalType => "isPrincipal"@,
        SpecType::CustomType { name } => "is"@ + name,
    }
}

/// Looks a relation up in the environment; the last declaration wins.
pub open spec fn spec_lookup_rel(env: SpecRelTypeEnv, name: Seq<char>) -> Option<Seq<SpecType>>
    decreases env.len(),
{
    if env.len() == 0 {
        None
    } else if env.last().0 == name {
        Some(env.last().1)
    } else {
        spec_lookup_rel(env.drop_last(), name)
    }
}

/// Looks a constant up in the environment; names are unique, so the first
/// match is the only one.
pub open spec fn spec_lookup_const(env: SpecConstTypeEnv, name: Seq<char>) -> Option<SpecType>
    decreases env.len(),
{
    if env.len() == 0 {
        None
    } else if env[0].0 == name {
        Some(env[0].1)
    } else {
        spec_lookup_const(env.drop_first(), name)
    }
}

/// The relation-type environment read off a list of declarations.
pub open spec fn spec_relenv(decls: Seq<SpecRelationDeclaration>) -> SpecRelTypeEnv {
    decls.map_values(
        |d: SpecRelationDeclaration|
            (d.predicate_name, d.arg_typings.map_values(|t: (Seq<char>, SpecType)| t.1)),
    )
}

/// The `canActAs(p1, p2)` declaration as the grounding pass knows it.
pub open spec fn spec_canactas_decl() -> SpecRelationDeclaration {
    SpecRelationDeclaration {
        predicate_name: "canActAs"@,
        is_attribute: false,
        arg_typings: seq![
            ("p1"@, SpecType::PrincipalType),
            ("p2"@, SpecType::PrincipalType),
        ],
    }
}

/// The declarations the grounding pass types against: the program's own,
/// the synthesized `canActAs`, and the universe relations themselves.
pub open spec fn spec_typing_decls(decls: Seq<SpecRelationDeclaration>) -> Seq<
    SpecRelationDeclaration,
> {
    decls + seq![spec_canactas_decl()] + spec_universe_declarations(decls)
}

/// Binds a constant to a type: variables are ignored, a fresh constant is
/// appended, a re-bound constant must keep its type.
pub open spec fn spec_add_typing(env: SpecConstTypeEnv, arg: Seq<char>, t: SpecType) -> Result<
    SpecConstTypeEnv,
    SpecCompileError,
> {
    if !spec_is_name_constant(arg) {
        Ok(env)
    } else {
        match spec_lookup_const(env, arg) {
            None => Ok(env.push((arg, t))),
            Some(old_t) => if old_t == t {
                Ok(env)
            } else {
                Err(SpecCompileError::TypeConflict { constant: arg })
            },
        }
    }
}

/// Binds the constants among a predicate's arguments, from position `i` on,
/// to the declared types of their positions; an over-applied relation is an
/// error.
pub open spec fn spec_populate_args_from(
    typing: Seq<SpecType>,
    name: Seq<char>,
    args: Seq<Seq<char>>,
    i: int,
    env: SpecConstTypeEnv,
) -> Result<SpecConstTypeEnv, SpecCompileError>
    decreases args.len() - i,
{
    if i < 0 || i >= args.len() {
        Ok(env)
    } else if i >= typing.len() {
        Err(SpecCompileError::UndeclaredRelation { relation: name })
    } else {
        match spec_add_typing(env, args[i], typing[i]) {
            Err(e) => Err(e),
            Ok(env2) => spec_populate_args_from(typing, name, args, i + 1, env2),
        }
    }
}

pub open spec fn spec_populate_predicate(
    relenv: SpecRelTypeEnv,
    env: SpecConstTypeEnv,
    p: SpecPredicate,
) -> Result<SpecConstTypeEnv, SpecCompileError> {
    match spec_lookup_rel(relenv, p.name) {
        None => Err(SpecCompileError::UndeclaredRelation { relation: p.name }),
        Some(typing) => spec_populate_args_from(typing, p.name, p.args, 0, env),
    }
}

pub open spec fn spec_populate_flat_fact(
    relenv: SpecRelTypeEnv,
    env: SpecConstTypeEnv,
    f: SpecFlatFact,
) -> Result<SpecConstTypeEnv, SpecCompileError> {
    match f {
        SpecFlatFact::PrinFact { p, v } => match spec_add_typing(
            env,
            p.name,
            SpecType::PrincipalType,
        ) {
            Err(e) => Err(e),
            Ok(env2) => match v {
                SpecVerbPhrase::PredPhrase { p: pred } => spec_populate_predicate(
                    relenv,
                    env2,
                    pred,
                ),
                SpecVerbPhrase::CanActPhrase { p: as_p } => spec_add_typing(
                    env2,
                    as_p.name,
                    SpecType::PrincipalType,
                ),
            },
        },
        SpecFlatFact::PredFact { p } => spec_populate_predicate(relenv, env, p),
    }
}

pub open spec fn spec_populate_fact(
    relenv: SpecRelTypeEnv,
    env: SpecConstTypeEnv,
    f: SpecFact,
) -> Result<SpecConstTypeEnv, SpecCompileError>
    decreases f,
{
    match f {
        SpecFact::FlatFactFact { f: flat } => spec_populate_flat_fact(relenv, env, flat),
        SpecFact::CanSayFact { p, f: inner } => match spec_add_typing(
            env,
            p.name,
            SpecType::PrincipalType,
        ) {
            Err(e) => Err(e),
            Ok(env2) => spec_populate_fact(relenv, env2, *inner),
        },
    }
}

pub open spec fn spec_populate_rvalue(
    relenv: SpecRelTypeEnv,
    env: SpecConstTypeEnv,
    r: SpecRValue,
) -> Result<SpecConstTypeEnv, SpecCompileError> {
    match r {
        SpecRValue::FlatFactRValue { flat_fact } => spec_populate_flat_fact(
            relenv,
            env,
            flat_fact,
        ),
        SpecRValue::BinopRValue { lnum, binop, rnum } => match spec_add_typing(
            env,
            lnum,
            SpecType::NumberType,
        ) {
            Err(e) => Err(e),
            Ok(env2) => spec_add_typing(env2, rnum, SpecType::NumberType),
        },
    }
}

pub open spec fn spec_populate_rvalues_from(
    relenv: SpecRelTypeEnv,
    rs: Seq<SpecRValue>,
    i: int,
    env: SpecConstTypeEnv,
) -> Result<SpecConstTypeEnv, SpecCompileError>
    decreases rs.len() - i,
{
    if i < 0 || i >= rs.len() {
        Ok(env)
    } else {
        match spec_populate_rvalue(relenv, env, rs[i]) {
            Err(e) => Err(e),
            Ok(env2) => spec_populate_rvalues_from(relenv, rs, i + 1, env2),
        }
    }
}

pub open spec fn spec_populate_assertion(
    relenv: SpecRelTypeEnv,
    env: SpecConstTypeEnv,
    a: SpecAssertion,
) -> Result<SpecConstTypeEnv, SpecCompileError> {
    match a {
        SpecAssertion::FactAssertion { f } => spec_populate_fact(relenv, env, f),
        SpecAssertion::CondAssertion { lhs, rhs } => match spec_populate_fact(relenv, env, lhs) {
            Err(e) => Err(e),
            Ok(env2) => spec_populate_rvalues_from(relenv, rhs, 0, env2),
        },
    }
}

pub open spec fn spec_populate_assertions_from(
    relenv: SpecRelTypeEnv,
    asserts: Seq<SpecAssertion>,
    i: int,
    env: SpecConstTypeEnv,
) -> Result<SpecConstTypeEnv, SpecCompileError>
    decreases asserts.len() - i,
{
    if i < 0 || i >= asserts.len() {
        Ok(env)
    } else {
        match spec_populate_assertion(relenv, env, asserts[i]) {
            Err(e) => Err(e),
            Ok(env2) => spec_populate_assertions_from(relenv, asserts, i + 1, env2),
        }
    }
}

/// Adds the speaker typings: every speaking principal is a principal.
pub open spec fn spec_populate_speakers_from(
    says: Seq<SpecSaysAssertion>,
    i: int,
    env: SpecConstTypeEnv,
) -> Result<SpecConstTypeEnv, SpecCompileError>
    decreases says.len() - i,
{
    if i < 0 || i >= says.len() {
        Ok(env)
    } else {
        match spec_add_typing(env, says[i].prin.name, SpecType::PrincipalType) {
            Err(e) => Err(e),
            Ok(env2) => spec_populate_speakers_from(says, i + 1, env2),
        }
    }
}

/// Adds the typings of the assertions inside each says-assertion, in order.
pub open spec fn spec_populate_says_bodies_from(
    relenv: SpecRelTypeEnv,
    says: Seq<SpecSaysAssertion>,
    i: int,
    env: SpecConstTypeEnv,
) -> Result<SpecConstTypeEnv, SpecCompileError>
    decreases says.len() - i,
{
    if i < 0 || i >= says.len() {
        Ok(env)
    } else {
        match spec_populate_assertions_from(relenv, says[i].assertions, 0, env) {
            Err(e) => Err(e),
            Ok(env2) => spec_populate_says_bodies_from(relenv, says, i + 1, env2),
        }
    }
}

pub open spec fn spec_populate_query(
    relenv: SpecRelTypeEnv,
    env: SpecConstTypeEnv,
    q: SpecQuery,
) -> Result<SpecConstTypeEnv, SpecCompileError> {
    match spec_add_typing(env, q.principal.name, SpecType::PrincipalType) {
        Err(e) => Err(e),
        Ok(env2) => spec_populate_fact(relenv, env2, q.fact),
    }
}

pub open spec fn spec_populate_queries_from(
    relenv: SpecRelTypeEnv,
    qs: Seq<SpecQuery>,
    i: int,
    env: SpecConstTypeEnv,
) -> Result<SpecConstTypeEnv, SpecCompileError>
    decreases qs.len() - i,
{
    if i < 0 || i >= qs.len() {
        Ok(env)
    } else {
        match spec_populate_query(relenv, env, qs[i]) {
            Err(e) => Err(e),
            Ok(env2) => spec_populate_queries_from(relenv, qs, i + 1, env2),
        }
    }
}

/// The constant-type environment of a whole program: speakers first, then the
/// bodies of the says-assertions, then the queries.
pub open spec fn spec_populate_prog(relenv: SpecRelTypeEnv, prog: SpecProgram) -> Result<
    SpecConstTypeEnv,
    SpecCompileError,
> {
    match spec_populate_speakers_from(prog.assertions, 0, Seq::empty()) {
        Err(e) => Err(e),
        Ok(env1) => match spec_populate_says_bodies_from(relenv, prog.assertions, 0, env1) {
            Err(e) => Err(e),
            Ok(env2) => spec_populate_queries_from(relenv, prog.queries, 0, env2),
        },
    }
}

// ---------------------------------------------------------------------------
// Grounding conditions
// ---------------------------------------------------------------------------

/// The universe condition of a principal position: none for a constant, an
/// `isPrincipal` membership test for a variable.
pub open spec fn spec_universe_condition_principal(p: SpecPrincipal) -> Option<SpecPredicate> {
    if spec_is_name_constant(p.name) {
        None
    } else {
        Some(
            SpecPredicate {
                sign: Sign::Positive,
                name: spec_type_to_universe_name(SpecType::PrincipalType),
                args: seq![p.name],
            },
        )
    }
}

/// The universe conditions of a predicate's arguments from position `i` on,
/// in argument order: a membership test for every variable argument.
pub open spec fn spec_universe_conditions_args_from(
    typing: Seq<SpecType>,
    name: Seq<char>,
    args: Seq<Seq<char>>,
    i: int,
    acc: Seq<SpecPredicate>,
) -> Result<Seq<SpecPredicate>, SpecCompileError>
    decreases args.len() - i,
{
    if i < 0 || i >= args.len() {
        Ok(acc)
    } else if spec_is_name_constant(args[i]) {
        spec_universe_conditions_args_from(typing, name, args, i + 1, acc)
    } else if i >= typing.len() {
        Err(SpecCompileError::UndeclaredRelation { relation: name })
    } else {
        spec_universe_conditions_args_from(
            typing,
            name,
            args,
            i + 1,
            acc.push(
                SpecPredicate {
                    sign: Sign::Positive,
                    name: spec_type_to_universe_name(typing[i]),
                    args: seq![args[i]],
                },
            ),
        )
    }
}

pub open spec fn spec_universe_conditions_predicate(
    relenv: SpecRelTypeEnv,
    p: SpecPredicate,
) -> Result<Seq<SpecPredicate>, SpecCompileError> {
    match spec_lookup_rel(relenv, p.name) {
        None => Err(SpecCompileError::UndeclaredRelation { relation: p.name }),
        Some(typing) => spec_universe_conditions_args_from(typing, p.name, p.args, 0, Seq::empty()),
    }
}

pub open spec fn spec_universe_conditions_verb_phrase(
    relenv: SpecRelTypeEnv,
    v: SpecVerbPhrase,
) -> Result<Seq<SpecPredicate>, SpecCompileError> {
    match v {
        SpecVerbPhrase::PredPhrase { p } => spec_universe_conditions_predicate(relenv, p),
        SpecVerbPhrase::CanActPhrase { p } => match spec_universe_condition_principal(p) {
            None => Ok(Seq::empty()),
            Some(c) => Ok(seq![c]),
        },
    }
}

pub open spec fn spec_universe_conditions_flat_fact(
    relenv: SpecRelTypeEnv,
    f: SpecFlatFact,
) -> Result<Seq<SpecPredicate>, SpecCompileError> {
    match f {
        SpecFlatFact::PrinFact { p, v } => match spec_universe_conditions_verb_phrase(relenv, v) {
            Err(e) => Err(e),
            Ok(conds) => match spec_universe_condition_principal(p) {
                None => Ok(conds),
                Some(c) => Ok(conds.push(c)),
            },
        },
        SpecFlatFact::PredFact { p } => spec_universe_conditions_predicate(relenv, p),
    }
}

/// The universe conditions of a left-hand-side fact: the conditions of its
/// flat fact, then one `isPrincipal` condition per variable delegatee, inner
/// delegatees first.
pub open spec fn spec_universe_conditions_fact(relenv: SpecRelTypeEnv, f: SpecFact) -> Result<
    Seq<SpecPredicate>,
    SpecCompileError,
>
    decreases f,
{
    match f {
        SpecFact::FlatFactFact { f: flat } => spec_universe_conditions_flat_fact(relenv, flat),
        SpecFact::CanSayFact { p, f: inner } => match spec_universe_conditions_fact(
            relenv,
            *inner,
        ) {
            Err(e) => Err(e),
            Ok(conds) => match spec_universe_condition_principal(p) {
                None => Ok(conds),
                Some(c) => Ok(conds.push(c)),
            },
        },
    }
}

/// Wraps universe predicates as right-hand-side terms.
pub open spec fn spec_conds_as_rvalues(conds: Seq<SpecPredicate>) -> Seq<SpecRValue> {
    conds.map_values(
        |c: SpecPredicate| SpecRValue::FlatFactRValue { flat_fact: SpecFlatFact::PredFact { p: c } },
    )
}

/// Rewrites one assertion: an unconditional assertion whose left-hand side
/// has variables becomes conditional on exactly its universe conditions; a
/// conditional assertion has them appended to its body.
pub open spec fn spec_add_universe_conditions_assertion(
    relenv: SpecRelTypeEnv,
    a: SpecAssertion,
) -> Result<SpecAssertion, SpecCompileError> {
    match a {
        SpecAssertion::FactAssertion { f } => match spec_universe_conditions_fact(relenv, f) {
            Err(e) => Err(e),
            Ok(conds) => if conds.len() > 0 {
                Ok(SpecAssertion::CondAssertion { lhs: f, rhs: spec_conds_as_rvalues(conds) })
            } else {
                Ok(a)
            },
        },
        SpecAssertion::CondAssertion { lhs, rhs } => match spec_universe_conditions_fact(
            relenv,
            lhs,
        ) {
            Err(e) => Err(e),
            Ok(conds) => Ok(
                SpecAssertion::CondAssertion { lhs, rhs: rhs + spec_conds_as_rvalues(conds) },
            ),
        },
    }
}

pub open spec fn spec_add_universe_conditions_assertions_from(
    relenv: SpecRelTypeEnv,
    asserts: Seq<SpecAssertion>,
    i: int,
    acc: Seq<SpecAssertion>,
) -> Result<Seq<SpecAssertion>, SpecCompileError>
    decreases asserts.len() - i,
{
    if i < 0 || i >= asserts.len() {
        Ok(acc)
    } else {
        match spec_add_universe_conditions_assertion(relenv, asserts[i]) {
            Err(e) => Err(e),
            Ok(a) => spec_add_universe_conditions_assertions_from(
                relenv,
                asserts,
                i + 1,
                acc.push(a),
            ),
        }
    }
}

pub open spec fn spec_add_universe_conditions_says(
    relenv: SpecRelTypeEnv,
    sa: SpecSaysAssertion,
) -> Result<SpecSaysAssertion, SpecCompileError> {
    match spec_add_universe_conditions_assertions_from(relenv, sa.assertions, 0, Seq::empty()) {
        Err(e) => Err(e),
        Ok(asserts) => Ok(
            SpecSaysAssertion { prin: sa.prin, assertions: asserts, export_file: sa.export_file },
        ),
    }
}

pub open spec fn spec_add_universe_conditions_says_list_from(
    relenv: SpecRelTypeEnv,
    says: Seq<SpecSaysAssertion>,
    i: int,
    acc: Seq<SpecSaysAssertion>,
) -> Result<Seq<SpecSaysAssertion>, SpecCompileError>
    decreases says.len() - i,
{
    if i < 0 || i >= says.len() {
        Ok(acc)
    } else {
        match spec_add_universe_conditions_says(relenv, says[i]) {
            Err(e) => Err(e),
            Ok(sa) => spec_add_universe_conditions_says_list_from(relenv, says, i + 1, acc.push(sa)),
        }
    }
}

// ---------------------------------------------------------------------------
// Universe declarations and universe-defining facts
// ---------------------------------------------------------------------------

/// The custom-type names of one declaration's argument typings, from `j` on.
pub open spec fn spec_custom_names_of_typings_from(
    ts: Seq<(Seq<char>, SpecType)>,
    j: int,
    acc: Seq<Seq<char>>,
) -> Seq<Seq<char>>
    decreases ts.len() - j,
{
    if j < 0 || j >= ts.len() {
        acc
    } else {
        match ts[j].1 {
            SpecType::CustomType { name } => spec_custom_names_of_typings_from(
                ts,
                j + 1,
                acc.push(name),
            ),
            _ => spec_custom_names_of_typings_from(ts, j + 1, acc),
        }
    }
}

/// All custom-type names of the declarations, in order of occurrence,
/// duplicates kept.
pub open spec fn spec_custom_names_of_decls_from(
    decls: Seq<SpecRelationDeclaration>,
    i: int,
    acc: Seq<Seq<char>>,
) -> Seq<Seq<char>>
    decreases decls.len() - i,
{
    if i < 0 || i >= decls.len() {
        acc
    } else {
        spec_custom_names_of_decls_from(
            decls,
            i + 1,
            spec_custom_names_of_typings_from(decls[i].arg_typings, 0, acc),
        )
    }
}

/// One universe relation declaration for a type.
pub open spec fn spec_universe_declaration(t: SpecType) -> SpecRelationDeclaration {
    SpecRelationDeclaration {
        predicate_name: spec_type_to_universe_name(t),
        is_attribute: false,
        arg_typings: seq![("x"@, t)],
    }
}

/// The universe relation declarations: one per custom type in use (first
/// occurrences, in order), then one for numbers and one for principals.
pub open spec fn spec_universe_declarations(decls: Seq<SpecRelationDeclaration>) -> Seq<
    SpecRelationDeclaration,
> {
    spec_dedup_first(spec_custom_names_of_decls_from(decls, 0, Seq::empty())).map_values(
        |n: Seq<char>| spec_universe_declaration(SpecType::CustomType { name: n }),
    ) + seq![
        spec_universe_declaration(SpecType::NumberType),
        spec_universe_declaration(SpecType::PrincipalType),
    ]
}

/// Whether a principal with this name is already collected.
pub open spec fn spec_contains_prin(acc: Seq<SpecPrincipal>, name: Seq<char>) -> bool {
    exists|j: int| 0 <= j < acc.len() && (#[trigger] acc[j]).name == name
}

/// The distinct constant speakers of a list of says-assertions, in order of
/// first appearance.
pub open spec fn spec_const_speakers_from(
    says: Seq<SpecSaysAssertion>,
    i: int,
    acc: Seq<SpecPrincipal>,
) -> Seq<SpecPrincipal>
    decreases says.len() - i,
{
    if i < 0 || i >= says.len() {
        acc
    } else if spec_is_name_constant(says[i].prin.name) && !spec_contains_prin(
        acc,
        says[i].prin.name,
    ) {
        spec_const_speakers_from(says, i + 1, acc.push(says[i].prin))
    } else {
        spec_const_speakers_from(says, i + 1, acc)
    }
}

/// The universe-defining fact `isT(c)` spoken by `speaker`, for the constant
/// `c` of inferred type `t`.
pub open spec fn spec_universe_defining_says_assertion(
    speaker: SpecPrincipal,
    c: Seq<char>,
    t: SpecType,
) -> SpecSaysAssertion {
    SpecSaysAssertion {
        prin: speaker,
        assertions: seq![
            SpecAssertion::FactAssertion {
                f: SpecFact::FlatFactFact {
                    f: SpecFlatFact::PredFact {
                        p: SpecPredicate {
                            sign: Sign::Positive,
                            name: spec_type_to_universe_name(t),
                            args: seq![c],
                        },
                    },
                },
            },
        ],
        export_file: None,
    }
}

/// The universe-defining facts of one speaker, one per typed constant.
pub open spec fn spec_universe_facts_for_speaker(
    speaker: SpecPrincipal,
    cenv: SpecConstTypeEnv,
) -> Seq<SpecSaysAssertion> {
    cenv.map_values(
        |e: (Seq<char>, SpecType)| spec_universe_defining_says_assertion(speaker, e.0, e.1),
    )
}

/// The universe-defining facts: the product of constant speakers and typed
/// constants, grouped by speaker.
pub open spec fn spec_universe_facts_from(
    speakers: Seq<SpecPrincipal>,
    i: int,
    cenv: SpecConstTypeEnv,
    acc: Seq<SpecSaysAssertion>,
) -> Seq<SpecSaysAssertion>
    decreases speakers.len() - i,
{
    if i < 0 || i >= speakers.len() {
        acc
    } else {
        spec_universe_facts_from(
            speakers,
            i + 1,
            cenv,
            acc + spec_universe_facts_for_speaker(speakers[i], cenv),
        )
    }
}

/// The whole pass.
pub open spec fn spec_handle_universes(prog: SpecProgram) -> Result<
    SpecProgram,
    SpecCompileError,
> {
    let relenv = spec_relenv(spec_typing_decls(prog.relation_declarations));
    match spec_populate_prog(relenv, prog) {
        Err(e) => Err(e),
        Ok(cenv) => match spec_add_universe_conditions_says_list_from(
            relenv,
            prog.assertions,
            0,
            Seq::empty(),
        ) {
            Err(e) => Err(e),
            Ok(rewritten) => Ok(
                SpecProgram {
                    relation_declarations: prog.relation_declarations + spec_universe_declarations(
                        prog.relation_declarations,
                    ),
                    assertions: rewritten + spec_universe_facts_from(
                        spec_const_speakers_from(rewritten, 0, Seq::empty()),
                        0,
                        cenv,
                        Seq::empty(),
                    ),
                    queries: prog.queries,
                    imports: prog.imports,
                    priv_binds: prog.priv_binds,
                    pub_binds: prog.pub_binds,
                },
            ),
        },
    }
}


// ---------------------------------------------------------------------------
// Executable pass
// ---------------------------------------------------------------------------

/// The view of an executable relation-type environment.
pub open spec fn relenv_view(env: Seq<(String, Vec<AstType>)>) -> SpecRelTypeEnv {
    env.map_values(|e: (String, Vec<AstType>)| (e.0@, e.1@.map_values(|x: AstType| x@)))
}

/// The view of an executable constant-type environment.
pub open spec fn cenv_view(env: Seq<(String, AstType)>) -> SpecConstTypeEnv {
    env.map_values(|e: (String, AstType)| (e.0@, e.1@))
}

/// Whether a name is a constant: quoted, or all digits.
#[verifier::loop_isolation(false)]
pub fn is_name_constant(arg: &String) -> (r: bool)
    ensures
        r == spec_is_name_constant(arg@),
{
    let s = arg.as_str();
    let n = s.unicode_len();
    if n > 0 {
        let c0 = s.get_char(0);
        if c0 == '"' {
            return true;
        }
        proof {
            assert(s@[0] != '"');
        }
    }
    let mut i: usize = 0;
    while i < n
        invariant
            i <= n,
            n == s@.len(),
            forall|j: int| 0 <= j < i as int ==> 48 <= (#[trigger] s@[j]) as u32 <= 57,
        decreases n - i,
    {
        let c = s.get_char(i);
        let u = c as u32;
        if u < 48 || u > 57 {
            proof {
                assert(s@[i as int] == c);
                assert(!(48 <= c as u32 <= 57));
                assert(!spec_is_name_constant(arg@));
            }
            return false;
        }
        i = i + 1;
    }
    true
}

/// Structural equality of argument types.
pub fn type_eq(a: &AstType, b: &AstType) -> (r: bool)
    ensures
        r == (a@ == b@),
{
    match (a, b) {
        (AstType::NumberType, AstType::NumberType) => true,
        (AstType::PrincipalType, AstType::PrincipalType) => true,
        (AstType::CustomType { name: n1 }, AstType::CustomType { name: n2 }) => str_eq(n1, n2),
        _ => false,
    }
}

/// The name of the universe relation of a type.
pub fn type_to_universe_name(t: &AstType) -> (r: String)
    ensures
        r@ == spec_type_to_universe_name(t@),
{
    match t {
        AstType::NumberType => String::from_str("isNumber"),
        AstType::PrincipalType => String::from_str("isPrincipal"),
        AstType::CustomType { name } => String::from_str("is").concat(name.as_str()),
    }
}

/// Builds the relation-type environment from the declarations.
#[verifier::loop_isolation(false)]
fn build_relenv(decls: &Vec<AstRelationDeclaration>) -> (r: Vec<(String, Vec<AstType>)>)
    ensures
        relenv_view(r@) == spec_relenv(decls@.map_values(|d: AstRelationDeclaration| d@)),
{
    let mut r: Vec<(String, Vec<AstType>)> = Vec::new();
    let mut i: usize = 0;
    while i < decls.len()
        invariant
            i <= decls.len(),
            r@.len() == i as int,
            forall|j: int|
                0 <= j < i as int ==> (#[trigger] r@[j]).0@ == decls@[j]@.predicate_name
                    && r@[j].1@.map_values(|x: AstType| x@) == decls@[j]@.arg_typings.map_values(
                    |t: (Seq<char>, SpecType)| t.1,
                ),
        decreases decls.len() - i,
    {
        let d = &decls[i];
        let mut types: Vec<AstType> = Vec::new();
        let mut j: usize = 0;
        while j < d.arg_typings.len()
            invariant
                j <= d.arg_typings.len(),
                types@.len() == j as int,
                forall|k: int| 0 <= k < j as int ==> (#[trigger] types@[k])@ == d@.arg_typings[k].1,
            decreases d.arg_typings.len() - j,
        {
            types.push(d.arg_typings[j].1.dup());
            j = j + 1;
        }
        proof {
            assert(types@.map_values(|x: AstType| x@) =~= d@.arg_typings.map_values(
                |t: (Seq<char>, SpecType)| t.1,
            ));
        }
        r.push((d.predicate_name.clone(), types));
        i = i + 1;
    }
    proof {
        assert(relenv_view(r@) =~= spec_relenv(decls@.map_values(|d: AstRelationDeclaration| d@)));
    }
    r
}

/// Looks a relation up; the last declaration with the name wins.
#[verifier::loop_isolation(false)]
fn lookup_rel(env: &Vec<(String, Vec<AstType>)>, name: &String) -> (r: Option<Vec<AstType>>)
    ensures
        match r {
            Some(t) => spec_lookup_rel(relenv_view(env@), name@) == Some(
                t@.map_values(|x: AstType| x@),
            ),
            None => spec_lookup_rel(relenv_view(env@), name@) is None,
        },
{
    let ghost renv = relenv_view(env@);
    let mut i: usize = env.len();
    proof {
        assert(renv.take(renv.len() as int) =~= renv);
    }
    while i > 0
        invariant
            i <= env.len(),
            renv == relenv_view(env@),
            renv.len() == env@.len(),
            spec_lookup_rel(renv, name@) == spec_lookup_rel(renv.take(i as int), name@),
        decreases i,
    {
        proof {
            assert(renv.take(i as int).last() == renv[i - 1]);
            assert(renv.take(i as int).drop_last() =~= renv.take(i - 1));
        }
        if str_eq(&env[i - 1].0, name) {
            return Some(dup_types(&env[i - 1].1));
        }
        i = i - 1;
    }
    proof {
        assert(renv.take(0) =~= Seq::<(Seq<char>, Seq<SpecType>)>::empty());
    }
    None
}

/// Looks a constant up in the constant-type environment.
#[verifier::loop_isolation(false)]
fn lookup_const(env: &Vec<(String, AstType)>, name: &String) -> (r: Option<AstType>)
    ensures
        match r {
            Some(t) => spec_lookup_const(cenv_view(env@), name@) == Some(t@),
            None => spec_lookup_const(cenv_view(env@), name@) is None,
        },
{
    let ghost cenv = cenv_view(env@);
    let mut i: usize = 0;
    proof {
        assert(cenv.skip(0) =~= cenv);
    }
    while i < env.len()
        invariant
            i <= env.len(),
            cenv == cenv_view(env@),
            cenv.len() == env@.len(),
            spec_lookup_const(cenv, name@) == spec_lookup_const(cenv.skip(i as int), name@),
        decreases env.len() - i,
    {
        proof {
            assert(cenv.skip(i as int)[0] == cenv[i as int]);
            assert(cenv.skip(i as int).drop_first() =~= cenv.skip(i + 1 as int));
        }
        if str_eq(&env[i].0, name) {
            return Some(env[i].1.dup());
        }
        i = i + 1;
    }
    None
}

/// Binds a constant to a type; conflicting re-binding is a type error.
fn add_typing(env: &mut Vec<(String, AstType)>, arg: &String, typ: AstType) -> (r: Result<
    (),
    CompileError,
>)
    ensures
        match r {
            Ok(_) => spec_add_typing(cenv_view(old(env)@), arg@, typ@) == Ok::<
                SpecConstTypeEnv,
                SpecCompileError,
            >(cenv_view(final(env)@)),
            Err(e) => spec_add_typing(cenv_view(old(env)@), arg@, typ@) == Err::<
                SpecConstTypeEnv,
                SpecCompileError,
            >(e@),
        },
{
    if !is_name_constant(arg) {
        return Ok(());
    }
    match lookup_const(env, arg) {
        None => {
            env.push((arg.clone(), typ));
            proof {
                assert(cenv_view(env@) =~= cenv_view(old(env)@).push((arg@, typ@)));
            }
            Ok(())
        },
        Some(old_t) => {
            if type_eq(&old_t, &typ) {
                Ok(())
            } else {
                Err(CompileError::TypeConflict { constant: arg.clone() })
            }
        },
    }
}

/// Binds the constants among a predicate's arguments to their declared
/// positional types.
#[verifier::loop_isolation(false)]
fn populate_args(
    typing: &Vec<AstType>,
    name: &String,
    args: &Vec<String>,
    env: &mut Vec<(String, AstType)>,
) -> (r: Result<(), CompileError>)
    ensures
        match r {
            Ok(_) => spec_populate_args_from(
                typing@.map_values(|x: AstType| x@),
                name@,
                args@.map_values(|a: String| a@),
                0,
                cenv_view(old(env)@),
            ) == Ok::<SpecConstTypeEnv, SpecCompileError>(cenv_view(final(env)@)),
            Err(e) => spec_populate_args_from(
                typing@.map_values(|x: AstType| x@),
                name@,
                args@.map_values(|a: String| a@),
                0,
                cenv_view(old(env)@),
            ) == Err::<SpecConstTypeEnv, SpecCompileError>(e@),
        },
{
    let ghost styping = typing@.map_values(|x: AstType| x@);
    let ghost sargs = args@.map_values(|a: String| a@);
    let ghost env0 = cenv_view(env@);
    let mut i: usize = 0;
    while i < args.len()
        invariant
            i <= args.len(),
            styping == typing@.map_values(|x: AstType| x@),
            sargs == args@.map_values(|a: String| a@),
            sargs.len() == args@.len(),
            styping.len() == typing@.len(),
            spec_populate_args_from(styping, name@, sargs, 0, env0) == spec_populate_args_from(
                styping,
                name@,
                sargs,
                i as int,
                cenv_view(env@),
            ),
        decreases args.len() - i,
    {
        proof {
            assert(sargs[i as int] == args@[i as int]@);
            if i < typing.len() {
                assert(styping[i as int] == typing@[i as int]@);
            }
        }
        if i >= typing.len() {
            return Err(CompileError::UndeclaredRelation { relation: name.clone() });
        }
        let t = typing[i].dup();
        match add_typing(env, &args[i], t) {
            Err(e) => {
                return Err(e);
            },
            Ok(_) => {},
        }
        i = i + 1;
    }
    Ok(())
}

/// Binds the constants of a predicate's arguments; the relation must be
/// declared.
fn populate_predicate(
    relenv: &Vec<(String, Vec<AstType>)>,
    env: &mut Vec<(String, AstType)>,
    p: &AstPredicate,
) -> (r: Result<(), CompileError>)
    ensures
        match r {
            Ok(_) => spec_populate_predicate(relenv_view(relenv@), cenv_view(old(env)@), p@)
                == Ok::<SpecConstTypeEnv, SpecCompileError>(cenv_view(final(env)@)),
            Err(e) => spec_populate_predicate(relenv_view(relenv@), cenv_view(old(env)@), p@)
                == Err::<SpecConstTypeEnv, SpecCompileError>(e@),
        },
{
    match lookup_rel(relenv, &p.name) {
        None => Err(CompileError::UndeclaredRelation { relation: p.name.clone() }),
        Some(typing) => populate_args(&typing, &p.name, &p.args, env),
    }
}

/// Binds the constants of a flat fact.
fn populate_flat_fact(
    relenv: &Vec<(String, Vec<AstType>)>,
    env: &mut Vec<(String, AstType)>,
    f: &AstFlatFact,
) -> (r: Result<(), CompileError>)
    ensures
        match r {
            Ok(_) => spec_populate_flat_fact(relenv_view(relenv@), cenv_view(old(env)@), f@)
                == Ok::<SpecConstTypeEnv, SpecCompileError>(cenv_view(final(env)@)),
            Err(e) => spec_populate_flat_fact(relenv_view(relenv@), cenv_view(old(env)@), f@)
                == Err::<SpecConstTypeEnv, SpecCompileError>(e@),
        },
{
    match f {
        AstFlatFact::AstPrinFact { p, v } => {
            match add_typing(env, &p.name, AstType::PrincipalType) {
                Err(e) => {
                    return Err(e);
                },
                Ok(_) => {},
            }
            match v {
                AstVerbPhrase::AstPredPhrase { p: pred } => populate_predicate(relenv, env, pred),
                AstVerbPhrase::AstCanActPhrase { p: as_p } => add_typing(
                    env,
                    &as_p.name,
                    AstType::PrincipalType,
                ),
            }
        },
        AstFlatFact::AstPredFact { p } => populate_predicate(relenv, env, p),
    }
}

/// Binds the constants of a fact, delegatees included.
fn populate_fact(
    relenv: &Vec<(String, Vec<AstType>)>,
    env: &mut Vec<(String, AstType)>,
    f: &AstFact,
) -> (r: Result<(), CompileError>)
    ensures
        match r {
            Ok(_) => spec_populate_fact(relenv_view(relenv@), cenv_view(old(env)@), f@) == Ok::<
                SpecConstTypeEnv,
                SpecCompileError,
            >(cenv_view(final(env)@)),
            Err(e) => spec_populate_fact(relenv_view(relenv@), cenv_view(old(env)@), f@) == Err::<
                SpecConstTypeEnv,
                SpecCompileError,
            >(e@),
        },
    decreases f,
{
    match f {
        AstFact::AstFlatFactFact { f: flat } => populate_flat_fact(relenv, env, flat),
        AstFact::AstCanSayFact { p, f: inner } => {
            match add_typing(env, &p.name, AstType::PrincipalType) {
                Err(e) => {
                    return Err(e);
                },
                Ok(_) => {},
            }
            populate_fact(relenv, env, inner)
        },
    }
}

/// Binds the constants of a right-hand-side term.
fn populate_rvalue(
    relenv: &Vec<(String, Vec<AstType>)>,
    env: &mut Vec<(String, AstType)>,
    rv: &AstRValue,
) -> (r: Result<(), CompileError>)
    ensures
        match r {
            Ok(_) => spec_populate_rvalue(relenv_view(relenv@), cenv_view(old(env)@), rv@) == Ok::<
                SpecConstTypeEnv,
                SpecCompileError,
            >(cenv_view(final(env)@)),
            Err(e) => spec_populate_rvalue(relenv_view(relenv@), cenv_view(old(env)@), rv@)
                == Err::<SpecConstTypeEnv, SpecCompileError>(e@),
        },
{
    match rv {
        AstRValue::FlatFactRValue { flat_fact } => populate_flat_fact(relenv, env, flat_fact),
        AstRValue::BinopRValue { lnum, binop, rnum } => {
            match add_typing(env, lnum, AstType::NumberType) {
                Err(e) => {
                    return Err(e);
                },
                Ok(_) => {},
            }
            add_typing(env, rnum, AstType::NumberType)
        },
    }
}

/// Binds the constants of an assertion.
#[verifier::loop_isolation(false)]
fn populate_assertion(
    relenv: &Vec<(String, Vec<AstType>)>,
    env: &mut Vec<(String, AstType)>,
    a: &AstAssertion,
) -> (r: Result<(), CompileError>)
    ensures
        match r {
            Ok(_) => spec_populate_assertion(relenv_view(relenv@), cenv_view(old(env)@), a@)
                == Ok::<SpecConstTypeEnv, SpecCompileError>(cenv_view(final(env)@)),
            Err(e) => spec_populate_assertion(relenv_view(relenv@), cenv_view(old(env)@), a@)
                == Err::<SpecConstTypeEnv, SpecCompileError>(e@),
        },
{
    match a {
        AstAssertion::AstFactAssertion { f } => populate_fact(relenv, env, f),
        AstAssertion::AstCondAssertion { lhs, rhs } => {
            match populate_fact(relenv, env, lhs) {
                Err(e) => {
                    return Err(e);
                },
                Ok(_) => {},
            }
            let ghost srvs = rhs@.map_values(|x: AstRValue| x@);
            let ghost env1 = cenv_view(env@);
            let mut i: usize = 0;
            while i < rhs.len()
                invariant
                    i <= rhs.len(),
                    srvs == rhs@.map_values(|x: AstRValue| x@),
                    srvs.len() == rhs@.len(),
                    spec_populate_rvalues_from(relenv_view(relenv@), srvs, 0, env1)
                        == spec_populate_rvalues_from(
                        relenv_view(relenv@),
                        srvs,
                        i as int,
                        cenv_view(env@),
                    ),
                decreases rhs.len() - i,
            {
                proof {
                    assert(srvs[i as int] == rhs@[i as int]@);
                }
                match populate_rvalue(relenv, env, &rhs[i]) {
                    Err(e) => {
                        return Err(e);
                    },
                    Ok(_) => {},
                }
                i = i + 1;
            }
            Ok(())
        },
    }
}

/// The constant-type environment of a whole program.
#[verifier::loop_isolation(false)]
fn populate_constant_type_environment(
    relenv: &Vec<(String, Vec<AstType>)>,
    prog: &AstProgram,
) -> (r: Result<Vec<(String, AstType)>, CompileError>)
    ensures
        match r {
            Ok(env) => spec_populate_prog(relenv_view(relenv@), prog@) == Ok::<
                SpecConstTypeEnv,
                SpecCompileError,
            >(cenv_view(env@)),
            Err(e) => spec_populate_prog(relenv_view(relenv@), prog@) == Err::<
                SpecConstTypeEnv,
                SpecCompileError,
            >(e@),
        },
{
    let ghost ssays = prog.assertions@.map_values(|x: AstSaysAssertion| x@);
    let mut env: Vec<(String, AstType)> = Vec::new();
    proof {
        assert(cenv_view(env@) =~= Seq::<(Seq<char>, SpecType)>::empty());
    }

    // Speakers first.
    let mut i: usize = 0;
    while i < prog.assertions.len()
        invariant
            i <= prog.assertions.len(),
            ssays == prog.assertions@.map_values(|x: AstSaysAssertion| x@),
            ssays.len() == prog.assertions@.len(),
            spec_populate_speakers_from(ssays, 0, Seq::empty())
                == spec_populate_speakers_from(ssays, i as int, cenv_view(env@)),
        decreases prog.assertions.len() - i,
    {
        proof {
            assert(ssays[i as int] == prog.assertions@[i as int]@);
        }
        match add_typing(&mut env, &prog.assertions[i].prin.name, AstType::PrincipalType) {
            Err(e) => {
                return Err(e);
            },
            Ok(_) => {},
        }
        i = i + 1;
    }

    // Then the bodies of the says-assertions.
    let ghost env1 = cenv_view(env@);
    let mut i: usize = 0;
    while i < prog.assertions.len()
        invariant
            i <= prog.assertions.len(),
            ssays == prog.assertions@.map_values(|x: AstSaysAssertion| x@),
            ssays.len() == prog.assertions@.len(),
            spec_populate_says_bodies_from(relenv_view(relenv@), ssays, 0, env1)
                == spec_populate_says_bodies_from(
                relenv_view(relenv@),
                ssays,
                i as int,
                cenv_view(env@),
            ),
        decreases prog.assertions.len() - i,
    {
        let sa = &prog.assertions[i];
        proof {
            assert(ssays[i as int] == prog.assertions@[i as int]@);
        }
        let ghost sasserts = sa.assertions@.map_values(|x: AstAssertion| x@);
        let ghost env_in = cenv_view(env@);
        let mut j: usize = 0;
        while j < sa.assertions.len()
            invariant
                j <= sa.assertions.len(),
                sasserts == sa.assertions@.map_values(|x: AstAssertion| x@),
                sasserts.len() == sa.assertions@.len(),
                spec_populate_assertions_from(relenv_view(relenv@), sasserts, 0, env_in)
                    == spec_populate_assertions_from(
                    relenv_view(relenv@),
                    sasserts,
                    j as int,
                    cenv_view(env@),
                ),
            decreases sa.assertions.len() - j,
        {
            proof {
                assert(sasserts[j as int] == sa.assertions@[j as int]@);
            }
            match populate_assertion(relenv, &mut env, &sa.assertions[j]) {
                Err(e) => {
                    return Err(e);
                },
                Ok(_) => {},
            }
            j = j + 1;
        }
        proof {
            assert(ssays[i as int].assertions == sasserts);
        }
        i = i + 1;
    }

    // Then the queries.
    let ghost sqs = prog.queries@.map_values(|x: AstQuery| x@);
    let ghost env2 = cenv_view(env@);
    let mut i: usize = 0;
    while i < prog.queries.len()
        invariant
            i <= prog.queries.len(),
            sqs == prog.queries@.map_values(|x: AstQuery| x@),
            sqs.len() == prog.queries@.len(),
            spec_populate_queries_from(relenv_view(relenv@), sqs, 0, env2)
                == spec_populate_queries_from(
                relenv_view(relenv@),
                sqs,
                i as int,
                cenv_view(env@),
            ),
        decreases prog.queries.len() - i,
    {
        let q = &prog.queries[i];
        proof {
            assert(sqs[i as int] == prog.queries@[i as int]@);
        }
        match add_typing(&mut env, &q.principal.name, AstType::PrincipalType) {
            Err(e) => {
                return Err(e);
            },
            Ok(_) => {},
        }
        match populate_fact(relenv, &mut env, &q.fact) {
            Err(e) => {
                return Err(e);
            },
            Ok(_) => {},
        }
        i = i + 1;
    }
    Ok(env)
}


// ---------------------------------------------------------------------------
// Executable grounding rewrite
// ---------------------------------------------------------------------------

/// Appends the content of an optional value, if there is one.
pub fn push_option_to_vec<T>(vec: &mut Vec<T>, elt: Option<T>)
    ensures
        final(vec)@ == match elt {
            Some(x) => old(vec)@.push(x),
            None => old(vec)@,
        },
{
    if let Some(x) = elt {
        vec.push(x);
    }
}

/// The universe condition of a principal position.
pub fn universe_condition_principal(p: &AstPrincipal) -> (r: Option<AstPredicate>)
    ensures
        match r {
            Some(c) => spec_universe_condition_principal(p@) == Some(c@),
            None => spec_universe_condition_principal(p@) is None,
        },
{
    if is_name_constant(&p.name) {
        None
    } else {
        let pred = AstPredicate {
            sign: Sign::Positive,
            name: type_to_universe_name(&AstType::PrincipalType),
            args: vec![p.name.clone()],
        };
        proof {
            assert(pred@.args =~= seq![p@.name]);
        }
        Some(pred)
    }
}

/// The universe conditions of a predicate's variable arguments.
#[verifier::loop_isolation(false)]
fn universe_conditions_args(typing: &Vec<AstType>, name: &String, args: &Vec<String>) -> (r:
    Result<Vec<AstPredicate>, CompileError>)
    ensures
        match r {
            Ok(conds) => spec_universe_conditions_args_from(
                typing@.map_values(|x: AstType| x@),
                name@,
                strings_view(args@),
                0,
                Seq::empty(),
            ) == Ok::<Seq<SpecPredicate>, SpecCompileError>(preds_view(conds@)),
            Err(e) => spec_universe_conditions_args_from(
                typing@.map_values(|x: AstType| x@),
                name@,
                strings_view(args@),
                0,
                Seq::empty(),
            ) == Err::<Seq<SpecPredicate>, SpecCompileError>(e@),
        },
{
    let ghost styping = typing@.map_values(|x: AstType| x@);
    let ghost sargs = strings_view(args@);
    let mut conds: Vec<AstPredicate> = Vec::new();
    proof {
        assert(preds_view(conds@) =~= Seq::<SpecPredicate>::empty());
    }
    let mut i: usize = 0;
    while i < args.len()
        invariant
            i <= args.len(),
            spec_universe_conditions_args_from(styping, name@, sargs, 0, Seq::empty())
                == spec_universe_conditions_args_from(
                styping,
                name@,
                sargs,
                i as int,
                preds_view(conds@),
            ),
        decreases args.len() - i,
    {
        proof {
            assert(sargs[i as int] == args@[i as int]@);
        }
        if !is_name_constant(&args[i]) {
            if i >= typing.len() {
                return Err(CompileError::UndeclaredRelation { relation: name.clone() });
            }
            let cond = AstPredicate {
                sign: Sign::Positive,
                name: type_to_universe_name(&typing[i]),
                args: vec![args[i].clone()],
            };
            proof {
                assert(cond@.args =~= seq![sargs[i as int]]);
                assert(styping[i as int] == typing@[i as int]@);
            }
            let ghost before = preds_view(conds@);
            conds.push(cond);
            proof {
                assert(preds_view(conds@) =~= before.push(cond@));
            }
        }
        i = i + 1;
    }
    Ok(conds)
}

/// The universe conditions of a predicate occurrence.
fn universe_conditions_predicate(
    relenv: &Vec<(String, Vec<AstType>)>,
    p: &AstPredicate,
) -> (r: Result<Vec<AstPredicate>, CompileError>)
    ensures
        match r {
            Ok(conds) => spec_universe_conditions_predicate(relenv_view(relenv@), p@) == Ok::<
                Seq<SpecPredicate>,
                SpecCompileError,
            >(preds_view(conds@)),
            Err(e) => spec_universe_conditions_predicate(relenv_view(relenv@), p@) == Err::<
                Seq<SpecPredicate>,
                SpecCompileError,
            >(e@),
        },
{
    match lookup_rel(relenv, &p.name) {
        None => Err(CompileError::UndeclaredRelation { relation: p.name.clone() }),
        Some(typing) => universe_conditions_args(&typing, &p.name, &p.args),
    }
}

/// The universe conditions of a verb phrase.
fn universe_conditions_verb_phrase(
    relenv: &Vec<(String, Vec<AstType>)>,
    v: &AstVerbPhrase,
) -> (r: Result<Vec<AstPredicate>, CompileError>)
    ensures
        match r {
            Ok(conds) => spec_universe_conditions_verb_phrase(relenv_view(relenv@), v@) == Ok::<
                Seq<SpecPredicate>,
                SpecCompileError,
            >(preds_view(conds@)),
            Err(e) => spec_universe_conditions_verb_phrase(relenv_view(relenv@), v@) == Err::<
                Seq<SpecPredicate>,
                SpecCompileError,
            >(e@),
        },
{
    match v {
        AstVerbPhrase::AstPredPhrase { p } => universe_conditions_predicate(relenv, p),
        AstVerbPhrase::AstCanActPhrase { p } => {
            let mut conds: Vec<AstPredicate> = Vec::new();
            proof {
                assert(preds_view(conds@) =~= Seq::<SpecPredicate>::empty());
            }
            let cond = universe_condition_principal(p);
            let ghost gcond = cond;
            push_option_to_vec(&mut conds, cond);
            proof {
                match gcond {
                    Some(c) => {
                        assert(preds_view(conds@) =~= seq![c@]);
                    },
                    None => {},
                }
            }
            Ok(conds)
        },
    }
}

/// The universe conditions of a flat fact.
fn universe_conditions_flat_fact(
    relenv: &Vec<(String, Vec<AstType>)>,
    f: &AstFlatFact,
) -> (r: Result<Vec<AstPredicate>, CompileError>)
    ensures
        match r {
            Ok(conds) => spec_universe_conditions_flat_fact(relenv_view(relenv@), f@) == Ok::<
                Seq<SpecPredicate>,
                SpecCompileError,
            >(preds_view(conds@)),
            Err(e) => spec_universe_conditions_flat_fact(relenv_view(relenv@), f@) == Err::<
                Seq<SpecPredicate>,
                SpecCompileError,
            >(e@),
        },
{
    match f {
        AstFlatFact::AstPrinFact { p, v } => {
            let mut conds = match universe_conditions_verb_phrase(relenv, v) {
                Err(e) => {
                    return Err(e);
                },
                Ok(c) => c,
            };
            let ghost before = preds_view(conds@);
            let cond = universe_condition_principal(p);
            let ghost gcond = cond;
            push_option_to_vec(&mut conds, cond);
            proof {
                match gcond {
                    Some(c) => {
                        assert(preds_view(conds@) =~= before.push(c@));
                    },
                    None => {},
                }
            }
            Ok(conds)
        },
        AstFlatFact::AstPredFact { p } => universe_conditions_predicate(relenv, p),
    }
}

/// The universe conditions of a fact, delegatees included.
fn universe_conditions_fact(relenv: &Vec<(String, Vec<AstType>)>, f: &AstFact) -> (r: Result<
    Vec<AstPredicate>,
    CompileError,
>)
    ensures
        match r {
            Ok(conds) => spec_universe_conditions_fact(relenv_view(relenv@), f@) == Ok::<
                Seq<SpecPredicate>,
                SpecCompileError,
            >(preds_view(conds@)),
            Err(e) => spec_universe_conditions_fact(relenv_view(relenv@), f@) == Err::<
                Seq<SpecPredicate>,
                SpecCompileError,
            >(e@),
        },
    decreases f,
{
    match f {
        AstFact::AstFlatFactFact { f: flat } => universe_conditions_flat_fact(relenv, flat),
        AstFact::AstCanSayFact { p, f: inner } => {
            let mut conds = match universe_conditions_fact(relenv, inner) {
                Err(e) => {
                    return Err(e);
                },
                Ok(c) => c,
            };
            let ghost before = preds_view(conds@);
            let cond = universe_condition_principal(p);
            let ghost gcond = cond;
            push_option_to_vec(&mut conds, cond);
            proof {
                match gcond {
                    Some(c) => {
                        assert(preds_view(conds@) =~= before.push(c@));
                    },
                    None => {},
                }
            }
            Ok(conds)
        },
    }
}

/// Wraps universe predicates as right-hand-side terms.
#[verifier::loop_isolation(false)]
fn conds_as_rvalues(conds: Vec<AstPredicate>) -> (r: Vec<AstRValue>)
    ensures
        rvalues_view(r@) == spec_conds_as_rvalues(preds_view(conds@)),
{
    let mut r: Vec<AstRValue> = Vec::new();
    let mut i: usize = 0;
    while i < conds.len()
        invariant
            i <= conds.len(),
            r@.len() == i as int,
            forall|j: int|
                0 <= j < i as int ==> (#[trigger] r@[j])@ == (SpecRValue::FlatFactRValue {
                    flat_fact: SpecFlatFact::PredFact { p: conds@[j]@ },
                }),
        decreases conds.len() - i,
    {
        r.push(
            AstRValue::FlatFactRValue {
                flat_fact: AstFlatFact::AstPredFact { p: conds[i].dup() },
            },
        );
        i = i + 1;
    }
    proof {
        assert(rvalues_view(r@) =~= spec_conds_as_rvalues(preds_view(conds@)));
    }
    r
}

/// Rewrites one assertion with its grounding conditions.
fn add_universe_conditions_assertion(
    relenv: &Vec<(String, Vec<AstType>)>,
    a: &AstAssertion,
) -> (r: Result<AstAssertion, CompileError>)
    ensures
        match r {
            Ok(a2) => spec_add_universe_conditions_assertion(relenv_view(relenv@), a@) == Ok::<
                SpecAssertion,
                SpecCompileError,
            >(a2@),
            Err(e) => spec_add_universe_conditions_assertion(relenv_view(relenv@), a@) == Err::<
                SpecAssertion,
                SpecCompileError,
            >(e@),
        },
{
    match a {
        AstAssertion::AstFactAssertion { f } => {
            let conds = match universe_conditions_fact(relenv, f) {
                Err(e) => {
                    return Err(e);
                },
                Ok(c) => c,
            };
            if conds.len() > 0 {
                Ok(AstAssertion::AstCondAssertion { lhs: f.dup(), rhs: conds_as_rvalues(conds) })
            } else {
                Ok(a.dup())
            }
        },
        AstAssertion::AstCondAssertion { lhs, rhs } => {
            let conds = match universe_conditions_fact(relenv, lhs) {
                Err(e) => {
                    return Err(e);
                },
                Ok(c) => c,
            };
            let mut new_rhs = dup_rvalues(rhs);
            let ghost before = rvalues_view(new_rhs@);
            let mut extra = conds_as_rvalues(conds);
            new_rhs.append(&mut extra);
            proof {
                assert(rvalues_view(new_rhs@) =~= before + spec_conds_as_rvalues(
                    preds_view(conds@),
                ));
            }
            Ok(AstAssertion::AstCondAssertion { lhs: lhs.dup(), rhs: new_rhs })
        },
    }
}

/// Rewrites every assertion of a says-assertion.
#[verifier::loop_isolation(false)]
fn add_universe_conditions_says_assertion(
    relenv: &Vec<(String, Vec<AstType>)>,
    sa: &AstSaysAssertion,
) -> (r: Result<AstSaysAssertion, CompileError>)
    ensures
        match r {
            Ok(sa2) => spec_add_universe_conditions_says(relenv_view(relenv@), sa@) == Ok::<
                SpecSaysAssertion,
                SpecCompileError,
            >(sa2@),
            Err(e) => spec_add_universe_conditions_says(relenv_view(relenv@), sa@) == Err::<
                SpecSaysAssertion,
                SpecCompileError,
            >(e@),
        },
{
    let ghost sasserts = assertions_view(sa.assertions@);
    let mut out: Vec<AstAssertion> = Vec::new();
    proof {
        assert(assertions_view(out@) =~= Seq::<SpecAssertion>::empty());
    }
    let mut i: usize = 0;
    while i < sa.assertions.len()
        invariant
            i <= sa.assertions.len(),
            spec_add_universe_conditions_assertions_from(
                relenv_view(relenv@),
                sasserts,
                0,
                Seq::empty(),
            ) == spec_add_universe_conditions_assertions_from(
                relenv_view(relenv@),
                sasserts,
                i as int,
                assertions_view(out@),
            ),
        decreases sa.assertions.len() - i,
    {
        proof {
            assert(sasserts[i as int] == sa.assertions@[i as int]@);
        }
        match add_universe_conditions_assertion(relenv, &sa.assertions[i]) {
            Err(e) => {
                return Err(e);
            },
            Ok(a2) => {
                let ghost before = assertions_view(out@);
                out.push(a2);
                proof {
                    assert(assertions_view(out@) =~= before.push(a2@));
                }
            },
        }
        i = i + 1;
    }
    Ok(
        AstSaysAssertion {
            prin: sa.prin.dup(),
            assertions: out,
            export_file: match &sa.export_file {
                Some(f) => Some(f.clone()),
                None => None,
            },
        },
    )
}

/// Rewrites a whole list of says-assertions.
#[verifier::loop_isolation(false)]
fn add_universe_conditions_says_list(
    relenv: &Vec<(String, Vec<AstType>)>,
    says: &Vec<AstSaysAssertion>,
) -> (r: Result<Vec<AstSaysAssertion>, CompileError>)
    ensures
        match r {
            Ok(out) => spec_add_universe_conditions_says_list_from(
                relenv_view(relenv@),
                says_view(says@),
                0,
                Seq::empty(),
            ) == Ok::<Seq<SpecSaysAssertion>, SpecCompileError>(says_view(out@)),
            Err(e) => spec_add_universe_conditions_says_list_from(
                relenv_view(relenv@),
                says_view(says@),
                0,
                Seq::empty(),
            ) == Err::<Seq<SpecSaysAssertion>, SpecCompileError>(e@),
        },
{
    let ghost ssays = says_view(says@);
    let mut out: Vec<AstSaysAssertion> = Vec::new();
    proof {
        assert(says_view(out@) =~= Seq::<SpecSaysAssertion>::empty());
    }
    let mut i: usize = 0;
    while i < says.len()
        invariant
            i <= says.len(),
            spec_add_universe_conditions_says_list_from(
                relenv_view(relenv@),
                ssays,
                0,
                Seq::empty(),
            ) == spec_add_universe_conditions_says_list_from(
                relenv_view(relenv@),
                ssays,
                i as int,
                says_view(out@),
            ),
        decreases says.len() - i,
    {
        proof {
            assert(ssays[i as int] == says@[i as int]@);
        }
        match add_universe_conditions_says_assertion(relenv, &says[i]) {
            Err(e) => {
                return Err(e);
            },
            Ok(sa2) => {
                let ghost before = says_view(out@);
                out.push(sa2);
                proof {
                    assert(says_view(out@) =~= before.push(sa2@));
                }
            },
        }
        i = i + 1;
    }
    Ok(out)
}

// ---------------------------------------------------------------------------
// Executable universe declarations and facts
// ---------------------------------------------------------------------------

/// One universe relation declaration for a type.
fn universe_declaration(t: &AstType) -> (r: AstRelationDeclaration)
    ensures
        r@ == spec_universe_declaration(t@),
{
    let r = AstRelationDeclaration {
        predicate_name: type_to_universe_name(t),
        is_attribute: false,
        arg_typings: vec![(String::from_str("x"), t.dup())],
    };
    proof {
        assert(r@.arg_typings =~= seq![("x"@, t@)]);
    }
    r
}

/// Collects every custom-type name used by the declarations, in order of
/// occurrence, duplicates kept.
#[verifier::loop_isolation(false)]
pub(crate) fn collect_custom_type_names(decls: &Vec<AstRelationDeclaration>) -> (r: Vec<String>)
    ensures
        strings_view(r@) == spec_custom_names_of_decls_from(decls_view(decls@), 0, Seq::empty()),
{
    let ghost sdecls = decls_view(decls@);
    let mut names: Vec<String> = Vec::new();
    proof {
        assert(strings_view(names@) =~= Seq::<Seq<char>>::empty());
    }
    let mut i: usize = 0;
    while i < decls.len()
        invariant
            i <= decls.len(),
            spec_custom_names_of_decls_from(sdecls, 0, Seq::empty())
                == spec_custom_names_of_decls_from(sdecls, i as int, strings_view(names@)),
        decreases decls.len() - i,
    {
        proof {
            assert(sdecls[i as int] == decls@[i as int]@);
        }
        let d = &decls[i];
        let ghost styps = d@.arg_typings;
        let mut j: usize = 0;
        while j < d.arg_typings.len()
            invariant
                j <= d.arg_typings.len(),
                i < decls.len(),
                styps == d@.arg_typings,
                styps.len() == d.arg_typings@.len(),
                spec_custom_names_of_decls_from(sdecls, 0, Seq::empty())
                    == spec_custom_names_of_decls_from(
                    sdecls,
                    i + 1 as int,
                    spec_custom_names_of_typings_from(styps, j as int, strings_view(names@)),
                ),
            decreases d.arg_typings.len() - j,
        {
            proof {
                assert(styps[j as int] == (
                    d.arg_typings@[j as int].0@,
                    d.arg_typings@[j as int].1@,
                ));
            }
            match &d.arg_typings[j].1 {
                AstType::CustomType { name } => {
                    let ghost before = strings_view(names@);
                    names.push(name.clone());
                    proof {
                        assert(strings_view(names@) =~= before.push(name@));
                    }
                },
                _ => {},
            }
            j = j + 1;
        }
        i = i + 1;
    }
    proof {
        assert(spec_custom_names_of_decls_from(sdecls, 0, Seq::empty()) == strings_view(names@));
    }
    names
}

/// The universe relation declarations implied by the program's declarations.
#[verifier::loop_isolation(false)]
fn universe_declarations(decls: &Vec<AstRelationDeclaration>) -> (r: Vec<AstRelationDeclaration>)
    ensures
        decls_view(r@) == spec_universe_declarations(decls_view(decls@)),
{
    let ghost sdecls = decls_view(decls@);
    let names = collect_custom_type_names(decls);
    let deduped = crate::text::dedup_strings(&names);
    let mut r: Vec<AstRelationDeclaration> = Vec::new();
    let mut i: usize = 0;
    while i < deduped.len()
        invariant
            i <= deduped.len(),
            r@.len() == i as int,
            forall|j: int|
                0 <= j < i as int ==> (#[trigger] r@[j])@ == spec_universe_declaration(
                    SpecType::CustomType { name: strings_view(deduped@)[j] },
                ),
        decreases deduped.len() - i,
    {
        r.push(universe_declaration(&AstType::CustomType { name: deduped[i].clone() }));
        i = i + 1;
    }
    r.push(universe_declaration(&AstType::NumberType));
    r.push(universe_declaration(&AstType::PrincipalType));
    proof {
        assert(decls_view(r@) =~= spec_universe_declarations(sdecls));
    }
    r
}

/// The distinct constant speakers of the says-assertions, in order of
/// first appearance.
#[verifier::loop_isolation(false)]
fn const_speakers(says: &Vec<AstSaysAssertion>) -> (r: Vec<AstPrincipal>)
    ensures
        principals_view(r@) == spec_const_speakers_from(says_view(says@), 0, Seq::empty()),
{
    let ghost ssays = says_view(says@);
    let mut r: Vec<AstPrincipal> = Vec::new();
    proof {
        assert(principals_view(r@) =~= Seq::<SpecPrincipal>::empty());
    }
    let mut i: usize = 0;
    while i < says.len()
        invariant
            i <= says.len(),
            spec_const_speakers_from(ssays, 0, Seq::empty()) == spec_const_speakers_from(
                ssays,
                i as int,
                principals_view(r@),
            ),
        decreases says.len() - i,
    {
        proof {
            assert(ssays[i as int] == says@[i as int]@);
        }
        if is_name_constant(&says[i].prin.name) && !contains_principal(&r, &says[i].prin.name) {
            let ghost before = principals_view(r@);
            r.push(says[i].prin.dup());
            proof {
                assert(principals_view(r@) =~= before.push(says@[i as int].prin@));
            }
        }
        i = i + 1;
    }
    r
}

/// Whether a principal with this name was already collected.
#[verifier::loop_isolation(false)]
fn contains_principal(acc: &Vec<AstPrincipal>, name: &String) -> (r: bool)
    ensures
        r == spec_contains_prin(principals_view(acc@), name@),
{
    let ghost sacc = principals_view(acc@);
    let mut i: usize = 0;
    while i < acc.len()
        invariant
            i <= acc.len(),
            forall|j: int| 0 <= j < i as int ==> (#[trigger] sacc[j]).name != name@,
        decreases acc.len() - i,
    {
        proof {
            assert(sacc[i as int] == acc@[i as int]@);
        }
        if str_eq(&acc[i].name, name) {
            proof {
                assert(sacc[i as int].name == name@);
            }
            return true;
        }
        i = i + 1;
    }
    false
}

/// One universe-defining says-assertion.
fn universe_defining_says_assertion(
    speaker: &AstPrincipal,
    c: &String,
    t: &AstType,
) -> (r: AstSaysAssertion)
    ensures
        r@ == spec_universe_defining_says_assertion(speaker@, c@, t@),
{
    let pred = AstPredicate {
        sign: Sign::Positive,
        name: type_to_universe_name(t),
        args: vec![c.clone()],
    };
    proof {
        assert(pred@.args =~= seq![c@]);
    }
    let r = AstSaysAssertion {
        prin: speaker.dup(),
        assertions: vec![
            AstAssertion::AstFactAssertion {
                f: AstFact::AstFlatFactFact { f: AstFlatFact::AstPredFact { p: pred } },
            },
        ],
        export_file: None,
    };
    proof {
        assert(r@.assertions =~= spec_universe_defining_says_assertion(
            speaker@,
            c@,
            t@,
        ).assertions);
    }
    r
}

/// The universe-defining facts: one per constant speaker and typed constant.
#[verifier::loop_isolation(false)]
fn universe_defining_facts(
    speakers: &Vec<AstPrincipal>,
    cenv: &Vec<(String, AstType)>,
) -> (r: Vec<AstSaysAssertion>)
    ensures
        says_view(r@) == spec_universe_facts_from(
            principals_view(speakers@),
            0,
            cenv_view(cenv@),
            Seq::empty(),
        ),
{
    let ghost sspeakers = principals_view(speakers@);
    let ghost scenv = cenv_view(cenv@);
    let mut r: Vec<AstSaysAssertion> = Vec::new();
    proof {
        assert(says_view(r@) =~= Seq::<SpecSaysAssertion>::empty());
    }
    let mut i: usize = 0;
    while i < speakers.len()
        invariant
            i <= speakers.len(),
            spec_universe_facts_from(sspeakers, 0, scenv, Seq::empty()) == spec_universe_facts_from(
                sspeakers,
                i as int,
                scenv,
                says_view(r@),
            ),
        decreases speakers.len() - i,
    {
        proof {
            assert(sspeakers[i as int] == speakers@[i as int]@);
        }
        let ghost outer = says_view(r@);
        let mut j: usize = 0;
        while j < cenv.len()
            invariant
                j <= cenv.len(),
                i < speakers.len(),
                sspeakers[i as int] == speakers@[i as int]@,
                says_view(r@) =~= outer + spec_universe_facts_for_speaker(
                    sspeakers[i as int],
                    scenv,
                ).take(j as int),
            decreases cenv.len() - j,
        {
            proof {
                assert(scenv[j as int] == (cenv@[j as int].0@, cenv@[j as int].1@));
            }
            let ghost before = says_view(r@);
            r.push(universe_defining_says_assertion(&speakers[i], &cenv[j].0, &cenv[j].1));
            proof {
                assert(says_view(r@) =~= before.push(
                    spec_universe_defining_says_assertion(
                        sspeakers[i as int],
                        scenv[j as int].0,
                        scenv[j as int].1,
                    ),
                ));
                assert(spec_universe_facts_for_speaker(sspeakers[i as int], scenv)[j as int]
                    == spec_universe_defining_says_assertion(
                    sspeakers[i as int],
                    scenv[j as int].0,
                    scenv[j as int].1,
                ));
                assert(spec_universe_facts_for_speaker(sspeakers[i as int], scenv).take(
                    j + 1 as int,
                ) =~= spec_universe_facts_for_speaker(sspeakers[i as int], scenv).take(
                    j as int,
                ).push(
                    spec_universe_defining_says_assertion(
                        sspeakers[i as int],
                        scenv[j as int].0,
                        scenv[j as int].1,
                    ),
                ));
            }
            j = j + 1;
        }
        proof {
            assert(spec_universe_facts_for_speaker(sspeakers[i as int], scenv).take(
                cenv@.len() as int,
            ) =~= spec_universe_facts_for_speaker(sspeakers[i as int], scenv));
            assert(says_view(r@) == outer + spec_universe_facts_for_speaker(
                sspeakers[i as int],
                scenv,
            ));
        }
        i = i + 1;
    }
    r
}

/// The universe-handling pass: the one public entry point of this module.
pub struct UniverseHandlingPass {}

impl UniverseHandlingPass {
    /// Runs the grounding pass over a program: infers constant types, adds
    /// grounding conditions to every rule, declares the universe relations,
    /// and emits the universe-membership facts.
    #[verifier::loop_isolation(false)]
    pub fn handle_universes(prog: &AstProgram) -> (r: Result<AstProgram, CompileError>)
        ensures
            match r {
                Ok(p) => spec_handle_universes(prog@) == Ok::<SpecProgram, SpecCompileError>(p@),
                Err(e) => spec_handle_universes(prog@) == Err::<SpecProgram, SpecCompileError>(
                    e@,
                ),
            },
    {
        let mut typing_decls = crate::ast::dup_relation_declarations(&prog.relation_declarations);
        let ghost own_view = decls_view(typing_decls@);
        let canactas = AstRelationDeclaration {
            predicate_name: String::from_str("canActAs"),
            is_attribute: false,
            arg_typings: vec![
                (String::from_str("p1"), AstType::PrincipalType),
                (String::from_str("p2"), AstType::PrincipalType),
            ],
        };
        proof {
            assert(canactas@.arg_typings =~= spec_canactas_decl().arg_typings);
        }
        typing_decls.push(canactas);
        let mut universe_rels = universe_declarations(&prog.relation_declarations);
        typing_decls.append(&mut universe_rels);
        proof {
            assert(decls_view(typing_decls@) =~= spec_typing_decls(
                decls_view(prog.relation_declarations@),
            ));
        }
        let relenv = build_relenv(&typing_decls);
        let cenv = match populate_constant_type_environment(&relenv, prog) {
            Err(e) => {
                return Err(e);
            },
            Ok(c) => c,
        };
        let rewritten = match add_universe_conditions_says_list(&relenv, &prog.assertions) {
            Err(e) => {
                return Err(e);
            },
            Ok(rw) => rw,
        };
        let mut decls = crate::ast::dup_relation_declarations(&prog.relation_declarations);
        let ghost decls_before = decls_view(decls@);
        let mut extra_decls = universe_declarations(&prog.relation_declarations);
        decls.append(&mut extra_decls);
        proof {
            assert(decls_view(decls@) =~= decls_before + spec_universe_declarations(
                decls_view(prog.relation_declarations@),
            ));
        }
        let speakers = const_speakers(&rewritten);
        let mut facts = universe_defining_facts(&speakers, &cenv);
        let mut assertions = rewritten;
        let ghost asserts_before = says_view(assertions@);
        assertions.append(&mut facts);
        proof {
            assert(says_view(assertions@) =~= asserts_before + spec_universe_facts_from(
                spec_const_speakers_from(asserts_before, 0, Seq::empty()),
                0,
                cenv_view(cenv@),
                Seq::empty(),
            ));
        }
        let result = AstProgram {
            relation_declarations: decls,
            assertions,
            queries: crate::ast::dup_queries(&prog.queries),
            imports: crate::ast::dup_imports(&prog.imports),
            priv_binds: crate::ast::dup_keybinds(&prog.priv_binds),
            pub_binds: crate::ast::dup_keybinds(&prog.pub_binds),
        };
        proof {
            assert(result@.relation_declarations =~= spec_handle_universes(
                prog@,
            )->Ok_0.relation_declarations);
            assert(result@.assertions =~= spec_handle_universes(prog@)->Ok_0.assertions);
            assert(result@.queries =~= spec_handle_universes(prog@)->Ok_0.queries);
            assert(result@.imports =~= spec_handle_universes(prog@)->Ok_0.imports);
            assert(result@.priv_binds =~= spec_handle_universes(prog@)->Ok_0.priv_binds);
            assert(result@.pub_binds =~= spec_handle_universes(prog@)->Ok_0.pub_binds);
        }
        Ok(result)
    }
}


// ---------------------------------------------------------------------------
// Laws of the grounding pass
// ---------------------------------------------------------------------------

/// Whether `v` occurs as a variable argument of the predicate.
pub open spec fn spec_pred_has_var(p: SpecPredicate, v: Seq<char>) -> bool {
    !spec_is_name_constant(v) && p.args.contains(v)
}

pub open spec fn spec_verbphrase_has_var(vp: SpecVerbPhrase, v: Seq<char>) -> bool {
    match vp {
        SpecVerbPhrase::PredPhrase { p } => spec_pred_has_var(p, v),
        SpecVerbPhrase::CanActPhrase { p } => !spec_is_name_constant(v) && p.name == v,
    }
}

pub open spec fn spec_flat_fact_has_var(f: SpecFlatFact, v: Seq<char>) -> bool {
    match f {
        SpecFlatFact::PrinFact { p, v: vp } => (!spec_is_name_constant(v) && p.name == v)
            || spec_verbphrase_has_var(vp, v),
        SpecFlatFact::PredFact { p } => spec_pred_has_var(p, v),
    }
}

/// Whether `v` occurs as a variable anywhere in the fact: as a predicate
/// argument, a subject principal, or a delegatee.
pub open spec fn spec_fact_has_var(f: SpecFact, v: Seq<char>) -> bool
    decreases f,
{
    match f {
        SpecFact::FlatFactFact { f: flat } => spec_flat_fact_has_var(flat, v),
        SpecFact::CanSayFact { p, f: inner } => (!spec_is_name_constant(v) && p.name == v)
            || spec_fact_has_var(*inner, v),
    }
}

/// Whether the conditions hold a positive membership test of exactly `v`.
pub open spec fn spec_conds_cover(conds: Seq<SpecPredicate>, v: Seq<char>) -> bool {
    exists|j: int|
        0 <= j < conds.len() && (#[trigger] conds[j]).args == seq![v] && conds[j].sign
            == Sign::Positive
}

proof fn lemma_conds_args_prefix(
    typing: Seq<SpecType>,
    name: Seq<char>,
    args: Seq<Seq<char>>,
    i: int,
    acc: Seq<SpecPredicate>,
    conds: Seq<SpecPredicate>,
)
    requires
        spec_universe_conditions_args_from(typing, name, args, i, acc) == Ok::<
            Seq<SpecPredicate>,
            SpecCompileError,
        >(conds),
    ensures
        acc.len() <= conds.len(),
        conds.take(acc.len() as int) == acc,
    decreases args.len() - i,
{
    if i < 0 || i >= args.len() {
        assert(conds.take(acc.len() as int) =~= acc);
    } else if spec_is_name_constant(args[i]) {
        lemma_conds_args_prefix(typing, name, args, i + 1, acc, conds);
    } else if i >= typing.len() {
    } else {
        let c = SpecPredicate {
            sign: Sign::Positive,
            name: spec_type_to_universe_name(typing[i]),
            args: seq![args[i]],
        };
        let acc2 = acc.push(c);
        lemma_conds_args_prefix(typing, name, args, i + 1, acc2, conds);
        assert(conds.take(acc2.len() as int) == acc2);
        assert forall|k: int| 0 <= k < acc.len() implies conds.take(acc.len() as int)[k]
            == acc[k] by {
            assert(conds.take(acc2.len() as int)[k] == acc2[k]);
            assert(conds[k] == acc2[k]);
        }
        assert(conds.take(acc.len() as int) =~= acc);
    }
}

proof fn lemma_conds_args_cover(
    typing: Seq<SpecType>,
    name: Seq<char>,
    args: Seq<Seq<char>>,
    i: int,
    acc: Seq<SpecPredicate>,
    conds: Seq<SpecPredicate>,
)
    requires
        0 <= i,
        spec_universe_conditions_args_from(typing, name, args, i, acc) == Ok::<
            Seq<SpecPredicate>,
            SpecCompileError,
        >(conds),
    ensures
        forall|idx: int|
            i <= idx < args.len() && !spec_is_name_constant(#[trigger] args[idx])
                ==> spec_conds_cover(conds, args[idx]),
    decreases args.len() - i,
{
    if i < 0 || i >= args.len() {
    } else if spec_is_name_constant(args[i]) {
        lemma_conds_args_cover(typing, name, args, i + 1, acc, conds);
    } else if i >= typing.len() {
    } else {
        let c = SpecPredicate {
            sign: Sign::Positive,
            name: spec_type_to_universe_name(typing[i]),
            args: seq![args[i]],
        };
        let acc2 = acc.push(c);
        lemma_conds_args_cover(typing, name, args, i + 1, acc2, conds);
        lemma_conds_args_prefix(typing, name, args, i + 1, acc2, conds);
        assert(conds.take(acc2.len() as int)[acc.len() as int] == acc2[acc.len() as int]);
        assert(conds[acc.len() as int] == c);
        assert(spec_conds_cover(conds, args[i]));
    }
}

proof fn lemma_conds_pred_cover(relenv: SpecRelTypeEnv, p: SpecPredicate, conds: Seq<SpecPredicate>)
    requires
        spec_universe_conditions_predicate(relenv, p) == Ok::<
            Seq<SpecPredicate>,
            SpecCompileError,
        >(conds),
    ensures
        forall|v: Seq<char>| spec_pred_has_var(p, v) ==> spec_conds_cover(conds, v),
{
    let typing = spec_lookup_rel(relenv, p.name)->Some_0;
    lemma_conds_args_cover(typing, p.name, p.args, 0, Seq::empty(), conds);
    assert forall|v: Seq<char>| spec_pred_has_var(p, v) implies spec_conds_cover(conds, v) by {
        let idx = choose|idx: int| 0 <= idx < p.args.len() && p.args[idx] == v;
        assert(!spec_is_name_constant(p.args[idx]));
    }
}

proof fn lemma_conds_flat_fact_cover(
    relenv: SpecRelTypeEnv,
    f: SpecFlatFact,
    conds: Seq<SpecPredicate>,
)
    requires
        spec_universe_conditions_flat_fact(relenv, f) == Ok::<
            Seq<SpecPredicate>,
            SpecCompileError,
        >(conds),
    ensures
        forall|v: Seq<char>| spec_flat_fact_has_var(f, v) ==> spec_conds_cover(conds, v),
{
    match f {
        SpecFlatFact::PrinFact { p, v: vp } => {
            let vp_conds = spec_universe_conditions_verb_phrase(relenv, vp)->Ok_0;
            match vp {
                SpecVerbPhrase::PredPhrase { p: pred } => {
                    lemma_conds_pred_cover(relenv, pred, vp_conds);
                },
                SpecVerbPhrase::CanActPhrase { p: as_p } => {
                    if !spec_is_name_constant(as_p.name) {
                        assert(vp_conds[0].args == seq![as_p.name]);
                    }
                },
            }
            assert forall|v: Seq<char>| spec_flat_fact_has_var(f, v) implies spec_conds_cover(
                conds,
                v,
            ) by {
                if spec_verbphrase_has_var(vp, v) {
                    assert(spec_conds_cover(vp_conds, v));
                    let j = choose|j: int|
                        0 <= j < vp_conds.len() && (#[trigger] vp_conds[j]).args == seq![v]
                            && vp_conds[j].sign == Sign::Positive;
                    assert(conds[j] == vp_conds[j]);
                } else {
                    assert(!spec_is_name_constant(v) && p.name == v);
                    assert(conds.last().args == seq![v]);
                }
            }
        },
        SpecFlatFact::PredFact { p } => {
            lemma_conds_pred_cover(relenv, p, conds);
        },
    }
}

/// Every variable of a left-hand-side fact is covered by one of its
/// positive universe conditions.
pub proof fn lemma_conds_fact_cover(
    relenv: SpecRelTypeEnv,
    f: SpecFact,
    conds: Seq<SpecPredicate>,
)
    requires
        spec_universe_conditions_fact(relenv, f) == Ok::<Seq<SpecPredicate>, SpecCompileError>(
            conds,
        ),
    ensures
        forall|v: Seq<char>| spec_fact_has_var(f, v) ==> spec_conds_cover(conds, v),
    decreases f,
{
    match f {
        SpecFact::FlatFactFact { f: flat } => {
            lemma_conds_flat_fact_cover(relenv, flat, conds);
        },
        SpecFact::CanSayFact { p, f: inner } => {
            let inner_conds = spec_universe_conditions_fact(relenv, *inner)->Ok_0;
            lemma_conds_fact_cover(relenv, *inner, inner_conds);
            assert forall|v: Seq<char>| spec_fact_has_var(f, v) implies spec_conds_cover(
                conds,
                v,
            ) by {
                if spec_fact_has_var(*inner, v) {
                    let j = choose|j: int|
                        0 <= j < inner_conds.len() && (#[trigger] inner_conds[j]).args == seq![v]
                            && inner_conds[j].sign == Sign::Positive;
                    assert(conds[j] == inner_conds[j]);
                } else {
                    assert(!spec_is_name_constant(v) && p.name == v);
                    assert(conds.last().args == seq![v]);
                }
            }
        },
    }
}

/// Whether a body term is a positive predicate applied to exactly `v`:
/// the shape of the universe-membership conditions.
pub open spec fn spec_rvalue_tests_var(rv: SpecRValue, v: Seq<char>) -> bool {
    match rv {
        SpecRValue::FlatFactRValue { flat_fact } => match flat_fact {
            SpecFlatFact::PredFact { p } => p.args == seq![v] && p.sign == Sign::Positive,
            _ => false,
        },
        _ => false,
    }
}

/// A rewritten assertion is grounded: if it is unconditional its fact has
/// no variables, and if it is conditional every variable of its left-hand
/// side is tested by a positive body predicate.
pub open spec fn spec_assertion_grounded(a2: SpecAssertion) -> bool {
    match a2 {
        SpecAssertion::FactAssertion { f } => forall|v: Seq<char>| !spec_fact_has_var(f, v),
        SpecAssertion::CondAssertion { lhs, rhs } => forall|v: Seq<char>|
            spec_fact_has_var(lhs, v) ==> exists|j: int|
                0 <= j < rhs.len() && spec_rvalue_tests_var(#[trigger] rhs[j], v),
    }
}

/// Grounding safety of the rewrite: an assertion that stays unconditional
/// has no variable on its left-hand side, and a conditional assertion's
/// body holds, for every variable of its left-hand side, a positive
/// universe-membership predicate applied to exactly that variable. Together
/// with the lowering, which prepends arguments but never drops a body term,
/// this keeps every emitted rule's head grounded by its body.
pub proof fn lemma_universe_pass_grounds_heads(
    relenv: SpecRelTypeEnv,
    a: SpecAssertion,
    a2: SpecAssertion,
)
    requires
        spec_add_universe_conditions_assertion(relenv, a) == Ok::<
            SpecAssertion,
            SpecCompileError,
        >(a2),
    ensures
        spec_assertion_grounded(a2),
{
    match a {
        SpecAssertion::FactAssertion { f } => {
            let conds = spec_universe_conditions_fact(relenv, f)->Ok_0;
            lemma_conds_fact_cover(relenv, f, conds);
            if conds.len() > 0 {
                let rhs = spec_conds_as_rvalues(conds);
                let l2 = a2->CondAssertion_lhs;
                let r2 = a2->CondAssertion_rhs;
                assert(l2 == f && r2 == rhs);
                assert forall|v: Seq<char>| spec_fact_has_var(l2, v) implies exists|j: int|
                    0 <= j < r2.len() && spec_rvalue_tests_var(#[trigger] r2[j], v) by {
                    let j = choose|j: int|
                        0 <= j < conds.len() && (#[trigger] conds[j]).args == seq![v]
                            && conds[j].sign == Sign::Positive;
                    assert(r2[j] == (SpecRValue::FlatFactRValue {
                        flat_fact: SpecFlatFact::PredFact { p: conds[j] },
                    }));
                    assert(spec_rvalue_tests_var(r2[j], v));
                }
                assert(spec_assertion_grounded(a2));
            } else {
                assert forall|v: Seq<char>| !spec_fact_has_var(f, v) by {
                    if spec_fact_has_var(f, v) {
                        // An empty condition list covers no variable, yet
                        // every variable of the fact is covered.
                        assert(spec_conds_cover(conds, v));
                        assert(false);
                    }
                }
                assert(spec_assertion_grounded(a2));
            }
        },
        SpecAssertion::CondAssertion { lhs, rhs } => {
            let conds = spec_universe_conditions_fact(relenv, lhs)->Ok_0;
            lemma_conds_fact_cover(relenv, lhs, conds);
            let rhs2 = rhs + spec_conds_as_rvalues(conds);
            let l2 = a2->CondAssertion_lhs;
            let r2 = a2->CondAssertion_rhs;
            assert(l2 == lhs && r2 == rhs2);
            assert forall|v: Seq<char>| spec_fact_has_var(l2, v) implies exists|j: int|
                0 <= j < r2.len() && spec_rvalue_tests_var(#[trigger] r2[j], v) by {
                let j = choose|j: int|
                    0 <= j < conds.len() && (#[trigger] conds[j]).args == seq![v] && conds[j].sign
                        == Sign::Positive;
                assert(r2[rhs.len() + j] == (SpecRValue::FlatFactRValue {
                    flat_fact: SpecFlatFact::PredFact { p: conds[j] },
                }));
                assert(spec_rvalue_tests_var(r2[rhs.len() + j], v));
            }
            assert(spec_assertion_grounded(a2));
        },
    }
}


// ---------------------------------------------------------------------------
// The constant-type environment holds only constants
// ---------------------------------------------------------------------------

/// Every key of the environment is a constant.
pub open spec fn spec_cenv_constants(env: SpecConstTypeEnv) -> bool {
    forall|j: int| 0 <= j < env.len() ==> spec_is_name_constant((#[trigger] env[j]).0)
}

proof fn lemma_add_typing_constants(env: SpecConstTypeEnv, arg: Seq<char>, t: SpecType)
    requires
        spec_cenv_constants(env),
        spec_add_typing(env, arg, t) is Ok,
    ensures
        spec_cenv_constants(spec_add_typing(env, arg, t)->Ok_0),
{
    let env2 = spec_add_typing(env, arg, t)->Ok_0;
    assert forall|j: int| 0 <= j < env2.len() implies spec_is_name_constant(
        (#[trigger] env2[j]).0,
    ) by {
        if j < env.len() {
            assert(env2[j] == env[j]);
        }
    }
}

proof fn lemma_populate_args_constants(
    typing: Seq<SpecType>,
    name: Seq<char>,
    args: Seq<Seq<char>>,
    i: int,
    env: SpecConstTypeEnv,
)
    requires
        spec_cenv_constants(env),
        spec_populate_args_from(typing, name, args, i, env) is Ok,
    ensures
        spec_cenv_constants(spec_populate_args_from(typing, name, args, i, env)->Ok_0),
    decreases args.len() - i,
{
    if i < 0 || i >= args.len() {
    } else {
        lemma_add_typing_constants(env, args[i], typing[i]);
        lemma_populate_args_constants(
            typing,
            name,
            args,
            i + 1,
            spec_add_typing(env, args[i], typing[i])->Ok_0,
        );
    }
}

proof fn lemma_populate_predicate_constants(
    relenv: SpecRelTypeEnv,
    env: SpecConstTypeEnv,
    p: SpecPredicate,
)
    requires
        spec_cenv_constants(env),
        spec_populate_predicate(relenv, env, p) is Ok,
    ensures
        spec_cenv_constants(spec_populate_predicate(relenv, env, p)->Ok_0),
{
    let typing = spec_lookup_rel(relenv, p.name)->Some_0;
    lemma_populate_args_constants(typing, p.name, p.args, 0, env);
}

proof fn lemma_populate_flat_fact_constants(
    relenv: SpecRelTypeEnv,
    env: SpecConstTypeEnv,
    f: SpecFlatFact,
)
    requires
        spec_cenv_constants(env),
        spec_populate_flat_fact(relenv, env, f) is Ok,
    ensures
        spec_cenv_constants(spec_populate_flat_fact(relenv, env, f)->Ok_0),
{
    match f {
        SpecFlatFact::PrinFact { p, v } => {
            lemma_add_typing_constants(env, p.name, SpecType::PrincipalType);
            let env2 = spec_add_typing(env, p.name, SpecType::PrincipalType)->Ok_0;
            match v {
                SpecVerbPhrase::PredPhrase { p: pred } => {
                    lemma_populate_predicate_constants(relenv, env2, pred);
                },
                SpecVerbPhrase::CanActPhrase { p: as_p } => {
                    lemma_add_typing_constants(env2, as_p.name, SpecType::PrincipalType);
                },
            }
        },
        SpecFlatFact::PredFact { p } => {
            lemma_populate_predicate_constants(relenv, env, p);
        },
    }
}

proof fn lemma_populate_fact_constants(
    relenv: SpecRelTypeEnv,
    env: SpecConstTypeEnv,
    f: SpecFact,
)
    requires
        spec_cenv_constants(env),
        spec_populate_fact(relenv, env, f) is Ok,
    ensures
        spec_cenv_constants(spec_populate_fact(relenv, env, f)->Ok_0),
    decreases f,
{
    match f {
        SpecFact::FlatFactFact { f: flat } => {
            lemma_populate_flat_fact_constants(relenv, env, flat);
        },
        SpecFact::CanSayFact { p, f: inner } => {
            lemma_add_typing_constants(env, p.name, SpecType::PrincipalType);
            lemma_populate_fact_constants(
                relenv,
                spec_add_typing(env, p.name, SpecType::PrincipalType)->Ok_0,
                *inner,
            );
        },
    }
}

proof fn lemma_populate_rvalue_constants(
    relenv: SpecRelTypeEnv,
    env: SpecConstTypeEnv,
    r: SpecRValue,
)
    requires
        spec_cenv_constants(env),
        spec_populate_rvalue(relenv, env, r) is Ok,
    ensures
        spec_cenv_constants(spec_populate_rvalue(relenv, env, r)->Ok_0),
{
    match r {
        SpecRValue::FlatFactRValue { flat_fact } => {
            lemma_populate_flat_fact_constants(relenv, env, flat_fact);
        },
        SpecRValue::BinopRValue { lnum, binop, rnum } => {
            lemma_add_typing_constants(env, lnum, SpecType::NumberType);
            lemma_add_typing_constants(
                spec_add_typing(env, lnum, SpecType::NumberType)->Ok_0,
                rnum,
                SpecType::NumberType,
            );
        },
    }
}

proof fn lemma_populate_rvalues_constants(
    relenv: SpecRelTypeEnv,
    rs: Seq<SpecRValue>,
    i: int,
    env: SpecConstTypeEnv,
)
    requires
        spec_cenv_constants(env),
        spec_populate_rvalues_from(relenv, rs, i, env) is Ok,
    ensures
        spec_cenv_constants(spec_populate_rvalues_from(relenv, rs, i, env)->Ok_0),
    decreases rs.len() - i,
{
    if i < 0 || i >= rs.len() {
    } else {
        lemma_populate_rvalue_constants(relenv, env, rs[i]);
        lemma_populate_rvalues_constants(
            relenv,
            rs,
            i + 1,
            spec_populate_rvalue(relenv, env, rs[i])->Ok_0,
        );
    }
}

proof fn lemma_populate_assertion_constants(
    relenv: SpecRelTypeEnv,
    env: SpecConstTypeEnv,
    a: SpecAssertion,
)
    requires
        spec_cenv_constants(env),
        spec_populate_assertion(relenv, env, a) is Ok,
    ensures
        spec_cenv_constants(spec_populate_assertion(relenv, env, a)->Ok_0),
{
    match a {
        SpecAssertion::FactAssertion { f } => {
            lemma_populate_fact_constants(relenv, env, f);
        },
        SpecAssertion::CondAssertion { lhs, rhs } => {
            lemma_populate_fact_constants(relenv, env, lhs);
            lemma_populate_rvalues_constants(
                relenv,
                rhs,
                0,
                spec_populate_fact(relenv, env, lhs)->Ok_0,
            );
        },
    }
}

proof fn lemma_populate_assertions_constants(
    relenv: SpecRelTypeEnv,
    asserts: Seq<SpecAssertion>,
    i: int,
    env: SpecConstTypeEnv,
)
    requires
        spec_cenv_constants(env),
        spec_populate_assertions_from(relenv, asserts, i, env) is Ok,
    ensures
        spec_cenv_constants(spec_populate_assertions_from(relenv, asserts, i, env)->Ok_0),
    decreases asserts.len() - i,
{
    if i < 0 || i >= asserts.len() {
    } else {
        lemma_populate_assertion_constants(relenv, env, asserts[i]);
        lemma_populate_assertions_constants(
            relenv,
            asserts,
            i + 1,
            spec_populate_assertion(relenv, env, asserts[i])->Ok_0,
        );
    }
}

proof fn lemma_populate_speakers_constants(
    says: Seq<SpecSaysAssertion>,
    i: int,
    env: SpecConstTypeEnv,
)
    requires
        spec_cenv_constants(env),
        spec_populate_speakers_from(says, i, env) is Ok,
    ensures
        spec_cenv_constants(spec_populate_speakers_from(says, i, env)->Ok_0),
    decreases says.len() - i,
{
    if i < 0 || i >= says.len() {
    } else {
        lemma_add_typing_constants(env, says[i].prin.name, SpecType::PrincipalType);
        lemma_populate_speakers_constants(
            says,
            i + 1,
            spec_add_typing(env, says[i].prin.name, SpecType::PrincipalType)->Ok_0,
        );
    }
}

proof fn lemma_populate_says_bodies_constants(
    relenv: SpecRelTypeEnv,
    says: Seq<SpecSaysAssertion>,
    i: int,
    env: SpecConstTypeEnv,
)
    requires
        spec_cenv_constants(env),
        spec_populate_says_bodies_from(relenv, says, i, env) is Ok,
    ensures
        spec_cenv_constants(spec_populate_says_bodies_from(relenv, says, i, env)->Ok_0),
    decreases says.len() - i,
{
    if i < 0 || i >= says.len() {
    } else {
        lemma_populate_assertions_constants(relenv, says[i].assertions, 0, env);
        lemma_populate_says_bodies_constants(
            relenv,
            says,
            i + 1,
            spec_populate_assertions_from(relenv, says[i].assertions, 0, env)->Ok_0,
        );
    }
}

proof fn lemma_populate_queries_constants(
    relenv: SpecRelTypeEnv,
    qs: Seq<SpecQuery>,
    i: int,
    env: SpecConstTypeEnv,
)
    requires
        spec_cenv_constants(env),
        spec_populate_queries_from(relenv, qs, i, env) is Ok,
    ensures
        spec_cenv_constants(spec_populate_queries_from(relenv, qs, i, env)->Ok_0),
    decreases qs.len() - i,
{
    if i < 0 || i >= qs.len() {
    } else {
        lemma_add_typing_constants(env, qs[i].principal.name, SpecType::PrincipalType);
        let env1 = spec_add_typing(env, qs[i].principal.name, SpecType::PrincipalType)->Ok_0;
        lemma_populate_fact_constants(relenv, env1, qs[i].fact);
        lemma_populate_queries_constants(
            relenv,
            qs,
            i + 1,
            spec_populate_fact(relenv, env1, qs[i].fact)->Ok_0,
        );
    }
}

/// The inferred constant-type environment binds only constants.
pub proof fn lemma_populate_prog_constants(relenv: SpecRelTypeEnv, prog: SpecProgram)
    requires
        spec_populate_prog(relenv, prog) is Ok,
    ensures
        spec_cenv_constants(spec_populate_prog(relenv, prog)->Ok_0),
{
    assert(spec_cenv_constants(Seq::empty()));
    lemma_populate_speakers_constants(prog.assertions, 0, Seq::empty());
    let env1 = spec_populate_speakers_from(prog.assertions, 0, Seq::empty())->Ok_0;
    lemma_populate_says_bodies_constants(relenv, prog.assertions, 0, env1);
    let env2 = spec_populate_says_bodies_from(relenv, prog.assertions, 0, env1)->Ok_0;
    lemma_populate_queries_constants(relenv, prog.queries, 0, env2);
}


// ---------------------------------------------------------------------------
// Grounding safety of the whole pass
// ---------------------------------------------------------------------------

/// Every assertion of a says-assertion is grounded.
pub open spec fn spec_says_grounded(sa: SpecSaysAssertion) -> bool {
    forall|k: int|
        0 <= k < sa.assertions.len() ==> spec_assertion_grounded(#[trigger] sa.assertions[k])
}

proof fn lemma_rewrite_assertions_grounded(
    relenv: SpecRelTypeEnv,
    asserts: Seq<SpecAssertion>,
    i: int,
    acc: Seq<SpecAssertion>,
)
    requires
        0 <= i,
        spec_add_universe_conditions_assertions_from(relenv, asserts, i, acc) is Ok,
        forall|k: int| 0 <= k < acc.len() ==> spec_assertion_grounded(#[trigger] acc[k]),
    ensures
        ({
            let out = spec_add_universe_conditions_assertions_from(relenv, asserts, i, acc)->Ok_0;
            forall|k: int| 0 <= k < out.len() ==> spec_assertion_grounded(#[trigger] out[k])
        }),
    decreases asserts.len() - i,
{
    if i >= asserts.len() {
    } else {
        let a2 = spec_add_universe_conditions_assertion(relenv, asserts[i])->Ok_0;
        lemma_universe_pass_grounds_heads(relenv, asserts[i], a2);
        let acc2 = acc.push(a2);
        assert(forall|k: int| 0 <= k < acc2.len() ==> spec_assertion_grounded(#[trigger] acc2[k]));
        lemma_rewrite_assertions_grounded(relenv, asserts, i + 1, acc2);
    }
}

proof fn lemma_rewrite_says_list_grounded(
    relenv: SpecRelTypeEnv,
    says: Seq<SpecSaysAssertion>,
    i: int,
    acc: Seq<SpecSaysAssertion>,
)
    requires
        0 <= i,
        spec_add_universe_conditions_says_list_from(relenv, says, i, acc) is Ok,
        forall|k: int| 0 <= k < acc.len() ==> spec_says_grounded(#[trigger] acc[k]),
    ensures
        ({
            let out = spec_add_universe_conditions_says_list_from(relenv, says, i, acc)->Ok_0;
            forall|k: int| 0 <= k < out.len() ==> spec_says_grounded(#[trigger] out[k])
        }),
    decreases says.len() - i,
{
    if i >= says.len() {
    } else {
        let sa2 = spec_add_universe_conditions_says(relenv, says[i])->Ok_0;
        lemma_rewrite_assertions_grounded(relenv, says[i].assertions, 0, Seq::empty());
        assert(spec_says_grounded(sa2));
        let acc2 = acc.push(sa2);
        assert(forall|k: int| 0 <= k < acc2.len() ==> spec_says_grounded(#[trigger] acc2[k]));
        lemma_rewrite_says_list_grounded(relenv, says, i + 1, acc2);
    }
}

proof fn lemma_universe_fact_grounded(speaker: SpecPrincipal, c: Seq<char>, t: SpecType)
    requires
        spec_is_name_constant(c),
    ensures
        spec_says_grounded(spec_universe_defining_says_assertion(speaker, c, t)),
{
    let sa = spec_universe_defining_says_assertion(speaker, c, t);
    let a = sa.assertions[0];
    let f = a->FactAssertion_f;
    assert forall|v: Seq<char>| !spec_fact_has_var(f, v) by {
        if spec_fact_has_var(f, v) {
            let args = seq![c];
            assert(args.contains(v));
            let idx = choose|idx: int| 0 <= idx < args.len() && args[idx] == v;
            assert(v == c);
        }
    }
    assert(spec_assertion_grounded(a));
    assert forall|k: int| 0 <= k < sa.assertions.len() implies spec_assertion_grounded(
        #[trigger] sa.assertions[k],
    ) by {
        assert(sa.assertions[k] == a);
    }
}

proof fn lemma_universe_facts_grounded(
    speakers: Seq<SpecPrincipal>,
    i: int,
    cenv: SpecConstTypeEnv,
    acc: Seq<SpecSaysAssertion>,
)
    requires
        0 <= i,
        spec_cenv_constants(cenv),
        forall|k: int| 0 <= k < acc.len() ==> spec_says_grounded(#[trigger] acc[k]),
    ensures
        ({
            let out = spec_universe_facts_from(speakers, i, cenv, acc);
            forall|k: int| 0 <= k < out.len() ==> spec_says_grounded(#[trigger] out[k])
        }),
    decreases speakers.len() - i,
{
    if i >= speakers.len() {
    } else {
        let block = spec_universe_facts_for_speaker(speakers[i], cenv);
        let acc2 = acc + block;
        assert forall|k: int| 0 <= k < acc2.len() implies spec_says_grounded(
            #[trigger] acc2[k],
        ) by {
            if k >= acc.len() {
                let e = cenv[k - acc.len()];
                assert(spec_is_name_constant(e.0));
                lemma_universe_fact_grounded(speakers[i as int], e.0, e.1);
                assert(acc2[k] == spec_universe_defining_says_assertion(
                    speakers[i as int],
                    e.0,
                    e.1,
                ));
            }
        }
        lemma_universe_facts_grounded(speakers, i + 1, cenv, acc2);
        assert(spec_universe_facts_from(speakers, i, cenv, acc) == spec_universe_facts_from(
            speakers,
            i + 1,
            cenv,
            acc2,
        ));
    }
}

/// Grounding safety of the whole pass: in the program it returns, every
/// assertion of every says-assertion is grounded — the rewritten assertions
/// by their added universe conditions, and the appended universe facts
/// because they apply universe relations to constants only.
pub proof fn lemma_handle_universes_grounds_program(prog: SpecProgram, p2: SpecProgram)
    requires
        spec_handle_universes(prog) == Ok::<SpecProgram, SpecCompileError>(p2),
    ensures
        forall|i: int|
            0 <= i < p2.assertions.len() ==> spec_says_grounded(#[trigger] p2.assertions[i]),
{
    let relenv = spec_relenv(spec_typing_decls(prog.relation_declarations));
    lemma_populate_prog_constants(relenv, prog);
    let cenv = spec_populate_prog(relenv, prog)->Ok_0;
    let rewritten = spec_add_universe_conditions_says_list_from(
        relenv,
        prog.assertions,
        0,
        Seq::empty(),
    )->Ok_0;
    lemma_rewrite_says_list_grounded(relenv, prog.assertions, 0, Seq::empty());
    let speakers = spec_const_speakers_from(rewritten, 0, Seq::empty());
    lemma_universe_facts_grounded(speakers, 0, cenv, Seq::empty());
    let facts = spec_universe_facts_from(speakers, 0, cenv, Seq::empty());
    assert(p2.assertions == rewritten + facts);
    assert forall|i: int| 0 <= i < p2.assertions.len() implies spec_says_grounded(
        #[trigger] p2.assertions[i],
    ) by {
        if i < rewritten.len() {
            assert(p2.assertions[i] == rewritten[i]);
        } else {
            assert(p2.assertions[i] == facts[i - rewritten.len()]);
        }
    }
}

} // verus!


