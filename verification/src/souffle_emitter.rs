//! Renders a DLIR program as Souffle Datalog text: type declarations,
//! relation declarations (each filtered by name against an optional skip
//! list, for interop with a consumer that declares some relations itself),
//! rules and facts, and `.output` directives. The rendering is deterministic;
//! custom type names are deduplicated and sorted. The emitter
//! performs no semantic validation: it is total over well-formed DLIR.

use vstd::prelude::*;
use vstd::string::StringExecFns;

use crate::ast::{
    strings_view, AstBinop, AstPredicate, AstRelationDeclaration, Sign, SpecPredicate,
    SpecRelationDeclaration, SpecType,
};
use crate::datalog_ir::{
    DLIRAssertion, DLIRProgram, DLIRRvalue, SpecDLIRAssertion, SpecDLIRProgram, SpecDLIRRvalue,
};
use crate::text::{join_strings, spec_contains_str, spec_dedup_first, spec_join, str_eq};
use crate::universe_translation::{collect_custom_type_names, spec_custom_names_of_decls_from};

verus! {

// ---------------------------------------------------------------------------
// Ghost model of the rendering
// ---------------------------------------------------------------------------

/// The Souffle spelling of a type.
pub open spec fn spec_emit_type(t: SpecType) -> Seq<char> {
    match t {
        SpecType::NumberType => "number"@,
        SpecType::PrincipalType => "Principal"@,
        SpecType::CustomType { name } => name,
    }
}

/// One `name: Type` parameter of a declaration.
pub open spec fn spec_emit_arg_typing(t: (Seq<char>, SpecType)) -> Seq<char> {
    t.0 + ": "@ + spec_emit_type(t.1)
}

/// One `.decl` line.
pub open spec fn spec_emit_decl(d: SpecRelationDeclaration) -> Seq<char> {
    ".decl "@ + d.predicate_name + "("@ + spec_join(
        d.arg_typings.map_values(|t: (Seq<char>, SpecType)| spec_emit_arg_typing(t)),
        ", "@,
    ) + ")"@
}

/// A predicate occurrence; negation renders as a leading `!`.
pub open spec fn spec_emit_pred(p: SpecPredicate) -> Seq<char> {
    let neg = match p.sign {
        Sign::Positive => ""@,
        Sign::Negated => "!"@,
    };
    neg + p.name + "("@ + spec_join(p.args, ", "@) + ")"@
}

/// The Souffle spelling of a comparison operator.
pub open spec fn spec_emit_binop(b: AstBinop) -> Seq<char> {
    match b {
        AstBinop::LessThan => "<"@,
        AstBinop::GreaterThan => ">"@,
        AstBinop::Equals => "="@,
        AstBinop::NotEquals => "!="@,
        AstBinop::LessOrEquals => "<="@,
        AstBinop::GreaterOrEquals => ">="@,
    }
}

/// One body term.
pub open spec fn spec_emit_rvalue(rv: SpecDLIRRvalue) -> Seq<char> {
    match rv {
        SpecDLIRRvalue::PredicateRvalue { predicate } => spec_emit_pred(predicate),
        SpecDLIRRvalue::BinopRvalue { lnum, binop, rnum } => lnum + " "@ + spec_emit_binop(binop)
            + " "@ + rnum,
    }
}

/// One fact or rule, terminated by a period.
pub open spec fn spec_emit_assertion(a: SpecDLIRAssertion) -> Seq<char> {
    match a {
        SpecDLIRAssertion::FactAssertion { p } => spec_emit_pred(p) + "."@,
        SpecDLIRAssertion::CondAssertion { lhs, rhs } => spec_emit_pred(lhs) + " :- "@
            + spec_join(rhs.map_values(|r: SpecDLIRRvalue| spec_emit_rvalue(r)), ", "@) + "."@,
    }
}

/// The rule section: every assertion, one per line.
pub open spec fn spec_emit_program_body(p: SpecDLIRProgram) -> Seq<char> {
    spec_join(p.assertions.map_values(|a: SpecDLIRAssertion| spec_emit_assertion(a)), "\n"@)
}

/// Drops the type names a consumer already owns: `symbol` always, and the
/// interop types when a skip list was given.
pub open spec fn spec_filter_type_names(
    names: Seq<Seq<char>>,
    skip_nonempty: bool,
    i: int,
    acc: Seq<Seq<char>>,
) -> Seq<Seq<char>>
    decreases names.len() - i,
{
    if i < 0 || i >= names.len() {
        acc
    } else {
        let n = names[i];
        if n == "symbol"@ || (skip_nonempty && (n == "AccessPath"@ || n == "Tag"@)) {
            spec_filter_type_names(names, skip_nonempty, i + 1, acc)
        } else {
            spec_filter_type_names(names, skip_nonempty, i + 1, acc.push(n))
        }
    }
}

/// The `.type` section: the `Principal` type (unless a skip list was given)
/// and one line per custom type in use, in lexicographic order.
pub open spec fn spec_emit_type_declarations(p: SpecDLIRProgram, skip: Seq<Seq<char>>) -> Seq<
    char,
> {
    let principal_decl = if skip.len() == 0 {
        ".type Principal <: symbol"@
    } else {
        ""@
    };
    let customs = spec_filter_type_names(
        crate::text::spec_sort_strs_from(
            spec_dedup_first(
                spec_custom_names_of_decls_from(p.relation_declarations, 0, Seq::empty()),
            ),
            0,
            Seq::empty(),
        ),
        skip.len() > 0,
        0,
        Seq::empty(),
    );
    let custom_decls = spec_join(
        customs.map_values(|n: Seq<char>| ".type "@ + n + " <: symbol"@),
        "\n"@,
    );
    principal_decl + "\n"@ + custom_decls
}

/// The declarations whose names are not in the skip list, in order.
pub open spec fn spec_decls_not_skipped(
    decls: Seq<SpecRelationDeclaration>,
    skip: Seq<Seq<char>>,
    i: int,
    acc: Seq<SpecRelationDeclaration>,
) -> Seq<SpecRelationDeclaration>
    decreases decls.len() - i,
{
    if i < 0 || i >= decls.len() {
        acc
    } else if spec_contains_str(skip, decls[i].predicate_name) {
        spec_decls_not_skipped(decls, skip, i + 1, acc)
    } else {
        spec_decls_not_skipped(decls, skip, i + 1, acc.push(decls[i]))
    }
}

/// The `.decl` section.
pub open spec fn spec_emit_relation_declarations(
    p: SpecDLIRProgram,
    skip: Seq<Seq<char>>,
) -> Seq<char> {
    spec_join(
        spec_decls_not_skipped(p.relation_declarations, skip, 0, Seq::empty()).map_values(
            |d: SpecRelationDeclaration| spec_emit_decl(d),
        ),
        "\n"@,
    )
}

/// The `.output` section.
pub open spec fn spec_emit_outputs(p: SpecDLIRProgram) -> Seq<char> {
    spec_join(p.outputs.map_values(|o: Seq<char>| ".output "@ + o), "\n"@)
}

/// The whole program text: the four sections joined by newlines.
pub open spec fn spec_emit_program(p: SpecDLIRProgram, decl_skip: Option<Seq<Seq<char>>>) -> Seq<
    char,
> {
    let skip = match decl_skip {
        Some(s) => s,
        None => Seq::empty(),
    };
    spec_emit_type_declarations(p, skip) + "\n"@ + spec_emit_relation_declarations(p, skip)
        + "\n"@ + spec_emit_program_body(p) + "\n"@ + spec_emit_outputs(p)
}

// ---------------------------------------------------------------------------
// Executable rendering
// ---------------------------------------------------------------------------

/// The Souffle spelling of a type.
fn emit_type(t: &crate::ast::AstType) -> (r: String)
    ensures
        r@ == spec_emit_type(t@),
{
    match t {
        crate::ast::AstType::NumberType => String::from_str("number"),
        crate::ast::AstType::PrincipalType => String::from_str("Principal"),
        crate::ast::AstType::CustomType { name } => name.clone(),
    }
}

/// One `.decl` line.
#[verifier::loop_isolation(false)]
fn emit_decl(d: &AstRelationDeclaration) -> (r: String)
    ensures
        r@ == spec_emit_decl(d@),
{
    let mut parts: Vec<String> = Vec::new();
    let mut i: usize = 0;
    while i < d.arg_typings.len()
        invariant
            i <= d.arg_typings.len(),
            parts@.len() == i as int,
            forall|j: int|
                0 <= j < i as int ==> (#[trigger] parts@[j])@ == spec_emit_arg_typing(
                    d@.arg_typings[j],
                ),
        decreases d.arg_typings.len() - i,
    {
        proof {
            assert(d@.arg_typings[i as int] == (
                d.arg_typings@[i as int].0@,
                d.arg_typings@[i as int].1@,
            ));
        }
        let (pname, ptype) = &d.arg_typings[i];
        let line = pname.clone().concat(": ").concat(emit_type(ptype).as_str());
        proof {
            assert(line@ =~= spec_emit_arg_typing(d@.arg_typings[i as int]));
        }
        parts.push(line);
        i = i + 1;
    }
    proof {
        assert(strings_view(parts@) =~= d@.arg_typings.map_values(
            |t: (Seq<char>, SpecType)| spec_emit_arg_typing(t),
        ));
    }
    let joined = join_strings(&parts, ", ");
    let r = String::from_str(".decl ").concat(d.predicate_name.as_str()).concat("(").concat(
        joined.as_str(),
    ).concat(")");
    proof {
        assert(r@ =~= spec_emit_decl(d@));
    }
    r
}

/// A predicate occurrence.
fn emit_pred(p: &AstPredicate) -> (r: String)
    ensures
        r@ == spec_emit_pred(p@),
{
    let neg = match p.sign {
        Sign::Positive => "",
        Sign::Negated => "!",
    };
    let joined = join_strings(&p.args, ", ");
    let r = neg.to_owned().concat(p.name.as_str()).concat("(").concat(joined.as_str()).concat(
        ")",
    );
    proof {
        assert(r@ =~= spec_emit_pred(p@));
    }
    r
}

/// The Souffle spelling of a comparison operator.
fn emit_binop(b: &AstBinop) -> (r: String)
    ensures
        r@ == spec_emit_binop(*b),
{
    match b {
        AstBinop::LessThan => String::from_str("<"),
        AstBinop::GreaterThan => String::from_str(">"),
        AstBinop::Equals => String::from_str("="),
        AstBinop::NotEquals => String::from_str("!="),
        AstBinop::LessOrEquals => String::from_str("<="),
        AstBinop::GreaterOrEquals => String::from_str(">="),
    }
}

/// One body term.
fn emit_rvalue(rv: &DLIRRvalue) -> (r: String)
    ensures
        r@ == spec_emit_rvalue(rv@),
{
    match rv {
        DLIRRvalue::PredicateRvalue { predicate } => emit_pred(predicate),
        DLIRRvalue::BinopRvalue { lnum, binop, rnum } => {
            let r = lnum.clone().concat(" ").concat(emit_binop(binop).as_str()).concat(
                " ",
            ).concat(rnum.as_str());
            proof {
                assert(r@ =~= spec_emit_rvalue(rv@));
            }
            r
        },
    }
}

/// One fact or rule.
#[verifier::loop_isolation(false)]
fn emit_assertion(a: &DLIRAssertion) -> (r: String)
    ensures
        r@ == spec_emit_assertion(a@),
{
    match a {
        DLIRAssertion::DLIRFactAssertion { p } => {
            let r = emit_pred(p).concat(".");
            proof {
                assert(r@ =~= spec_emit_assertion(a@));
            }
            r
        },
        DLIRAssertion::DLIRCondAssertion { lhs, rhs } => {
            let mut parts: Vec<String> = Vec::new();
            let mut i: usize = 0;
            while i < rhs.len()
                invariant
                    i <= rhs.len(),
                    parts@.len() == i as int,
                    forall|j: int|
                        0 <= j < i as int ==> (#[trigger] parts@[j])@ == spec_emit_rvalue(
                            rhs@[j]@,
                        ),
                decreases rhs.len() - i,
            {
                parts.push(emit_rvalue(&rhs[i]));
                i = i + 1;
            }
            proof {
                assert(strings_view(parts@) =~= a@->CondAssertion_rhs.map_values(
                    |r: SpecDLIRRvalue| spec_emit_rvalue(r),
                ));
            }
            let joined = join_strings(&parts, ", ");
            let r = emit_pred(lhs).concat(" :- ").concat(joined.as_str()).concat(".");
            proof {
                assert(r@ =~= spec_emit_assertion(a@));
            }
            r
        },
    }
}

/// The rule section.
#[verifier::loop_isolation(false)]
fn emit_program_body(p: &DLIRProgram) -> (r: String)
    ensures
        r@ == spec_emit_program_body(p@),
{
    let mut lines: Vec<String> = Vec::new();
    let mut i: usize = 0;
    while i < p.assertions.len()
        invariant
            i <= p.assertions.len(),
            lines@.len() == i as int,
            forall|j: int|
                0 <= j < i as int ==> (#[trigger] lines@[j])@ == spec_emit_assertion(
                    p.assertions@[j]@,
                ),
        decreases p.assertions.len() - i,
    {
        lines.push(emit_assertion(&p.assertions[i]));
        i = i + 1;
    }
    proof {
        assert(strings_view(lines@) =~= p@.assertions.map_values(
            |a: SpecDLIRAssertion| spec_emit_assertion(a),
        ));
    }
    join_strings(&lines, "\n")
}

/// The `.type` section.
#[verifier::loop_isolation(false)]
fn emit_type_declarations(p: &DLIRProgram, decl_skip: &Vec<String>) -> (r: String)
    ensures
        r@ == spec_emit_type_declarations(p@, strings_view(decl_skip@)),
{
    let principal_decl = if decl_skip.len() == 0 {
        String::from_str(".type Principal <: symbol")
    } else {
        String::from_str("")
    };
    let names = collect_custom_type_names(&p.relation_declarations);
    let uniques = crate::text::dedup_strings(&names);
    let deduped = crate::text::sort_strings(&uniques);
    let ghost sdeduped = strings_view(deduped@);
    let skip_nonempty = decl_skip.len() > 0;
    let symbol_name = String::from_str("symbol");
    let access_path_name = String::from_str("AccessPath");
    let tag_name = String::from_str("Tag");
    proof {
        reveal_strlit("symbol");
        reveal_strlit("AccessPath");
        reveal_strlit("Tag");
    }
    let mut kept: Vec<String> = Vec::new();
    proof {
        assert(strings_view(kept@) =~= Seq::<Seq<char>>::empty());
    }
    let mut i: usize = 0;
    while i < deduped.len()
        invariant
            i <= deduped.len(),
            spec_filter_type_names(sdeduped, skip_nonempty, 0, Seq::empty())
                == spec_filter_type_names(sdeduped, skip_nonempty, i as int, strings_view(kept@)),
        decreases deduped.len() - i,
    {
        proof {
            assert(sdeduped[i as int] == deduped@[i as int]@);
        }
        let n = &deduped[i];
        let skip_this = str_eq(n, &symbol_name) || (skip_nonempty && (str_eq(n, &access_path_name)
            || str_eq(n, &tag_name)));
        if !skip_this {
            let ghost before = strings_view(kept@);
            kept.push(n.clone());
            proof {
                assert(strings_view(kept@) =~= before.push(sdeduped[i as int]));
            }
        }
        i = i + 1;
    }
    let mut lines: Vec<String> = Vec::new();
    let ghost skept = strings_view(kept@);
    let mut i: usize = 0;
    while i < kept.len()
        invariant
            i <= kept.len(),
            lines@.len() == i as int,
            forall|j: int|
                0 <= j < i as int ==> (#[trigger] lines@[j])@ == ".type "@ + skept[j]
                    + " <: symbol"@,
        decreases kept.len() - i,
    {
        proof {
            assert(skept[i as int] == kept@[i as int]@);
        }
        let line = String::from_str(".type ").concat(kept[i].as_str()).concat(" <: symbol");
        lines.push(line);
        i = i + 1;
    }
    proof {
        assert(strings_view(lines@) =~= skept.map_values(
            |n: Seq<char>| ".type "@ + n + " <: symbol"@,
        ));
    }
    let custom_decls = join_strings(&lines, "\n");
    let r = principal_decl.concat("\n").concat(custom_decls.as_str());
    proof {
        reveal_strlit("");
        assert(""@ =~= Seq::<char>::empty());
        assert(r@ =~= spec_emit_type_declarations(p@, strings_view(decl_skip@)));
    }
    r
}

/// The `.decl` section, filtered against the skip list.
#[verifier::loop_isolation(false)]
fn emit_relation_declarations(p: &DLIRProgram, decl_skip: &Vec<String>) -> (r: String)
    ensures
        r@ == spec_emit_relation_declarations(p@, strings_view(decl_skip@)),
{
    let ghost sdecls = p@.relation_declarations;
    let ghost sskip = strings_view(decl_skip@);
    let mut kept_lines: Vec<String> = Vec::new();
    let ghost kept: Seq<SpecRelationDeclaration> = Seq::empty();
    let mut i: usize = 0;
    while i < p.relation_declarations.len()
        invariant
            i <= p.relation_declarations.len(),
            spec_decls_not_skipped(sdecls, sskip, 0, Seq::empty()) == spec_decls_not_skipped(
                sdecls,
                sskip,
                i as int,
                kept,
            ),
            kept.len() == kept_lines@.len(),
            forall|j: int|
                0 <= j < kept.len() ==> (#[trigger] kept_lines@[j])@ == spec_emit_decl(kept[j]),
        decreases p.relation_declarations.len() - i,
    {
        proof {
            assert(sdecls[i as int] == p.relation_declarations@[i as int]@);
        }
        if !crate::text::contains_string(decl_skip, &p.relation_declarations[i].predicate_name) {
            kept_lines.push(emit_decl(&p.relation_declarations[i]));
            proof {
                kept = kept.push(sdecls[i as int]);
            }
        }
        i = i + 1;
    }
    proof {
        assert(strings_view(kept_lines@) =~= kept.map_values(
            |d: SpecRelationDeclaration| spec_emit_decl(d),
        ));
    }
    join_strings(&kept_lines, "\n")
}

/// The `.output` section.
#[verifier::loop_isolation(false)]
fn emit_outputs(p: &DLIRProgram) -> (r: String)
    ensures
        r@ == spec_emit_outputs(p@),
{
    let mut lines: Vec<String> = Vec::new();
    let mut i: usize = 0;
    while i < p.outputs.len()
        invariant
            i <= p.outputs.len(),
            lines@.len() == i as int,
            forall|j: int|
                0 <= j < i as int ==> (#[trigger] lines@[j])@ == ".output "@ + p.outputs@[j]@,
        decreases p.outputs.len() - i,
    {
        lines.push(String::from_str(".output ").concat(p.outputs[i].as_str()));
        i = i + 1;
    }
    proof {
        assert(strings_view(lines@) =~= p@.outputs.map_values(|o: Seq<char>| ".output "@ + o));
    }
    join_strings(&lines, "\n")
}

/// Produces Souffle code for a DLIR program, suppressing the declarations
/// named in the skip list.
pub fn emit_program(p: &DLIRProgram, decl_skip: &Option<Vec<String>>) -> (r: String)
    ensures
        r@ == spec_emit_program(
            p@,
            match decl_skip {
                Some(s) => Some(strings_view(s@)),
                None => None,
            },
        ),
{
    let empty_skip: Vec<String> = Vec::new();
    let skip = match decl_skip {
        Some(s) => s,
        None => &empty_skip,
    };
    proof {
        assert(strings_view(empty_skip@) =~= Seq::<Seq<char>>::empty());
    }
    let r = emit_type_declarations(p, skip).concat("\n").concat(
        emit_relation_declarations(p, skip).as_str(),
    ).concat("\n").concat(emit_program_body(p).as_str()).concat("\n").concat(
        emit_outputs(p).as_str(),
    );
    proof {
        assert(r@ =~= spec_emit_program(
            p@,
            match decl_skip {
                Some(s) => Some(strings_view(s@)),
                None => None,
            },
        ));
    }
    r
}

} // verus!
