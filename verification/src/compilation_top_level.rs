//! Top level of the compiler: merging of multi-file programs and, once the
//! passes below exist, the whole pipeline from programs to Souffle text.

use vstd::prelude::*;
use vstd::multiset::Multiset;
use vstd::seq_lib::lemma_seq_union_to_multiset_commutative;

use crate::ast::{
    dup_imports, dup_keybinds, dup_queries, dup_relation_declarations, dup_says_assertions,
    AstImport, AstKeybind, AstProgram, AstQuery, AstRelationDeclaration, AstSaysAssertion,
    SpecImport, SpecKeybind, SpecProgram, SpecQuery, SpecRelationDeclaration, SpecSaysAssertion,
};
use crate::errors::{CompileError, SpecCompileError};
use crate::export_assertions::{
    export_assertions, keysets_view, spec_export_plan, spec_has_export, ExportBundle,
    SpecExportJob,
};
use crate::import_assertions::{handle_imports, materials_objs, spec_splice, ImportMaterial};
use crate::lowering_ast_datalog::{spec_lower, LoweringToDatalogPass};
use crate::souffle_emitter::{emit_program, spec_emit_program};
use crate::universe_translation::{spec_handle_universes, UniverseHandlingPass};

verus! {

/// Concatenation of two programs, field by field and order preserving.
pub open spec fn spec_merge2(a: SpecProgram, b: SpecProgram) -> SpecProgram {
    SpecProgram {
        relation_declarations: a.relation_declarations + b.relation_declarations,
        assertions: a.assertions + b.assertions,
        queries: a.queries + b.queries,
        imports: a.imports + b.imports,
        priv_binds: a.priv_binds + b.priv_binds,
        pub_binds: a.pub_binds + b.pub_binds,
    }
}

/// Left fold of `spec_merge2` over a non-empty list of programs.
pub open spec fn spec_merge(progs: Seq<SpecProgram>) -> SpecProgram
    recommends
        progs.len() > 0,
    decreases progs.len(),
{
    if progs.len() <= 1 {
        progs[0]
    } else {
        spec_merge2(spec_merge(progs.drop_last()), progs.last())
    }
}

/// Merges the programs parsed from several source files into one program:
/// a pure, order-preserving concatenation of every field.
pub fn merge_multiprogram(progs: &Vec<AstProgram>) -> (r: AstProgram)
    requires
        progs@.len() > 0,
    ensures
        r@ == spec_merge(progs@.map_values(|p: AstProgram| p@)),
{
    let ghost views = progs@.map_values(|p: AstProgram| p@);
    let mut acc = progs[0].dup();
    let mut i: usize = 1;
    while i < progs.len()
        invariant
            1 <= i <= progs.len(),
            views == progs@.map_values(|p: AstProgram| p@),
            acc@ == spec_merge(views.take(i as int)),
        decreases progs.len() - i,
    {
        proof {
            assert(views.take(i + 1 as int).drop_last() =~= views.take(i as int));
            assert(views.take(i + 1 as int).last() == views[i as int]);
        }
        let cur = &progs[i];
        let mut decls = dup_relation_declarations(&cur.relation_declarations);
        acc.relation_declarations.append(&mut decls);
        let mut asserts = dup_says_assertions(&cur.assertions);
        acc.assertions.append(&mut asserts);
        let mut queries = dup_queries(&cur.queries);
        acc.queries.append(&mut queries);
        let mut imports = dup_imports(&cur.imports);
        acc.imports.append(&mut imports);
        let mut priv_binds = dup_keybinds(&cur.priv_binds);
        acc.priv_binds.append(&mut priv_binds);
        let mut pub_binds = dup_keybinds(&cur.pub_binds);
        acc.pub_binds.append(&mut pub_binds);
        proof {
            let f_d = |x: AstRelationDeclaration| x@;
            let f_a = |x: AstSaysAssertion| x@;
            let f_q = |x: AstQuery| x@;
            let f_i = |x: AstImport| x@;
            let f_k = |x: AstKeybind| x@;
            assert(acc.relation_declarations@.map_values(f_d) =~= spec_merge(
                views.take(i as int),
            ).relation_declarations + views[i as int].relation_declarations);
            assert(acc.assertions@.map_values(f_a) =~= spec_merge(views.take(i as int)).assertions
                + views[i as int].assertions);
            assert(acc.queries@.map_values(f_q) =~= spec_merge(views.take(i as int)).queries
                + views[i as int].queries);
            assert(acc.imports@.map_values(f_i) =~= spec_merge(views.take(i as int)).imports
                + views[i as int].imports);
            assert(acc.priv_binds@.map_values(f_k) =~= spec_merge(views.take(i as int)).priv_binds
                + views[i as int].priv_binds);
            assert(acc.pub_binds@.map_values(f_k) =~= spec_merge(views.take(i as int)).pub_binds
                + views[i as int].pub_binds);
        }
        i = i + 1;
    }
    proof {
        assert(views.take(views.len() as int) =~= views);
    }
    acc
}

/// Merging is associative: grouping does not matter.
pub proof fn lemma_merge_associative(a: SpecProgram, b: SpecProgram, c: SpecProgram)
    ensures
        spec_merge2(spec_merge2(a, b), c) == spec_merge2(a, spec_merge2(b, c)),
{
    let l = spec_merge2(spec_merge2(a, b), c);
    let r = spec_merge2(a, spec_merge2(b, c));
    assert(l.relation_declarations =~= r.relation_declarations);
    assert(l.assertions =~= r.assertions);
    assert(l.queries =~= r.queries);
    assert(l.imports =~= r.imports);
    assert(l.priv_binds =~= r.priv_binds);
    assert(l.pub_binds =~= r.pub_binds);
}

/// Merging two programs in either order yields the same collection of
/// declarations, assertions, queries, imports and key bindings; only their
/// order differs.
pub proof fn lemma_merge_commutative_up_to_order(a: SpecProgram, b: SpecProgram)
    ensures
        spec_merge2(a, b).relation_declarations.to_multiset() == spec_merge2(
            b,
            a,
        ).relation_declarations.to_multiset(),
        spec_merge2(a, b).assertions.to_multiset() == spec_merge2(b, a).assertions.to_multiset(),
        spec_merge2(a, b).queries.to_multiset() == spec_merge2(b, a).queries.to_multiset(),
        spec_merge2(a, b).imports.to_multiset() == spec_merge2(b, a).imports.to_multiset(),
        spec_merge2(a, b).priv_binds.to_multiset() == spec_merge2(b, a).priv_binds.to_multiset(),
        spec_merge2(a, b).pub_binds.to_multiset() == spec_merge2(b, a).pub_binds.to_multiset(),
{
    lemma_seq_union_to_multiset_commutative(a.relation_declarations, b.relation_declarations);
    lemma_seq_union_to_multiset_commutative(a.assertions, b.assertions);
    lemma_seq_union_to_multiset_commutative(a.queries, b.queries);
    lemma_seq_union_to_multiset_commutative(a.imports, b.imports);
    lemma_seq_union_to_multiset_commutative(a.priv_binds, b.priv_binds);
    lemma_seq_union_to_multiset_commutative(a.pub_binds, b.pub_binds);
}


/// The program text of one compilation unit: the universe pass, the
/// lowering pass and the emitter in sequence.
pub open spec fn spec_ast_to_souffle(prog: SpecProgram, skip: Option<Seq<Seq<char>>>) -> Result<
    Seq<char>,
    SpecCompileError,
> {
    match spec_handle_universes(prog) {
        Err(e) => Err(e),
        Ok(up) => match spec_lower(up) {
            Err(e) => Err(e),
            Ok(dlir) => Ok(spec_emit_program(dlir, skip)),
        },
    }
}

/// Compiles one program into Souffle text: grounding, lowering, emission.
pub fn ast_to_souffle(prog: &AstProgram, decl_skip: &Option<Vec<String>>) -> (r: Result<
    String,
    CompileError,
>)
    ensures
        match r {
            Ok(text) => spec_ast_to_souffle(prog@, spec_skip_view(decl_skip)) == Ok::<
                Seq<char>,
                SpecCompileError,
            >(text@),
            Err(e) => spec_ast_to_souffle(prog@, spec_skip_view(decl_skip)) == Err::<
                Seq<char>,
                SpecCompileError,
            >(e@),
        },
{
    let up = match UniverseHandlingPass::handle_universes(prog) {
        Err(e) => {
            return Err(e);
        },
        Ok(p) => p,
    };
    let dlir = match LoweringToDatalogPass::lower(&up) {
        Err(e) => {
            return Err(e);
        },
        Ok(d) => d,
    };
    Ok(emit_program(&dlir, decl_skip))
}

/// The view of an optional skip list.
pub open spec fn spec_skip_view(decl_skip: &Option<Vec<String>>) -> Option<Seq<Seq<char>>> {
    match decl_skip {
        Some(s) => Some(s@.map_values(|x: String| x@)),
        None => None,
    }
}

/// What `compile` produces: the Souffle program text and the export
/// artifacts to be written beside it.
pub struct CompileOutput {
    pub datalog: String,
    pub exports: Vec<ExportBundle>,
}

/// The Souffle text that compiling a list of programs must produce: the
/// programs merged, the imported claims spliced in, and the result
/// compiled.
pub open spec fn spec_compile_datalog(
    progs: Seq<SpecProgram>,
    objs: Seq<Seq<u8>>,
    skip: Option<Seq<Seq<char>>>,
) -> Result<Seq<char>, SpecCompileError> {
    match spec_splice(spec_merge(progs), objs) {
        Err(e) => Err(e),
        Ok(sp) => spec_ast_to_souffle(sp, skip),
    }
}

/// Compiles a multi-file program end to end: merge, import (decode and
/// verify claims), ground, lower, emit, and export the marked claims.
/// `import_materials` holds the bytes read for each import of the merged
/// program, in order; `priv_keysets` maps private-key file names to keyset
/// JSON for the exporting speakers.
pub fn compile(
    progs: &Vec<AstProgram>,
    decl_skip: &Option<Vec<String>>,
    import_materials: &Vec<ImportMaterial>,
    priv_keysets: &Vec<(String, Vec<u8>)>,
) -> (r: Result<CompileOutput, CompileError>)
    requires
        progs@.len() > 0,
    ensures
        match r {
            Ok(out) => ({
                &&& spec_compile_datalog(
                    progs@.map_values(|p: AstProgram| p@),
                    materials_objs(import_materials@),
                    spec_skip_view(decl_skip),
                ) == Ok::<Seq<char>, SpecCompileError>(out.datalog@)
                &&& spec_splice(
                    spec_merge(progs@.map_values(|p: AstProgram| p@)),
                    materials_objs(import_materials@),
                ) matches Ok(sp)
                &&& spec_export_plan(sp, keysets_view(priv_keysets@)) matches Ok(jobs)
                    && out.exports@.len() == jobs.len() && (forall|i: int|
                    0 <= i < jobs.len() ==> (#[trigger] out.exports@[i]).obj_file@
                        == jobs[i].obj_file && out.exports@[i].sig_file@ == jobs[i].sig_file
                        && out.exports@[i].obj_bytes@ == jobs[i].payload)
            }),
            Err(e) => ({
                let progs_v = progs@.map_values(|p: AstProgram| p@);
                let objs = materials_objs(import_materials@);
                ||| spec_compile_datalog(progs_v, objs, spec_skip_view(decl_skip)) == Err::<
                    Seq<char>,
                    SpecCompileError,
                >(e@)
                ||| (spec_merge(progs_v).imports.len() > 0 && (e@ is IOFailure
                    || e@ is SignatureVerificationFailure))
                ||| spec_export_plan(
                    spec_splice(spec_merge(progs_v), objs)->Ok_0,
                    keysets_view(priv_keysets@),
                ) == Err::<Seq<SpecExportJob>, SpecCompileError>(e@)
                ||| (e@ is IOFailure && spec_has_export(
                    spec_splice(spec_merge(progs_v), objs)->Ok_0.assertions,
                ))
            }),
        },
{
    let merged = merge_multiprogram(progs);
    let with_imports = match handle_imports(&merged, import_materials) {
        Err(e) => {
            return Err(e);
        },
        Ok(p) => p,
    };
    let datalog = match ast_to_souffle(&with_imports, decl_skip) {
        Err(e) => {
            return Err(e);
        },
        Ok(t) => t,
    };
    let exports = match export_assertions(&with_imports, priv_keysets) {
        Err(e) => {
            return Err(e);
        },
        Ok(x) => x,
    };
    Ok(CompileOutput { datalog, exports })
}

/// Compiles a single program: the one-input convenience form of `compile`.
pub fn compile_one_program(
    prog: &AstProgram,
    decl_skip: &Option<Vec<String>>,
    import_materials: &Vec<ImportMaterial>,
    priv_keysets: &Vec<(String, Vec<u8>)>,
) -> (r: Result<CompileOutput, CompileError>)
    ensures
        match r {
            Ok(out) => ({
                &&& spec_compile_datalog(
                    seq![prog@],
                    materials_objs(import_materials@),
                    spec_skip_view(decl_skip),
                ) == Ok::<Seq<char>, SpecCompileError>(out.datalog@)
                &&& spec_splice(
                    spec_merge(seq![prog@]),
                    materials_objs(import_materials@),
                ) matches Ok(sp)
                &&& spec_export_plan(sp, keysets_view(priv_keysets@)) matches Ok(jobs)
                    && out.exports@.len() == jobs.len() && (forall|i: int|
                    0 <= i < jobs.len() ==> (#[trigger] out.exports@[i]).obj_file@
                        == jobs[i].obj_file && out.exports@[i].sig_file@ == jobs[i].sig_file
                        && out.exports@[i].obj_bytes@ == jobs[i].payload)
            }),
            Err(e) => ({
                let objs = materials_objs(import_materials@);
                ||| spec_compile_datalog(seq![prog@], objs, spec_skip_view(decl_skip)) == Err::<
                    Seq<char>,
                    SpecCompileError,
                >(e@)
                ||| (spec_merge(seq![prog@]).imports.len() > 0 && (e@ is IOFailure
                    || e@ is SignatureVerificationFailure))
                ||| spec_export_plan(
                    spec_splice(spec_merge(seq![prog@]), objs)->Ok_0,
                    keysets_view(priv_keysets@),
                ) == Err::<Seq<SpecExportJob>, SpecCompileError>(e@)
                ||| (e@ is IOFailure && spec_has_export(
                    spec_splice(spec_merge(seq![prog@]), objs)->Ok_0.assertions,
                ))
            }),
        },
{
    let mut progs: Vec<AstProgram> = Vec::new();
    progs.push(prog.dup());
    proof {
        assert(progs@.map_values(|p: AstProgram| p@) =~= seq![prog@]);
    }
    compile(&progs, decl_skip, import_materials, priv_keysets)
}


// ---------------------------------------------------------------------------
// Merging is order-independent in meaning
// ---------------------------------------------------------------------------

/// The per-field contents of a list of programs, as multisets: what merging
/// them holds, with order forgotten.
pub open spec fn spec_programs_contents(progs: Seq<SpecProgram>) -> (
    Multiset<SpecRelationDeclaration>,
    Multiset<SpecSaysAssertion>,
    Multiset<SpecQuery>,
    Multiset<SpecImport>,
    Multiset<SpecKeybind>,
    Multiset<SpecKeybind>,
)
    decreases progs.len(),
{
    if progs.len() == 0 {
        (
            Multiset::empty(),
            Multiset::empty(),
            Multiset::empty(),
            Multiset::empty(),
            Multiset::empty(),
            Multiset::empty(),
        )
    } else {
        let rest = spec_programs_contents(progs.drop_last());
        let p = progs.last();
        (
            rest.0.add(p.relation_declarations.to_multiset()),
            rest.1.add(p.assertions.to_multiset()),
            rest.2.add(p.queries.to_multiset()),
            rest.3.add(p.imports.to_multiset()),
            rest.4.add(p.priv_binds.to_multiset()),
            rest.5.add(p.pub_binds.to_multiset()),
        )
    }
}

/// A merged program holds exactly the contents of its parts.
proof fn lemma_merge_contents(progs: Seq<SpecProgram>)
    requires
        progs.len() > 0,
    ensures
        ({
            let m = spec_merge(progs);
            let c = spec_programs_contents(progs);
            &&& m.relation_declarations.to_multiset() == c.0
            &&& m.assertions.to_multiset() == c.1
            &&& m.queries.to_multiset() == c.2
            &&& m.imports.to_multiset() == c.3
            &&& m.priv_binds.to_multiset() == c.4
            &&& m.pub_binds.to_multiset() == c.5
        }),
    decreases progs.len(),
{
    broadcast use vstd::multiset::group_multiset_axioms;

    if progs.len() == 1 {
        reveal_with_fuel(spec_programs_contents, 2);
        let m = spec_merge(progs);
        let c = spec_programs_contents(progs);
        assert(c.0 =~= m.relation_declarations.to_multiset());
        assert(c.1 =~= m.assertions.to_multiset());
        assert(c.2 =~= m.queries.to_multiset());
        assert(c.3 =~= m.imports.to_multiset());
        assert(c.4 =~= m.priv_binds.to_multiset());
        assert(c.5 =~= m.pub_binds.to_multiset());
    } else {
        lemma_merge_contents(progs.drop_last());
        let a = spec_merge(progs.drop_last());
        let b = progs.last();
        vstd::seq_lib::lemma_multiset_commutative(a.relation_declarations, b.relation_declarations);
        vstd::seq_lib::lemma_multiset_commutative(a.assertions, b.assertions);
        vstd::seq_lib::lemma_multiset_commutative(a.queries, b.queries);
        vstd::seq_lib::lemma_multiset_commutative(a.imports, b.imports);
        vstd::seq_lib::lemma_multiset_commutative(a.priv_binds, b.priv_binds);
        vstd::seq_lib::lemma_multiset_commutative(a.pub_binds, b.pub_binds);
    }
}

/// Removing one program takes exactly its contents out of the sum.
proof fn lemma_contents_remove(progs: Seq<SpecProgram>, idx: int)
    requires
        0 <= idx < progs.len(),
    ensures
        ({
            let c = spec_programs_contents(progs);
            let c2 = spec_programs_contents(progs.remove(idx));
            let p = progs[idx];
            &&& c.0 == c2.0.add(p.relation_declarations.to_multiset())
            &&& c.1 == c2.1.add(p.assertions.to_multiset())
            &&& c.2 == c2.2.add(p.queries.to_multiset())
            &&& c.3 == c2.3.add(p.imports.to_multiset())
            &&& c.4 == c2.4.add(p.priv_binds.to_multiset())
            &&& c.5 == c2.5.add(p.pub_binds.to_multiset())
        }),
    decreases progs.len(),
{
    broadcast use vstd::multiset::group_multiset_axioms;

    if idx == progs.len() - 1 {
        assert(progs.remove(idx) =~= progs.drop_last());
    } else {
        let s1 = progs.drop_last();
        lemma_contents_remove(s1, idx);
        assert(progs.remove(idx).drop_last() =~= s1.remove(idx));
        assert(progs.remove(idx).last() == progs.last());
        let d = spec_programs_contents(s1.remove(idx));
        let p = progs[idx];
        let b = progs.last();
        assert(d.0.add(p.relation_declarations.to_multiset()).add(
            b.relation_declarations.to_multiset(),
        ) =~= d.0.add(b.relation_declarations.to_multiset()).add(
            p.relation_declarations.to_multiset(),
        ));
        assert(d.1.add(p.assertions.to_multiset()).add(b.assertions.to_multiset()) =~= d.1.add(
            b.assertions.to_multiset(),
        ).add(p.assertions.to_multiset()));
        assert(d.2.add(p.queries.to_multiset()).add(b.queries.to_multiset()) =~= d.2.add(
            b.queries.to_multiset(),
        ).add(p.queries.to_multiset()));
        assert(d.3.add(p.imports.to_multiset()).add(b.imports.to_multiset()) =~= d.3.add(
            b.imports.to_multiset(),
        ).add(p.imports.to_multiset()));
        assert(d.4.add(p.priv_binds.to_multiset()).add(b.priv_binds.to_multiset()) =~= d.4.add(
            b.priv_binds.to_multiset(),
        ).add(p.priv_binds.to_multiset()));
        assert(d.5.add(p.pub_binds.to_multiset()).add(b.pub_binds.to_multiset()) =~= d.5.add(
            b.pub_binds.to_multiset(),
        ).add(p.pub_binds.to_multiset()));
    }
}

/// Lists of programs with the same members have the same contents.
proof fn lemma_contents_permutation(p1: Seq<SpecProgram>, p2: Seq<SpecProgram>)
    requires
        p1.to_multiset() == p2.to_multiset(),
    ensures
        spec_programs_contents(p1) == spec_programs_contents(p2),
    decreases p1.len(),
{
    broadcast use vstd::seq_lib::group_to_multiset_ensures;
    broadcast use vstd::multiset::group_multiset_axioms;

    if p1.len() == 0 {
        assert(p1.to_multiset().len() == 0);
        assert(p2.len() == 0);
    } else {
        let x = p1.last();
        assert(p1.contains(x));
        assert(p2.to_multiset().count(x) > 0);
        assert(p2.contains(x));
        let idx = choose|idx: int| 0 <= idx < p2.len() && p2[idx] == x;
        let p2r = p2.remove(idx);
        assert(p2r.to_multiset() =~= p2.to_multiset().remove(x));
        assert(p1.drop_last() =~= p1.remove(p1.len() - 1));
        assert(p1.drop_last().to_multiset() =~= p1.to_multiset().remove(x));
        lemma_contents_permutation(p1.drop_last(), p2r);
        lemma_contents_remove(p2, idx);
        assert(spec_programs_contents(p1).0 == spec_programs_contents(p2).0);
        assert(spec_programs_contents(p1).1 == spec_programs_contents(p2).1);
        assert(spec_programs_contents(p1).2 == spec_programs_contents(p2).2);
        assert(spec_programs_contents(p1).3 == spec_programs_contents(p2).3);
        assert(spec_programs_contents(p1).4 == spec_programs_contents(p2).4);
        assert(spec_programs_contents(p1).5 == spec_programs_contents(p2).5);
    }
}

/// Merging any reordering of a list of programs yields the same
/// declarations, assertions, queries, imports and key bindings; only their
/// order within each field differs.
pub proof fn lemma_merge_permutation(progs1: Seq<SpecProgram>, progs2: Seq<SpecProgram>)
    requires
        progs1.len() > 0,
        progs1.to_multiset() == progs2.to_multiset(),
    ensures
        spec_merge(progs1).relation_declarations.to_multiset() == spec_merge(
            progs2,
        ).relation_declarations.to_multiset(),
        spec_merge(progs1).assertions.to_multiset() == spec_merge(progs2).assertions.to_multiset(),
        spec_merge(progs1).queries.to_multiset() == spec_merge(progs2).queries.to_multiset(),
        spec_merge(progs1).imports.to_multiset() == spec_merge(progs2).imports.to_multiset(),
        spec_merge(progs1).priv_binds.to_multiset() == spec_merge(progs2).priv_binds.to_multiset(),
        spec_merge(progs1).pub_binds.to_multiset() == spec_merge(progs2).pub_binds.to_multiset(),
{
    broadcast use vstd::seq_lib::group_to_multiset_ensures;

    assert(progs1.to_multiset().len() == progs1.len());
    assert(progs2.to_multiset().len() == progs2.len());
    lemma_merge_contents(progs1);
    lemma_merge_contents(progs2);
    lemma_contents_permutation(progs1, progs2);
}

} // verus!
