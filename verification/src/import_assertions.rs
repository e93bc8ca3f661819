//! The import half of the claim protocol. For every declared import the
//! claimed principal's bound public key is looked up; the claim object is
//! decoded, and its signature verified against the claim, before the claim's
//! assertions are spliced into the program as that principal's own
//! says-assertion. A claim whose signature does not validate is never
//! spliced: verification failure is fatal.

use vstd::prelude::*;
use vstd::string::StringExecFns;

use crate::ast::{
    dup_keybinds, dup_queries, dup_relation_declarations, dup_says_assertions, says_view,
    AstProgram, AstSaysAssertion, SpecImport, SpecProgram, SpecSaysAssertion,
};
use crate::claim_codec::{decode_claim, encode_claim, spec_dec_claim};
use crate::errors::{CompileError, SpecCompileError};
use crate::export_assertions::spec_lookup_keybind;
use crate::tink_interface::{keyset_from_json, verify_bytes};

verus! {

/// The material the caller hands in for one import, read from the claimed
/// principal's bound public-key file, `<filename>.obj` and `<filename>.sig`.
pub struct ImportMaterial {
    pub keyset_json: Vec<u8>,
    pub obj_bytes: Vec<u8>,
    pub sig_bytes: Vec<u8>,
}

/// What the caller must read from disk for one import.
pub struct ImportRequest {
    pub principal: crate::ast::AstPrincipal,
    pub key_file: String,
    pub obj_file: String,
    pub sig_file: String,
}

/// Ghost model of one import request.
pub ghost struct SpecImportRequest {
    pub principal: Seq<char>,
    pub key_file: Seq<char>,
    pub obj_file: Seq<char>,
    pub sig_file: Seq<char>,
}

/// The requests implied by a program's imports: each principal's bound
/// public-key file and the object and signature files of the claim.
pub open spec fn spec_import_requests_from(
    imports: Seq<SpecImport>,
    binds: Seq<crate::ast::SpecKeybind>,
    i: int,
    acc: Seq<SpecImportRequest>,
) -> Result<Seq<SpecImportRequest>, SpecCompileError>
    decreases imports.len() - i,
{
    if i < 0 || i >= imports.len() {
        Ok(acc)
    } else {
        match spec_lookup_keybind(binds, imports[i].principal.name) {
            None => Err(SpecCompileError::UnboundKey { principal: imports[i].principal.name }),
            Some(keyfile) => spec_import_requests_from(
                imports,
                binds,
                i + 1,
                acc.push(
                    SpecImportRequest {
                        principal: imports[i].principal.name,
                        key_file: keyfile,
                        obj_file: imports[i].filename + ".obj"@,
                        sig_file: imports[i].filename + ".sig"@,
                    },
                ),
            ),
        }
    }
}

/// Lists what must be read from disk to satisfy the program's imports; an
/// import whose principal has no bound public key is an error.
#[verifier::loop_isolation(false)]
pub fn import_requests(prog: &AstProgram) -> (r: Result<Vec<ImportRequest>, CompileError>)
    ensures
        match r {
            Ok(out) => spec_import_requests_from(
                prog@.imports,
                prog@.pub_binds,
                0,
                Seq::empty(),
            ) matches Ok(reqs) && out@.len() == reqs.len() && (forall|i: int|
                0 <= i < reqs.len() ==> (#[trigger] out@[i]).principal@.name == reqs[i].principal
                    && out@[i].key_file@ == reqs[i].key_file && out@[i].obj_file@
                    == reqs[i].obj_file && out@[i].sig_file@ == reqs[i].sig_file),
            Err(e) => spec_import_requests_from(prog@.imports, prog@.pub_binds, 0, Seq::empty())
                == Err::<Seq<SpecImportRequest>, SpecCompileError>(e@),
        },
{
    let ghost simports = prog@.imports;
    let ghost sbinds = prog@.pub_binds;
    let mut out: Vec<ImportRequest> = Vec::new();
    let ghost reqs: Seq<SpecImportRequest> = Seq::empty();
    let mut i: usize = 0;
    while i < prog.imports.len()
        invariant
            i <= prog.imports.len(),
            spec_import_requests_from(simports, sbinds, 0, Seq::empty())
                == spec_import_requests_from(simports, sbinds, i as int, reqs),
            out@.len() == reqs.len(),
            forall|j: int|
                0 <= j < reqs.len() ==> (#[trigger] out@[j]).principal@.name == reqs[j].principal
                    && out@[j].key_file@ == reqs[j].key_file && out@[j].obj_file@
                    == reqs[j].obj_file && out@[j].sig_file@ == reqs[j].sig_file,
        decreases prog.imports.len() - i,
    {
        proof {
            assert(simports[i as int] == prog.imports@[i as int]@);
        }
        let imp = &prog.imports[i];
        let keyfile = match crate::export_assertions::lookup_keybind(
            &prog.pub_binds,
            &imp.principal.name,
        ) {
            None => {
                return Err(CompileError::UnboundKey { principal: imp.principal.name.clone() });
            },
            Some(f) => f,
        };
        let req = ImportRequest {
            principal: imp.principal.dup(),
            key_file: keyfile,
            obj_file: imp.filename.clone().concat(".obj"),
            sig_file: imp.filename.clone().concat(".sig"),
        };
        let ghost sreq = SpecImportRequest {
            principal: simports[i as int].principal.name,
            key_file: req.key_file@,
            obj_file: simports[i as int].filename + ".obj"@,
            sig_file: simports[i as int].filename + ".sig"@,
        };
        out.push(req);
        proof {
            reqs = reqs.push(sreq);
        }
        i = i + 1;
    }
    Ok(out)
}

/// The object bytes of the supplied import materials.
pub open spec fn materials_objs(ms: Seq<ImportMaterial>) -> Seq<Seq<u8>> {
    ms.map_values(|m: ImportMaterial| m.obj_bytes@)
}

/// The deterministic splice: each claim object decoded and turned into a
/// says-assertion of the importing principal; an undecodable claim fails.
pub open spec fn spec_splice_from(
    imports: Seq<SpecImport>,
    objs: Seq<Seq<u8>>,
    i: int,
    acc: Seq<SpecSaysAssertion>,
) -> Result<Seq<SpecSaysAssertion>, SpecCompileError>
    decreases imports.len() - i,
{
    if i < 0 || i >= imports.len() {
        Ok(acc)
    } else {
        match spec_dec_claim(objs[i]) {
            None => Err(SpecCompileError::IOFailure),
            Some(claim) => spec_splice_from(
                imports,
                objs,
                i + 1,
                acc.push(
                    SpecSaysAssertion {
                        prin: imports[i].principal,
                        assertions: claim,
                        export_file: None,
                    },
                ),
            ),
        }
    }
}

/// The program after a successful import pass: the decoded claims appended
/// as ordinary says-assertions, and the imports consumed.
pub open spec fn spec_splice(prog: SpecProgram, objs: Seq<Seq<u8>>) -> Result<
    SpecProgram,
    SpecCompileError,
> {
    if objs.len() != prog.imports.len() {
        Err(SpecCompileError::IOFailure)
    } else {
        match spec_splice_from(prog.imports, objs, 0, Seq::empty()) {
            Err(e) => Err(e),
            Ok(spliced) => Ok(
                SpecProgram {
                    relation_declarations: prog.relation_declarations,
                    assertions: prog.assertions + spliced,
                    queries: prog.queries,
                    imports: Seq::empty(),
                    priv_binds: prog.priv_binds,
                    pub_binds: prog.pub_binds,
                },
            ),
        }
    }
}

/// Handles a program's imports. `materials` holds, for each import in
/// order, the claimed principal's bound public keyset, the claim object and
/// its signature. Each claim is decoded and its signature verified under
/// the claimed principal's public key; only then is it spliced into the
/// program as a says-assertion of that principal. A claim that cannot be
/// decoded, or key material that cannot be read, is an input/output
/// failure; a claim whose signature does not validate is a signature
/// verification failure, and nothing of it enters the program.
#[verifier::loop_isolation(false)]
pub fn handle_imports(prog: &AstProgram, materials: &Vec<ImportMaterial>) -> (r: Result<
    AstProgram,
    CompileError,
>)
    ensures
        match r {
            Ok(p) => spec_splice(prog@, materials_objs(materials@)) == Ok::<
                SpecProgram,
                SpecCompileError,
            >(p@),
            Err(e) => spec_splice(prog@, materials_objs(materials@)) == Err::<
                SpecProgram,
                SpecCompileError,
            >(e@) || (prog@.imports.len() > 0 && (e@ is IOFailure
                || e@ is SignatureVerificationFailure)),
        },
{
    let ghost simports = prog@.imports;
    let ghost objs = materials_objs(materials@);
    if materials.len() != prog.imports.len() {
        return Err(CompileError::IOFailure);
    }
    let mut spliced: Vec<AstSaysAssertion> = Vec::new();
    proof {
        assert(says_view(spliced@) =~= Seq::<SpecSaysAssertion>::empty());
    }
    let mut i: usize = 0;
    while i < prog.imports.len()
        invariant
            i <= prog.imports.len(),
            materials@.len() == prog.imports@.len(),
            spec_splice_from(simports, objs, 0, Seq::empty()) == spec_splice_from(
                simports,
                objs,
                i as int,
                says_view(spliced@),
            ),
        decreases prog.imports.len() - i,
    {
        proof {
            assert(simports[i as int] == prog.imports@[i as int]@);
            assert(objs[i as int] == materials@[i as int].obj_bytes@);
        }
        let m = &materials[i];
        let claim = match decode_claim(&m.obj_bytes) {
            None => {
                return Err(CompileError::IOFailure);
            },
            Some(c) => c,
        };
        let handle = match keyset_from_json(&m.keyset_json) {
            Err(_) => {
                return Err(CompileError::IOFailure);
            },
            Ok(h) => h,
        };
        let payload = encode_claim(&claim);
        match verify_bytes(&handle, &m.sig_bytes, &payload) {
            Err(_) => {
                return Err(CompileError::SignatureVerificationFailure);
            },
            Ok(_) => {},
        }
        let sa = AstSaysAssertion {
            prin: prog.imports[i].principal.dup(),
            assertions: claim,
            export_file: None,
        };
        let ghost before = says_view(spliced@);
        let ghost sav = sa@;
        spliced.push(sa);
        proof {
            assert(says_view(spliced@) =~= before.push(sav));
        }
        i = i + 1;
    }
    let mut assertions = dup_says_assertions(&prog.assertions);
    let ghost base = says_view(assertions@);
    let ghost splicedv = says_view(spliced@);
    let mut extra = spliced;
    assertions.append(&mut extra);
    proof {
        assert(says_view(assertions@) =~= base + splicedv);
    }
    let result = AstProgram {
        relation_declarations: dup_relation_declarations(&prog.relation_declarations),
        assertions,
        queries: dup_queries(&prog.queries),
        imports: Vec::new(),
        priv_binds: dup_keybinds(&prog.priv_binds),
        pub_binds: dup_keybinds(&prog.pub_binds),
    };
    proof {
        assert(result@.imports =~= Seq::<SpecImport>::empty());
        let sp = spec_splice(prog@, objs)->Ok_0;
        assert(result@.relation_declarations =~= sp.relation_declarations);
        assert(result@.assertions =~= sp.assertions);
        assert(result@.queries =~= sp.queries);
        assert(result@.priv_binds =~= sp.priv_binds);
        assert(result@.pub_binds =~= sp.pub_binds);
    }
    Ok(result)
}


// ---------------------------------------------------------------------------
// Laws of the import pass
// ---------------------------------------------------------------------------

proof fn lemma_splice_from_shape(
    imports: Seq<SpecImport>,
    objs: Seq<Seq<u8>>,
    j: int,
    acc: Seq<SpecSaysAssertion>,
    out: Seq<SpecSaysAssertion>,
)
    requires
        0 <= j <= imports.len(),
        spec_splice_from(imports, objs, j, acc) == Ok::<
            Seq<SpecSaysAssertion>,
            SpecCompileError,
        >(out),
    ensures
        out.len() == acc.len() + imports.len() - j,
        out.take(acc.len() as int) == acc,
        forall|k: int|
            acc.len() <= k < out.len() ==> (#[trigger] out[k]) == (SpecSaysAssertion {
                prin: imports[j + k - acc.len()].principal,
                assertions: spec_dec_claim(objs[j + k - acc.len()])->Some_0,
                export_file: None,
            }),
    decreases imports.len() - j,
{
    if j == imports.len() {
        assert(out.take(acc.len() as int) =~= acc);
    } else {
        let claim = spec_dec_claim(objs[j])->Some_0;
        let sa = SpecSaysAssertion {
            prin: imports[j].principal,
            assertions: claim,
            export_file: None,
        };
        let acc2 = acc.push(sa);
        lemma_splice_from_shape(imports, objs, j + 1, acc2, out);
        assert(out.take(acc2.len() as int) == acc2);
        assert forall|k: int| 0 <= k < acc.len() implies out.take(acc.len() as int)[k]
            == acc[k] by {
            assert(out.take(acc2.len() as int)[k] == acc2[k]);
            assert(out[k] == acc2[k]);
        }
        assert(out.take(acc.len() as int) =~= acc);
        assert(out.take(acc2.len() as int)[acc.len() as int] == acc2[acc.len() as int]);
        assert(out[acc.len() as int] == sa);
    }
}

/// The verified half of delegation soundness: when an import's object bytes
/// are the encoding of a claim, as the export pass produces them, a
/// successful import pass splices exactly that claim into the program as a
/// says-assertion of the claimed principal, after the program's own
/// assertions and with no re-exportable marker. (That the pass succeeds
/// only under a validating signature is the verifier's decision; nothing is
/// spliced when it refuses.)
#[verifier::rlimit(100)]
#[verifier::spinoff_prover]
pub proof fn lemma_import_of_exported_claim(
    prog: SpecProgram,
    objs: Seq<Seq<u8>>,
    p2: SpecProgram,
    i: int,
    claim: Seq<crate::ast::SpecAssertion>,
)
    requires
        spec_splice(prog, objs) == Ok::<SpecProgram, SpecCompileError>(p2),
        0 <= i < prog.imports.len(),
        objs[i] == crate::claim_codec::spec_enc_claim(claim),
        crate::claim_codec::spec_claim_bounded(claim),
    ensures
        p2.assertions.len() == prog.assertions.len() + prog.imports.len(),
        p2.assertions[prog.assertions.len() + i] == (SpecSaysAssertion {
            prin: prog.imports[i].principal,
            assertions: claim,
            export_file: None,
        }),
        p2.imports.len() == 0,
{
    let spliced = spec_splice_from(prog.imports, objs, 0, Seq::empty())->Ok_0;
    lemma_splice_from_shape(prog.imports, objs, 0, Seq::empty(), spliced);
    crate::claim_codec::lemma_claim_round_trip(claim);
    assert(p2.assertions == prog.assertions + spliced);
    assert(p2.assertions[prog.assertions.len() + i] == spliced[i]);
}

} // verus!
