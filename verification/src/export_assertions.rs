//! The export half of the claim protocol: every says-assertion marked with
//! an export file has its assertion list encoded with the claim format and
//! signed with the speaking principal's bound private key; the caller writes
//! the returned object and signature bytes to `<file>.obj` and `<file>.sig`.

use vstd::prelude::*;
use vstd::string::StringExecFns;

use crate::ast::{says_view, AstProgram, SpecKeybind, SpecProgram, SpecSaysAssertion};
use crate::claim_codec::{encode_claim, spec_enc_claim};
use crate::errors::{CompileError, SpecCompileError};
use crate::text::str_eq;
use crate::tink_interface::{keyset_from_json, sign_bytes};

verus! {

/// Ghost model of one export job: where the object and signature go, the
/// key material to sign with, and the encoded claim.
pub ghost struct SpecExportJob {
    pub obj_file: Seq<char>,
    pub sig_file: Seq<char>,
    pub keyset: Seq<u8>,
    pub payload: Seq<u8>,
}

/// One produced export artifact: the encoded claim and its signature,
/// together with the file names they are destined for.
pub struct ExportBundle {
    pub obj_file: String,
    pub sig_file: String,
    pub obj_bytes: Vec<u8>,
    pub sig_bytes: Vec<u8>,
}

/// Looks a principal's bound key file up; the last binding wins.
pub open spec fn spec_lookup_keybind(binds: Seq<SpecKeybind>, prin: Seq<char>) -> Option<
    Seq<char>,
>
    decreases binds.len(),
{
    if binds.len() == 0 {
        None
    } else if binds.last().principal.name == prin {
        Some(binds.last().filename)
    } else {
        spec_lookup_keybind(binds.drop_last(), prin)
    }
}

/// Looks key material up by key-file name; the first entry wins.
pub open spec fn spec_lookup_keyset(
    keysets: Seq<(Seq<char>, Seq<u8>)>,
    file: Seq<char>,
) -> Option<Seq<u8>>
    decreases keysets.len(),
{
    if keysets.len() == 0 {
        None
    } else if keysets[0].0 == file {
        Some(keysets[0].1)
    } else {
        spec_lookup_keyset(keysets.drop_first(), file)
    }
}

/// The deterministic part of exporting: which files are written, with which
/// key material, and the encoded claim; the signature itself is left to the
/// signer.
pub open spec fn spec_export_plan_from(
    says: Seq<SpecSaysAssertion>,
    binds: Seq<SpecKeybind>,
    keysets: Seq<(Seq<char>, Seq<u8>)>,
    i: int,
    acc: Seq<SpecExportJob>,
) -> Result<Seq<SpecExportJob>, SpecCompileError>
    decreases says.len() - i,
{
    if i < 0 || i >= says.len() {
        Ok(acc)
    } else {
        match says[i].export_file {
            None => spec_export_plan_from(says, binds, keysets, i + 1, acc),
            Some(f) => match spec_lookup_keybind(binds, says[i].prin.name) {
                None => Err(SpecCompileError::UnboundKey { principal: says[i].prin.name }),
                Some(keyfile) => match spec_lookup_keyset(keysets, keyfile) {
                    None => Err(SpecCompileError::IOFailure),
                    Some(kb) => spec_export_plan_from(
                        says,
                        binds,
                        keysets,
                        i + 1,
                        acc.push(
                            SpecExportJob {
                                obj_file: f + ".obj"@,
                                sig_file: f + ".sig"@,
                                keyset: kb,
                                payload: spec_enc_claim(says[i].assertions),
                            },
                        ),
                    ),
                },
            },
        }
    }
}

/// Whether some says-assertion is marked for export; only then does the
/// export pass make any outside call.
pub open spec fn spec_has_export(says: Seq<SpecSaysAssertion>) -> bool {
    exists|j: int| 0 <= j < says.len() && (#[trigger] says[j].export_file) is Some
}

pub open spec fn spec_export_plan(
    prog: SpecProgram,
    keysets: Seq<(Seq<char>, Seq<u8>)>,
) -> Result<Seq<SpecExportJob>, SpecCompileError> {
    spec_export_plan_from(prog.assertions, prog.priv_binds, keysets, 0, Seq::empty())
}

/// The view of an executable key-material list.
pub open spec fn keysets_view(v: Seq<(String, Vec<u8>)>) -> Seq<(Seq<char>, Seq<u8>)> {
    v.map_values(|e: (String, Vec<u8>)| (e.0@, e.1@))
}

/// Looks a principal's bound key file up among the key bindings.
#[verifier::loop_isolation(false)]
pub(crate) fn lookup_keybind(binds: &Vec<crate::ast::AstKeybind>, prin: &String) -> (r: Option<String>)
    ensures
        match r {
            Some(f) => spec_lookup_keybind(crate::ast::keybinds_view(binds@), prin@) == Some(f@),
            None => spec_lookup_keybind(crate::ast::keybinds_view(binds@), prin@) is None,
        },
{
    let ghost sbinds = crate::ast::keybinds_view(binds@);
    let mut i: usize = binds.len();
    proof {
        assert(sbinds.take(sbinds.len() as int) =~= sbinds);
    }
    while i > 0
        invariant
            i <= binds.len(),
            spec_lookup_keybind(sbinds, prin@) == spec_lookup_keybind(
                sbinds.take(i as int),
                prin@,
            ),
        decreases i,
    {
        proof {
            assert(sbinds.take(i as int).last() == sbinds[i - 1]);
            assert(sbinds.take(i as int).drop_last() =~= sbinds.take(i - 1));
            assert(sbinds[i - 1] == binds@[i - 1]@);
        }
        if str_eq(&binds[i - 1].principal.name, prin) {
            return Some(binds[i - 1].filename.clone());
        }
        i = i - 1;
    }
    proof {
        assert(sbinds.take(0) =~= Seq::<SpecKeybind>::empty());
    }
    None
}

/// Looks key material up by file name.
#[verifier::loop_isolation(false)]
fn lookup_keyset(keysets: &Vec<(String, Vec<u8>)>, file: &String) -> (r: Option<Vec<u8>>)
    ensures
        match r {
            Some(kb) => spec_lookup_keyset(keysets_view(keysets@), file@) == Some(kb@),
            None => spec_lookup_keyset(keysets_view(keysets@), file@) is None,
        },
{
    let ghost sks = keysets_view(keysets@);
    let mut i: usize = 0;
    proof {
        assert(sks.skip(0) =~= sks);
    }
    while i < keysets.len()
        invariant
            i <= keysets.len(),
            spec_lookup_keyset(sks, file@) == spec_lookup_keyset(sks.skip(i as int), file@),
        decreases keysets.len() - i,
    {
        proof {
            assert(sks.skip(i as int)[0] == sks[i as int]);
            assert(sks.skip(i as int).drop_first() =~= sks.skip(i + 1 as int));
            assert(sks[i as int] == (keysets@[i as int].0@, keysets@[i as int].1@));
        }
        if str_eq(&keysets[i].0, file) {
            let mut copy: Vec<u8> = Vec::new();
            let mut src = keysets[i].1.clone();
            copy.append(&mut src);
            proof {
                assert(copy@ =~= keysets@[i as int].1@);
            }
            return Some(copy);
        }
        i = i + 1;
    }
    None
}

/// Exports every says-assertion that carries an export file: its assertion
/// list is encoded and signed with the speaking principal's bound private
/// key, supplied as `priv_keysets` (key-file name to keyset JSON bytes). A
/// speaker with no bound key is an error; unreadable key material or a
/// failing signer is an input/output failure.
#[verifier::loop_isolation(false)]
pub fn export_assertions(prog: &AstProgram, priv_keysets: &Vec<(String, Vec<u8>)>) -> (r: Result<
    Vec<ExportBundle>,
    CompileError,
>)
    ensures
        match r {
            Ok(out) => spec_export_plan(prog@, keysets_view(priv_keysets@)) matches Ok(jobs)
                && out@.len() == jobs.len() && (forall|i: int|
                0 <= i < jobs.len() ==> (#[trigger] out@[i]).obj_file@ == jobs[i].obj_file
                    && out@[i].sig_file@ == jobs[i].sig_file && out@[i].obj_bytes@
                    == jobs[i].payload),
            Err(e) => spec_export_plan(prog@, keysets_view(priv_keysets@)) == Err::<
                Seq<SpecExportJob>,
                SpecCompileError,
            >(e@) || (e@ is IOFailure && spec_has_export(prog@.assertions)),
        },
{
    let ghost ssays = says_view(prog.assertions@);
    let ghost sbinds = crate::ast::keybinds_view(prog.priv_binds@);
    let ghost sks = keysets_view(priv_keysets@);
    let mut out: Vec<ExportBundle> = Vec::new();
    let ghost jobs: Seq<SpecExportJob> = Seq::empty();
    let mut i: usize = 0;
    while i < prog.assertions.len()
        invariant
            i <= prog.assertions.len(),
            spec_export_plan_from(ssays, sbinds, sks, 0, Seq::empty()) == spec_export_plan_from(
                ssays,
                sbinds,
                sks,
                i as int,
                jobs,
            ),
            out@.len() == jobs.len(),
            forall|j: int|
                0 <= j < jobs.len() ==> (#[trigger] out@[j]).obj_file@ == jobs[j].obj_file
                    && out@[j].sig_file@ == jobs[j].sig_file && out@[j].obj_bytes@
                    == jobs[j].payload,
        decreases prog.assertions.len() - i,
    {
        proof {
            assert(ssays[i as int] == prog.assertions@[i as int]@);
        }
        let sa = &prog.assertions[i];
        match &sa.export_file {
            None => {},
            Some(filename) => {
                let keyfile = match lookup_keybind(&prog.priv_binds, &sa.prin.name) {
                    None => {
                        return Err(
                            CompileError::UnboundKey { principal: sa.prin.name.clone() },
                        );
                    },
                    Some(f) => f,
                };
                let keyset_json = match lookup_keyset(priv_keysets, &keyfile) {
                    None => {
                        return Err(CompileError::IOFailure);
                    },
                    Some(kb) => kb,
                };
                let handle = match keyset_from_json(&keyset_json) {
                    Err(_) => {
                        proof {
                            assert(ssays[i as int].export_file is Some);
                            assert(spec_has_export(ssays));
                        }
                        return Err(CompileError::IOFailure);
                    },
                    Ok(h) => h,
                };
                let payload = encode_claim(&sa.assertions);
                let signature = match sign_bytes(&handle, &payload) {
                    Err(_) => {
                        proof {
                            assert(ssays[i as int].export_file is Some);
                            assert(spec_has_export(ssays));
                        }
                        return Err(CompileError::IOFailure);
                    },
                    Ok(s) => s,
                };
                let bundle = ExportBundle {
                    obj_file: filename.clone().concat(".obj"),
                    sig_file: filename.clone().concat(".sig"),
                    obj_bytes: payload,
                    sig_bytes: signature,
                };
                let ghost job = SpecExportJob {
                    obj_file: ssays[i as int].export_file->Some_0 + ".obj"@,
                    sig_file: ssays[i as int].export_file->Some_0 + ".sig"@,
                    keyset: keyset_json@,
                    payload: spec_enc_claim(ssays[i as int].assertions),
                };
                out.push(bundle);
                proof {
                    jobs = jobs.push(job);
                }
            },
        }
        i = i + 1;
    }
    Ok(out)
}

} // verus!
