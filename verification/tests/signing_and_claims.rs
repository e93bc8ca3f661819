//! The claim protocol, exercised with real cryptography: encoding claims,
//! signing and verifying them, exporting and importing them through the
//! compiler, and detecting tampering.

use authorization_logic::ast::{
    AstAssertion, AstFact, AstFlatFact, AstImport, AstKeybind, AstPredicate, AstPrincipal,
    AstProgram, AstQuery, AstSaysAssertion, AstType, AstRelationDeclaration, Sign,
};
use authorization_logic::claim_codec::{decode_claim, encode_claim};
use authorization_logic::compilation_top_level::compile;
use authorization_logic::export_assertions::export_assertions;
use authorization_logic::import_assertions::{handle_imports, import_requests, ImportMaterial};
use authorization_logic::tink_interface::{
    init_signature, keyset_from_json, keyset_to_json, new_ecdsa_keypair_handle,
    public_keyset_handle, sign_bytes, verify_bytes,
};

fn pred(name: &str, args: &[&str]) -> AstPredicate {
    AstPredicate {
        sign: Sign::Positive,
        name: name.to_string(),
        args: args.iter().map(|a| a.to_string()).collect(),
    }
}

fn fact_of(p: AstPredicate) -> AstFact {
    AstFact::AstFlatFactFact { f: AstFlatFact::AstPredFact { p } }
}

fn claim(p: AstPredicate) -> Vec<AstAssertion> {
    vec![AstAssertion::AstFactAssertion { f: fact_of(p) }]
}

/// Generates a keypair and returns (public keyset JSON, private keyset
/// JSON).
fn new_keypair_json() -> (Vec<u8>, Vec<u8>) {
    init_signature();
    let handle = new_ecdsa_keypair_handle().expect("keypair generation failed");
    let public = public_keyset_handle(&handle).expect("public keyset failed");
    let pub_json = keyset_to_json(&public).expect("public keyset serialization failed");
    let priv_json = keyset_to_json(&handle).expect("private keyset serialization failed");
    (pub_json, priv_json)
}

#[test]
fn test_sig_checking() {
    let (pub_json, priv_json) = new_keypair_json();

    let test_claim1 = claim(pred("isInLondon", &["Highbury"]));
    let bytes1 = encode_claim(&test_claim1);
    let priv_handle = keyset_from_json(&priv_json).expect("private keyset unreadable");
    let signature = sign_bytes(&priv_handle, &bytes1).expect("signing failed");

    // The signature check passes against the original claim.
    let pub_handle = keyset_from_json(&pub_json).expect("public keyset unreadable");
    assert!(verify_bytes(&pub_handle, &signature, &bytes1).is_ok());

    // The signature check fails against a different claim body.
    let test_claim2 = claim(pred("isInLondon", &["Neptune"]));
    let bytes2 = encode_claim(&test_claim2);
    assert!(!verify_bytes(&pub_handle, &signature, &bytes2).is_ok());
}

#[test]
fn test_sig_checking_w_serialization() {
    let (pub_json, priv_json) = new_keypair_json();

    let test_claim2 = claim(pred("isInLondon", &["Highbury"]));
    let bytes = encode_claim(&test_claim2);
    let priv_handle = keyset_from_json(&priv_json).expect("private keyset unreadable");
    let signature = sign_bytes(&priv_handle, &bytes).expect("signing failed");

    // The recipient deserializes the sent claim and verifies it.
    let deser_claim = decode_claim(&bytes).expect("claim bytes undecodable");
    assert_eq!(deser_claim, test_claim2);
    let reser = encode_claim(&deser_claim);
    let pub_handle = keyset_from_json(&pub_json).expect("public keyset unreadable");
    assert!(verify_bytes(&pub_handle, &signature, &reser).is_ok());
}

#[test]
fn test_claim_codec_round_trip() {
    let claim = vec![
        AstAssertion::AstFactAssertion {
            f: AstFact::AstCanSayFact {
                p: AstPrincipal { name: "\"delegate\"".to_string() },
                f: Box::new(fact_of(pred("likes", &["\"alice\"", "\"pie\""]))),
            },
        },
        AstAssertion::AstCondAssertion {
            lhs: fact_of(pred("eats", &["\"alice\"", "\"pie\""])),
            rhs: vec![authorization_logic::ast::AstRValue::BinopRValue {
                lnum: "3".to_string(),
                binop: authorization_logic::ast::AstBinop::LessOrEquals,
                rnum: "4".to_string(),
            }],
        },
    ];
    let bytes = encode_claim(&claim);
    let decoded = decode_claim(&bytes).expect("round trip failed");
    assert_eq!(decoded, claim);
}

#[test]
fn test_claim_codec_rejects_garbage() {
    assert!(decode_claim(&vec![]).is_none());
    assert!(decode_claim(&vec![9u8, 1, 2, 3]).is_none());
    // A valid claim with a trailing byte is refused.
    let mut bytes = encode_claim(&claim(pred("p", &["\"v\""])));
    bytes.push(0);
    assert!(decode_claim(&bytes).is_none());
}

fn sym() -> AstType {
    AstType::CustomType { name: "Sym".to_string() }
}

fn simple_decl(name: &str) -> AstRelationDeclaration {
    AstRelationDeclaration {
        predicate_name: name.to_string(),
        is_attribute: false,
        arg_typings: vec![("x".to_string(), sym())],
    }
}

#[test]
fn test_signature_exporting() {
    let (_pub_json, priv_json) = new_keypair_json();
    // principal1 exports a statement; the compiler signs it with the bound
    // private key.
    let prog = AstProgram {
        relation_declarations: vec![simple_decl("ownsResource")],
        assertions: vec![AstSaysAssertion {
            prin: AstPrincipal { name: "\"principal1\"".to_string() },
            assertions: claim(pred("ownsResource", &["\"disk\""])),
            export_file: Some("prin1_statement1".to_string()),
        }],
        queries: vec![],
        imports: vec![],
        priv_binds: vec![AstKeybind {
            filename: "principal1_priv.json".to_string(),
            principal: AstPrincipal { name: "\"principal1\"".to_string() },
            is_pub: false,
        }],
        pub_binds: vec![],
    };
    let keysets = vec![("principal1_priv.json".to_string(), priv_json)];
    let bundles = export_assertions(&prog, &keysets).expect("export failed");
    assert_eq!(bundles.len(), 1);
    assert_eq!(bundles[0].obj_file, "prin1_statement1.obj");
    assert_eq!(bundles[0].sig_file, "prin1_statement1.sig");

    // The exported object deserializes to the exported claim, and its
    // signature verifies under principal1's public key.
    let deser_claim = decode_claim(&bundles[0].obj_bytes).expect("exported object undecodable");
    assert_eq!(deser_claim, claim(pred("ownsResource", &["\"disk\""])));
    let pub_handle = {
        let priv_handle = keyset_from_json(&keysets[0].1).expect("keyset unreadable");
        public_keyset_handle(&priv_handle).expect("public keyset failed")
    };
    assert!(verify_bytes(&pub_handle, &bundles[0].sig_bytes, &bundles[0].obj_bytes).is_ok());
}

#[test]
fn test_signature_importing() {
    // principal1e exports a claim; a second program imports it with
    // principal1e's public key bound, and the imported facts answer
    // queries.
    let (pub_json, priv_json) = new_keypair_json();

    let export_prog = AstProgram {
        relation_declarations: vec![simple_decl("approvesOf")],
        assertions: vec![AstSaysAssertion {
            prin: AstPrincipal { name: "\"principal1e\"".to_string() },
            assertions: claim(pred("approvesOf", &["\"plan\""])),
            export_file: Some("statement".to_string()),
        }],
        queries: vec![],
        imports: vec![],
        priv_binds: vec![AstKeybind {
            filename: "p1e_priv.json".to_string(),
            principal: AstPrincipal { name: "\"principal1e\"".to_string() },
            is_pub: false,
        }],
        pub_binds: vec![],
    };
    let bundles = export_assertions(
        &export_prog,
        &vec![("p1e_priv.json".to_string(), priv_json)],
    )
    .expect("export failed");

    let import_prog = AstProgram {
        relation_declarations: vec![simple_decl("approvesOf")],
        assertions: vec![],
        queries: vec![
            AstQuery {
                name: "q1".to_string(),
                principal: AstPrincipal { name: "\"principal1e\"".to_string() },
                fact: fact_of(pred("approvesOf", &["\"plan\""])),
            },
            AstQuery {
                name: "q2".to_string(),
                principal: AstPrincipal { name: "\"principal1e\"".to_string() },
                fact: fact_of(pred("approvesOf", &["\"coup\""])),
            },
        ],
        imports: vec![AstImport {
            filename: "statement".to_string(),
            principal: AstPrincipal { name: "\"principal1e\"".to_string() },
        }],
        priv_binds: vec![],
        pub_binds: vec![AstKeybind {
            filename: "p1e_pub.json".to_string(),
            principal: AstPrincipal { name: "\"principal1e\"".to_string() },
            is_pub: true,
        }],
    };

    let requests = import_requests(&import_prog).expect("import requests failed");
    assert_eq!(requests.len(), 1);
    assert_eq!(requests[0].key_file, "p1e_pub.json");
    assert_eq!(requests[0].obj_file, "statement.obj");
    assert_eq!(requests[0].sig_file, "statement.sig");

    let materials = vec![ImportMaterial {
        keyset_json: pub_json.clone(),
        obj_bytes: bundles[0].obj_bytes.clone(),
        sig_bytes: bundles[0].sig_bytes.clone(),
    }];
    let spliced = handle_imports(&import_prog, &materials).expect("import failed");
    assert_eq!(spliced.imports.len(), 0);
    assert_eq!(spliced.assertions.len(), 1);
    assert_eq!(spliced.assertions[0].prin.name, "\"principal1e\"");
    assert_eq!(spliced.assertions[0].assertions, claim(pred("approvesOf", &["\"plan\""])));
    assert!(spliced.assertions[0].export_file.is_none());

    // A tampered object is rejected before anything is spliced.
    let mut tampered = materials;
    tampered[0].obj_bytes = encode_claim(&claim(pred("approvesOf", &["\"coup\""])));
    assert!(handle_imports(&import_prog, &tampered).is_err());
}

#[test]
fn test_compile_with_imports_round_trip() {
    // The whole compile pipeline: an exported claim is imported by a second
    // compilation and shows up as a true query (delegation soundness, end
    // to end).
    let (pub_json, priv_json) = new_keypair_json();

    let export_prog = AstProgram {
        relation_declarations: vec![simple_decl("endorses")],
        assertions: vec![AstSaysAssertion {
            prin: AstPrincipal { name: "\"alice\"".to_string() },
            assertions: claim(pred("endorses", &["\"bob\""])),
            export_file: Some("alice_claim".to_string()),
        }],
        queries: vec![],
        imports: vec![],
        priv_binds: vec![AstKeybind {
            filename: "alice_priv.json".to_string(),
            principal: AstPrincipal { name: "\"alice\"".to_string() },
            is_pub: false,
        }],
        pub_binds: vec![],
    };
    let out = compile(
        &vec![export_prog],
        &None,
        &vec![],
        &vec![("alice_priv.json".to_string(), priv_json)],
    )
    .expect("export compile failed");
    assert_eq!(out.exports.len(), 1);

    let import_prog = AstProgram {
        relation_declarations: vec![simple_decl("endorses")],
        assertions: vec![],
        queries: vec![AstQuery {
            name: "q1".to_string(),
            principal: AstPrincipal { name: "\"alice\"".to_string() },
            fact: fact_of(pred("endorses", &["\"bob\""])),
        }],
        imports: vec![AstImport {
            filename: "alice_claim".to_string(),
            principal: AstPrincipal { name: "\"alice\"".to_string() },
        }],
        priv_binds: vec![],
        pub_binds: vec![AstKeybind {
            filename: "alice_pub.json".to_string(),
            principal: AstPrincipal { name: "\"alice\"".to_string() },
            is_pub: true,
        }],
    };
    let materials = vec![ImportMaterial {
        keyset_json: pub_json,
        obj_bytes: out.exports[0].obj_bytes.clone(),
        sig_bytes: out.exports[0].sig_bytes.clone(),
    }];
    let out2 = compile(&vec![import_prog], &None, &materials, &vec![]).expect(
        "import compile failed",
    );
    // The imported claim became a says-assertion of the importing program:
    // the emitted Datalog holds alice's fact and the query rule.
    assert!(out2.datalog.contains("says_endorses(\"alice\", \"bob\")."));
    assert!(out2.datalog.contains(".output q1"));
}

#[test]
fn test_quotes_in_paths() {
    // Quoted principal names flow through key binding, export and import
    // intact.
    let (pub_json, priv_json) = new_keypair_json();
    let prog = AstProgram {
        relation_declarations: vec![simple_decl("vouchesFor")],
        assertions: vec![AstSaysAssertion {
            prin: AstPrincipal { name: "\"p1.q\"".to_string() },
            assertions: claim(pred("vouchesFor", &["\"q.r\""])),
            export_file: Some("claims/p1q_statement".to_string()),
        }],
        queries: vec![],
        imports: vec![],
        priv_binds: vec![AstKeybind {
            filename: "keys/p1q_priv.json".to_string(),
            principal: AstPrincipal { name: "\"p1.q\"".to_string() },
            is_pub: false,
        }],
        pub_binds: vec![],
    };
    let bundles = export_assertions(
        &prog,
        &vec![("keys/p1q_priv.json".to_string(), priv_json)],
    )
    .expect("export failed");
    assert_eq!(bundles[0].obj_file, "claims/p1q_statement.obj");
    let handle = keyset_from_json(&pub_json).expect("public keyset unreadable");
    assert!(verify_bytes(&handle, &bundles[0].sig_bytes, &bundles[0].obj_bytes).is_ok());
}
