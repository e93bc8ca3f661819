//! A compiler for a decentralized authorization-logic language: a modal logic
//! of principals, beliefs and delegation ("says", "canSay", "canActAs") that
//! is translated into safe, evaluable Datalog, together with a protocol for
//! exchanging signed claims between mutually distrusting principals.
//!
//! The pipeline is: abstract syntax tree -> universe (grounding) pass ->
//! lowering pass -> Datalog intermediate representation -> Souffle text.
//! Orthogonally, claims can be exported (encoded and signed) and imported
//! (verified and spliced into a program) before lowering.

pub mod ast;
pub mod universe_translation;
pub mod claim_codec;
pub mod compilation_top_level;
pub mod datalog_ir;
pub mod low_graph_ir;
pub mod lowering_ast_datalog;
pub mod souffle_emitter;
pub mod errors;
pub mod export_assertions;
pub mod graph_ir;
pub mod import_assertions;
pub mod text;
pub mod tink_interface;
