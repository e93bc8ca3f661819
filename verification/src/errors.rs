//! The error taxonomy of the compiler. Every detected error is fatal at the
//! granularity of one compilation unit; callers receive it as a `Result`
//! rather than a process abort.

use vstd::prelude::*;
use vstd::string::StringExecFns;

verus! {

/// Ghost model of a compilation error.
pub ghost enum SpecCompileError {
    /// A predicate was used without a matching relation declaration.
    UndeclaredRelation { relation: Seq<char> },
    /// A constant was used with two incompatible declared types.
    TypeConflict { constant: Seq<char> },
    /// An export or import refers to a principal with no bound key file.
    UnboundKey { principal: Seq<char> },
    /// An imported claim's signature does not validate against the claimed
    /// principal's bound public key.
    SignatureVerificationFailure,
    /// Key or claim material was missing or unreadable.
    IOFailure,
}

/// A fatal compilation error.
#[derive(Debug, Clone, PartialEq, Eq)]
pub enum CompileError {
    UndeclaredRelation { relation: String },
    TypeConflict { constant: String },
    UnboundKey { principal: String },
    SignatureVerificationFailure,
    IOFailure,
}

impl View for CompileError {
    type V = SpecCompileError;

    open spec fn view(&self) -> SpecCompileError {
        match self {
            CompileError::UndeclaredRelation { relation } => SpecCompileError::UndeclaredRelation {
                relation: relation@,
            },
            CompileError::TypeConflict { constant } => SpecCompileError::TypeConflict {
                constant: constant@,
            },
            CompileError::UnboundKey { principal } => SpecCompileError::UnboundKey {
                principal: principal@,
            },
            CompileError::SignatureVerificationFailure =>
                SpecCompileError::SignatureVerificationFailure,
            CompileError::IOFailure => SpecCompileError::IOFailure,
        }
    }
}

impl CompileError {
    /// A short human-readable description.
    pub fn describe(&self) -> (r: String) {
        match self {
            CompileError::UndeclaredRelation { relation } => {
                let mut s = String::from_str("relation used but not declared: ");
                s.append(relation.as_str());
                s
            },
            CompileError::TypeConflict { constant } => {
                let mut s = String::from_str("constant used with two distinct types: ");
                s.append(constant.as_str());
                s
            },
            CompileError::UnboundKey { principal } => {
                let mut s = String::from_str("no key file bound for principal: ");
                s.append(principal.as_str());
                s
            },
            CompileError::SignatureVerificationFailure => {
                String::from_str("claim signature verification failed")
            },
            CompileError::IOFailure => String::from_str("key or claim material unreadable"),
        }
    }
}

} // verus!
