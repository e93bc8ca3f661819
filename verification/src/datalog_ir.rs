//! The Datalog intermediate representation (DLIR): flat predicates, rules
//! whose bodies mix predicates and numeric comparisons, and a program made of
//! relation declarations, assertions and output relation names.

use vstd::prelude::*;

use crate::ast::{
    AstBinop, AstPredicate, AstRelationDeclaration, SpecPredicate, SpecRelationDeclaration,
};

verus! {

/// Ghost model of a DLIR rule body term.
pub ghost enum SpecDLIRRvalue {
    PredicateRvalue { predicate: SpecPredicate },
    BinopRvalue { lnum: Seq<char>, binop: AstBinop, rnum: Seq<char> },
}

/// Ghost model of a DLIR assertion.
pub ghost enum SpecDLIRAssertion {
    FactAssertion { p: SpecPredicate },
    CondAssertion { lhs: SpecPredicate, rhs: Seq<SpecDLIRRvalue> },
}

/// Ghost model of a DLIR program.
pub ghost struct SpecDLIRProgram {
    pub relation_declarations: Seq<SpecRelationDeclaration>,
    pub assertions: Seq<SpecDLIRAssertion>,
    pub outputs: Seq<Seq<char>>,
}

/// A term in the body of a lowered rule: a predicate or a numeric
/// comparison copied through from the source.
#[derive(Debug, Clone, PartialEq, Eq)]
pub enum DLIRRvalue {
    PredicateRvalue { predicate: AstPredicate },
    BinopRvalue { lnum: String, binop: AstBinop, rnum: String },
}

/// A lowered assertion: an unconditional fact or a rule.
#[derive(Debug, Clone, PartialEq, Eq)]
pub enum DLIRAssertion {
    DLIRFactAssertion { p: AstPredicate },
    DLIRCondAssertion { lhs: AstPredicate, rhs: Vec<DLIRRvalue> },
}

/// A lowered program.
#[derive(Debug, Clone, PartialEq, Eq)]
pub struct DLIRProgram {
    pub relation_declarations: Vec<AstRelationDeclaration>,
    pub assertions: Vec<DLIRAssertion>,
    pub outputs: Vec<String>,
}

impl View for DLIRRvalue {
    type V = SpecDLIRRvalue;

    open spec fn view(&self) -> SpecDLIRRvalue {
        match self {
            DLIRRvalue::PredicateRvalue { predicate } => SpecDLIRRvalue::PredicateRvalue {
                predicate: predicate@,
            },
            DLIRRvalue::BinopRvalue { lnum, binop, rnum } => SpecDLIRRvalue::BinopRvalue {
                lnum: lnum@,
                binop: *binop,
                rnum: rnum@,
            },
        }
    }
}

impl View for DLIRAssertion {
    type V = SpecDLIRAssertion;

    open spec fn view(&self) -> SpecDLIRAssertion {
        match self {
            DLIRAssertion::DLIRFactAssertion { p } => SpecDLIRAssertion::FactAssertion { p: p@ },
            DLIRAssertion::DLIRCondAssertion { lhs, rhs } => SpecDLIRAssertion::CondAssertion {
                lhs: lhs@,
                rhs: rhs@.map_values(|r: DLIRRvalue| r@),
            },
        }
    }
}

impl View for DLIRProgram {
    type V = SpecDLIRProgram;

    open spec fn view(&self) -> SpecDLIRProgram {
        SpecDLIRProgram {
            relation_declarations: self.relation_declarations@.map_values(
                |d: AstRelationDeclaration| d@,
            ),
            assertions: self.assertions@.map_values(|a: DLIRAssertion| a@),
            outputs: self.outputs@.map_values(|o: String| o@),
        }
    }
}

pub open spec fn dlir_rvalues_view(s: Seq<DLIRRvalue>) -> Seq<SpecDLIRRvalue> {
    s.map_values(|r: DLIRRvalue| r@)
}

pub open spec fn dlir_assertions_view(s: Seq<DLIRAssertion>) -> Seq<SpecDLIRAssertion> {
    s.map_values(|a: DLIRAssertion| a@)
}

} // verus!
