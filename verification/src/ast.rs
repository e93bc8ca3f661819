//! The abstract syntax tree of the authorization-logic language, together
//! with the ghost models that contracts are stated over.
//!
//! Every executable type has a view (`@`) into a ghost mirror in which every
//! string is a `Seq<char>` and every vector a `Seq`; the compiler passes are
//! specified as functions over these mirrors.

use vstd::prelude::*;

verus! {

// ---------------------------------------------------------------------------
// Ghost models
// ---------------------------------------------------------------------------

/// Ghost model of a principal: a named actor.
pub ghost struct SpecPrincipal {
    pub name: Seq<char>,
}

/// Ghost model of a predicate.
pub ghost struct SpecPredicate {
    pub sign: Sign,
    pub name: Seq<char>,
    pub args: Seq<Seq<char>>,
}

/// Ghost model of a verb phrase.
pub ghost enum SpecVerbPhrase {
    PredPhrase { p: SpecPredicate },
    CanActPhrase { p: SpecPrincipal },
}

/// Ghost model of a flat (delegation-free) fact.
pub ghost enum SpecFlatFact {
    PrinFact { p: SpecPrincipal, v: SpecVerbPhrase },
    PredFact { p: SpecPredicate },
}

/// Ghost model of a fact: a flat fact under zero or more `canSay` wrappers.
pub ghost enum SpecFact {
    FlatFactFact { f: SpecFlatFact },
    CanSayFact { p: SpecPrincipal, f: Box<SpecFact> },
}

/// Ghost model of a right-hand-side term of a rule.
pub ghost enum SpecRValue {
    FlatFactRValue { flat_fact: SpecFlatFact },
    BinopRValue { lnum: Seq<char>, binop: AstBinop, rnum: Seq<char> },
}

/// Ghost model of an assertion.
pub ghost enum SpecAssertion {
    FactAssertion { f: SpecFact },
    CondAssertion { lhs: SpecFact, rhs: Seq<SpecRValue> },
}

/// Ghost model of a says-assertion.
pub ghost struct SpecSaysAssertion {
    pub prin: SpecPrincipal,
    pub assertions: Seq<SpecAssertion>,
    pub export_file: Option<Seq<char>>,
}

/// Ghost model of a query.
pub ghost struct SpecQuery {
    pub name: Seq<char>,
    pub principal: SpecPrincipal,
    pub fact: SpecFact,
}

/// Ghost model of a key binding.
pub ghost struct SpecKeybind {
    pub filename: Seq<char>,
    pub principal: SpecPrincipal,
    pub is_pub: bool,
}

/// Ghost model of an import.
pub ghost struct SpecImport {
    pub filename: Seq<char>,
    pub principal: SpecPrincipal,
}

/// Ghost model of an argument type.
pub ghost enum SpecType {
    NumberType,
    PrincipalType,
    CustomType { name: Seq<char> },
}

/// Ghost model of a relation declaration.
pub ghost struct SpecRelationDeclaration {
    pub predicate_name: Seq<char>,
    pub is_attribute: bool,
    pub arg_typings: Seq<(Seq<char>, SpecType)>,
}

/// Ghost model of a program.
pub ghost struct SpecProgram {
    pub relation_declarations: Seq<SpecRelationDeclaration>,
    pub assertions: Seq<SpecSaysAssertion>,
    pub queries: Seq<SpecQuery>,
    pub imports: Seq<SpecImport>,
    pub priv_binds: Seq<SpecKeybind>,
    pub pub_binds: Seq<SpecKeybind>,
}

// ---------------------------------------------------------------------------
// Executable syntax tree
// ---------------------------------------------------------------------------

/// A named actor capable of making authorization statements.
#[derive(Debug, Clone, PartialEq, Eq, Hash)]
pub struct AstPrincipal {
    pub name: String,
}

/// Whether a predicate occurrence is positive or negated.
#[derive(Copy, Debug, Clone, PartialEq, Eq, Hash, Structural)]
pub enum Sign {
    Negated,
    Positive,
}

/// A relation applied to arguments; arguments are strings that are either
/// constants (quoted, or all digits) or variables. Two predicates are equal
/// when their names and full argument lists are equal; the sign is not
/// compared.
#[derive(Debug, Clone, Eq, Hash)]
pub struct AstPredicate {
    pub sign: Sign,
    pub name: String,
    pub args: Vec<String>,
}

impl PartialEq for AstPredicate {
    #[verifier::loop_isolation(false)]
    fn eq(&self, other: &AstPredicate) -> (r: bool) {
        if !crate::text::str_eq(&self.name, &other.name) {
            return false;
        }
        if self.args.len() != other.args.len() {
            proof {
                assert(self@.args.len() != other@.args.len());
            }
            return false;
        }
        let mut i: usize = 0;
        while i < self.args.len()
            invariant
                i <= self.args@.len(),
                forall|j: int| 0 <= j < i as int ==> (#[trigger] self.args@[j]@) == other.args@[j]@,
            decreases self.args@.len() - i,
        {
            if !crate::text::str_eq(&self.args[i], &other.args[i]) {
                proof {
                    assert(self@.args[i as int] != other@.args[i as int]);
                }
                return false;
            }
            i = i + 1;
        }
        proof {
            assert(self@.args =~= other@.args);
        }
        true
    }
}

impl vstd::std_specs::cmp::PartialEqSpecImpl for AstPredicate {
    open spec fn obeys_eq_spec() -> bool {
        true
    }

    open spec fn eq_spec(&self, other: &AstPredicate) -> bool {
        self@.name == other@.name && self@.args == other@.args
    }
}

/// "does X" without the subject attached: either a predicate or
/// "canActAs principal".
#[derive(Debug, Clone, PartialEq, Eq)]
pub enum AstVerbPhrase {
    AstPredPhrase { p: AstPredicate },
    AstCanActPhrase { p: AstPrincipal },
}

/// A delegation-free fact.
#[derive(Debug, Clone, PartialEq, Eq)]
pub enum AstFlatFact {
    AstPrinFact { p: AstPrincipal, v: AstVerbPhrase },
    AstPredFact { p: AstPredicate },
}

/// A fact: a flat fact nested under zero or more "canSay" delegations.
#[derive(Debug, PartialEq, Eq)]
pub enum AstFact {
    AstFlatFactFact { f: AstFlatFact },
    AstCanSayFact { p: AstPrincipal, f: Box<AstFact> },
}

/// A numeric comparison operator.
#[derive(Copy, Debug, Clone, PartialEq, Eq, Structural)]
pub enum AstBinop {
    LessThan,
    GreaterThan,
    Equals,
    NotEquals,
    LessOrEquals,
    GreaterOrEquals,
}

/// A term on the right-hand side of a conditional assertion.
#[derive(Debug, Clone, PartialEq, Eq)]
pub enum AstRValue {
    FlatFactRValue { flat_fact: AstFlatFact },
    BinopRValue { lnum: String, binop: AstBinop, rnum: String },
}

/// An unconditional fact or a Horn clause.
#[derive(Debug, PartialEq, Eq)]
pub enum AstAssertion {
    AstFactAssertion { f: AstFact },
    AstCondAssertion { lhs: AstFact, rhs: Vec<AstRValue> },
}

/// A speaker's assertions, optionally marked for signed export.
#[derive(Debug, PartialEq, Eq)]
pub struct AstSaysAssertion {
    pub prin: AstPrincipal,
    pub assertions: Vec<AstAssertion>,
    pub export_file: Option<String>,
}

/// A named, groundable check compiled to an output relation.
#[derive(Debug, PartialEq, Eq)]
pub struct AstQuery {
    pub name: String,
    pub principal: AstPrincipal,
    pub fact: AstFact,
}

/// Binds a principal to a key file on disk.
#[derive(Debug, Clone, PartialEq, Eq)]
pub struct AstKeybind {
    pub filename: String,
    pub principal: AstPrincipal,
    pub is_pub: bool,
}

/// Marks an intent to import a remote claim made by a principal.
#[derive(Debug, Clone, PartialEq, Eq)]
pub struct AstImport {
    pub filename: String,
    pub principal: AstPrincipal,
}

/// The declared type of a relation argument.
#[derive(Debug, Clone, PartialEq, Eq, Hash)]
pub enum AstType {
    NumberType,
    PrincipalType,
    CustomType { name: String },
}

/// The declared signature of a relation. `is_attribute` marks relations that
/// implicitly gain a leading subject-principal argument.
#[derive(Debug, Clone, PartialEq, Eq)]
pub struct AstRelationDeclaration {
    pub predicate_name: String,
    pub is_attribute: bool,
    pub arg_typings: Vec<(String, AstType)>,
}

/// A whole source program.
#[derive(Debug, PartialEq, Eq)]
pub struct AstProgram {
    pub relation_declarations: Vec<AstRelationDeclaration>,
    pub assertions: Vec<AstSaysAssertion>,
    pub queries: Vec<AstQuery>,
    pub imports: Vec<AstImport>,
    pub priv_binds: Vec<AstKeybind>,
    pub pub_binds: Vec<AstKeybind>,
}

// ---------------------------------------------------------------------------
// Views
// ---------------------------------------------------------------------------

impl View for AstPrincipal {
    type V = SpecPrincipal;

    open spec fn view(&self) -> SpecPrincipal {
        SpecPrincipal { name: self.name@ }
    }
}

impl View for AstPredicate {
    type V = SpecPredicate;

    open spec fn view(&self) -> SpecPredicate {
        SpecPredicate {
            sign: self.sign,
            name: self.name@,
            args: self.args@.map_values(|a: String| a@),
        }
    }
}

impl View for AstVerbPhrase {
    type V = SpecVerbPhrase;

    open spec fn view(&self) -> SpecVerbPhrase {
        match self {
            AstVerbPhrase::AstPredPhrase { p } => SpecVerbPhrase::PredPhrase { p: p@ },
            AstVerbPhrase::AstCanActPhrase { p } => SpecVerbPhrase::CanActPhrase { p: p@ },
        }
    }
}

impl View for AstFlatFact {
    type V = SpecFlatFact;

    open spec fn view(&self) -> SpecFlatFact {
        match self {
            AstFlatFact::AstPrinFact { p, v } => SpecFlatFact::PrinFact { p: p@, v: v@ },
            AstFlatFact::AstPredFact { p } => SpecFlatFact::PredFact { p: p@ },
        }
    }
}

impl View for AstFact {
    type V = SpecFact;

    open spec fn view(&self) -> SpecFact
        decreases self,
    {
        match self {
            AstFact::AstFlatFactFact { f } => SpecFact::FlatFactFact { f: f@ },
            AstFact::AstCanSayFact { p, f } => SpecFact::CanSayFact {
                p: p@,
                f: Box::new((**f)@),
            },
        }
    }
}

impl View for AstRValue {
    type V = SpecRValue;

    open spec fn view(&self) -> SpecRValue {
        match self {
            AstRValue::FlatFactRValue { flat_fact } => SpecRValue::FlatFactRValue {
                flat_fact: flat_fact@,
            },
            AstRValue::BinopRValue { lnum, binop, rnum } => SpecRValue::BinopRValue {
                lnum: lnum@,
                binop: *binop,
                rnum: rnum@,
            },
        }
    }
}

impl View for AstAssertion {
    type V = SpecAssertion;

    open spec fn view(&self) -> SpecAssertion {
        match self {
            AstAssertion::AstFactAssertion { f } => SpecAssertion::FactAssertion { f: f@ },
            AstAssertion::AstCondAssertion { lhs, rhs } => SpecAssertion::CondAssertion {
                lhs: lhs@,
                rhs: rhs@.map_values(|r: AstRValue| r@),
            },
        }
    }
}

impl View for AstSaysAssertion {
    type V = SpecSaysAssertion;

    open spec fn view(&self) -> SpecSaysAssertion {
        SpecSaysAssertion {
            prin: self.prin@,
            assertions: self.assertions@.map_values(|a: AstAssertion| a@),
            export_file: match self.export_file {
                Some(ref f) => Some(f@),
                None => None,
            },
        }
    }
}

impl View for AstQuery {
    type V = SpecQuery;

    open spec fn view(&self) -> SpecQuery {
        SpecQuery { name: self.name@, principal: self.principal@, fact: self.fact@ }
    }
}

impl View for AstKeybind {
    type V = SpecKeybind;

    open spec fn view(&self) -> SpecKeybind {
        SpecKeybind {
            filename: self.filename@,
            principal: self.principal@,
            is_pub: self.is_pub,
        }
    }
}

impl View for AstImport {
    type V = SpecImport;

    open spec fn view(&self) -> SpecImport {
        SpecImport { filename: self.filename@, principal: self.principal@ }
    }
}

impl View for AstType {
    type V = SpecType;

    open spec fn view(&self) -> SpecType {
        match self {
            AstType::NumberType => SpecType::NumberType,
            AstType::PrincipalType => SpecType::PrincipalType,
            AstType::CustomType { name } => SpecType::CustomType { name: name@ },
        }
    }
}

impl View for AstRelationDeclaration {
    type V = SpecRelationDeclaration;

    open spec fn view(&self) -> SpecRelationDeclaration {
        SpecRelationDeclaration {
            predicate_name: self.predicate_name@,
            is_attribute: self.is_attribute,
            arg_typings: self.arg_typings@.map_values(|t: (String, AstType)| (t.0@, t.1@)),
        }
    }
}

impl View for AstProgram {
    type V = SpecProgram;

    open spec fn view(&self) -> SpecProgram {
        SpecProgram {
            relation_declarations: self.relation_declarations@.map_values(
                |d: AstRelationDeclaration| d@,
            ),
            assertions: self.assertions@.map_values(|a: AstSaysAssertion| a@),
            queries: self.queries@.map_values(|q: AstQuery| q@),
            imports: self.imports@.map_values(|i: AstImport| i@),
            priv_binds: self.priv_binds@.map_values(|k: AstKeybind| k@),
            pub_binds: self.pub_binds@.map_values(|k: AstKeybind| k@),
        }
    }
}


// ---------------------------------------------------------------------------
// Deep copies
// ---------------------------------------------------------------------------
// The passes never mutate their input; they build fresh values. These copies
// carry an exact contract (the copy has the same view), which the derived
// `Clone` impls would not give to verified callers.

/// Copies a vector of strings; the copy has the same view.
pub fn dup_strings(v: &Vec<String>) -> (r: Vec<String>)
    ensures
        r@.map_values(|a: String| a@) == v@.map_values(|a: String| a@),
{
    let mut r: Vec<String> = Vec::new();
    let mut i: usize = 0;
    while i < v.len()
        invariant
            i <= v.len(),
            r@.len() == i as int,
            forall|j: int| 0 <= j < i as int ==> (#[trigger] r@[j]) == v@[j],
        decreases v.len() - i,
    {
        r.push(v[i].clone());
        i = i + 1;
    }
    proof {
        assert(r@.map_values(|a: String| a@) =~= v@.map_values(|a: String| a@));
    }
    r
}

impl AstPrincipal {
    pub fn dup(&self) -> (r: AstPrincipal)
        ensures
            r@ == self@,
    {
        AstPrincipal { name: self.name.clone() }
    }
}

impl AstPredicate {
    pub fn dup(&self) -> (r: AstPredicate)
        ensures
            r@ == self@,
    {
        AstPredicate { sign: self.sign, name: self.name.clone(), args: dup_strings(&self.args) }
    }
}

impl AstVerbPhrase {
    pub fn dup(&self) -> (r: AstVerbPhrase)
        ensures
            r@ == self@,
    {
        match self {
            AstVerbPhrase::AstPredPhrase { p } => AstVerbPhrase::AstPredPhrase { p: p.dup() },
            AstVerbPhrase::AstCanActPhrase { p } => AstVerbPhrase::AstCanActPhrase { p: p.dup() },
        }
    }
}

impl AstFlatFact {
    pub fn dup(&self) -> (r: AstFlatFact)
        ensures
            r@ == self@,
    {
        match self {
            AstFlatFact::AstPrinFact { p, v } => AstFlatFact::AstPrinFact {
                p: p.dup(),
                v: v.dup(),
            },
            AstFlatFact::AstPredFact { p } => AstFlatFact::AstPredFact { p: p.dup() },
        }
    }
}

impl AstFact {
    pub fn dup(&self) -> (r: AstFact)
        ensures
            r@ == self@,
        decreases self,
    {
        match self {
            AstFact::AstFlatFactFact { f } => AstFact::AstFlatFactFact { f: f.dup() },
            AstFact::AstCanSayFact { p, f } => AstFact::AstCanSayFact {
                p: p.dup(),
                f: Box::new((**f).dup()),
            },
        }
    }
}

impl AstRValue {
    pub fn dup(&self) -> (r: AstRValue)
        ensures
            r@ == self@,
    {
        match self {
            AstRValue::FlatFactRValue { flat_fact } => AstRValue::FlatFactRValue {
                flat_fact: flat_fact.dup(),
            },
            AstRValue::BinopRValue { lnum, binop, rnum } => AstRValue::BinopRValue {
                lnum: lnum.clone(),
                binop: *binop,
                rnum: rnum.clone(),
            },
        }
    }
}

/// Copies a vector of right-hand-side terms; the copy has the same view.
pub fn dup_rvalues(v: &Vec<AstRValue>) -> (r: Vec<AstRValue>)
    ensures
        r@.map_values(|x: AstRValue| x@) == v@.map_values(|x: AstRValue| x@),
{
    let mut r: Vec<AstRValue> = Vec::new();
    let mut i: usize = 0;
    while i < v.len()
        invariant
            i <= v.len(),
            r@.len() == i as int,
            forall|j: int| 0 <= j < i as int ==> (#[trigger] r@[j])@ == v@[j]@,
        decreases v.len() - i,
    {
        r.push(v[i].dup());
        i = i + 1;
    }
    proof {
        assert(r@.map_values(|x: AstRValue| x@) =~= v@.map_values(|x: AstRValue| x@));
    }
    r
}

impl AstAssertion {
    pub fn dup(&self) -> (r: AstAssertion)
        ensures
            r@ == self@,
    {
        match self {
            AstAssertion::AstFactAssertion { f } => AstAssertion::AstFactAssertion { f: f.dup() },
            AstAssertion::AstCondAssertion { lhs, rhs } => AstAssertion::AstCondAssertion {
                lhs: lhs.dup(),
                rhs: dup_rvalues(rhs),
            },
        }
    }
}

/// Copies a vector of assertions; the copy has the same view.
pub fn dup_assertions(v: &Vec<AstAssertion>) -> (r: Vec<AstAssertion>)
    ensures
        r@.map_values(|x: AstAssertion| x@) == v@.map_values(|x: AstAssertion| x@),
{
    let mut r: Vec<AstAssertion> = Vec::new();
    let mut i: usize = 0;
    while i < v.len()
        invariant
            i <= v.len(),
            r@.len() == i as int,
            forall|j: int| 0 <= j < i as int ==> (#[trigger] r@[j])@ == v@[j]@,
        decreases v.len() - i,
    {
        r.push(v[i].dup());
        i = i + 1;
    }
    proof {
        assert(r@.map_values(|x: AstAssertion| x@) =~= v@.map_values(|x: AstAssertion| x@));
    }
    r
}

impl AstSaysAssertion {
    pub fn dup(&self) -> (r: AstSaysAssertion)
        ensures
            r@ == self@,
    {
        AstSaysAssertion {
            prin: self.prin.dup(),
            assertions: dup_assertions(&self.assertions),
            export_file: match &self.export_file {
                Some(f) => Some(f.clone()),
                None => None,
            },
        }
    }
}

/// Copies a vector of says-assertions; the copy has the same view.
pub fn dup_says_assertions(v: &Vec<AstSaysAssertion>) -> (r: Vec<AstSaysAssertion>)
    ensures
        r@.map_values(|x: AstSaysAssertion| x@) == v@.map_values(|x: AstSaysAssertion| x@),
{
    let mut r: Vec<AstSaysAssertion> = Vec::new();
    let mut i: usize = 0;
    while i < v.len()
        invariant
            i <= v.len(),
            r@.len() == i as int,
            forall|j: int| 0 <= j < i as int ==> (#[trigger] r@[j])@ == v@[j]@,
        decreases v.len() - i,
    {
        r.push(v[i].dup());
        i = i + 1;
    }
    proof {
        assert(r@.map_values(|x: AstSaysAssertion| x@) =~= v@.map_values(|x: AstSaysAssertion| x@));
    }
    r
}

impl AstQuery {
    pub fn dup(&self) -> (r: AstQuery)
        ensures
            r@ == self@,
    {
        AstQuery { name: self.name.clone(), principal: self.principal.dup(), fact: self.fact.dup() }
    }
}

/// Copies a vector of queries; the copy has the same view.
pub fn dup_queries(v: &Vec<AstQuery>) -> (r: Vec<AstQuery>)
    ensures
        r@.map_values(|x: AstQuery| x@) == v@.map_values(|x: AstQuery| x@),
{
    let mut r: Vec<AstQuery> = Vec::new();
    let mut i: usize = 0;
    while i < v.len()
        invariant
            i <= v.len(),
            r@.len() == i as int,
            forall|j: int| 0 <= j < i as int ==> (#[trigger] r@[j])@ == v@[j]@,
        decreases v.len() - i,
    {
        r.push(v[i].dup());
        i = i + 1;
    }
    proof {
        assert(r@.map_values(|x: AstQuery| x@) =~= v@.map_values(|x: AstQuery| x@));
    }
    r
}

impl AstKeybind {
    pub fn dup(&self) -> (r: AstKeybind)
        ensures
            r@ == self@,
    {
        AstKeybind {
            filename: self.filename.clone(),
            principal: self.principal.dup(),
            is_pub: self.is_pub,
        }
    }
}

/// Copies a vector of key bindings; the copy has the same view.
pub fn dup_keybinds(v: &Vec<AstKeybind>) -> (r: Vec<AstKeybind>)
    ensures
        r@.map_values(|x: AstKeybind| x@) == v@.map_values(|x: AstKeybind| x@),
{
    let mut r: Vec<AstKeybind> = Vec::new();
    let mut i: usize = 0;
    while i < v.len()
        invariant
            i <= v.len(),
            r@.len() == i as int,
            forall|j: int| 0 <= j < i as int ==> (#[trigger] r@[j])@ == v@[j]@,
        decreases v.len() - i,
    {
        r.push(v[i].dup());
        i = i + 1;
    }
    proof {
        assert(r@.map_values(|x: AstKeybind| x@) =~= v@.map_values(|x: AstKeybind| x@));
    }
    r
}

impl AstImport {
    pub fn dup(&self) -> (r: AstImport)
        ensures
            r@ == self@,
    {
        AstImport { filename: self.filename.clone(), principal: self.principal.dup() }
    }
}

/// Copies a vector of imports; the copy has the same view.
pub fn dup_imports(v: &Vec<AstImport>) -> (r: Vec<AstImport>)
    ensures
        r@.map_values(|x: AstImport| x@) == v@.map_values(|x: AstImport| x@),
{
    let mut r: Vec<AstImport> = Vec::new();
    let mut i: usize = 0;
    while i < v.len()
        invariant
            i <= v.len(),
            r@.len() == i as int,
            forall|j: int| 0 <= j < i as int ==> (#[trigger] r@[j])@ == v@[j]@,
        decreases v.len() - i,
    {
        r.push(v[i].dup());
        i = i + 1;
    }
    proof {
        assert(r@.map_values(|x: AstImport| x@) =~= v@.map_values(|x: AstImport| x@));
    }
    r
}

impl AstType {
    pub fn dup(&self) -> (r: AstType)
        ensures
            r@ == self@,
    {
        match self {
            AstType::NumberType => AstType::NumberType,
            AstType::PrincipalType => AstType::PrincipalType,
            AstType::CustomType { name } => AstType::CustomType { name: name.clone() },
        }
    }
}

/// Copies a vector of named argument typings; the copy has the same view.
pub fn dup_arg_typings(v: &Vec<(String, AstType)>) -> (r: Vec<(String, AstType)>)
    ensures
        r@.map_values(|t: (String, AstType)| (t.0@, t.1@)) == v@.map_values(|t: (String, AstType)| (t.0@, t.1@)),
{
    let mut r: Vec<(String, AstType)> = Vec::new();
    let mut i: usize = 0;
    while i < v.len()
        invariant
            i <= v.len(),
            r@.len() == i as int,
            forall|j: int| 0 <= j < i as int ==> (#[trigger] r@[j]).0@ == v@[j].0@ && r@[j].1@ == v@[j].1@,
        decreases v.len() - i,
    {
        r.push({ let (n, t) = &v[i]; (n.clone(), t.dup()) });
        i = i + 1;
    }
    proof {
        assert(r@.map_values(|t: (String, AstType)| (t.0@, t.1@)) =~= v@.map_values(|t: (String, AstType)| (t.0@, t.1@)));
    }
    r
}

impl AstRelationDeclaration {
    pub fn dup(&self) -> (r: AstRelationDeclaration)
        ensures
            r@ == self@,
    {
        AstRelationDeclaration {
            predicate_name: self.predicate_name.clone(),
            is_attribute: self.is_attribute,
            arg_typings: dup_arg_typings(&self.arg_typings),
        }
    }
}

/// Copies a vector of relation declarations; the copy has the same view.
pub fn dup_relation_declarations(v: &Vec<AstRelationDeclaration>) -> (r: Vec<AstRelationDeclaration>)
    ensures
        r@.map_values(|x: AstRelationDeclaration| x@) == v@.map_values(|x: AstRelationDeclaration| x@),
{
    let mut r: Vec<AstRelationDeclaration> = Vec::new();
    let mut i: usize = 0;
    while i < v.len()
        invariant
            i <= v.len(),
            r@.len() == i as int,
            forall|j: int| 0 <= j < i as int ==> (#[trigger] r@[j])@ == v@[j]@,
        decreases v.len() - i,
    {
        r.push(v[i].dup());
        i = i + 1;
    }
    proof {
        assert(r@.map_values(|x: AstRelationDeclaration| x@) =~= v@.map_values(|x: AstRelationDeclaration| x@));
    }
    r
}

impl AstProgram {
    pub fn dup(&self) -> (r: AstProgram)
        ensures
            r@ == self@,
    {
        AstProgram {
            relation_declarations: dup_relation_declarations(&self.relation_declarations),
            assertions: dup_says_assertions(&self.assertions),
            queries: dup_queries(&self.queries),
            imports: dup_imports(&self.imports),
            priv_binds: dup_keybinds(&self.priv_binds),
            pub_binds: dup_keybinds(&self.pub_binds),
        }
    }
}


/// Copies a vector of argument types; the copy has the same view.
pub fn dup_types(v: &Vec<AstType>) -> (r: Vec<AstType>)
    ensures
        r@.map_values(|x: AstType| x@) == v@.map_values(|x: AstType| x@),
{
    let mut r: Vec<AstType> = Vec::new();
    let mut i: usize = 0;
    while i < v.len()
        invariant
            i <= v.len(),
            r@.len() == i as int,
            forall|j: int| 0 <= j < i as int ==> (#[trigger] r@[j])@ == v@[j]@,
        decreases v.len() - i,
    {
        r.push(v[i].dup());
        i = i + 1;
    }
    proof {
        assert(r@.map_values(|x: AstType| x@) =~= v@.map_values(|x: AstType| x@));
    }
    r
}


// ---------------------------------------------------------------------------
// List views
// ---------------------------------------------------------------------------

pub open spec fn strings_view(s: Seq<String>) -> Seq<Seq<char>> {
    s.map_values(|x: String| x@)
}

pub open spec fn preds_view(s: Seq<AstPredicate>) -> Seq<SpecPredicate> {
    s.map_values(|x: AstPredicate| x@)
}

pub open spec fn principals_view(s: Seq<AstPrincipal>) -> Seq<SpecPrincipal> {
    s.map_values(|x: AstPrincipal| x@)
}

pub open spec fn rvalues_view(s: Seq<AstRValue>) -> Seq<SpecRValue> {
    s.map_values(|x: AstRValue| x@)
}

pub open spec fn assertions_view(s: Seq<AstAssertion>) -> Seq<SpecAssertion> {
    s.map_values(|x: AstAssertion| x@)
}

pub open spec fn says_view(s: Seq<AstSaysAssertion>) -> Seq<SpecSaysAssertion> {
    s.map_values(|x: AstSaysAssertion| x@)
}

pub open spec fn keybinds_view(s: Seq<AstKeybind>) -> Seq<SpecKeybind> {
    s.map_values(|x: AstKeybind| x@)
}

pub open spec fn queries_view(s: Seq<AstQuery>) -> Seq<SpecQuery> {
    s.map_values(|x: AstQuery| x@)
}

pub open spec fn decls_view(s: Seq<AstRelationDeclaration>) -> Seq<SpecRelationDeclaration> {
    s.map_values(|x: AstRelationDeclaration| x@)
}

} // verus!

