//! Global declarations: the read-only signature the normalizer unfolds
//! from, with core patterns and clauses.

use vstd::prelude::*;

use crate::common::{Ident, IdentV, DBI, GI};
use crate::term::{conhead_v, strs_v, term_v, ConHead, ConHeadV, Term, TermV};

verus! {

/// A core pattern, as stored in an elaborated clause.
#[derive(Debug, PartialEq, Eq)]
pub enum CorePat {
    Var(DBI),
    Cons(bool, ConHead, Vec<CorePat>),
    Forced(Box<Term>),
    Refl,
    Absurd,
}

/// A core copattern: an ordinary pattern, or a field projection.
#[derive(Debug, PartialEq, Eq)]
pub enum CoreCopat {
    App(CorePat),
    Proj(String),
}

/// One pattern-matching case of a function definition; a clause without a
/// body is the absurd marker, whose patterns show no body is required.
#[derive(Debug, PartialEq, Eq)]
pub struct Clause {
    pub patterns: Vec<CoreCopat>,
    pub body: Option<Term>,
}

/// What a constructor declaration records: the inductive type it belongs
/// to, and a field list exactly when the constructor head is inductive.
#[derive(Debug, PartialEq, Eq)]
pub struct ConsDecl {
    pub data: GI,
    pub fields: Option<Vec<String>>,
}

/// A function declaration: its ordered clauses.
#[derive(Debug, PartialEq, Eq)]
pub struct FuncDecl {
    pub name: Ident,
    pub clauses: Vec<Clause>,
}

/// An entry of the global signature.
#[derive(Debug, PartialEq, Eq)]
pub enum Decl {
    Data,
    Codata,
    Cons(ConsDecl),
    Func(FuncDecl),
    Proj,
    /// A forward-declared function whose clauses are not elaborated yet;
    /// never reachable in a fully elaborated signature.
    ClausePlaceholder,
}

// ------------------------------------------------------------------
// Ghost mirrors.
// ------------------------------------------------------------------

#[verifier::ext_equal]
pub enum CorePatV {
    Var(nat),
    Cons(bool, ConHeadV, Seq<CorePatV>),
    Forced(Box<TermV>),
    Refl,
    Absurd,
}

#[verifier::ext_equal]
pub enum CoreCopatV {
    App(CorePatV),
    Proj(Seq<char>),
}

#[verifier::ext_equal]
pub struct ClauseV {
    pub patterns: Seq<CoreCopatV>,
    pub body: Option<TermV>,
}

#[verifier::ext_equal]
pub struct ConsDeclV {
    pub data: nat,
    pub fields: Option<Seq<Seq<char>>>,
}

#[verifier::ext_equal]
pub struct FuncDeclV {
    pub name: IdentV,
    pub clauses: Seq<ClauseV>,
}

#[verifier::ext_equal]
pub enum DeclV {
    Data,
    Codata,
    Cons(ConsDeclV),
    Func(FuncDeclV),
    Proj,
    ClausePlaceholder,
}

pub open spec fn corepat_v(p: CorePat) -> CorePatV
    decreases p,
{
    match p {
        CorePat::Var(d) => CorePatV::Var(d as nat),
        CorePat::Cons(forced, h, ps) => CorePatV::Cons(forced, conhead_v(h), corepats_v(ps@)),
        CorePat::Forced(t) => CorePatV::Forced(Box::new(term_v(*t))),
        CorePat::Refl => CorePatV::Refl,
        CorePat::Absurd => CorePatV::Absurd,
    }
}

pub open spec fn corepats_v(s: Seq<CorePat>) -> Seq<CorePatV>
    decreases s,
{
    if s.len() == 0 {
        Seq::empty()
    } else {
        corepats_v(s.drop_last()).push(corepat_v(s.last()))
    }
}

pub open spec fn corecopat_v(p: CoreCopat) -> CoreCopatV
    decreases p,
{
    match p {
        CoreCopat::App(q) => CoreCopatV::App(corepat_v(q)),
        CoreCopat::Proj(s) => CoreCopatV::Proj(s@),
    }
}

pub open spec fn corecopats_v(s: Seq<CoreCopat>) -> Seq<CoreCopatV>
    decreases s,
{
    if s.len() == 0 {
        Seq::empty()
    } else {
        corecopats_v(s.drop_last()).push(corecopat_v(s.last()))
    }
}

pub open spec fn clause_v(c: Clause) -> ClauseV {
    ClauseV {
        patterns: corecopats_v(c.patterns@),
        body: match c.body {
            Option::None => Option::None,
            Option::Some(t) => Option::Some(term_v(t)),
        },
    }
}

pub open spec fn clauses_v(s: Seq<Clause>) -> Seq<ClauseV>
    decreases s,
{
    if s.len() == 0 {
        Seq::empty()
    } else {
        clauses_v(s.drop_last()).push(clause_v(s.last()))
    }
}

pub open spec fn decl_v(d: Decl) -> DeclV {
    match d {
        Decl::Data => DeclV::Data,
        Decl::Codata => DeclV::Codata,
        Decl::Cons(ci) => DeclV::Cons(
            ConsDeclV {
                data: ci.data as nat,
                fields: match ci.fields {
                    Option::None => Option::None,
                    Option::Some(fs) => Option::Some(strs_v(fs@)),
                },
            },
        ),
        Decl::Func(fi) => DeclV::Func(
            FuncDeclV { name: fi.name@, clauses: clauses_v(fi.clauses@) },
        ),
        Decl::Proj => DeclV::Proj,
        Decl::ClausePlaceholder => DeclV::ClausePlaceholder,
    }
}

pub open spec fn decls_v(s: Seq<Decl>) -> Seq<DeclV>
    decreases s,
{
    if s.len() == 0 {
        Seq::empty()
    } else {
        decls_v(s.drop_last()).push(decl_v(s.last()))
    }
}

impl View for Clause {
    type V = ClauseV;

    open spec fn view(&self) -> ClauseV {
        clause_v(*self)
    }
}

impl View for Decl {
    type V = DeclV;

    open spec fn view(&self) -> DeclV {
        decl_v(*self)
    }
}

pub proof fn lemma_clauses_v(s: Seq<Clause>)
    ensures
        clauses_v(s).len() == s.len(),
        forall|i: int| 0 <= i < s.len() ==> clauses_v(s)[i] == clause_v(s[i]),
    decreases s,
{
    if s.len() > 0 {
        lemma_clauses_v(s.drop_last());
    }
}

pub proof fn lemma_decls_v(s: Seq<Decl>)
    ensures
        decls_v(s).len() == s.len(),
        forall|i: int| 0 <= i < s.len() ==> decls_v(s)[i] == decl_v(s[i]),
    decreases s,
{
    if s.len() > 0 {
        lemma_decls_v(s.drop_last());
    }
}

pub proof fn lemma_corecopats_v(s: Seq<CoreCopat>)
    ensures
        corecopats_v(s).len() == s.len(),
        forall|i: int| 0 <= i < s.len() ==> corecopats_v(s)[i] == corecopat_v(s[i]),
    decreases s,
{
    if s.len() > 0 {
        lemma_corecopats_v(s.drop_last());
    }
}

impl Clause {
    /// Whether this clause is the absurd marker: it has no body.
    pub fn is_absurd(&self) -> (r: bool)
        ensures
            r == (self@.body is None),
    {
        match &self.body {
            Option::None => true,
            Option::Some(_) => false,
        }
    }
}

} // verus!
