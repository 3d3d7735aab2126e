//! Abstract terms: the name-resolved syntax the checker elaborates.

use vstd::prelude::*;

use crate::common::{Ident, IdentV, Level, Loc, Plicit, DBI, MI, UID};

verus! {

/// A binding in an abstract dependent-function type.
#[derive(Debug, PartialEq, Eq)]
pub struct AbsBind {
    pub licit: Plicit,
    pub name: UID,
    pub ty: Box<Abs>,
}

/// An abstract term.  The checker elaborates universes, variables and
/// dependent-function types; applications, metavariables and projections
/// ride through to the completion points of the elaborator.
#[derive(Debug, PartialEq, Eq)]
pub enum Abs {
    /// Universe literal, with the token it was written as.
    Type(Ident, Level),
    /// A bound variable, by its de Bruijn index.
    Var(Ident, DBI),
    /// Dependent function type.
    Pi(Loc, AbsBind, Box<Abs>),
    /// Application.
    App(Box<Abs>, Box<Abs>),
    /// Metavariable.
    Meta(Ident, MI),
    /// Field projection.
    Proj(Ident),
}

#[verifier::ext_equal]
pub struct AbsBindV {
    pub licit: Plicit,
    pub name: nat,
    pub ty: Box<AbsV>,
}

#[verifier::ext_equal]
pub enum AbsV {
    Type(IdentV, nat),
    Var(IdentV, nat),
    Pi(Loc, AbsBindV, Box<AbsV>),
    App(Box<AbsV>, Box<AbsV>),
    Meta(IdentV, nat),
    Proj(IdentV),
}

pub open spec fn abs_v(a: Abs) -> AbsV
    decreases a,
{
    match a {
        Abs::Type(id, l) => AbsV::Type(id@, l as nat),
        Abs::Var(id, d) => AbsV::Var(id@, d as nat),
        Abs::Pi(loc, b, r) => AbsV::Pi(
            loc,
            AbsBindV { licit: b.licit, name: b.name as nat, ty: Box::new(abs_v(*b.ty)) },
            Box::new(abs_v(*r)),
        ),
        Abs::App(f, x) => AbsV::App(Box::new(abs_v(*f)), Box::new(abs_v(*x))),
        Abs::Meta(id, m) => AbsV::Meta(id@, m as nat),
        Abs::Proj(id) => AbsV::Proj(id@),
    }
}

impl View for Abs {
    type V = AbsV;

    open spec fn view(&self) -> AbsV {
        abs_v(*self)
    }
}

/// Size of an abstract term, the checker's termination measure.
pub open spec fn av_size(a: AbsV) -> nat
    decreases a,
{
    match a {
        AbsV::Type(_, _) => 1,
        AbsV::Var(_, _) => 1,
        AbsV::Pi(_, b, r) => 1 + av_size(*b.ty) + av_size(*r),
        AbsV::App(f, x) => 1 + av_size(*f) + av_size(*x),
        AbsV::Meta(_, _) => 1,
        AbsV::Proj(_) => 1,
    }
}

/// The source location an abstract term carries.
pub open spec fn spec_abs_loc(a: AbsV) -> Loc
    decreases a,
{
    match a {
        AbsV::Type(id, _) => id.loc,
        AbsV::Var(id, _) => id.loc,
        AbsV::Pi(loc, _, _) => loc,
        AbsV::App(f, _) => spec_abs_loc(*f),
        AbsV::Meta(id, _) => id.loc,
        AbsV::Proj(id) => id.loc,
    }
}

impl Abs {
    /// The source location this term carries.
    pub fn loc(&self) -> (r: Loc)
        ensures
            r == spec_abs_loc(self@),
        decreases av_size(self@),
    {
        match self {
            Abs::Type(id, _) => id.loc,
            Abs::Var(id, _) => id.loc,
            Abs::Pi(loc, _, _) => *loc,
            Abs::App(f, _) => f.loc(),
            Abs::Meta(id, _) => id.loc,
            Abs::Proj(id) => id.loc,
        }
    }
}

impl Clone for AbsBind {
    fn clone(&self) -> (r: Self)
        ensures
            r@ == self@,
        decreases av_size(self.ty@), 1nat,
    {
        AbsBind { licit: self.licit, name: self.name, ty: Box::new((*self.ty).clone()) }
    }
}

impl View for AbsBind {
    type V = AbsBindV;

    open spec fn view(&self) -> AbsBindV {
        AbsBindV {
            licit: self.licit,
            name: self.name as nat,
            ty: Box::new(abs_v(*self.ty)),
        }
    }
}

impl Clone for Abs {
    fn clone(&self) -> (r: Self)
        ensures
            r@ == self@,
        decreases av_size(self@), 0nat,
    {
        match self {
            Abs::Type(id, l) => Abs::Type(id.clone(), *l),
            Abs::Var(id, d) => Abs::Var(id.clone(), *d),
            Abs::Pi(loc, b, r) => Abs::Pi(*loc, b.clone(), Box::new((**r).clone())),
            Abs::App(f, x) => Abs::App(Box::new((**f).clone()), Box::new((**x).clone())),
            Abs::Meta(id, m) => Abs::Meta(id.clone(), *m),
            Abs::Proj(id) => Abs::Proj(id.clone()),
        }
    }
}

} // verus!
