//! Shared plain data: identifier tokens, plicitness tags, source locations.

use vstd::prelude::*;

verus! {

/// De Bruijn index: names a bound variable by its distance from the
/// innermost enclosing binder.
pub type DBI = usize;

/// Display-only unique identifier assigned to each surface name; never used
/// for variable lookup or term equality.
pub type UID = usize;

/// Index of a declaration in the global signature.
pub type GI = usize;

/// Index of a metavariable.
pub type MI = usize;

/// Universe level.
pub type Level = usize;

/// Whether an argument or binding is explicit or implicit.
#[derive(Clone, Copy, PartialEq, Eq, Structural, Debug)]
pub enum Plicit {
    Ex,
    Im,
}

/// Whether a type former or constructor head is inductive or coinductive.
#[derive(Clone, Copy, PartialEq, Eq, Structural, Debug)]
pub enum Ductive {
    In,
    Coin,
}

/// A half-open span in the source text, kept for diagnostics only.
#[derive(Clone, Copy, PartialEq, Eq, Structural, Debug)]
pub struct Loc {
    pub start: usize,
    pub end: usize,
}

impl Loc {
    pub fn new(start: usize, end: usize) -> (r: Loc)
        ensures
            r == (Loc { start, end }),
    {
        Loc { start, end }
    }
}

/// A surface name together with the span it came from.
#[derive(PartialEq, Eq, Debug)]
pub struct Ident {
    pub text: String,
    pub loc: Loc,
}

/// Mathematical image of an [`Ident`].
#[verifier::ext_equal]
pub struct IdentV {
    pub text: Seq<char>,
    pub loc: Loc,
}

impl View for Ident {
    type V = IdentV;

    open spec fn view(&self) -> IdentV {
        IdentV { text: self.text@, loc: self.loc }
    }
}

impl Ident {
    pub fn new(text: String, loc: Loc) -> (r: Ident)
        ensures
            r@ == (IdentV { text: text@, loc }),
    {
        Ident { text, loc }
    }
}

impl Clone for Ident {
    fn clone(&self) -> (r: Self)
        ensures
            r@ == self@,
    {
        Ident { text: self.text.clone(), loc: self.loc }
    }
}

} // verus!
