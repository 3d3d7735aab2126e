//! Checking kernel of a small dependently-typed core calculus.
//!
//! The crate covers the core term and value representation with its
//! explicit-substitution calculus, the weak-head normalizer that unfolds
//! global declarations, the bidirectional type checker with its conversion
//! check, and the classifier that partitions left-hand-side equations
//! during clause splitting.

pub mod common;
pub mod term;
pub mod subst;
pub mod redex;
pub mod decl;
pub mod monad;
pub mod whnf;
pub mod unify;
pub mod abs;
pub mod infer;
pub mod tycheck;
pub mod eqs;
