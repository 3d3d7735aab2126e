//! Type synthesis: inferring a type for an abstract term without an
//! expectation.  Universe literals and bound variables synthesize; the
//! remaining forms wait on metavariable solving, an open completion
//! point.

use vstd::prelude::*;

use crate::abs::{Abs, AbsV};
use crate::decl::DeclV;
use crate::monad::{lemma_binds_v, TCEV, TCM, TCS, TermInfo, TermInfoV};
use crate::subst::{sv_raise, tv_from_dbi, tv_reduce, tv_reduce_ok, Subst};
use crate::term::{BindV, Term, TermV, ValV};

verus! {

/// The abstract terms a type can be synthesized for, and the machine
/// bounds synthesis needs: a universe literal one level below the top,
/// or a variable the context binds whose type can be shifted into place.
pub open spec fn spec_infer_ok(gamma: Seq<BindV>, sigma: Seq<DeclV>, a: AbsV) -> bool {
    match a {
        AbsV::Type(_, lvl) => lvl + 1 <= usize::MAX,
        AbsV::Var(_, dbi) => dbi < gamma.len() && dbi + 1 <= usize::MAX && tv_reduce_ok(
            *gamma[gamma.len() - 1 - dbi].ty,
            sv_raise(dbi + 1),
        ),
        _ => false,
    }
}

/// What synthesis returns: the elaborated term and its type.  A universe
/// lives in the next universe; a variable's type is the binding's type,
/// shifted past the bindings in between.
pub open spec fn spec_infer(gamma: Seq<BindV>, sigma: Seq<DeclV>, a: AbsV) -> Result<
    (TermInfoV, TermV),
    TCEV,
> {
    match a {
        AbsV::Type(id, lvl) => Result::Ok(
            (
                TermInfoV { ast: TermV::Whnf(Box::new(ValV::Type(lvl))), loc: id.loc },
                TermV::Whnf(Box::new(ValV::Type(lvl + 1))),
            ),
        ),
        AbsV::Var(id, dbi) => Result::Ok(
            (
                TermInfoV { ast: tv_from_dbi(dbi), loc: id.loc },
                tv_reduce(*gamma[gamma.len() - 1 - dbi].ty, sv_raise(dbi + 1)),
            ),
        ),
        _ => arbitrary(),
    }
}

/// Synthesizes a type for an abstract term (bidirectional "infer" mode):
/// the elaborated term, its not-yet-normalized type, and the state,
/// untouched.
pub fn infer(tcs: TCS, abs: &Abs) -> (r: TCM<(TermInfo, Term, TCS)>)
    requires
        spec_infer_ok(tcs@.gamma, tcs@.sigma, abs@),
    ensures
        ({
            let sr = spec_infer(tcs@.gamma, tcs@.sigma, abs@);
            match r {
                Result::Ok((ev, inferred, tcs2)) => sr matches Result::Ok(p) && ev@ == p.0
                    && inferred@ == p.1 && tcs2@ == tcs@,
                Result::Err(e) => sr matches Result::Err(ev) && e@ == ev,
            }
        }),
{
    match abs {
        Abs::Type(id, lvl) => {
            let evaluated = Term::universe(*lvl).at(id.loc);
            let inferred = Term::universe(*lvl + 1);
            Result::Ok((evaluated, inferred, tcs))
        }
        Abs::Var(id, dbi) => {
            proof {
                lemma_binds_v(tcs.gamma@);
            }
            let n = tcs.gamma.len();
            let ty = tcs.gamma[n - 1 - *dbi].ty.clone();
            let inferred = Subst::raise_term(*dbi + 1, ty);
            Result::Ok((Term::from_dbi(*dbi).at(id.loc), inferred, tcs))
        }
        _ => {
            proof {
                assert(false);
            }
            unreached()
        }
    }
}

} // verus!
