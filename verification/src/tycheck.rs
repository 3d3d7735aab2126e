//! The bidirectional checker: checking an abstract term against an
//! expected weak-head value, with type synthesis and conversion as the
//! fallback, and the eta-variable analysis built on normalization.

use vstd::prelude::*;

use crate::abs::{av_size, spec_abs_loc, Abs, AbsV};
use crate::common::DBI;
use crate::decl::DeclV;
use crate::infer::{infer, spec_infer, spec_infer_ok};
use crate::monad::{
    binds_v, lemma_binds_v, lemma_binds_v_push, TCEV, TCM, TCMS, TCS, TCE, TermInfo, TermInfoV,
    TermTCM,
};
use crate::term::{Bind, BindV, Closure, ClosureV, Term, TermV, Val, ValV};
use crate::unify::{spec_subtype, subtype, vv_unify_safe};
use crate::whnf::{simplify, spec_simplify, spec_simplify_ok};

verus! {

pub proof fn lemma_av_size_pos(a: AbsV)
    ensures
        av_size(a) >= 1,
{
}

/// An abstract term's image is in each variant exactly when the term
/// is.
pub proof fn lemma_abs_v_variant(a: Abs)
    ensures
        (crate::abs::abs_v(a) is Type) <==> (a is Type),
        (crate::abs::abs_v(a) is Var) <==> (a is Var),
        (crate::abs::abs_v(a) is Pi) <==> (a is Pi),
        (crate::abs::abs_v(a) is App) <==> (a is App),
        (crate::abs::abs_v(a) is Meta) <==> (a is Meta),
        (crate::abs::abs_v(a) is Proj) <==> (a is Proj),
{
}

// ------------------------------------------------------------------
// The fallback: infer, normalize, convert.
// ------------------------------------------------------------------

/// What the fallback returns: the synthesized term, once the inferred
/// type is normalized and subsumed by the expectation; a conversion
/// failure is wrapped with the term's location.
pub open spec fn spec_check_fallback(
    gamma: Seq<BindV>,
    sigma: Seq<DeclV>,
    a: AbsV,
    against: ValV,
) -> Result<TermInfoV, TCEV> {
    match spec_infer(gamma, sigma, a) {
        Result::Err(e) => Result::Err(e),
        Result::Ok((ev, inferred)) => match spec_simplify(sigma, inferred) {
            Result::Err(e) => Result::Err(e),
            Result::Ok(whnf) => match spec_subtype(sigma, whnf, against) {
                Result::Err(e) => Result::Err(TCEV::Wrapped(spec_abs_loc(a), Box::new(e))),
                Result::Ok(_) => Result::Ok(ev),
            },
        },
    }
}

/// The inputs the fallback is defined on: the term synthesizes, its
/// type normalizes, and both sides of the conversion are safe to
/// compare.
pub open spec fn spec_check_fallback_ok(
    gamma: Seq<BindV>,
    sigma: Seq<DeclV>,
    a: AbsV,
    against: ValV,
) -> bool {
    spec_infer_ok(gamma, sigma, a) && match spec_infer(gamma, sigma, a) {
        Result::Err(_) => true,
        Result::Ok((_, inferred)) => spec_simplify_ok(sigma, inferred) && match spec_simplify(
            sigma,
            inferred,
        ) {
            Result::Err(_) => true,
            Result::Ok(whnf) => vv_unify_safe(sigma, whnf) && vv_unify_safe(sigma, against),
        },
    }
}

/// The binding a checked dependent-function domain pushes.
pub open spec fn spec_pi_bind(b: crate::abs::AbsBindV, dom: TermInfoV) -> BindV {
    BindV { licit: b.licit, name: b.name, ty: Box::new(dom.ast), val: Option::None }
}

/// What checking returns.  A universe literal checks against any
/// strictly higher universe.  A dependent-function type checks against
/// a universe by checking its domain, then its codomain under the
/// extended context, and rebuilding the Pi.  Everything else goes
/// through the fallback.
pub open spec fn spec_check(
    gamma: Seq<BindV>,
    sigma: Seq<DeclV>,
    a: AbsV,
    against: ValV,
) -> Result<TermInfoV, TCEV>
    decreases av_size(a),
{
    match (a, against) {
        (AbsV::Type(info, lower), ValV::Type(upper)) => if upper > lower {
            Result::Ok(
                TermInfoV { ast: TermV::Whnf(Box::new(ValV::Type(lower))), loc: info.loc },
            )
        } else {
            Result::Err(TCEV::LevelMismatch(info.loc, lower + 1, upper))
        },
        (AbsV::Pi(info, bind, ret), ValV::Type(_)) => match spec_check(
            gamma,
            sigma,
            *bind.ty,
            against,
        ) {
            Result::Err(e) => Result::Err(e),
            Result::Ok(dom) => {
                let new = spec_pi_bind(bind, dom);
                match spec_check(gamma.push(new), sigma, *ret, against) {
                    Result::Err(e) => Result::Err(e),
                    Result::Ok(ret_i) => Result::Ok(
                        TermInfoV {
                            ast: TermV::Whnf(
                                Box::new(
                                    ValV::Pi(
                                        Box::new(new),
                                        Box::new(ClosureV::Plain(Box::new(ret_i.ast))),
                                    ),
                                ),
                            ),
                            loc: info,
                        },
                    ),
                }
            }
        },
        _ => spec_check_fallback(gamma, sigma, a, against),
    }
}

/// The inputs checking is defined on: each universe bump fits the
/// machine word, and whatever the fallback needs where it is taken.
pub open spec fn spec_check_ok(
    gamma: Seq<BindV>,
    sigma: Seq<DeclV>,
    a: AbsV,
    against: ValV,
) -> bool
    decreases av_size(a),
{
    match (a, against) {
        (AbsV::Type(_, lower), ValV::Type(_)) => lower + 1 <= usize::MAX,
        (AbsV::Pi(_, bind, ret), ValV::Type(_)) => spec_check_ok(gamma, sigma, *bind.ty, against)
            && match spec_check(gamma, sigma, *bind.ty, against) {
            Result::Err(_) => true,
            Result::Ok(dom) => spec_check_ok(
                gamma.push(spec_pi_bind(bind, dom)),
                sigma,
                *ret,
                against,
            ),
        },
        _ => spec_check_fallback_ok(gamma, sigma, a, against),
    }
}

/// The fallback of checking: synthesize a type, normalize it, and ask
/// the conversion checker whether it is subsumed by the expectation; a
/// conversion failure is wrapped with the term's source location.
pub fn check_fallback(tcs: TCS, expr: Abs, expected_type: &Val) -> (r: TermTCM)
    requires
        spec_check_fallback_ok(tcs@.gamma, tcs@.sigma, expr@, expected_type@),
    ensures
        ({
            let sr = spec_check_fallback(tcs@.gamma, tcs@.sigma, expr@, expected_type@);
            match r {
                Result::Ok((info, tcs2)) => sr matches Result::Ok(iv) && info@ == iv && tcs2@
                    == tcs@,
                Result::Err(e) => sr matches Result::Err(ev) && e@ == ev,
            }
        }),
{
    let loc = expr.loc();
    match infer(tcs, &expr) {
        Result::Err(e) => Result::Err(e),
        Result::Ok((evaluated, inferred, tcs)) => match simplify(tcs, inferred) {
            Result::Err(e) => Result::Err(e),
            Result::Ok((whnf, tcs)) => match subtype(tcs, &whnf, expected_type) {
                Result::Err(e) => Result::Err(e.wrap(loc)),
                Result::Ok(tcs) => Result::Ok((evaluated, tcs)),
            },
        },
    }
}

/// One checking step; [`check`] wraps it with the trace bookkeeping.
pub fn check_impl(tcs: TCS, abs: &Abs, against: &Val) -> (r: TermTCM)
    requires
        spec_check_ok(tcs@.gamma, tcs@.sigma, abs@, against@),
        tcs@.tc_depth + av_size(abs@) <= usize::MAX as int + 1,
    ensures
        ({
            let sr = spec_check(tcs@.gamma, tcs@.sigma, abs@, against@);
            match r {
                Result::Ok((info, tcs2)) => sr matches Result::Ok(iv) && info@ == iv && tcs2@
                    == tcs@,
                Result::Err(e) => sr matches Result::Err(ev) && e@ == ev,
            }
        }),
    decreases av_size(abs@), 0nat,
{
    proof {
        lemma_abs_v_variant(*abs);
        crate::unify::lemma_val_v_variant(*against);
    }
    match (abs, against) {
        (Abs::Type(info, lower), Val::Type(upper)) => {
            if *upper > *lower {
                Result::Ok((Term::universe(*lower).at(info.loc), tcs))
            } else {
                Result::Err(TCE::LevelMismatch(abs.loc(), *lower + 1, *upper))
            }
        }
        (Abs::Pi(info, bind, ret), Val::Type(_)) => {
            proof {
                lemma_av_size_pos(bind.ty@);
                lemma_av_size_pos(ret@);
            }
            match check(tcs, &bind.ty, against) {
                Result::Err(e) => Result::Err(e),
                Result::Ok((bind_ty, tcs)) => {
                    let mut tcs = tcs;
                    let new = Bind::new(bind.licit, bind.name, bind_ty.ast);
                    let ghost newv = new@;
                    let ghost gamma0 = tcs@.gamma;
                    proof {
                        lemma_binds_v_push(tcs.gamma@, new);
                    }
                    tcs.gamma.push(new);
                    match check(tcs, ret, against) {
                        Result::Err(e) => Result::Err(e),
                        Result::Ok((ret_ty, tcs)) => {
                            let mut tcs = tcs;
                            let ghost oldg = tcs.gamma@;
                            proof {
                                lemma_binds_v(oldg);
                                assert(binds_v(oldg) == gamma0.push(newv));
                                assert((gamma0.push(newv)).drop_last() =~= gamma0);
                                assert(binds_v(oldg) == binds_v(oldg.drop_last()).push(
                                    crate::term::bind_v(oldg.last()),
                                ));
                                assert((binds_v(oldg.drop_last()).push(
                                    crate::term::bind_v(oldg.last()),
                                )).drop_last() =~= binds_v(oldg.drop_last()));
                                assert(binds_v(oldg.drop_last()) == gamma0);
                                assert((binds_v(oldg.drop_last()).push(
                                    crate::term::bind_v(oldg.last()),
                                )).last() == crate::term::bind_v(oldg.last()));
                                assert((gamma0.push(newv)).last() == newv);
                                assert(crate::term::bind_v(oldg.last()) == newv);
                            }
                            let bind_ty = match tcs.gamma.pop() {
                                Option::Some(b) => b,
                                Option::None => {
                                    proof {
                                        assert(false);
                                    }
                                    unreached()
                                }
                            };
                            proof {
                                assert(tcs.gamma@ == oldg.drop_last());
                                assert(binds_v(tcs.gamma@) == gamma0);
                                assert(bind_ty == oldg.last());
                            }
                            let term = Term::pi2(bind_ty.boxed(), Closure::plain(ret_ty.ast));
                            Result::Ok((term.at(*info), tcs))
                        }
                    }
                }
            }
        }
        (expr, anything) => check_fallback(tcs, expr.clone(), anything),
    }
}

/// Checks an abstract term against an expected weak-head value,
/// elaborating it into a located core term.  When tracing is on, the
/// nesting depth is stepped around the call and restored on success;
/// an error aborts with the checking state discarded, as everywhere.
pub fn check(tcs: TCS, input_term: &Abs, against: &Val) -> (r: TermTCM)
    requires
        spec_check_ok(tcs@.gamma, tcs@.sigma, input_term@, against@),
        tcs@.tc_depth + av_size(input_term@) <= usize::MAX,
    ensures
        ({
            let sr = spec_check(tcs@.gamma, tcs@.sigma, input_term@, against@);
            match r {
                Result::Ok((info, tcs2)) => sr matches Result::Ok(iv) && info@ == iv && tcs2@
                    == tcs@,
                Result::Err(e) => sr matches Result::Err(ev) && e@ == ev,
            }
        }),
    decreases av_size(input_term@), 1nat,
{
    proof {
        lemma_av_size_pos(input_term@);
    }
    if !tcs.trace_tc {
        return check_impl(tcs, input_term, against);
    }
    let mut tcs = tcs;
    tcs.tc_deeper();
    match check_impl(tcs, input_term, against) {
        Result::Err(e) => Result::Err(e),
        Result::Ok((a, tcs)) => {
            let mut tcs = tcs;
            tcs.tc_shallower();
            Result::Ok((a, tcs))
        }
    }
}

// ------------------------------------------------------------------
// Eta-variable analysis.
// ------------------------------------------------------------------

/// What the eta-variable analysis decides: after normalizing the term
/// and its type, a neutral variable with an empty spine names that
/// variable; any other shape is unresolved (the type-directed cases are
/// an open completion point).
pub open spec fn spec_is_eta_var(sigma: Seq<DeclV>, term: TermV, ty: TermV) -> Result<
    Option<nat>,
    TCEV,
> {
    match spec_simplify(sigma, term) {
        Result::Err(e) => Result::Err(e),
        Result::Ok(tv) => match spec_simplify(sigma, ty) {
            Result::Err(e) => Result::Err(e),
            Result::Ok(_) => match tv {
                ValV::Var(d, es) => if es.len() == 0 {
                    Result::Ok(Option::Some(d))
                } else {
                    Result::Ok(Option::None)
                },
                _ => Result::Ok(Option::None),
            },
        },
    }
}

pub open spec fn spec_is_eta_var_ok(sigma: Seq<DeclV>, term: TermV, ty: TermV) -> bool {
    spec_simplify_ok(sigma, term) && spec_simplify_ok(sigma, ty)
}

/// Whether the given term of the given type is beta-eta-equal to a bound
/// variable: the variable's index if it is, nothing otherwise.
pub fn is_eta_var(tcs: TCS, term: Term, ty: Term) -> (r: TCMS<Option<DBI>>)
    requires
        spec_is_eta_var_ok(tcs@.sigma, term@, ty@),
    ensures
        ({
            let sr = spec_is_eta_var(tcs@.sigma, term@, ty@);
            match r {
                Result::Ok((o, tcs2)) => sr matches Result::Ok(ov) && tcs2@ == tcs@ && (match o {
                    Option::Some(d) => ov == Option::Some(d as nat),
                    Option::None => ov is None,
                }),
                Result::Err(e) => sr matches Result::Err(ev) && e@ == ev,
            }
        }),
{
    match simplify(tcs, term) {
        Result::Err(e) => Result::Err(e),
        Result::Ok((term, tcs)) => match simplify(tcs, ty) {
            Result::Err(e) => Result::Err(e),
            Result::Ok((_ty, tcs)) => match term {
                Val::Var(dbi, v) => if v.is_empty() {
                    proof {
                        crate::term::lemma_elims_v(v@);
                    }
                    Result::Ok((Option::Some(dbi), tcs))
                } else {
                    proof {
                        crate::term::lemma_elims_v(v@);
                    }
                    Result::Ok((Option::None, tcs))
                },
                _ => {
                    proof {
                        crate::unify::lemma_val_v_variant(term);
                    }
                    Result::Ok((Option::None, tcs))
                }
            },
        },
    }
}

/// A borrowing shortcut of [`is_eta_var`]: a term that already is a bare
/// neutral variable answers at once, without touching the type.
pub fn is_eta_var_borrow(tcs: TCS, term: &Term, ty: &Term) -> (r: TCMS<Option<DBI>>)
    requires
        spec_is_eta_var_borrow_ok(tcs@.sigma, term@, ty@),
    ensures
        ({
            let sr = spec_is_eta_var_borrow(tcs@.sigma, term@, ty@);
            match r {
                Result::Ok((o, tcs2)) => sr matches Result::Ok(ov) && tcs2@ == tcs@ && (match o {
                    Option::Some(d) => ov == Option::Some(d as nat),
                    Option::None => ov is None,
                }),
                Result::Err(e) => sr matches Result::Err(ev) && e@ == ev,
            }
        }),
{
    match term {
        Term::Whnf(Val::Var(dbi, v)) => {
            if v.is_empty() {
                proof {
                    crate::term::lemma_elims_v(v@);
                }
                return Result::Ok((Option::Some(*dbi), tcs));
            }
            proof {
                crate::term::lemma_elims_v(v@);
            }
            is_eta_var(tcs, term.clone(), ty.clone())
        }
        _ => is_eta_var(tcs, term.clone(), ty.clone()),
    }
}

/// Whether a term is a bare neutral variable, applied to nothing.
pub open spec fn tv_is_bare_var(t: TermV) -> bool {
    t matches TermV::Whnf(v) && *v matches ValV::Var(_, es) && es.len() == 0
}

/// What the borrowing shortcut decides: a bare variable answers
/// directly, anything else asks the full analysis.
pub open spec fn spec_is_eta_var_borrow(sigma: Seq<DeclV>, term: TermV, ty: TermV) -> Result<
    Option<nat>,
    TCEV,
> {
    if tv_is_bare_var(term) {
        Result::Ok(Option::Some(term->Whnf_0->Var_0))
    } else {
        spec_is_eta_var(sigma, term, ty)
    }
}

pub open spec fn spec_is_eta_var_borrow_ok(sigma: Seq<DeclV>, term: TermV, ty: TermV) -> bool {
    tv_is_bare_var(term) || spec_is_eta_var_ok(sigma, term, ty)
}

} // verus!
