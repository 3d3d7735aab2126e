//! The conversion check: structural equality of weak-head values up to
//! normalization, with universe levels compared by subsumption at the
//! top.

use vstd::prelude::*;

use crate::decl::DeclV;
use crate::monad::{TCEV, TCM, TCS, TCE};
use crate::term::{
    elims_v, ev_size, evs_size, lemma_elims_v, lemma_evs_size_drop_first, lemma_terms_v,
    lemma_tv_size_pos, lemma_tvs_size_drop_first, lemma_tvs_size_elem, terms_v, tv_size,
    tvs_size, vv_size, Closure, Elim, ElimV, Term, TermV, Val, ValV,
};
use crate::whnf::{lemma_simplify_size, simplify, spec_simplify, spec_simplify_ok};

verus! {

// ------------------------------------------------------------------
// The inputs on which the conversion check is defined.
// ------------------------------------------------------------------

/// A term the conversion check can normalize without hitting an open
/// completion point, whose weak-head form is again safe.
pub open spec fn tv_unify_safe(sigma: Seq<DeclV>, t: TermV) -> bool
    decreases tv_size(t), 1nat,
    via tv_unify_safe_dec
{
    spec_simplify_ok(sigma, t) && match spec_simplify(sigma, t) {
        Result::Ok(v) => vv_unify_safe(sigma, v),
        Result::Err(_) => true,
    }
}

/// A weak-head value all of whose components the conversion check can
/// recurse into.
pub open spec fn vv_unify_safe(sigma: Seq<DeclV>, v: ValV) -> bool
    decreases vv_size(v), 0nat,
{
    match v {
        ValV::Type(_) => true,
        ValV::Pi(b, c) => tv_unify_safe(sigma, *b.ty) && tv_unify_safe(sigma, *c->Plain_0),
        ValV::Cons(_, ts) => tvs_unify_safe(sigma, ts),
        ValV::Data(_, _, ts) => tvs_unify_safe(sigma, ts),
        ValV::Meta(_, es) => evs_unify_safe(sigma, es),
        ValV::Var(_, es) => evs_unify_safe(sigma, es),
        ValV::Axiom(_) => true,
        ValV::Refl => true,
        ValV::Id(t, a, b) => tv_unify_safe(sigma, *t) && tv_unify_safe(sigma, *a)
            && tv_unify_safe(sigma, *b),
    }
}

#[via_fn]
proof fn tv_unify_safe_dec(sigma: Seq<DeclV>, t: TermV) {
    if spec_simplify_ok(sigma, t) {
        lemma_simplify_size(sigma, t);
    }
}

pub open spec fn tvs_unify_safe(sigma: Seq<DeclV>, ts: Seq<TermV>) -> bool
    decreases tvs_size(ts), 2nat,
    via tvs_unify_safe_dec
{
    ts.len() == 0 || (tvs_unify_safe(sigma, ts.drop_last()) && tv_unify_safe(sigma, ts.last()))
}

#[via_fn]
proof fn tvs_unify_safe_dec(sigma: Seq<DeclV>, ts: Seq<TermV>) {
    if ts.len() > 0 {
        lemma_tv_size_pos(ts.last());
    }
}

pub open spec fn evs_unify_safe(sigma: Seq<DeclV>, es: Seq<ElimV>) -> bool
    decreases evs_size(es), 2nat,
    via evs_unify_safe_dec
{
    es.len() == 0 || (evs_unify_safe(sigma, es.drop_last()) && match es.last() {
        ElimV::App(t) => tv_unify_safe(sigma, *t),
        ElimV::Proj(_) => true,
    })
}

#[via_fn]
proof fn evs_unify_safe_dec(sigma: Seq<DeclV>, es: Seq<ElimV>) {
    if es.len() > 0 {
        crate::term::lemma_ev_size_pos(es.last());
    }
}

pub proof fn lemma_tvs_unify_safe_elem(sigma: Seq<DeclV>, ts: Seq<TermV>)
    ensures
        tvs_unify_safe(sigma, ts) ==> forall|i: int| 0 <= i < ts.len() ==> tv_unify_safe(
            sigma,
            #[trigger] ts[i],
        ),
    decreases ts,
{
    if ts.len() > 0 {
        lemma_tvs_unify_safe_elem(sigma, ts.drop_last());
        if tvs_unify_safe(sigma, ts) {
            assert forall|i: int| 0 <= i < ts.len() implies tv_unify_safe(
                sigma,
                #[trigger] ts[i],
            ) by {
                if i < ts.len() - 1 {
                    assert(ts.drop_last()[i] == ts[i]);
                    assert(tv_unify_safe(sigma, ts.drop_last()[i]));
                }
            }
        }
    }
}

pub proof fn lemma_evs_unify_safe_elem(sigma: Seq<DeclV>, es: Seq<ElimV>)
    ensures
        evs_unify_safe(sigma, es) ==> forall|i: int| 0 <= i < es.len() ==> (match #[trigger] es[i] {
            ElimV::App(t) => tv_unify_safe(sigma, *t),
            ElimV::Proj(_) => true,
        }),
    decreases es,
{
    if es.len() > 0 {
        lemma_evs_unify_safe_elem(sigma, es.drop_last());
        if evs_unify_safe(sigma, es) {
            assert forall|i: int| 0 <= i < es.len() implies (match #[trigger] es[i] {
                ElimV::App(t) => tv_unify_safe(sigma, *t),
                ElimV::Proj(_) => true,
            }) by {
                if i < es.len() - 1 {
                    assert(es.drop_last()[i] == es[i]);
                }
            }
        }
    }
}

// ------------------------------------------------------------------
// What the conversion check decides.
// ------------------------------------------------------------------

/// The error for two values conversion cannot identify.
pub open spec fn conv_err(a: ValV, b: ValV) -> TCEV {
    TCEV::DifferentTerm(
        Box::new(TermV::Whnf(Box::new(a))),
        Box::new(TermV::Whnf(Box::new(b))),
    )
}

/// Conversion of two weak-head values: structural equality, component by
/// component.
pub open spec fn spec_unify_val(sigma: Seq<DeclV>, a: ValV, b: ValV) -> Result<(), TCEV>
    decreases vv_size(a), 0nat,
{
    match (a, b) {
        (ValV::Type(l), ValV::Type(u)) => if l == u {
            Result::Ok(())
        } else {
            Result::Err(conv_err(a, b))
        },
        (ValV::Pi(b1, c1), ValV::Pi(b2, c2)) => if b1.licit == b2.licit {
            match spec_unify_term(sigma, *b1.ty, *b2.ty) {
                Result::Ok(_) => spec_unify_term(sigma, *c1->Plain_0, *c2->Plain_0),
                Result::Err(e) => Result::Err(e),
            }
        } else {
            Result::Err(conv_err(a, b))
        },
        (ValV::Cons(h1, ts1), ValV::Cons(h2, ts2)) => if h1.cons_gi == h2.cons_gi && ts1.len()
            == ts2.len() {
            spec_unify_terms(sigma, ts1, ts2)
        } else {
            Result::Err(conv_err(a, b))
        },
        (ValV::Data(k1, g1, ts1), ValV::Data(k2, g2, ts2)) => if k1 == k2 && g1 == g2
            && ts1.len() == ts2.len() {
            spec_unify_terms(sigma, ts1, ts2)
        } else {
            Result::Err(conv_err(a, b))
        },
        (ValV::Meta(m1, es1), ValV::Meta(m2, es2)) => if m1 == m2 && es1.len() == es2.len() {
            spec_unify_elims(sigma, a, b, es1, es2)
        } else {
            Result::Err(conv_err(a, b))
        },
        (ValV::Var(d1, es1), ValV::Var(d2, es2)) => if d1 == d2 && es1.len() == es2.len() {
            spec_unify_elims(sigma, a, b, es1, es2)
        } else {
            Result::Err(conv_err(a, b))
        },
        (ValV::Axiom(u1), ValV::Axiom(u2)) => if u1 == u2 {
            Result::Ok(())
        } else {
            Result::Err(conv_err(a, b))
        },
        (ValV::Refl, ValV::Refl) => Result::Ok(()),
        (ValV::Id(t1, a1, b1), ValV::Id(t2, a2, b2)) => match spec_unify_term(
            sigma,
            *t1,
            *t2,
        ) {
            Result::Ok(_) => match spec_unify_term(sigma, *a1, *a2) {
                Result::Ok(_) => spec_unify_term(sigma, *b1, *b2),
                Result::Err(e) => Result::Err(e),
            },
            Result::Err(e) => Result::Err(e),
        },
        _ => Result::Err(conv_err(a, b)),
    }
}

/// Conversion of two terms: normalize both to weak-head form, then
/// compare; a normalization error aborts, the left side first.
pub open spec fn spec_unify_term(sigma: Seq<DeclV>, x: TermV, y: TermV) -> Result<(), TCEV>
    decreases tv_size(x), 1nat,
    via spec_unify_term_dec
{
    if !spec_simplify_ok(sigma, x) {
        arbitrary()
    } else {
        match spec_simplify(sigma, x) {
            Result::Err(e) => Result::Err(e),
            Result::Ok(va) => match spec_simplify(sigma, y) {
                Result::Err(e) => Result::Err(e),
                Result::Ok(vb) => spec_unify_val(sigma, va, vb),
            },
        }
    }
}

#[via_fn]
proof fn spec_unify_term_dec(sigma: Seq<DeclV>, x: TermV, y: TermV) {
    if spec_simplify_ok(sigma, x) {
        lemma_simplify_size(sigma, x);
    }
    lemma_tv_size_pos(x);
}

/// Pairwise conversion of two equally long argument lists, left to
/// right.
pub open spec fn spec_unify_terms(sigma: Seq<DeclV>, ts1: Seq<TermV>, ts2: Seq<TermV>) -> Result<
    (),
    TCEV,
>
    decreases tvs_size(ts1), 2nat,
    via spec_unify_terms_dec
{
    if ts1.len() == 0 {
        Result::Ok(())
    } else {
        match spec_unify_term(sigma, ts1.first(), ts2.first()) {
            Result::Ok(_) => spec_unify_terms(sigma, ts1.drop_first(), ts2.drop_first()),
            Result::Err(e) => Result::Err(e),
        }
    }
}

#[via_fn]
proof fn spec_unify_terms_dec(sigma: Seq<DeclV>, ts1: Seq<TermV>, ts2: Seq<TermV>) {
    if ts1.len() > 0 {
        lemma_tvs_size_drop_first(ts1);
        lemma_tv_size_pos(ts1.first());
    }
}

/// Pairwise conversion of two equally long elimination spines: applied
/// arguments are converted, projections must name the same field; a
/// shape mismatch reports the two parent values.
pub open spec fn spec_unify_elims(
    sigma: Seq<DeclV>,
    pa: ValV,
    pb: ValV,
    es1: Seq<ElimV>,
    es2: Seq<ElimV>,
) -> Result<(), TCEV>
    decreases evs_size(es1), 2nat,
    via spec_unify_elims_dec
{
    if es1.len() == 0 {
        Result::Ok(())
    } else {
        match (es1.first(), es2.first()) {
            (ElimV::App(t1), ElimV::App(t2)) => match spec_unify_term(sigma, *t1, *t2) {
                Result::Ok(_) => spec_unify_elims(
                    sigma,
                    pa,
                    pb,
                    es1.drop_first(),
                    es2.drop_first(),
                ),
                Result::Err(e) => Result::Err(e),
            },
            (ElimV::Proj(p1), ElimV::Proj(p2)) => if p1 == p2 {
                spec_unify_elims(sigma, pa, pb, es1.drop_first(), es2.drop_first())
            } else {
                Result::Err(conv_err(pa, pb))
            },
            _ => Result::Err(conv_err(pa, pb)),
        }
    }
}

#[via_fn]
proof fn spec_unify_elims_dec(
    sigma: Seq<DeclV>,
    pa: ValV,
    pb: ValV,
    es1: Seq<ElimV>,
    es2: Seq<ElimV>,
) {
    if es1.len() > 0 {
        lemma_evs_size_drop_first(es1);
        crate::term::lemma_ev_size_pos(es1.first());
    }
}

/// The subsumption check: universe levels compare by order at the top;
/// everything else is conversion.
pub open spec fn spec_subtype(sigma: Seq<DeclV>, lower: ValV, upper: ValV) -> Result<(), TCEV> {
    match (lower, upper) {
        (ValV::Type(l), ValV::Type(u)) => if l <= u {
            Result::Ok(())
        } else {
            Result::Err(conv_err(lower, upper))
        },
        _ => spec_unify_val(sigma, lower, upper),
    }
}

/// A value's image is in each variant exactly when the value is.
pub proof fn lemma_val_v_variant(v: Val)
    ensures
        (crate::term::val_v(v) is Type) <==> (v is Type),
        (crate::term::val_v(v) is Pi) <==> (v is Pi),
        (crate::term::val_v(v) is Cons) <==> (v is Cons),
        (crate::term::val_v(v) is Data) <==> (v is Data),
        (crate::term::val_v(v) is Meta) <==> (v is Meta),
        (crate::term::val_v(v) is Var) <==> (v is Var),
        (crate::term::val_v(v) is Axiom) <==> (v is Axiom),
        (crate::term::val_v(v) is Refl) <==> (v is Refl),
        (crate::term::val_v(v) is Id) <==> (v is Id),
{
}

// ------------------------------------------------------------------
// Executable conversion.
// ------------------------------------------------------------------

/// The error the checker reports for the two values.
fn different(a: &Val, b: &Val) -> (r: TCE)
    ensures
        r@ == conv_err(a@, b@),
{
    TCE::DifferentTerm(
        Box::new(Term::Whnf(a.clone())),
        Box::new(Term::Whnf(b.clone())),
    )
}

/// Converts two terms: weak-head normalizes both sides, then compares
/// them structurally.  The state rides along untouched.
fn unify_term(tcs: TCS, x: Term, y: Term) -> (r: TCM<TCS>)
    requires
        tv_unify_safe(tcs@.sigma, x@),
        tv_unify_safe(tcs@.sigma, y@),
    ensures
        ({
            let sr = spec_unify_term(tcs@.sigma, x@, y@);
            match r {
                Result::Ok(tcs2) => sr is Ok && tcs2@ == tcs@,
                Result::Err(e) => sr matches Result::Err(ev) && e@ == ev,
            }
        }),
    decreases tv_size(x@), 1nat,
{
    let ghost sigma = tcs@.sigma;
    let ghost xv = x@;
    match simplify(tcs, x) {
        Result::Err(e) => Result::Err(e),
        Result::Ok((va, tcs)) => match simplify(tcs, y) {
            Result::Err(e) => Result::Err(e),
            Result::Ok((vb, tcs)) => {
                proof {
                    lemma_simplify_size(sigma, xv);
                }
                unify_val(tcs, &va, &vb)
            }
        },
    }
}

/// Converts two weak-head values structurally, component by component.
fn unify_val(tcs: TCS, a: &Val, b: &Val) -> (r: TCM<TCS>)
    requires
        vv_unify_safe(tcs@.sigma, a@),
        vv_unify_safe(tcs@.sigma, b@),
    ensures
        ({
            let sr = spec_unify_val(tcs@.sigma, a@, b@);
            match r {
                Result::Ok(tcs2) => sr is Ok && tcs2@ == tcs@,
                Result::Err(e) => sr matches Result::Err(ev) && e@ == ev,
            }
        }),
    decreases vv_size(a@), 0nat,
{
    proof {
        lemma_val_v_variant(*a);
        lemma_val_v_variant(*b);
    }
    match (a, b) {
        (Val::Type(l), Val::Type(u)) => if *l == *u {
            Result::Ok(tcs)
        } else {
            Result::Err(different(a, b))
        },
        (Val::Pi(b1, c1), Val::Pi(b2, c2)) => {
            let licit_eq = match (b1.licit, b2.licit) {
                (crate::common::Plicit::Ex, crate::common::Plicit::Ex) => true,
                (crate::common::Plicit::Im, crate::common::Plicit::Im) => true,
                _ => false,
            };
            if licit_eq {
                match unify_term(tcs, b1.ty.clone(), b2.ty.clone()) {
                    Result::Ok(tcs) => {
                        let (Closure::Plain(t1), Closure::Plain(t2)) = (c1, c2);
                        unify_term(tcs, (**t1).clone(), (**t2).clone())
                    }
                    Result::Err(e) => Result::Err(e),
                }
            } else {
                Result::Err(different(a, b))
            }
        }
        (Val::Cons(h1, ts1), Val::Cons(h2, ts2)) => {
            proof {
                lemma_terms_v(ts1@);
                lemma_terms_v(ts2@);
            }
            if h1.cons_gi == h2.cons_gi && ts1.len() == ts2.len() {
                unify_terms(tcs, ts1, ts2)
            } else {
                Result::Err(different(a, b))
            }
        }
        (Val::Data(k1, g1, ts1), Val::Data(k2, g2, ts2)) => {
            let kind_eq = match (k1, k2) {
                (crate::common::Ductive::In, crate::common::Ductive::In) => true,
                (crate::common::Ductive::Coin, crate::common::Ductive::Coin) => true,
                _ => false,
            };
            proof {
                lemma_terms_v(ts1@);
                lemma_terms_v(ts2@);
            }
            if kind_eq && *g1 == *g2 && ts1.len() == ts2.len() {
                unify_terms(tcs, ts1, ts2)
            } else {
                Result::Err(different(a, b))
            }
        }
        (Val::Meta(m1, es1), Val::Meta(m2, es2)) => {
            proof {
                lemma_elims_v(es1@);
                lemma_elims_v(es2@);
            }
            if *m1 == *m2 && es1.len() == es2.len() {
                unify_elims(tcs, a, b, es1, es2)
            } else {
                Result::Err(different(a, b))
            }
        }
        (Val::Var(d1, es1), Val::Var(d2, es2)) => {
            proof {
                lemma_elims_v(es1@);
                lemma_elims_v(es2@);
            }
            if *d1 == *d2 && es1.len() == es2.len() {
                unify_elims(tcs, a, b, es1, es2)
            } else {
                Result::Err(different(a, b))
            }
        }
        (Val::Axiom(u1), Val::Axiom(u2)) => if *u1 == *u2 {
            Result::Ok(tcs)
        } else {
            Result::Err(different(a, b))
        },
        (Val::Refl, Val::Refl) => Result::Ok(tcs),
        (Val::Id(t1, a1, b1), Val::Id(t2, a2, b2)) => match unify_term(
            tcs,
            (**t1).clone(),
            (**t2).clone(),
        ) {
            Result::Ok(tcs) => match unify_term(tcs, (**a1).clone(), (**a2).clone()) {
                Result::Ok(tcs) => unify_term(tcs, (**b1).clone(), (**b2).clone()),
                Result::Err(e) => Result::Err(e),
            },
            Result::Err(e) => Result::Err(e),
        },
        _ => Result::Err(different(a, b)),
    }
}

/// Converts two equally long argument lists pairwise, left to right.
#[verifier::loop_isolation(false)]
fn unify_terms(tcs: TCS, ts1: &Vec<Term>, ts2: &Vec<Term>) -> (r: TCM<TCS>)
    requires
        ts1@.len() == ts2@.len(),
        tvs_unify_safe(tcs@.sigma, terms_v(ts1@)),
        tvs_unify_safe(tcs@.sigma, terms_v(ts2@)),
    ensures
        r is Ok ==> spec_unify_terms(tcs@.sigma, terms_v(ts1@), terms_v(ts2@)) is Ok
            && r->Ok_0@ == tcs@,
        r is Err ==> spec_unify_terms(tcs@.sigma, terms_v(ts1@), terms_v(ts2@))
            == Result::<(), TCEV>::Err(r->Err_0@),
    decreases tvs_size(terms_v(ts1@)), 2nat,
{
    let ghost sigma = tcs@.sigma;
    let ghost tv1 = terms_v(ts1@);
    let ghost tv2 = terms_v(ts2@);
    proof {
        lemma_terms_v(ts1@);
        lemma_terms_v(ts2@);
        lemma_tvs_unify_safe_elem(sigma, tv1);
        lemma_tvs_unify_safe_elem(sigma, tv2);
    }
    let mut tcs = tcs;
    let ghost tcs0 = tcs@;
    let mut i: usize = 0;
    proof {
        assert(tv1.skip(0) =~= tv1);
        assert(tv2.skip(0) =~= tv2);
    }
    while i < ts1.len()
        invariant
            i <= ts1.len(),
            ts1@.len() == ts2@.len(),
            tv1 == terms_v(ts1@),
            tv2 == terms_v(ts2@),
            tv1.len() == ts1@.len(),
            tv2.len() == ts2@.len(),
            forall|j: int| 0 <= j < ts1@.len() ==> tv1[j] == ts1@[j]@,
            forall|j: int| 0 <= j < ts2@.len() ==> tv2[j] == ts2@[j]@,
            forall|j: int| 0 <= j < tv1.len() ==> tv_unify_safe(sigma, #[trigger] tv1[j]),
            forall|j: int| 0 <= j < tv2.len() ==> tv_unify_safe(sigma, #[trigger] tv2[j]),
            tcs@ == tcs0,
            tcs@.sigma == sigma,
            spec_unify_terms(sigma, tv1, tv2) == spec_unify_terms(
                sigma,
                tv1.skip(i as int),
                tv2.skip(i as int),
            ),
        decreases ts1@.len() - i,
    {
        proof {
            lemma_tvs_size_elem(tv1, i as int);
            assert(tv1.skip(i as int).first() == tv1[i as int]);
            assert(tv2.skip(i as int).first() == tv2[i as int]);
        }
        match unify_term(tcs, ts1[i].clone(), ts2[i].clone()) {
            Result::Ok(tcs2) => {
                proof {
                    assert(tv1.skip(i as int).drop_first() =~= tv1.skip(i as int + 1));
                    assert(tv2.skip(i as int).drop_first() =~= tv2.skip(i as int + 1));
                }
                tcs = tcs2;
            }
            Result::Err(e) => {
                return Result::Err(e);
            }
        }
        i = i + 1;
    }
    proof {
        assert(tv1.skip(i as int) =~= Seq::<TermV>::empty());
    }
    Result::Ok(tcs)
}

/// Converts two equally long elimination spines pairwise; `pa` and `pb`
/// are the neutral values the spines hang off, named in the error when
/// the spines' shapes differ.
#[verifier::loop_isolation(false)]
fn unify_elims(tcs: TCS, pa: &Val, pb: &Val, es1: &Vec<Elim>, es2: &Vec<Elim>) -> (r: TCM<TCS>)
    requires
        es1@.len() == es2@.len(),
        evs_unify_safe(tcs@.sigma, elims_v(es1@)),
        evs_unify_safe(tcs@.sigma, elims_v(es2@)),
    ensures
        ({
            let sr = spec_unify_elims(tcs@.sigma, pa@, pb@, elims_v(es1@), elims_v(es2@));
            match r {
                Result::Ok(tcs2) => sr is Ok && tcs2@ == tcs@,
                Result::Err(e) => sr matches Result::Err(ev) && e@ == ev,
            }
        }),
    decreases evs_size(elims_v(es1@)), 2nat,
{
    let ghost sigma = tcs@.sigma;
    let ghost ev1 = elims_v(es1@);
    let ghost ev2 = elims_v(es2@);
    proof {
        lemma_elims_v(es1@);
        lemma_elims_v(es2@);
        lemma_evs_unify_safe_elem(sigma, ev1);
        lemma_evs_unify_safe_elem(sigma, ev2);
    }
    let mut tcs = tcs;
    let ghost tcs0 = tcs@;
    let mut i: usize = 0;
    proof {
        assert(ev1.skip(0) =~= ev1);
        assert(ev2.skip(0) =~= ev2);
    }
    while i < es1.len()
        invariant
            i <= es1.len(),
            es1@.len() == es2@.len(),
            ev1 == elims_v(es1@),
            ev2 == elims_v(es2@),
            ev1.len() == es1@.len(),
            ev2.len() == es2@.len(),
            forall|j: int| 0 <= j < es1@.len() ==> ev1[j] == es1@[j]@,
            forall|j: int| 0 <= j < es2@.len() ==> ev2[j] == es2@[j]@,
            forall|j: int| 0 <= j < ev1.len() ==> (match #[trigger] ev1[j] {
                ElimV::App(t) => tv_unify_safe(sigma, *t),
                ElimV::Proj(_) => true,
            }),
            forall|j: int| 0 <= j < ev2.len() ==> (match #[trigger] ev2[j] {
                ElimV::App(t) => tv_unify_safe(sigma, *t),
                ElimV::Proj(_) => true,
            }),
            tcs@ == tcs0,
            tcs@.sigma == sigma,
            spec_unify_elims(sigma, pa@, pb@, ev1, ev2) == spec_unify_elims(
                sigma,
                pa@,
                pb@,
                ev1.skip(i as int),
                ev2.skip(i as int),
            ),
        decreases es1@.len() - i,
    {
        proof {
            crate::term::lemma_evs_size_elem(ev1, i as int);
            assert(ev1.skip(i as int).first() == ev1[i as int]);
            assert(ev2.skip(i as int).first() == ev2[i as int]);
        }
        match (&es1[i], &es2[i]) {
            (Elim::App(t1), Elim::App(t2)) => {
                match unify_term(tcs, (**t1).clone(), (**t2).clone()) {
                    Result::Ok(tcs2) => {
                        proof {
                            assert(ev1.skip(i as int).drop_first() =~= ev1.skip(i as int + 1));
                            assert(ev2.skip(i as int).drop_first() =~= ev2.skip(i as int + 1));
                        }
                        tcs = tcs2;
                    }
                    Result::Err(e) => {
                        return Result::Err(e);
                    }
                }
            }
            (Elim::Proj(p1), Elim::Proj(p2)) => {
                if *p1 == *p2 {
                    proof {
                        assert(ev1.skip(i as int).drop_first() =~= ev1.skip(i as int + 1));
                        assert(ev2.skip(i as int).drop_first() =~= ev2.skip(i as int + 1));
                    }
                } else {
                    return Result::Err(different(pa, pb));
                }
            }
            (Elim::App(_), Elim::Proj(_)) => {
                return Result::Err(different(pa, pb));
            }
            (Elim::Proj(_), Elim::App(_)) => {
                return Result::Err(different(pa, pb));
            }
        }
        i = i + 1;
    }
    proof {
        assert(ev1.skip(i as int) =~= Seq::<ElimV>::empty());
    }
    Result::Ok(tcs)
}

/// The conversion/subsumption check between two weak-head values: on
/// success the state comes back untouched; on failure the error says
/// which two values could not be identified.  Two equal safe values
/// always succeed (reflexivity: [`lemma_subtype_refl`]).
pub fn subtype(tcs: TCS, lower: &Val, upper: &Val) -> (r: TCM<TCS>)
    requires
        vv_unify_safe(tcs@.sigma, lower@),
        vv_unify_safe(tcs@.sigma, upper@),
    ensures
        ({
            let sr = spec_subtype(tcs@.sigma, lower@, upper@);
            match r {
                Result::Ok(tcs2) => sr is Ok && tcs2@ == tcs@,
                Result::Err(e) => sr matches Result::Err(ev) && e@ == ev,
            }
        }),
{
    proof {
        lemma_val_v_variant(*lower);
        lemma_val_v_variant(*upper);
    }
    match (lower, upper) {
        (Val::Type(l), Val::Type(u)) => if *l <= *u {
            Result::Ok(tcs)
        } else {
            Result::Err(different(lower, upper))
        },
        _ => unify_val(tcs, lower, upper),
    }
}

// ------------------------------------------------------------------
// Reflexivity of conversion.
// ------------------------------------------------------------------

/// A term that normalizes all the way down: its weak-head form exists
/// and its components normalize in turn.  This is the well-typedness
/// residue the conversion laws rest on.
pub open spec fn tv_conv_safe(sigma: Seq<DeclV>, t: TermV) -> bool
    decreases tv_size(t), 1nat,
    via tv_conv_safe_dec
{
    spec_simplify_ok(sigma, t) && match spec_simplify(sigma, t) {
        Result::Ok(v) => vv_conv_safe(sigma, v),
        Result::Err(_) => false,
    }
}

/// A weak-head value all of whose components normalize.
pub open spec fn vv_conv_safe(sigma: Seq<DeclV>, v: ValV) -> bool
    decreases vv_size(v), 0nat,
{
    match v {
        ValV::Type(_) => true,
        ValV::Pi(b, c) => tv_conv_safe(sigma, *b.ty) && tv_conv_safe(sigma, *c->Plain_0),
        ValV::Cons(_, ts) => tvs_conv_safe(sigma, ts),
        ValV::Data(_, _, ts) => tvs_conv_safe(sigma, ts),
        ValV::Meta(_, es) => evs_conv_safe(sigma, es),
        ValV::Var(_, es) => evs_conv_safe(sigma, es),
        ValV::Axiom(_) => true,
        ValV::Refl => true,
        ValV::Id(t, a, b) => tv_conv_safe(sigma, *t) && tv_conv_safe(sigma, *a)
            && tv_conv_safe(sigma, *b),
    }
}

#[via_fn]
proof fn tv_conv_safe_dec(sigma: Seq<DeclV>, t: TermV) {
    if spec_simplify_ok(sigma, t) {
        lemma_simplify_size(sigma, t);
    }
}

pub open spec fn tvs_conv_safe(sigma: Seq<DeclV>, ts: Seq<TermV>) -> bool
    decreases tvs_size(ts), 2nat,
    via tvs_conv_safe_dec
{
    ts.len() == 0 || (tvs_conv_safe(sigma, ts.drop_last()) && tv_conv_safe(sigma, ts.last()))
}

#[via_fn]
proof fn tvs_conv_safe_dec(sigma: Seq<DeclV>, ts: Seq<TermV>) {
    if ts.len() > 0 {
        lemma_tv_size_pos(ts.last());
    }
}

pub open spec fn evs_conv_safe(sigma: Seq<DeclV>, es: Seq<ElimV>) -> bool
    decreases evs_size(es), 2nat,
    via evs_conv_safe_dec
{
    es.len() == 0 || (evs_conv_safe(sigma, es.drop_last()) && match es.last() {
        ElimV::App(t) => tv_conv_safe(sigma, *t),
        ElimV::Proj(_) => true,
    })
}

#[via_fn]
proof fn evs_conv_safe_dec(sigma: Seq<DeclV>, es: Seq<ElimV>) {
    if es.len() > 0 {
        crate::term::lemma_ev_size_pos(es.last());
    }
}

/// The sequence safety predicates say exactly that every element is
/// safe.
pub proof fn lemma_tvs_conv_safe_iff(sigma: Seq<DeclV>, ts: Seq<TermV>)
    ensures
        tvs_conv_safe(sigma, ts) <==> (forall|i: int| 0 <= i < ts.len() ==> tv_conv_safe(
            sigma,
            #[trigger] ts[i],
        )),
    decreases ts,
{
    if ts.len() > 0 {
        lemma_tvs_conv_safe_iff(sigma, ts.drop_last());
        assert(forall|i: int| 0 <= i < ts.len() - 1 ==> ts.drop_last()[i] == ts[i]);
        if forall|i: int| 0 <= i < ts.len() ==> tv_conv_safe(sigma, #[trigger] ts[i]) {
            assert forall|i: int| 0 <= i < ts.drop_last().len() implies tv_conv_safe(
                sigma,
                #[trigger] ts.drop_last()[i],
            ) by {
                assert(ts.drop_last()[i] == ts[i]);
            }
        }
        if tvs_conv_safe(sigma, ts) {
            assert forall|i: int| 0 <= i < ts.len() implies tv_conv_safe(
                sigma,
                #[trigger] ts[i],
            ) by {
                if i < ts.len() - 1 {
                    assert(ts[i] == ts.drop_last()[i]);
                }
            }
        }
    }
}

pub proof fn lemma_evs_conv_safe_iff(sigma: Seq<DeclV>, es: Seq<ElimV>)
    ensures
        evs_conv_safe(sigma, es) <==> (forall|i: int| 0 <= i < es.len() ==> (
        match #[trigger] es[i] {
            ElimV::App(t) => tv_conv_safe(sigma, *t),
            ElimV::Proj(_) => true,
        })),
    decreases es,
{
    if es.len() > 0 {
        lemma_evs_conv_safe_iff(sigma, es.drop_last());
        assert(forall|i: int| 0 <= i < es.len() - 1 ==> es.drop_last()[i] == es[i]);
        if forall|i: int| 0 <= i < es.len() ==> (match #[trigger] es[i] {
            ElimV::App(t) => tv_conv_safe(sigma, *t),
            ElimV::Proj(_) => true,
        }) {
            assert forall|i: int| 0 <= i < es.drop_last().len() implies (
            match #[trigger] es.drop_last()[i] {
                ElimV::App(t) => tv_conv_safe(sigma, *t),
                ElimV::Proj(_) => true,
            }) by {
                assert(es.drop_last()[i] == es[i]);
            }
        }
        if evs_conv_safe(sigma, es) {
            assert forall|i: int| 0 <= i < es.len() implies (match #[trigger] es[i] {
                ElimV::App(t) => tv_conv_safe(sigma, *t),
                ElimV::Proj(_) => true,
            }) by {
                if i < es.len() - 1 {
                    assert(es[i] == es.drop_last()[i]);
                }
            }
        }
    }
}

/// Conversion is reflexive on terms that normalize.
pub proof fn lemma_unify_term_refl(sigma: Seq<DeclV>, t: TermV)
    requires
        tv_conv_safe(sigma, t),
    ensures
        spec_unify_term(sigma, t, t) is Ok,
    decreases tv_size(t), 1nat,
{
    lemma_simplify_size(sigma, t);
    let v = spec_simplify(sigma, t)->Ok_0;
    lemma_unify_val_refl(sigma, v);
}

/// Conversion is reflexive on weak-head values whose components
/// normalize.
pub proof fn lemma_unify_val_refl(sigma: Seq<DeclV>, v: ValV)
    requires
        vv_conv_safe(sigma, v),
    ensures
        spec_unify_val(sigma, v, v) is Ok,
    decreases vv_size(v), 0nat,
{
    match v {
        ValV::Type(_) => {}
        ValV::Pi(b, c) => {
            lemma_unify_term_refl(sigma, *b.ty);
            lemma_unify_term_refl(sigma, *c->Plain_0);
        }
        ValV::Cons(_, ts) => {
            lemma_unify_terms_refl(sigma, ts);
        }
        ValV::Data(_, _, ts) => {
            lemma_unify_terms_refl(sigma, ts);
        }
        ValV::Meta(_, es) => {
            lemma_unify_elims_refl(sigma, v, v, es);
        }
        ValV::Var(_, es) => {
            lemma_unify_elims_refl(sigma, v, v, es);
        }
        ValV::Axiom(_) => {}
        ValV::Refl => {}
        ValV::Id(t, a, b) => {
            lemma_unify_term_refl(sigma, *t);
            lemma_unify_term_refl(sigma, *a);
            lemma_unify_term_refl(sigma, *b);
        }
    }
}

/// Pairwise conversion of a list against itself succeeds.
pub proof fn lemma_unify_terms_refl(sigma: Seq<DeclV>, ts: Seq<TermV>)
    requires
        tvs_conv_safe(sigma, ts),
    ensures
        spec_unify_terms(sigma, ts, ts) is Ok,
    decreases tvs_size(ts), 2nat,
{
    if ts.len() > 0 {
        lemma_tvs_size_drop_first(ts);
        lemma_tv_size_pos(ts.first());
        lemma_tvs_conv_safe_iff(sigma, ts);
        lemma_unify_term_refl(sigma, ts.first());
        lemma_tvs_conv_safe_iff(sigma, ts.drop_first());
        assert(forall|i: int| 0 <= i < ts.drop_first().len() ==> ts.drop_first()[i] == ts[i
            + 1]);
        lemma_unify_terms_refl(sigma, ts.drop_first());
    }
}

/// Pairwise conversion of a spine against itself succeeds.
pub proof fn lemma_unify_elims_refl(sigma: Seq<DeclV>, pa: ValV, pb: ValV, es: Seq<ElimV>)
    requires
        evs_conv_safe(sigma, es),
    ensures
        spec_unify_elims(sigma, pa, pb, es, es) is Ok,
    decreases evs_size(es), 2nat,
{
    if es.len() > 0 {
        lemma_evs_size_drop_first(es);
        crate::term::lemma_ev_size_pos(es.first());
        lemma_evs_conv_safe_iff(sigma, es);
        match es.first() {
            ElimV::App(t) => {
                lemma_unify_term_refl(sigma, *t);
            }
            ElimV::Proj(_) => {}
        }
        lemma_evs_conv_safe_iff(sigma, es.drop_first());
        assert(forall|i: int| 0 <= i < es.drop_first().len() ==> es.drop_first()[i] == es[i
            + 1]);
        lemma_unify_elims_refl(sigma, pa, pb, es.drop_first());
    }
}

/// The conversion check is reflexive: any well-formed, normalizing
/// weak-head value is a subtype of itself.
pub proof fn lemma_subtype_refl(sigma: Seq<DeclV>, v: ValV)
    requires
        vv_conv_safe(sigma, v),
    ensures
        spec_subtype(sigma, v, v) is Ok,
{
    lemma_unify_val_refl(sigma, v);
}

} // verus!
