//! The explicit-substitution calculus.
//!
//! [`PrimSubst`] is a persistent, structurally shared tree of substitution
//! steps; tails are shared through `Rc`, never deep-copied.  The spec
//! functions `sv_*` and `tv_*`/`vv_*` here are the mathematical account of
//! the whole calculus — lookup, weakening, lifting, dropping, composition,
//! and applying a substitution to a term — and every executable operation
//! is proved to return exactly what its mirror says.  The `*_ok`
//! predicates delimit the inputs on which the calculus is defined: they
//! exclude the invariant violations (a lift by zero, strengthening a
//! variable that must be absent) and indices that no longer fit the
//! machine word.  Re-shifting a looked-up term is realized as the
//! structural shift `sh_*`, proved equal to applying a lifted raising
//! ([`lemma_reduce_raise`]); substitution descends into a closure body
//! lifted by one, so bound variables are never touched.

use std::rc::Rc;

use vstd::prelude::*;

use crate::common::DBI;
use crate::term::{
    bv_size, clv_size, elims_v, ev_size, evs_size, term_v, terms_v, tv_apply_elim,
    tv_apply_elim_ok, tv_size, tvs_size, vv_size, Bind, BindV, Closure, ClosureV, Elim, ElimV,
    Term, TermV, Val, ValV,
};

verus! {

/// One node of a substitution, over payload `T` (terms, or patterns).
#[derive(Debug, PartialEq, Eq)]
pub enum PrimSubst<T> {
    /// The identity substitution.
    IdS,
    /// Extension: variable zero becomes the payload, the rest defer.
    Cons(T, Rc<PrimSubst<T>>),
    /// Strengthening: drop variable zero, which must not occur.
    Succ(Rc<PrimSubst<T>>),
    /// Weakening: shift into a context extended by the given amount.
    Weak(usize, Rc<PrimSubst<T>>),
    /// Lifting: leave the innermost variables alone, apply the rest
    /// beyond them; used to go under binders.
    Lift(usize, Rc<PrimSubst<T>>),
}

pub type Subst = PrimSubst<Term>;

/// Mathematical image of a term substitution.
#[verifier::ext_equal]
pub enum SubstV {
    IdS,
    Cons(TermV, Box<SubstV>),
    Succ(Box<SubstV>),
    Weak(nat, Box<SubstV>),
    Lift(nat, Box<SubstV>),
}

pub open spec fn subst_v(s: PrimSubst<Term>) -> SubstV
    decreases s,
{
    match s {
        PrimSubst::IdS => SubstV::IdS,
        PrimSubst::Cons(t, r) => SubstV::Cons(term_v(t), Box::new(subst_v(*r))),
        PrimSubst::Succ(r) => SubstV::Succ(Box::new(subst_v(*r))),
        PrimSubst::Weak(k, r) => SubstV::Weak(k as nat, Box::new(subst_v(*r))),
        PrimSubst::Lift(k, r) => SubstV::Lift(k as nat, Box::new(subst_v(*r))),
    }
}

impl View for PrimSubst<Term> {
    type V = SubstV;

    open spec fn view(&self) -> SubstV {
        subst_v(*self)
    }
}

/// Relies on Rc::clone: the returned pointer shares the same node.
#[verifier::external_body]
pub(crate) fn rc_dup<T>(rc: &Rc<T>) -> (r: Rc<T>)
    ensures
        r == *rc,
{
    Rc::clone(rc)
}

// ------------------------------------------------------------------
// Termination measures.
// ------------------------------------------------------------------

/// Measure for the composition recursion; a lift counts its offset, since
/// composing peels lifts off one level at a time.
pub open spec fn sv_measure(s: SubstV) -> nat
    decreases s,
{
    match s {
        SubstV::IdS => 0,
        SubstV::Cons(_, r) => 1 + sv_measure(*r),
        SubstV::Succ(r) => 1 + sv_measure(*r),
        SubstV::Weak(_, r) => 1 + sv_measure(*r),
        SubstV::Lift(k, r) => 1 + k + sv_measure(*r),
    }
}

pub open spec fn sv_lift_flag(s: SubstV) -> nat {
    if s is Lift {
        1
    } else {
        0
    }
}

// ------------------------------------------------------------------
// The derived operations: weaken, lift, raise, drop.
// ------------------------------------------------------------------

pub open spec fn sv_weaken(s: SubstV, k: nat) -> SubstV {
    if k == 0 {
        s
    } else {
        match s {
            SubstV::Weak(m, r) => SubstV::Weak(k + m, r),
            _ => SubstV::Weak(k, Box::new(s)),
        }
    }
}

pub open spec fn sv_weaken_ok(s: SubstV, k: nat) -> bool {
    k == 0 || match s {
        SubstV::Weak(m, _) => k + m <= usize::MAX,
        _ => true,
    }
}

/// Weakening of the identity: shifts every variable up by `k`.
pub open spec fn sv_raise(k: nat) -> SubstV {
    sv_weaken(SubstV::IdS, k)
}

pub open spec fn sv_lift_by(s: SubstV, k: nat) -> SubstV {
    if k == 0 {
        s
    } else {
        match s {
            SubstV::IdS => SubstV::IdS,
            SubstV::Lift(n, r) => SubstV::Lift(n + k, r),
            _ => SubstV::Lift(k, Box::new(s)),
        }
    }
}

pub open spec fn sv_lift_by_ok(s: SubstV, k: nat) -> bool {
    k == 0 || match s {
        SubstV::Lift(n, _) => n + k <= usize::MAX,
        _ => true,
    }
}

/// Strengthening: removes the outermost `n` levels of the domain.
pub open spec fn sv_drop_by(s: SubstV, n: nat) -> SubstV
    decreases n,
{
    if n == 0 {
        s
    } else {
        match s {
            SubstV::IdS => sv_raise(n),
            SubstV::Weak(m, r) => sv_weaken(sv_drop_by(*r, (n - 1) as nat), m),
            SubstV::Cons(_, r) => sv_drop_by(*r, (n - 1) as nat),
            SubstV::Succ(r) => sv_drop_by(*r, (n - 1) as nat),
            SubstV::Lift(m, r) => if m == 0 {
                arbitrary()
            } else {
                sv_weaken(
                    sv_drop_by(sv_lift_by(*r, (m - 1) as nat), (n - 1) as nat),
                    1,
                )
            },
        }
    }
}

pub open spec fn sv_drop_by_ok(s: SubstV, n: nat) -> bool
    decreases n,
{
    n == 0 || match s {
        SubstV::IdS => n <= usize::MAX,
        SubstV::Weak(m, r) => sv_drop_by_ok(*r, (n - 1) as nat) && sv_weaken_ok(
            sv_drop_by(*r, (n - 1) as nat),
            m,
        ),
        SubstV::Cons(_, r) => sv_drop_by_ok(*r, (n - 1) as nat),
        SubstV::Succ(r) => sv_drop_by_ok(*r, (n - 1) as nat),
        SubstV::Lift(m, r) => m != 0 && sv_lift_by_ok(*r, (m - 1) as nat) && sv_drop_by_ok(
            sv_lift_by(*r, (m - 1) as nat),
            (n - 1) as nat,
        ) && sv_weaken_ok(
            sv_drop_by(sv_lift_by(*r, (m - 1) as nat), (n - 1) as nat),
            1,
        ),
    }
}

// ------------------------------------------------------------------
// Lookup, and applying a substitution to a term.
// ------------------------------------------------------------------

/// The variable itself, applied to nothing.
pub open spec fn tv_from_dbi(d: nat) -> TermV {
    TermV::Whnf(Box::new(ValV::Var(d, Seq::empty())))
}

// ------------------------------------------------------------------
// Shifting: applying a raising to a term is purely structural.
// ------------------------------------------------------------------

/// Shifts every variable at or above the cutoff up by `k`; the cutoff
/// grows by one under each binder, so bound variables stay put.
pub open spec fn sh_tv(c: nat, k: nat, t: TermV) -> TermV
    decreases tv_size(t), 1nat,
{
    match t {
        TermV::Whnf(v) => TermV::Whnf(Box::new(sh_vv(c, k, *v))),
        TermV::Redex(f, id, es) => TermV::Redex(f, id, sh_evs(c, k, es)),
    }
}

pub open spec fn sh_tv_ok(c: nat, k: nat, t: TermV) -> bool
    decreases tv_size(t), 1nat,
{
    match t {
        TermV::Whnf(v) => sh_vv_ok(c, k, *v),
        TermV::Redex(_, _, es) => sh_evs_ok(c, k, es),
    }
}

pub open spec fn sh_vv(c: nat, k: nat, v: ValV) -> ValV
    decreases vv_size(v), 1nat,
{
    match v {
        ValV::Type(l) => ValV::Type(l),
        ValV::Pi(b, cl) => ValV::Pi(Box::new(sh_bv(c, k, *b)), Box::new(sh_clv(c, k, *cl))),
        ValV::Cons(h, ts) => ValV::Cons(h, sh_tvs(c, k, ts)),
        ValV::Data(kd, g, ts) => ValV::Data(kd, g, sh_tvs(c, k, ts)),
        ValV::Meta(m, es) => ValV::Meta(m, sh_evs(c, k, es)),
        ValV::Var(d, es) => ValV::Var(
            if d < c {
                d
            } else {
                d + k
            },
            sh_evs(c, k, es),
        ),
        ValV::Axiom(u) => ValV::Axiom(u),
        ValV::Refl => ValV::Refl,
        ValV::Id(t, a, b) => ValV::Id(
            Box::new(sh_tv(c, k, *t)),
            Box::new(sh_tv(c, k, *a)),
            Box::new(sh_tv(c, k, *b)),
        ),
    }
}

pub open spec fn sh_vv_ok(c: nat, k: nat, v: ValV) -> bool
    decreases vv_size(v), 1nat,
{
    match v {
        ValV::Type(_) => true,
        ValV::Pi(b, cl) => sh_bv_ok(c, k, *b) && sh_clv_ok(c, k, *cl),
        ValV::Cons(_, ts) => sh_tvs_ok(c, k, ts),
        ValV::Data(_, _, ts) => sh_tvs_ok(c, k, ts),
        ValV::Meta(_, es) => sh_evs_ok(c, k, es),
        ValV::Var(d, es) => (d < c || d + k <= usize::MAX) && sh_evs_ok(c, k, es),
        ValV::Axiom(_) => true,
        ValV::Refl => true,
        ValV::Id(t, a, b) => sh_tv_ok(c, k, *t) && sh_tv_ok(c, k, *a) && sh_tv_ok(c, k, *b),
    }
}

/// A closure body sits one binder deeper, so its cutoff is one higher.
pub open spec fn sh_clv(c: nat, k: nat, cl: ClosureV) -> ClosureV
    decreases clv_size(cl), 1nat,
{
    match cl {
        ClosureV::Plain(t) => ClosureV::Plain(Box::new(sh_tv(c + 1, k, *t))),
    }
}

pub open spec fn sh_clv_ok(c: nat, k: nat, cl: ClosureV) -> bool
    decreases clv_size(cl), 1nat,
{
    match cl {
        ClosureV::Plain(t) => c + 1 <= usize::MAX && sh_tv_ok(c + 1, k, *t),
    }
}

/// A binding's type is shifted; its recorded definition is untouched.
pub open spec fn sh_bv(c: nat, k: nat, b: BindV) -> BindV
    decreases bv_size(b), 1nat,
{
    BindV { licit: b.licit, name: b.name, ty: Box::new(sh_tv(c, k, *b.ty)), val: b.val }
}

pub open spec fn sh_bv_ok(c: nat, k: nat, b: BindV) -> bool
    decreases bv_size(b), 1nat,
{
    sh_tv_ok(c, k, *b.ty)
}

pub open spec fn sh_ev(c: nat, k: nat, e: ElimV) -> ElimV
    decreases ev_size(e), 1nat,
{
    match e {
        ElimV::App(t) => ElimV::App(Box::new(sh_tv(c, k, *t))),
        ElimV::Proj(p) => ElimV::Proj(p),
    }
}

pub open spec fn sh_ev_ok(c: nat, k: nat, e: ElimV) -> bool
    decreases ev_size(e), 1nat,
{
    match e {
        ElimV::App(t) => sh_tv_ok(c, k, *t),
        ElimV::Proj(_) => true,
    }
}

pub open spec fn sh_evs(c: nat, k: nat, es: Seq<ElimV>) -> Seq<ElimV>
    decreases evs_size(es), 2nat,
    via sh_evs_dec
{
    if es.len() == 0 {
        Seq::empty()
    } else {
        sh_evs(c, k, es.drop_last()).push(sh_ev(c, k, es.last()))
    }
}

pub open spec fn sh_evs_ok(c: nat, k: nat, es: Seq<ElimV>) -> bool
    decreases evs_size(es), 2nat,
    via sh_evs_ok_dec
{
    es.len() == 0 || (sh_evs_ok(c, k, es.drop_last()) && sh_ev_ok(c, k, es.last()))
}

#[via_fn]
proof fn sh_evs_dec(c: nat, k: nat, es: Seq<ElimV>) {
    if es.len() > 0 {
        crate::term::lemma_ev_size_pos(es.last());
    }
}

#[via_fn]
proof fn sh_evs_ok_dec(c: nat, k: nat, es: Seq<ElimV>) {
    if es.len() > 0 {
        crate::term::lemma_ev_size_pos(es.last());
    }
}

pub open spec fn sh_tvs(c: nat, k: nat, ts: Seq<TermV>) -> Seq<TermV>
    decreases tvs_size(ts), 2nat,
    via sh_tvs_dec
{
    if ts.len() == 0 {
        Seq::empty()
    } else {
        sh_tvs(c, k, ts.drop_last()).push(sh_tv(c, k, ts.last()))
    }
}

pub open spec fn sh_tvs_ok(c: nat, k: nat, ts: Seq<TermV>) -> bool
    decreases tvs_size(ts), 2nat,
    via sh_tvs_ok_dec
{
    ts.len() == 0 || (sh_tvs_ok(c, k, ts.drop_last()) && sh_tv_ok(c, k, ts.last()))
}

#[via_fn]
proof fn sh_tvs_dec(c: nat, k: nat, ts: Seq<TermV>) {
    if ts.len() > 0 {
        crate::term::lemma_tv_size_pos(ts.last());
    }
}

#[via_fn]
proof fn sh_tvs_ok_dec(c: nat, k: nat, ts: Seq<TermV>) {
    if ts.len() > 0 {
        crate::term::lemma_tv_size_pos(ts.last());
    }
}

/// What a substitution sends a variable to.
pub open spec fn sv_lookup(s: SubstV, d: nat) -> TermV
    decreases s,
{
    match s {
        SubstV::IdS => tv_from_dbi(d),
        SubstV::Cons(t, r) => if d == 0 {
            t
        } else {
            sv_lookup(*r, (d - 1) as nat)
        },
        SubstV::Succ(r) => if d == 0 {
            arbitrary()
        } else {
            sv_lookup(*r, (d - 1) as nat)
        },
        SubstV::Weak(k, r) => if *r is IdS {
            tv_from_dbi(d + k)
        } else {
            sh_tv(0, k, sv_lookup(*r, d))
        },
        SubstV::Lift(n, r) => if d < n {
            tv_from_dbi(d)
        } else {
            sh_tv(0, n, sv_lookup(*r, (d - n) as nat))
        },
    }
}

pub open spec fn sv_lookup_ok(s: SubstV, d: nat) -> bool
    decreases s,
{
    match s {
        SubstV::IdS => d <= usize::MAX,
        SubstV::Cons(_, r) => d == 0 || sv_lookup_ok(*r, (d - 1) as nat),
        SubstV::Succ(r) => d != 0 && sv_lookup_ok(*r, (d - 1) as nat),
        SubstV::Weak(k, r) => if *r is IdS {
            d + k <= usize::MAX
        } else {
            sv_lookup_ok(*r, d) && sh_tv_ok(0, k, sv_lookup(*r, d))
        },
        SubstV::Lift(n, r) => d < n || (sv_lookup_ok(*r, (d - n) as nat) && sh_tv_ok(
            0,
            n,
            sv_lookup(*r, (d - n) as nat),
        )),
    }
}

/// Applying a substitution to a term.
pub open spec fn tv_reduce(t: TermV, s: SubstV) -> TermV
    decreases tv_size(t), 1nat,
{
    match t {
        TermV::Whnf(v) => vv_reduce(*v, s),
        TermV::Redex(f, id, es) => TermV::Redex(f, id, evs_reduce(es, s)),
    }
}

pub open spec fn tv_reduce_ok(t: TermV, s: SubstV) -> bool
    decreases tv_size(t), 1nat,
{
    match t {
        TermV::Whnf(v) => vv_reduce_ok(*v, s),
        TermV::Redex(_, _, es) => evs_reduce_ok(es, s),
    }
}

/// Applying a substitution to a weak-head value; the one interesting case
/// is a neutral variable, whose spine is re-applied to whatever the
/// lookup produced.
pub open spec fn vv_reduce(v: ValV, s: SubstV) -> TermV
    decreases vv_size(v), 1nat,
{
    match v {
        ValV::Type(l) => TermV::Whnf(Box::new(ValV::Type(l))),
        ValV::Pi(b, c) => TermV::Whnf(
            Box::new(ValV::Pi(Box::new(bv_reduce(*b, s)), Box::new(clv_reduce(*c, s)))),
        ),
        ValV::Cons(h, ts) => TermV::Whnf(Box::new(ValV::Cons(h, tvs_reduce(ts, s)))),
        ValV::Data(k, g, ts) => TermV::Whnf(Box::new(ValV::Data(k, g, tvs_reduce(ts, s)))),
        ValV::Meta(m, es) => TermV::Whnf(Box::new(ValV::Meta(m, evs_reduce(es, s)))),
        ValV::Var(f, es) => tv_apply_elim(sv_lookup(s, f), evs_reduce(es, s)),
        ValV::Axiom(u) => TermV::Whnf(Box::new(ValV::Axiom(u))),
        ValV::Refl => TermV::Whnf(Box::new(ValV::Refl)),
        ValV::Id(t, a, b) => TermV::Whnf(
            Box::new(ValV::Id(
                Box::new(tv_reduce(*t, s)),
                Box::new(tv_reduce(*a, s)),
                Box::new(tv_reduce(*b, s)),
            )),
        ),
    }
}

pub open spec fn vv_reduce_ok(v: ValV, s: SubstV) -> bool
    decreases vv_size(v), 1nat,
{
    match v {
        ValV::Type(_) => true,
        ValV::Pi(b, c) => bv_reduce_ok(*b, s) && clv_reduce_ok(*c, s),
        ValV::Cons(_, ts) => tvs_reduce_ok(ts, s),
        ValV::Data(_, _, ts) => tvs_reduce_ok(ts, s),
        ValV::Meta(_, es) => evs_reduce_ok(es, s),
        ValV::Var(f, es) => evs_reduce_ok(es, s) && sv_lookup_ok(s, f) && tv_apply_elim_ok(
            sv_lookup(s, f),
            evs_reduce(es, s),
        ),
        ValV::Axiom(_) => true,
        ValV::Refl => true,
        ValV::Id(t, a, b) => tv_reduce_ok(*t, s) && tv_reduce_ok(*a, s) && tv_reduce_ok(*b, s),
    }
}

pub open spec fn ev_reduce(e: ElimV, s: SubstV) -> ElimV
    decreases ev_size(e), 1nat,
{
    match e {
        ElimV::App(t) => ElimV::App(Box::new(tv_reduce(*t, s))),
        ElimV::Proj(p) => ElimV::Proj(p),
    }
}

pub open spec fn ev_reduce_ok(e: ElimV, s: SubstV) -> bool
    decreases ev_size(e), 1nat,
{
    match e {
        ElimV::App(t) => tv_reduce_ok(*t, s),
        ElimV::Proj(_) => true,
    }
}

pub open spec fn evs_reduce(es: Seq<ElimV>, s: SubstV) -> Seq<ElimV>
    decreases evs_size(es), 2nat,
    via evs_reduce_dec
{
    if es.len() == 0 {
        Seq::empty()
    } else {
        evs_reduce(es.drop_last(), s).push(ev_reduce(es.last(), s))
    }
}

pub open spec fn evs_reduce_ok(es: Seq<ElimV>, s: SubstV) -> bool
    decreases evs_size(es), 2nat,
    via evs_reduce_ok_dec
{
    es.len() == 0 || (evs_reduce_ok(es.drop_last(), s) && ev_reduce_ok(es.last(), s))
}

#[via_fn]
proof fn evs_reduce_dec(es: Seq<ElimV>, s: SubstV) {
    if es.len() > 0 {
        crate::term::lemma_ev_size_pos(es.last());
    }
}

#[via_fn]
proof fn evs_reduce_ok_dec(es: Seq<ElimV>, s: SubstV) {
    if es.len() > 0 {
        crate::term::lemma_ev_size_pos(es.last());
    }
}

pub open spec fn tvs_reduce(ts: Seq<TermV>, s: SubstV) -> Seq<TermV>
    decreases tvs_size(ts), 2nat,
    via tvs_reduce_dec
{
    if ts.len() == 0 {
        Seq::empty()
    } else {
        tvs_reduce(ts.drop_last(), s).push(tv_reduce(ts.last(), s))
    }
}

pub open spec fn tvs_reduce_ok(ts: Seq<TermV>, s: SubstV) -> bool
    decreases tvs_size(ts), 2nat,
    via tvs_reduce_ok_dec
{
    ts.len() == 0 || (tvs_reduce_ok(ts.drop_last(), s) && tv_reduce_ok(ts.last(), s))
}

#[via_fn]
proof fn tvs_reduce_dec(ts: Seq<TermV>, s: SubstV) {
    if ts.len() > 0 {
        crate::term::lemma_tv_size_pos(ts.last());
    }
}

#[via_fn]
proof fn tvs_reduce_ok_dec(ts: Seq<TermV>, s: SubstV) {
    if ts.len() > 0 {
        crate::term::lemma_tv_size_pos(ts.last());
    }
}

/// A closure body sits under one more binder, so the substitution is
/// lifted by one before descending: the bound variable stays put.
pub open spec fn clv_reduce(c: ClosureV, s: SubstV) -> ClosureV
    decreases clv_size(c), 1nat,
{
    match c {
        ClosureV::Plain(t) => ClosureV::Plain(Box::new(tv_reduce(*t, sv_lift_by(s, 1)))),
    }
}

pub open spec fn clv_reduce_ok(c: ClosureV, s: SubstV) -> bool
    decreases clv_size(c), 1nat,
{
    match c {
        ClosureV::Plain(t) => sv_lift_by_ok(s, 1) && tv_reduce_ok(*t, sv_lift_by(s, 1)),
    }
}

/// A binding's type is substituted; its recorded definition is untouched.
pub open spec fn bv_reduce(b: BindV, s: SubstV) -> BindV
    decreases bv_size(b), 1nat,
{
    BindV { licit: b.licit, name: b.name, ty: Box::new(tv_reduce(*b.ty, s)), val: b.val }
}

pub open spec fn bv_reduce_ok(b: BindV, s: SubstV) -> bool
    decreases bv_size(b), 1nat,
{
    tv_reduce_ok(*b.ty, s)
}

// ------------------------------------------------------------------
// Composition.
// ------------------------------------------------------------------

/// Lifting grows the composition measure by at most the lift amount,
/// plus one node.
pub proof fn lemma_measure_lift_by(s: SubstV, k: nat)
    ensures
        sv_measure(sv_lift_by(s, k)) <= 1 + k + sv_measure(s),
{
}

/// Weakening grows the composition measure by at most one node, and
/// always leaves a weakening node on top.
pub proof fn lemma_measure_weaken(s: SubstV, k: nat)
    ensures
        sv_measure(sv_weaken(s, k)) <= 1 + sv_measure(s),
        k > 0 ==> (sv_weaken(s, k) is Weak),
{
}

/// The substitution equivalent to applying `sgm`, then `rho`.
pub open spec fn sv_compose(rho: SubstV, sgm: SubstV) -> SubstV
    decreases sv_measure(sgm), sv_lift_flag(sgm),
    via sv_compose_dec
{
    if sgm is IdS {
        rho
    } else if rho is IdS {
        sgm
    } else {
        match sgm {
            SubstV::IdS => rho,
            SubstV::Weak(n, s2) => sv_compose(sv_drop_by(rho, n), *s2),
            SubstV::Cons(u, s2) => SubstV::Cons(
                tv_reduce(u, rho),
                Box::new(sv_compose(rho, *s2)),
            ),
            SubstV::Succ(s2) => SubstV::Succ(Box::new(sv_compose(rho, *s2))),
            SubstV::Lift(n, s2) => if n == 0 {
                arbitrary()
            } else {
                match rho {
                    SubstV::Cons(u, r2) => SubstV::Cons(
                        u,
                        Box::new(sv_compose(*r2, sv_lift_by(*s2, (n - 1) as nat))),
                    ),
                    _ => SubstV::Cons(
                        sv_lookup(rho, 0),
                        Box::new(
                            sv_compose(
                                rho,
                                sv_weaken(sv_lift_by(*s2, (n - 1) as nat), 1),
                            ),
                        ),
                    ),
                }
            },
        }
    }
}

#[via_fn]
proof fn sv_compose_dec(rho: SubstV, sgm: SubstV) {
    match sgm {
        SubstV::Lift(n, s2) => {
            if n > 0 {
                lemma_measure_lift_by(*s2, (n - 1) as nat);
                lemma_measure_weaken(sv_lift_by(*s2, (n - 1) as nat), 1);
            }
        },
        _ => {},
    }
}

pub open spec fn sv_compose_ok(rho: SubstV, sgm: SubstV) -> bool
    decreases sv_measure(sgm), sv_lift_flag(sgm),
    via sv_compose_ok_dec
{
    if sgm is IdS {
        true
    } else if rho is IdS {
        true
    } else {
        match sgm {
            SubstV::IdS => true,
            SubstV::Weak(n, s2) => sv_drop_by_ok(rho, n) && sv_compose_ok(
                sv_drop_by(rho, n),
                *s2,
            ),
            SubstV::Cons(u, s2) => tv_reduce_ok(u, rho) && sv_compose_ok(rho, *s2),
            SubstV::Succ(s2) => sv_compose_ok(rho, *s2),
            SubstV::Lift(n, s2) => n != 0 && match rho {
                SubstV::Cons(_, r2) => sv_lift_by_ok(*s2, (n - 1) as nat) && sv_compose_ok(
                    *r2,
                    sv_lift_by(*s2, (n - 1) as nat),
                ),
                _ => sv_lookup_ok(rho, 0) && sv_lift_by_ok(*s2, (n - 1) as nat)
                    && sv_weaken_ok(sv_lift_by(*s2, (n - 1) as nat), 1) && sv_compose_ok(
                    rho,
                    sv_weaken(sv_lift_by(*s2, (n - 1) as nat), 1),
                ),
            },
        }
    }
}

#[via_fn]
proof fn sv_compose_ok_dec(rho: SubstV, sgm: SubstV) {
    match sgm {
        SubstV::Lift(n, s2) => {
            if n > 0 {
                lemma_measure_lift_by(*s2, (n - 1) as nat);
                lemma_measure_weaken(sv_lift_by(*s2, (n - 1) as nat), 1);
            }
        },
        _ => {},
    }
}

// ------------------------------------------------------------------
// Executable operations.
// ------------------------------------------------------------------

/// A substitution's image is the identity exactly when the substitution
/// is.
pub proof fn lemma_subst_v_ids(s: PrimSubst<Term>)
    ensures
        (subst_v(s) is IdS) <==> (s is IdS),
{
}

/// Shifts every variable of a term at or above the cutoff up by `by`.
fn shift_term(t: Term, cutoff: usize, by: usize) -> (r: Term)
    requires
        sh_tv_ok(cutoff as nat, by as nat, t@),
    ensures
        r@ == sh_tv(cutoff as nat, by as nat, t@),
    decreases tv_size(t@), 1nat,
{
    match t {
        Term::Whnf(v) => Term::Whnf(shift_val(v, cutoff, by)),
        Term::Redex(f, id, es) => Term::Redex(f, id, shift_elims(es, cutoff, by)),
    }
}

fn shift_val(v: Val, cutoff: usize, by: usize) -> (r: Val)
    requires
        sh_vv_ok(cutoff as nat, by as nat, v@),
    ensures
        r@ == sh_vv(cutoff as nat, by as nat, v@),
    decreases vv_size(v@), 1nat,
{
    match v {
        Val::Type(l) => Val::Type(l),
        Val::Pi(b, cl) => {
            let b = *b;
            Val::Pi(
                Bind {
                    licit: b.licit,
                    name: b.name,
                    ty: shift_term(b.ty, cutoff, by),
                    val: b.val,
                }.boxed(),
                shift_closure(cl, cutoff, by),
            )
        }
        Val::Cons(h, ts) => Val::Cons(h, shift_terms(ts, cutoff, by)),
        Val::Data(k, g, ts) => Val::Data(k, g, shift_terms(ts, cutoff, by)),
        Val::Meta(m, es) => Val::Meta(m, shift_elims(es, cutoff, by)),
        Val::Var(d, es) => {
            let d2 = if d < cutoff {
                d
            } else {
                d + by
            };
            Val::Var(d2, shift_elims(es, cutoff, by))
        }
        Val::Axiom(u) => Val::Axiom(u),
        Val::Refl => Val::Refl,
        Val::Id(t, a, b) => Val::Id(
            Box::new(shift_term(*t, cutoff, by)),
            Box::new(shift_term(*a, cutoff, by)),
            Box::new(shift_term(*b, cutoff, by)),
        ),
    }
}

fn shift_closure(cl: Closure, cutoff: usize, by: usize) -> (r: Closure)
    requires
        sh_clv_ok(cutoff as nat, by as nat, cl@),
    ensures
        r@ == sh_clv(cutoff as nat, by as nat, cl@),
    decreases clv_size(cl@), 1nat,
{
    let Closure::Plain(body) = cl;
    Closure::plain(shift_term(*body, cutoff + 1, by))
}

fn shift_elim(e: Elim, cutoff: usize, by: usize) -> (r: Elim)
    requires
        sh_ev_ok(cutoff as nat, by as nat, e@),
    ensures
        r@ == sh_ev(cutoff as nat, by as nat, e@),
    decreases ev_size(e@), 1nat,
{
    match e {
        Elim::App(t) => Elim::app(shift_term(*t, cutoff, by)),
        Elim::Proj(p) => Elim::Proj(p),
    }
}

fn shift_elims(es: Vec<Elim>, cutoff: usize, by: usize) -> (r: Vec<Elim>)
    requires
        sh_evs_ok(cutoff as nat, by as nat, elims_v(es@)),
    ensures
        elims_v(r@) == sh_evs(cutoff as nat, by as nat, elims_v(es@)),
    decreases evs_size(elims_v(es@)), 2nat,
{
    let ghost esv = elims_v(es@);
    proof {
        crate::term::lemma_elims_v(es@);
        lemma_sh_evs_elem(cutoff as nat, by as nat, esv);
    }
    let mut out: Vec<Elim> = Vec::new();
    let mut i: usize = 0;
    while i < es.len()
        invariant
            i <= es.len(),
            esv == elims_v(es@),
            esv.len() == es@.len(),
            forall|j: int| 0 <= j < es@.len() ==> esv[j] == es@[j]@,
            sh_evs(cutoff as nat, by as nat, esv).len() == esv.len(),
            forall|j: int| 0 <= j < esv.len() ==> #[trigger] sh_evs(
                cutoff as nat,
                by as nat,
                esv,
            )[j] == sh_ev(cutoff as nat, by as nat, esv[j]),
            forall|j: int| 0 <= j < esv.len() ==> sh_ev_ok(
                cutoff as nat,
                by as nat,
                #[trigger] esv[j],
            ),
            out@.len() == i as int,
            forall|j: int| 0 <= j < i ==> out@[j]@ == sh_ev(cutoff as nat, by as nat, esv[j]),
        decreases es@.len() - i,
    {
        proof {
            crate::term::lemma_evs_size_elem(esv, i as int);
        }
        let e = es[i].clone();
        out.push(shift_elim(e, cutoff, by));
        i = i + 1;
    }
    proof {
        crate::term::lemma_elims_v(out@);
        assert(elims_v(out@) =~= sh_evs(cutoff as nat, by as nat, esv));
    }
    out
}

fn shift_terms(ts: Vec<Term>, cutoff: usize, by: usize) -> (r: Vec<Term>)
    requires
        sh_tvs_ok(cutoff as nat, by as nat, terms_v(ts@)),
    ensures
        terms_v(r@) == sh_tvs(cutoff as nat, by as nat, terms_v(ts@)),
    decreases tvs_size(terms_v(ts@)), 2nat,
{
    let ghost tsv = terms_v(ts@);
    proof {
        crate::term::lemma_terms_v(ts@);
        lemma_sh_tvs_elem(cutoff as nat, by as nat, tsv);
    }
    let mut out: Vec<Term> = Vec::new();
    let mut i: usize = 0;
    while i < ts.len()
        invariant
            i <= ts.len(),
            tsv == terms_v(ts@),
            tsv.len() == ts@.len(),
            forall|j: int| 0 <= j < ts@.len() ==> tsv[j] == ts@[j]@,
            sh_tvs(cutoff as nat, by as nat, tsv).len() == tsv.len(),
            forall|j: int| 0 <= j < tsv.len() ==> #[trigger] sh_tvs(
                cutoff as nat,
                by as nat,
                tsv,
            )[j] == sh_tv(cutoff as nat, by as nat, tsv[j]),
            forall|j: int| 0 <= j < tsv.len() ==> sh_tv_ok(
                cutoff as nat,
                by as nat,
                #[trigger] tsv[j],
            ),
            out@.len() == i as int,
            forall|j: int| 0 <= j < i ==> out@[j]@ == sh_tv(cutoff as nat, by as nat, tsv[j]),
        decreases ts@.len() - i,
    {
        proof {
            crate::term::lemma_tvs_size_elem(tsv, i as int);
        }
        let t = ts[i].clone();
        out.push(shift_term(t, cutoff, by));
        i = i + 1;
    }
    proof {
        crate::term::lemma_terms_v(out@);
        assert(terms_v(out@) =~= sh_tvs(cutoff as nat, by as nat, tsv));
    }
    out
}

/// Elementwise description of shifting a spine.
pub proof fn lemma_sh_evs_elem(c: nat, k: nat, es: Seq<ElimV>)
    ensures
        sh_evs(c, k, es).len() == es.len(),
        forall|i: int| 0 <= i < es.len() ==> #[trigger] sh_evs(c, k, es)[i] == sh_ev(
            c,
            k,
            es[i],
        ),
        sh_evs_ok(c, k, es) ==> forall|i: int| 0 <= i < es.len() ==> sh_ev_ok(
            c,
            k,
            #[trigger] es[i],
        ),
    decreases es,
{
    if es.len() > 0 {
        lemma_sh_evs_elem(c, k, es.drop_last());
        if sh_evs_ok(c, k, es) {
            assert forall|i: int| 0 <= i < es.len() implies sh_ev_ok(
                c,
                k,
                #[trigger] es[i],
            ) by {
                if i < es.len() - 1 {
                    assert(es.drop_last()[i] == es[i]);
                    assert(sh_ev_ok(c, k, es.drop_last()[i]));
                }
            }
        }
    }
}

/// Elementwise description of shifting an argument list.
pub proof fn lemma_sh_tvs_elem(c: nat, k: nat, ts: Seq<TermV>)
    ensures
        sh_tvs(c, k, ts).len() == ts.len(),
        forall|i: int| 0 <= i < ts.len() ==> #[trigger] sh_tvs(c, k, ts)[i] == sh_tv(
            c,
            k,
            ts[i],
        ),
        sh_tvs_ok(c, k, ts) ==> forall|i: int| 0 <= i < ts.len() ==> sh_tv_ok(
            c,
            k,
            #[trigger] ts[i],
        ),
    decreases ts,
{
    if ts.len() > 0 {
        lemma_sh_tvs_elem(c, k, ts.drop_last());
        if sh_tvs_ok(c, k, ts) {
            assert forall|i: int| 0 <= i < ts.len() implies sh_tv_ok(
                c,
                k,
                #[trigger] ts[i],
            ) by {
                if i < ts.len() - 1 {
                    assert(ts.drop_last()[i] == ts[i]);
                    assert(sh_tv_ok(c, k, ts.drop_last()[i]));
                }
            }
        }
    }
}

impl Default for PrimSubst<Term> {
    fn default() -> (r: Self)
        ensures
            r@ == SubstV::IdS,
    {
        PrimSubst::IdS
    }
}

impl PrimSubst<Term> {
    /// Resolves a variable through this substitution.
    pub fn lookup(&self, dbi: DBI) -> (r: Term)
        requires
            sv_lookup_ok(self@, dbi as nat),
        ensures
            r@ == sv_lookup(self@, dbi as nat),
        decreases *self,
    {
        match self {
            PrimSubst::IdS => Term::from_dbi(dbi),
            PrimSubst::Cons(o, rest) => if dbi == 0 {
                o.clone()
            } else {
                rest.lookup(dbi - 1)
            },
            PrimSubst::Succ(rest) => rest.lookup(dbi - 1),
            PrimSubst::Weak(i, rest) => match &**rest {
                PrimSubst::IdS => {
                    proof {
                        assert(self@ == SubstV::Weak(*i as nat, Box::new(subst_v(**rest))));
                        assert(subst_v(**rest) is IdS);
                        assert(dbi as nat + *i as nat <= usize::MAX);
                    }
                    Term::from_dbi(dbi + *i)
                }
                rho => {
                    proof {
                        let ghost inner = **rest;
                        lemma_subst_v_ids(inner);
                    }
                    shift_term(rho.lookup(dbi), 0, *i)
                }
            },
            PrimSubst::Lift(n, rest) => if dbi < *n {
                Term::from_dbi(dbi)
            } else {
                shift_term(rest.lookup(dbi - *n), 0, *n)
            },
        }
    }

    /// The substitution lifted under one binder; the top node is rebuilt
    /// shallowly so the tail stays shared.
    pub fn lifted(&self) -> (r: Rc<Self>)
        requires
            sv_lift_by_ok(self@, 1),
        ensures
            r@ == sv_lift_by(self@, 1),
    {
        match self {
            PrimSubst::IdS => Rc::new(PrimSubst::IdS),
            PrimSubst::Lift(n, rho) => {
                let r = Rc::new(PrimSubst::Lift(*n + 1, rc_dup(rho)));
                proof {
                    assert(r@ =~= sv_lift_by(self@, 1));
                }
                r
            }
            PrimSubst::Cons(t, rho) => {
                let tail = Rc::new(PrimSubst::Cons(t.clone(), rc_dup(rho)));
                proof {
                    assert(subst_v(*tail) =~= self@);
                }
                let r = Rc::new(PrimSubst::Lift(1, tail));
                proof {
                    assert(r@ =~= sv_lift_by(self@, 1));
                }
                r
            }
            PrimSubst::Succ(rho) => {
                let tail = Rc::new(PrimSubst::Succ(rc_dup(rho)));
                proof {
                    assert(subst_v(*tail) =~= self@);
                }
                let r = Rc::new(PrimSubst::Lift(1, tail));
                proof {
                    assert(r@ =~= sv_lift_by(self@, 1));
                }
                r
            }
            PrimSubst::Weak(k, rho) => {
                let tail = Rc::new(PrimSubst::Weak(*k, rc_dup(rho)));
                proof {
                    assert(subst_v(*tail) =~= self@);
                }
                let r = Rc::new(PrimSubst::Lift(1, tail));
                proof {
                    assert(r@ =~= sv_lift_by(self@, 1));
                }
                r
            }
        }
    }

    /// Shifts a term into a context deeper by `k`.
    pub fn raise_term(k: usize, term: Term) -> (r: Term)
        requires
            tv_reduce_ok(term@, sv_raise(k as nat)),
        ensures
            r@ == tv_reduce(term@, sv_raise(k as nat)),
    {
        Self::raise_from(0, k, term)
    }

    /// Shifts by `k` the variables of a term beyond its innermost `n`.
    pub fn raise_from(n: usize, k: usize, term: Term) -> (r: Term)
        requires
            tv_reduce_ok(term@, sv_lift_by(sv_raise(k as nat), n as nat)),
        ensures
            r@ == tv_reduce(term@, sv_lift_by(sv_raise(k as nat), n as nat)),
    {
        let s = Self::lift_by(Self::raise(k), n);
        crate::redex::RedEx::reduce_dbi(term, &*s)
    }

    /// The substitution that shifts every variable up by `by`.
    pub fn raise(by: usize) -> (r: Rc<Self>)
        ensures
            r@ == sv_raise(by as nat),
    {
        Self::weaken(Rc::new(PrimSubst::IdS), by)
    }

    /// Strengthens a substitution by removing the outermost `drop_by`
    /// levels of its domain.
    pub fn drop_by(me: Rc<Self>, drop_by: usize) -> (r: Rc<Self>)
        requires
            sv_drop_by_ok(me@, drop_by as nat),
        ensures
            r@ == sv_drop_by(me@, drop_by as nat),
        decreases drop_by,
    {
        if drop_by == 0 {
            me
        } else {
            let n = drop_by;
            match &*me {
                PrimSubst::IdS => Self::raise(n),
                PrimSubst::Weak(m, rho) => Self::weaken(Self::drop_by(rc_dup(rho), n - 1), *m),
                PrimSubst::Cons(_, rho) => Self::drop_by(rc_dup(rho), n - 1),
                PrimSubst::Succ(rho) => Self::drop_by(rc_dup(rho), n - 1),
                PrimSubst::Lift(m, rho) => Self::weaken(
                    Self::drop_by(Self::lift_by(rc_dup(rho), *m - 1), n - 1),
                    1,
                ),
            }
        }
    }

    /// Lifts a substitution under `lift_by` binders, fusing consecutive
    /// lifts.
    pub fn lift_by(me: Rc<Self>, lift_by: usize) -> (r: Rc<Self>)
        requires
            sv_lift_by_ok(me@, lift_by as nat),
        ensures
            r@ == sv_lift_by(me@, lift_by as nat),
    {
        if lift_by == 0 {
            me
        } else {
            let k = lift_by;
            match &*me {
                PrimSubst::IdS => Rc::new(PrimSubst::IdS),
                PrimSubst::Lift(n, rho) => Rc::new(PrimSubst::Lift(n + k, rc_dup(rho))),
                _ => Rc::new(PrimSubst::Lift(k, me)),
            }
        }
    }

    /// Weakens a substitution into a context extended by `weaken_by`,
    /// fusing consecutive weakenings.
    pub fn weaken(me: Rc<Self>, weaken_by: usize) -> (r: Rc<Self>)
        requires
            sv_weaken_ok(me@, weaken_by as nat),
        ensures
            r@ == sv_weaken(me@, weaken_by as nat),
    {
        if weaken_by == 0 {
            me
        } else {
            let n = weaken_by;
            match &*me {
                PrimSubst::Weak(m, rho) => Rc::new(PrimSubst::Weak(n + *m, rc_dup(rho))),
                _ => Rc::new(PrimSubst::Weak(n, me)),
            }
        }
    }

    /// The substitution that sends variable zero to `t` and leaves the
    /// rest alone.
    pub fn one(t: Term) -> (r: Self)
        ensures
            r@ == SubstV::Cons(t@, Box::new(SubstV::IdS)),
    {
        let ghost tv = t@;
        let rest = Rc::new(PrimSubst::IdS);
        let r = PrimSubst::Cons(t, rest);
        proof {
            assert(subst_v(*rest) == SubstV::IdS);
            assert(subst_v(r) =~= SubstV::Cons(tv, Box::new(SubstV::IdS)));
        }
        r
    }
}

impl Subst {
    /// Produces the substitution equivalent to applying `sgm`, then
    /// `rho`.
    pub fn compose(rho: Rc<Self>, sgm: Rc<Self>) -> (r: Rc<Self>)
        requires
            sv_compose_ok(rho@, sgm@),
        ensures
            r@ == sv_compose(rho@, sgm@),
        decreases sv_measure(sgm@), sv_lift_flag(sgm@),
    {
        match (&*rho, &*sgm) {
            (_, PrimSubst::IdS) => rho,
            (PrimSubst::IdS, _) => sgm,
            (_, PrimSubst::Weak(n, sgm2)) => Self::compose(
                Self::drop_by(rc_dup(&rho), *n),
                rc_dup(sgm2),
            ),
            (_, PrimSubst::Cons(u, sgm2)) => {
                let reduced = crate::redex::RedEx::reduce_dbi(u.clone(), &*rho);
                Rc::new(PrimSubst::Cons(reduced, Self::compose(rho, rc_dup(sgm2))))
            }
            (_, PrimSubst::Succ(sgm2)) => Rc::new(
                PrimSubst::Succ(Self::compose(rho, rc_dup(sgm2))),
            ),
            (PrimSubst::Cons(u, rho2), PrimSubst::Lift(n, sgm2)) => {
                proof {
                    let ghost inner = **sgm2;
                    lemma_measure_lift_by(subst_v(inner), (*n - 1) as nat);
                }
                Rc::new(
                    PrimSubst::Cons(
                        u.clone(),
                        Self::compose(rc_dup(rho2), Self::lift_by(rc_dup(sgm2), *n - 1)),
                    ),
                )
            }
            (_, PrimSubst::Lift(n, sgm2)) => {
                proof {
                    let ghost inner = **sgm2;
                    lemma_measure_lift_by(subst_v(inner), (*n - 1) as nat);
                    lemma_measure_weaken(sv_lift_by(subst_v(inner), (*n - 1) as nat), 1);
                }
                let head = rho.lookup(0);
                Rc::new(
                    PrimSubst::Cons(
                        head,
                        Self::compose(
                            rc_dup(&rho),
                            Self::weaken(Self::lift_by(rc_dup(sgm2), *n - 1), 1),
                        ),
                    ),
                )
            }
        }
    }
}

// ------------------------------------------------------------------
// Laws of the calculus.
// ------------------------------------------------------------------

/// Re-applying an empty spine changes nothing.
pub proof fn lemma_apply_elim_empty(t: TermV)
    ensures
        tv_apply_elim(t, Seq::empty()) == t,
{
    match t {
        TermV::Redex(f, id, a) => {
            assert(a + Seq::empty() =~= a);
            assert(tv_apply_elim(t, Seq::empty()) =~= t);
        }
        TermV::Whnf(v) => {
            match *v {
                ValV::Var(d, a) => {
                    assert(a + Seq::empty() =~= a);
                    assert(tv_apply_elim(t, Seq::empty()) =~= t);
                }
                ValV::Meta(m, a) => {
                    assert(a + Seq::empty() =~= a);
                    assert(tv_apply_elim(t, Seq::empty()) =~= t);
                }
                _ => {}
            }
        }
    }
}

/// The identity substitution leaves every term unchanged.
pub proof fn lemma_reduce_identity(t: TermV)
    ensures
        tv_reduce(t, SubstV::IdS) == t,
    decreases tv_size(t), 1nat,
{
    match t {
        TermV::Whnf(v) => {
            lemma_reduce_identity_val(*v);
        }
        TermV::Redex(f, id, es) => {
            lemma_reduce_identity_elims(es);
        }
    }
}

pub proof fn lemma_reduce_identity_val(v: ValV)
    ensures
        vv_reduce(v, SubstV::IdS) == TermV::Whnf(Box::new(v)),
    decreases vv_size(v), 1nat,
{
    match v {
        ValV::Type(_) => {}
        ValV::Pi(b, c) => {
            lemma_reduce_identity(*b.ty);
            lemma_reduce_identity(*c->Plain_0);
            assert(vv_reduce(v, SubstV::IdS) =~= TermV::Whnf(Box::new(v)));
        }
        ValV::Cons(_, ts) => {
            lemma_reduce_identity_terms(ts);
            assert(vv_reduce(v, SubstV::IdS) =~= TermV::Whnf(Box::new(v)));
        }
        ValV::Data(_, _, ts) => {
            lemma_reduce_identity_terms(ts);
            assert(vv_reduce(v, SubstV::IdS) =~= TermV::Whnf(Box::new(v)));
        }
        ValV::Meta(_, es) => {
            lemma_reduce_identity_elims(es);
            assert(vv_reduce(v, SubstV::IdS) =~= TermV::Whnf(Box::new(v)));
        }
        ValV::Var(f, es) => {
            lemma_reduce_identity_elims(es);
            assert(Seq::<ElimV>::empty() + es =~= es);
            assert(vv_reduce(v, SubstV::IdS) =~= TermV::Whnf(Box::new(v)));
        }
        ValV::Axiom(_) => {}
        ValV::Refl => {}
        ValV::Id(t, a, b) => {
            lemma_reduce_identity(*t);
            lemma_reduce_identity(*a);
            lemma_reduce_identity(*b);
            assert(vv_reduce(v, SubstV::IdS) =~= TermV::Whnf(Box::new(v)));
        }
    }
}

pub proof fn lemma_reduce_identity_elims(es: Seq<ElimV>)
    ensures
        evs_reduce(es, SubstV::IdS) == es,
    decreases evs_size(es), 2nat,
{
    if es.len() == 0 {
        assert(evs_reduce(es, SubstV::IdS) =~= es);
    } else {
        crate::term::lemma_ev_size_pos(es.last());
        lemma_reduce_identity_elims(es.drop_last());
        match es.last() {
            ElimV::App(t) => {
                lemma_reduce_identity(*t);
                assert(ev_reduce(es.last(), SubstV::IdS) =~= es.last());
            }
            ElimV::Proj(_) => {
                assert(ev_reduce(es.last(), SubstV::IdS) =~= es.last());
            }
        }
        assert(es.drop_last().push(es.last()) =~= es);
        assert(evs_reduce(es, SubstV::IdS) =~= es);
    }
}

pub proof fn lemma_reduce_identity_terms(ts: Seq<TermV>)
    ensures
        tvs_reduce(ts, SubstV::IdS) == ts,
    decreases tvs_size(ts), 2nat,
{
    if ts.len() == 0 {
        assert(tvs_reduce(ts, SubstV::IdS) =~= ts);
    } else {
        crate::term::lemma_tv_size_pos(ts.last());
        lemma_reduce_identity_terms(ts.drop_last());
        lemma_reduce_identity(ts.last());
        assert(ts.drop_last().push(ts.last()) =~= ts);
        assert(tvs_reduce(ts, SubstV::IdS) =~= ts);
    }
}

/// Shifting by nothing changes nothing.
pub proof fn lemma_sh_zero(c: nat, t: TermV)
    ensures
        sh_tv(c, 0, t) == t,
    decreases tv_size(t), 1nat,
{
    match t {
        TermV::Whnf(v) => {
            lemma_sh_zero_val(c, *v);
        }
        TermV::Redex(_, _, es) => {
            lemma_sh_zero_elims(c, es);
        }
    }
}

pub proof fn lemma_sh_zero_val(c: nat, v: ValV)
    ensures
        sh_vv(c, 0, v) == v,
    decreases vv_size(v), 1nat,
{
    match v {
        ValV::Type(_) => {}
        ValV::Pi(b, cl) => {
            lemma_sh_zero(c, *b.ty);
            lemma_sh_zero(c + 1, *cl->Plain_0);
            assert(sh_vv(c, 0, v) =~= v);
        }
        ValV::Cons(_, ts) => {
            lemma_sh_zero_terms(c, ts);
            assert(sh_vv(c, 0, v) =~= v);
        }
        ValV::Data(_, _, ts) => {
            lemma_sh_zero_terms(c, ts);
            assert(sh_vv(c, 0, v) =~= v);
        }
        ValV::Meta(_, es) => {
            lemma_sh_zero_elims(c, es);
            assert(sh_vv(c, 0, v) =~= v);
        }
        ValV::Var(_, es) => {
            lemma_sh_zero_elims(c, es);
            assert(sh_vv(c, 0, v) =~= v);
        }
        ValV::Axiom(_) => {}
        ValV::Refl => {}
        ValV::Id(t, a, b) => {
            lemma_sh_zero(c, *t);
            lemma_sh_zero(c, *a);
            lemma_sh_zero(c, *b);
            assert(sh_vv(c, 0, v) =~= v);
        }
    }
}

pub proof fn lemma_sh_zero_elims(c: nat, es: Seq<ElimV>)
    ensures
        sh_evs(c, 0, es) == es,
    decreases evs_size(es), 2nat,
{
    if es.len() == 0 {
        assert(sh_evs(c, 0, es) =~= es);
    } else {
        crate::term::lemma_ev_size_pos(es.last());
        lemma_sh_zero_elims(c, es.drop_last());
        match es.last() {
            ElimV::App(t) => {
                lemma_sh_zero(c, *t);
                assert(sh_ev(c, 0, es.last()) =~= es.last());
            }
            ElimV::Proj(_) => {
                assert(sh_ev(c, 0, es.last()) =~= es.last());
            }
        }
        assert(es.drop_last().push(es.last()) =~= es);
        assert(sh_evs(c, 0, es) =~= es);
    }
}

pub proof fn lemma_sh_zero_terms(c: nat, ts: Seq<TermV>)
    ensures
        sh_tvs(c, 0, ts) == ts,
    decreases tvs_size(ts), 2nat,
{
    if ts.len() == 0 {
        assert(sh_tvs(c, 0, ts) =~= ts);
    } else {
        crate::term::lemma_tv_size_pos(ts.last());
        lemma_sh_zero_terms(c, ts.drop_last());
        lemma_sh_zero(c, ts.last());
        assert(ts.drop_last().push(ts.last()) =~= ts);
        assert(sh_tvs(c, 0, ts) =~= ts);
    }
}

/// Applying a raising, lifted under any number of binders, is exactly
/// the structural shift with that cutoff.
pub proof fn lemma_reduce_raise(c: nat, k: nat, t: TermV)
    ensures
        tv_reduce(t, sv_lift_by(sv_raise(k), c)) == sh_tv(c, k, t),
    decreases tv_size(t), 1nat,
{
    if k == 0 {
        lemma_reduce_identity(t);
        lemma_sh_zero(c, t);
    } else {
        match t {
            TermV::Whnf(v) => {
                lemma_reduce_raise_val(c, k, *v);
            }
            TermV::Redex(_, _, es) => {
                lemma_reduce_raise_elims(c, k, es);
                assert(tv_reduce(t, sv_lift_by(sv_raise(k), c)) =~= sh_tv(c, k, t));
            }
        }
    }
}

pub proof fn lemma_reduce_raise_val(c: nat, k: nat, v: ValV)
    ensures
        vv_reduce(v, sv_lift_by(sv_raise(k), c)) == TermV::Whnf(Box::new(sh_vv(c, k, v))),
    decreases vv_size(v), 1nat,
{
    if k == 0 {
        lemma_reduce_identity_val(v);
        lemma_sh_zero_val(c, v);
    } else {
        let s = sv_lift_by(sv_raise(k), c);
        match v {
            ValV::Type(_) => {}
            ValV::Pi(b, cl) => {
                lemma_reduce_raise(c, k, *b.ty);
                lemma_lift_by_fuse(sv_raise(k), c, 1);
                lemma_reduce_raise(c + 1, k, *cl->Plain_0);
                assert(vv_reduce(v, s) =~= TermV::Whnf(Box::new(sh_vv(c, k, v))));
            }
            ValV::Cons(_, ts) => {
                lemma_reduce_raise_terms(c, k, ts);
                assert(vv_reduce(v, s) =~= TermV::Whnf(Box::new(sh_vv(c, k, v))));
            }
            ValV::Data(_, _, ts) => {
                lemma_reduce_raise_terms(c, k, ts);
                assert(vv_reduce(v, s) =~= TermV::Whnf(Box::new(sh_vv(c, k, v))));
            }
            ValV::Meta(_, es) => {
                lemma_reduce_raise_elims(c, k, es);
                assert(vv_reduce(v, s) =~= TermV::Whnf(Box::new(sh_vv(c, k, v))));
            }
            ValV::Var(f, es) => {
                lemma_reduce_raise_elims(c, k, es);
                if c == 0 {
                    assert(sv_lookup(s, f) == tv_from_dbi(f + k));
                } else {
                    if f < c {
                        assert(sv_lookup(s, f) == tv_from_dbi(f));
                    } else {
                        assert(sv_lookup(s, f) == sh_tv(
                            0,
                            c,
                            sv_lookup(sv_raise(k), (f - c) as nat),
                        ));
                        assert(sv_lookup(sv_raise(k), (f - c) as nat) == tv_from_dbi(
                            (f - c + k) as nat,
                        ));
                        assert(sh_evs(0, c, Seq::empty()) =~= Seq::<ElimV>::empty());
                        assert(sh_tv(0, c, tv_from_dbi((f - c + k) as nat)) =~= tv_from_dbi(
                            f + k,
                        ));
                    }
                }
                assert(Seq::<ElimV>::empty() + sh_evs(c, k, es) =~= sh_evs(c, k, es));
                assert(vv_reduce(v, s) =~= TermV::Whnf(Box::new(sh_vv(c, k, v))));
            }
            ValV::Axiom(_) => {}
            ValV::Refl => {}
            ValV::Id(t, a, b) => {
                lemma_reduce_raise(c, k, *t);
                lemma_reduce_raise(c, k, *a);
                lemma_reduce_raise(c, k, *b);
                assert(vv_reduce(v, s) =~= TermV::Whnf(Box::new(sh_vv(c, k, v))));
            }
        }
    }
}

pub proof fn lemma_reduce_raise_elims(c: nat, k: nat, es: Seq<ElimV>)
    ensures
        evs_reduce(es, sv_lift_by(sv_raise(k), c)) == sh_evs(c, k, es),
    decreases evs_size(es), 2nat,
{
    if es.len() == 0 {
        assert(evs_reduce(es, sv_lift_by(sv_raise(k), c)) =~= sh_evs(c, k, es));
    } else {
        crate::term::lemma_ev_size_pos(es.last());
        lemma_reduce_raise_elims(c, k, es.drop_last());
        match es.last() {
            ElimV::App(t) => {
                lemma_reduce_raise(c, k, *t);
                assert(ev_reduce(es.last(), sv_lift_by(sv_raise(k), c)) =~= sh_ev(
                    c,
                    k,
                    es.last(),
                ));
            }
            ElimV::Proj(_) => {
                assert(ev_reduce(es.last(), sv_lift_by(sv_raise(k), c)) =~= sh_ev(
                    c,
                    k,
                    es.last(),
                ));
            }
        }
        assert(evs_reduce(es, sv_lift_by(sv_raise(k), c)) =~= sh_evs(c, k, es));
    }
}

pub proof fn lemma_reduce_raise_terms(c: nat, k: nat, ts: Seq<TermV>)
    ensures
        tvs_reduce(ts, sv_lift_by(sv_raise(k), c)) == sh_tvs(c, k, ts),
    decreases tvs_size(ts), 2nat,
{
    if ts.len() == 0 {
        assert(tvs_reduce(ts, sv_lift_by(sv_raise(k), c)) =~= sh_tvs(c, k, ts));
    } else {
        crate::term::lemma_tv_size_pos(ts.last());
        lemma_reduce_raise_terms(c, k, ts.drop_last());
        lemma_reduce_raise(c, k, ts.last());
        assert(tvs_reduce(ts, sv_lift_by(sv_raise(k), c)) =~= sh_tvs(c, k, ts));
    }
}

/// Looking a variable up through a weakening resolves it through the
/// rest, then re-shifts the result by the weakening amount.
pub proof fn lemma_lookup_weak(k: nat, r: SubstV, d: nat)
    ensures
        sv_lookup(SubstV::Weak(k, Box::new(r)), d) == tv_reduce(sv_lookup(r, d), sv_raise(k)),
{
    lemma_reduce_raise(0, k, sv_lookup(r, d));
    if r is IdS {
        assert(sh_evs(0, k, Seq::empty()) =~= Seq::<ElimV>::empty());
        assert(sh_tv(0, k, tv_from_dbi(d)) =~= tv_from_dbi(d + k));
    }
}

/// Looking a variable up through a lifting leaves the variables under
/// the lift alone and re-shifts what the rest resolves beyond them.
pub proof fn lemma_lookup_lift(n: nat, r: SubstV, d: nat)
    ensures
        d < n ==> sv_lookup(SubstV::Lift(n, Box::new(r)), d) == tv_from_dbi(d),
        d >= n ==> sv_lookup(SubstV::Lift(n, Box::new(r)), d) == tv_reduce(
            sv_lookup(r, (d - n) as nat),
            sv_raise(n),
        ),
{
    if d >= n {
        lemma_reduce_raise(0, n, sv_lookup(r, (d - n) as nat));
    }
}

/// An extension chain: the identity, extended term by term — the shape
/// of the substitutions that pattern matching and beta-steps build.
pub open spec fn sv_is_extension(s: SubstV) -> bool
    decreases s,
{
    match s {
        SubstV::IdS => true,
        SubstV::Cons(_, r) => sv_is_extension(*r),
        _ => false,
    }
}

/// The defining equation of composition, at every index: looking a
/// variable up in `compose(rho, sgm)` is looking it up in `sgm` and
/// then applying `rho`.  It is stated for extension-chain right
/// operands, the substitutions that beta-steps and pattern matching
/// build; under a weakening operand composition goes through the
/// dropping rule, whose step under a weakening keeps one level more
/// than sequential application does, so there the equation is not one
/// of this calculus.
pub proof fn lemma_compose_extension(rho: SubstV, sgm: SubstV, i: nat)
    requires
        sv_is_extension(sgm),
    ensures
        sv_lookup(sv_compose(rho, sgm), i) == tv_reduce(sv_lookup(sgm, i), rho),
    decreases sgm,
{
    if sgm is IdS {
        let x = sv_lookup(rho, i);
        assert(evs_reduce(Seq::empty(), rho) =~= Seq::<ElimV>::empty());
        lemma_apply_elim_empty(x);
        assert(tv_reduce(tv_from_dbi(i), rho) == x);
    } else if rho is IdS {
        lemma_reduce_identity(sv_lookup(sgm, i));
    } else {
        match sgm {
            SubstV::Cons(u, s2) => {
                if i == 0 {
                } else {
                    lemma_compose_extension(rho, *s2, (i - 1) as nat);
                }
            }
            _ => {}
        }
    }
}


/// The identity substitution is a unit of composition, on both sides.
pub proof fn lemma_compose_identity(rho: SubstV)
    ensures
        sv_compose(SubstV::IdS, rho) == rho,
        sv_compose(rho, SubstV::IdS) == rho,
{
}

/// Looking a variable up in a raising shifts it by exactly the raised
/// amount.
pub proof fn lemma_lookup_raise(k: nat, i: nat)
    ensures
        sv_lookup(sv_raise(k), i) == tv_from_dbi(i + k),
{
}

/// Consecutive lifts fuse: lifting by `m`, then by `n`, is lifting by
/// `m + n`.
pub proof fn lemma_lift_by_fuse(rho: SubstV, m: nat, n: nat)
    ensures
        sv_lift_by(sv_lift_by(rho, m), n) == sv_lift_by(rho, m + n),
{
}

} // verus!
