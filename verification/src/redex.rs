//! Applying substitutions to reducible expressions.

use vstd::prelude::*;

use crate::common::{GI, Ident};
use crate::subst::{
    bv_reduce, bv_reduce_ok, clv_reduce, clv_reduce_ok, ev_reduce, ev_reduce_ok, evs_reduce,
    evs_reduce_ok, tv_reduce, tv_reduce_ok, tvs_reduce, tvs_reduce_ok, vv_reduce, vv_reduce_ok,
    Subst,
};
use crate::term::{
    bv_size, clv_size, elims_v, ev_size, evs_size, lemma_elims_v, lemma_evs_size_elem,
    lemma_terms_v, lemma_tvs_size_elem, terms_v, tv_size, tvs_size, vv_size, Bind, Closure, Elim,
    Term, TermV, Val,
};

verus! {

/// An application of a global definition to an elimination spine, left as
/// a redex for the normalizer to unfold.
pub fn def_app(f: GI, id: Ident, mut a: Vec<Elim>, mut new_args: Vec<Elim>) -> (r: Term)
    ensures
        r@ == TermV::Redex(f as nat, id@, elims_v(a@) + elims_v(new_args@)),
{
    let ghost a0 = a@;
    let ghost b0 = new_args@;
    a.append(&mut new_args);
    proof {
        crate::term::lemma_elims_v_concat(a0, b0);
    }
    Term::Redex(f, id, a)
}

/// Reducible expressions: whatever a substitution can be applied to.
pub trait RedEx<T>: Sized {
    /// Whether this expression is inside the domain of the substitution:
    /// the calculus' invariants hold and every shifted index still fits.
    spec fn red_ok(self, subst: &Subst) -> bool;

    /// Apply a substitution to this expression.
    fn reduce_dbi(self, subst: &Subst) -> T
        requires
            self.red_ok(subst),
    ;
}

impl RedEx<Term> for Term {
    open spec fn red_ok(self, subst: &Subst) -> bool {
        tv_reduce_ok(self@, subst@)
    }

    fn reduce_dbi(self, subst: &Subst) -> (r: Term)
        ensures
            r@ == tv_reduce(self@, subst@),
        decreases tv_size(self@), 1nat,
    {
        match self {
            Term::Whnf(n) => n.reduce_dbi(subst),
            Term::Redex(f, id, args) => {
                let r = def_app(f, id, Vec::new(), reduce_vec_dbi(args, subst));
                proof {
                    assert(elims_v(Seq::<Elim>::empty()) =~= Seq::<crate::term::ElimV>::empty());
                    let reduced = evs_reduce(elims_v(args@), subst@);
                    assert(Seq::<crate::term::ElimV>::empty() + reduced =~= reduced);
                }
                r
            }
        }
    }
}

impl RedEx<Elim> for Elim {
    open spec fn red_ok(self, subst: &Subst) -> bool {
        ev_reduce_ok(self@, subst@)
    }

    fn reduce_dbi(self, subst: &Subst) -> (r: Elim)
        ensures
            r@ == ev_reduce(self@, subst@),
        decreases ev_size(self@), 1nat,
    {
        match self {
            Elim::App(term) => Elim::app(term.reduce_dbi(subst)),
            e => e,
        }
    }
}

impl RedEx<Term> for Val {
    open spec fn red_ok(self, subst: &Subst) -> bool {
        vv_reduce_ok(self@, subst@)
    }

    fn reduce_dbi(self, subst: &Subst) -> (r: Term)
        ensures
            r@ == vv_reduce(self@, subst@),
        decreases vv_size(self@), 1nat,
    {
        match self {
            Val::Pi(arg, closure) => {
                let arg = *arg;
                let ghost argv = arg@;
                Term::pi2(
                    Bind {
                        licit: arg.licit,
                        name: arg.name,
                        ty: arg.ty.reduce_dbi(subst),
                        val: arg.val,
                    }.boxed(),
                    closure.reduce_dbi(subst),
                )
            }
            Val::Cons(name, a) => Term::cons(name, reduce_vec_terms(a, subst)),
            Val::Type(n) => Term::universe(n),
            Val::Data(kind, gi, a) => Term::data(kind, gi, reduce_vec_terms(a, subst)),
            Val::Meta(m, a) => Term::meta(m, reduce_vec_dbi(a, subst)),
            Val::Var(f, args) => subst.lookup(f).apply_elim(reduce_vec_dbi(args, subst)),
            Val::Axiom(a) => Term::Whnf(Val::Axiom(a)),
            Val::Refl => Term::reflexivity(),
            Val::Id(ty, a, b) => Term::identity(
                ty.reduce_dbi(subst),
                a.reduce_dbi(subst),
                b.reduce_dbi(subst),
            ),
        }
    }
}

impl RedEx<Closure> for Closure {
    open spec fn red_ok(self, subst: &Subst) -> bool {
        clv_reduce_ok(self@, subst@)
    }

    fn reduce_dbi(self, subst: &Subst) -> (r: Closure)
        ensures
            r@ == clv_reduce(self@, subst@),
        decreases clv_size(self@), 1nat,
    {
        let Closure::Plain(body) = self;
        let lifted = subst.lifted();
        Closure::plain(body.reduce_dbi(&*lifted))
    }
}

impl RedEx<Bind> for Bind {
    open spec fn red_ok(self, subst: &Subst) -> bool {
        bv_reduce_ok(self@, subst@)
    }

    fn reduce_dbi(self, subst: &Subst) -> (r: Bind)
        ensures
            r@ == bv_reduce(self@, subst@),
        decreases bv_size(self@), 1nat,
    {
        Bind { licit: self.licit, name: self.name, ty: self.ty.reduce_dbi(subst), val: self.val }
    }
}

/// Applies a substitution to each elimination of a spine.
pub fn reduce_vec_dbi(me: Vec<Elim>, subst: &Subst) -> (r: Vec<Elim>)
    requires
        evs_reduce_ok(elims_v(me@), subst@),
    ensures
        elims_v(r@) == evs_reduce(elims_v(me@), subst@),
    decreases evs_size(elims_v(me@)), 2nat,
{
    let ghost mev = elims_v(me@);
    let mut out: Vec<Elim> = Vec::new();
    let mut i: usize = 0;
    proof {
        lemma_elims_v(me@);
        lemma_evs_reduce_elem(mev, subst@);
    }
    while i < me.len()
        invariant
            i <= me.len(),
            mev == elims_v(me@),
            mev.len() == me@.len(),
            forall|j: int| 0 <= j < me@.len() ==> mev[j] == me@[j]@,
            evs_reduce_ok(mev, subst@),
            evs_reduce(mev, subst@).len() == mev.len(),
            forall|j: int| 0 <= j < mev.len() ==> #[trigger] evs_reduce(mev, subst@)[j]
                == ev_reduce(mev[j], subst@),
            forall|j: int| 0 <= j < mev.len() ==> ev_reduce_ok(#[trigger] mev[j], subst@),
            out@.len() == i as int,
            forall|j: int| 0 <= j < i ==> out@[j]@ == ev_reduce(mev[j], subst@),
        decreases me@.len() - i,
    {
        proof {
            lemma_evs_size_elem(mev, i as int);
        }
        let e = me[i].clone();
        out.push(e.reduce_dbi(subst));
        i = i + 1;
    }
    proof {
        lemma_elims_v(out@);
        assert(elims_v(out@) =~= evs_reduce(mev, subst@));
    }
    out
}

fn reduce_vec_terms(me: Vec<Term>, subst: &Subst) -> (r: Vec<Term>)
    requires
        tvs_reduce_ok(terms_v(me@), subst@),
    ensures
        terms_v(r@) == tvs_reduce(terms_v(me@), subst@),
    decreases tvs_size(terms_v(me@)), 2nat,
{
    let ghost mev = terms_v(me@);
    let mut out: Vec<Term> = Vec::new();
    let mut i: usize = 0;
    proof {
        lemma_terms_v(me@);
        lemma_tvs_reduce_elem(mev, subst@);
    }
    while i < me.len()
        invariant
            i <= me.len(),
            mev == terms_v(me@),
            mev.len() == me@.len(),
            forall|j: int| 0 <= j < me@.len() ==> mev[j] == me@[j]@,
            tvs_reduce_ok(mev, subst@),
            tvs_reduce(mev, subst@).len() == mev.len(),
            forall|j: int| 0 <= j < mev.len() ==> #[trigger] tvs_reduce(mev, subst@)[j]
                == tv_reduce(mev[j], subst@),
            forall|j: int| 0 <= j < mev.len() ==> tv_reduce_ok(#[trigger] mev[j], subst@),
            out@.len() == i as int,
            forall|j: int| 0 <= j < i ==> out@[j]@ == tv_reduce(mev[j], subst@),
        decreases me@.len() - i,
    {
        proof {
            lemma_tvs_size_elem(mev, i as int);
        }
        let t = me[i].clone();
        out.push(t.reduce_dbi(subst));
        i = i + 1;
    }
    proof {
        lemma_terms_v(out@);
        assert(terms_v(out@) =~= tvs_reduce(mev, subst@));
    }
    out
}

/// Elementwise description of reducing a spine.
pub proof fn lemma_evs_reduce_elem(es: Seq<crate::term::ElimV>, s: crate::subst::SubstV)
    ensures
        evs_reduce(es, s).len() == es.len(),
        forall|i: int| 0 <= i < es.len() ==> #[trigger] evs_reduce(es, s)[i] == ev_reduce(
            es[i],
            s,
        ),
        evs_reduce_ok(es, s) ==> forall|i: int| 0 <= i < es.len() ==> ev_reduce_ok(
            #[trigger] es[i],
            s,
        ),
    decreases es,
{
    if es.len() > 0 {
        lemma_evs_reduce_elem(es.drop_last(), s);
        if evs_reduce_ok(es, s) {
            assert forall|i: int| 0 <= i < es.len() implies ev_reduce_ok(
                #[trigger] es[i],
                s,
            ) by {
                if i < es.len() - 1 {
                    assert(es.drop_last()[i] == es[i]);
                    assert(ev_reduce_ok(es.drop_last()[i], s));
                } else {
                    assert(es[i] == es.last());
                }
            }
        }
    }
}

/// Elementwise description of reducing an argument list.
pub proof fn lemma_tvs_reduce_elem(ts: Seq<TermV>, s: crate::subst::SubstV)
    ensures
        tvs_reduce(ts, s).len() == ts.len(),
        forall|i: int| 0 <= i < ts.len() ==> #[trigger] tvs_reduce(ts, s)[i] == tv_reduce(
            ts[i],
            s,
        ),
        tvs_reduce_ok(ts, s) ==> forall|i: int| 0 <= i < ts.len() ==> tv_reduce_ok(
            #[trigger] ts[i],
            s,
        ),
    decreases ts,
{
    if ts.len() > 0 {
        lemma_tvs_reduce_elem(ts.drop_last(), s);
        if tvs_reduce_ok(ts, s) {
            assert forall|i: int| 0 <= i < ts.len() implies tv_reduce_ok(
                #[trigger] ts[i],
                s,
            ) by {
                if i < ts.len() - 1 {
                    assert(ts.drop_last()[i] == ts[i]);
                    assert(tv_reduce_ok(ts.drop_last()[i], s));
                } else {
                    assert(ts[i] == ts.last());
                }
            }
        }
    }
}

} // verus!
