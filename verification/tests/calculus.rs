//! The substitution calculus on concrete values.

use std::rc::Rc;

use narc::common::Loc;
use narc::redex::RedEx;
use narc::subst::{PrimSubst, Subst};
use narc::common::Plicit;
use narc::term::{Bind, Closure, Elim, Term, Val};

fn ids() -> Rc<Subst> {
    Rc::new(PrimSubst::IdS)
}

#[test]
fn compose_identity_left() {
    let rho: Rc<Subst> = Rc::new(PrimSubst::Cons(Term::from_dbi(4), ids()));
    let r = Subst::compose(ids(), Rc::clone(&rho));
    assert_eq!(*r, PrimSubst::Cons(Term::from_dbi(4), ids()));
}

#[test]
fn compose_identity_right() {
    let rho: Rc<Subst> = Rc::new(PrimSubst::Lift(2, ids()));
    let r = Subst::compose(Rc::clone(&rho), ids());
    assert_eq!(*r, PrimSubst::Lift(2, ids()));
}

#[test]
fn lookup_raise_shifts_by_the_raised_amount() {
    assert_eq!(Subst::raise(3).lookup(5), Term::from_dbi(8));
    assert_eq!(Subst::raise(0).lookup(7), Term::from_dbi(7));
    assert_eq!(Subst::raise(9).lookup(0), Term::from_dbi(9));
}

#[test]
fn lift_by_fuses() {
    let rho: Rc<Subst> = Rc::new(PrimSubst::Cons(Term::universe(0), ids()));
    let twice = Subst::lift_by(Subst::lift_by(Rc::clone(&rho), 2), 3);
    let once = Subst::lift_by(Rc::clone(&rho), 5);
    assert_eq!(*twice, *once);
    assert_eq!(*twice, PrimSubst::Lift(5, rho));
}

#[test]
fn lift_by_zero_is_the_same_substitution() {
    let rho: Rc<Subst> = Rc::new(PrimSubst::Succ(ids()));
    assert_eq!(*Subst::lift_by(rho, 0), PrimSubst::Succ(ids()));
}

#[test]
fn lift_of_identity_stays_identity() {
    assert_eq!(*Subst::lift_by(ids(), 4), PrimSubst::IdS);
}

#[test]
fn weaken_fuses() {
    let w = Subst::weaken(Subst::weaken(ids(), 2), 3);
    assert_eq!(*w, PrimSubst::Weak(5, ids()));
}

#[test]
fn drop_by_zero_is_the_same_substitution() {
    let rho: Rc<Subst> = Rc::new(PrimSubst::Weak(1, ids()));
    assert_eq!(*Subst::drop_by(rho, 0), PrimSubst::Weak(1, ids()));
}

#[test]
fn drop_of_identity_raises() {
    assert_eq!(*Subst::drop_by(ids(), 2), PrimSubst::Weak(2, ids()));
}

#[test]
fn drop_skips_an_extension() {
    let rho: Rc<Subst> = Rc::new(PrimSubst::Cons(Term::universe(0), ids()));
    assert_eq!(*Subst::drop_by(rho, 1), PrimSubst::IdS);
}

#[test]
fn one_maps_variable_zero_only() {
    let s = Subst::one(Term::universe(3));
    assert_eq!(s.lookup(0), Term::universe(3));
    assert_eq!(s.lookup(1), Term::from_dbi(0));
    assert_eq!(s.lookup(2), Term::from_dbi(1));
}

#[test]
fn reduce_replaces_a_variable_and_reapplies_its_spine() {
    // (var 0) applied to (var 1), under the substitution sending 0 to a redex head.
    let head = Term::Redex(
        0,
        narc::common::Ident::new("f".to_string(), Loc::new(0, 1)),
        vec![],
    );
    let subst = Subst::one(head);
    let stuck = Term::Whnf(Val::Var(0, vec![Elim::app(Term::from_dbi(1))]));
    let reduced = stuck.reduce_dbi(&subst);
    match reduced {
        Term::Redex(f, _, elims) => {
            assert_eq!(f, 0);
            // the spine's variable 1 steps down to variable 0
            assert_eq!(elims, vec![Elim::app(Term::from_dbi(0))]);
        }
        other => panic!("expected a redex, got {:?}", other),
    }
}

#[test]
fn raise_term_shifts_free_variables() {
    let t = Term::Whnf(Val::Var(2, vec![Elim::app(Term::from_dbi(0))]));
    let r = Subst::raise_term(3, t);
    assert_eq!(r, Term::Whnf(Val::Var(5, vec![Elim::app(Term::from_dbi(3))])));
}

#[test]
fn raise_from_leaves_inner_variables_alone() {
    // raise_from 1 2: variable 0 is under the lift, variable 1 is shifted.
    assert_eq!(Subst::raise_from(1, 2, Term::from_dbi(0)), Term::from_dbi(0));
    assert_eq!(Subst::raise_from(1, 2, Term::from_dbi(1)), Term::from_dbi(3));
}

#[test]
fn compose_weak_with_cons_cancels() {
    // compose(Cons(u, IdS), Weak(1, IdS)) first drops the extension, then is the identity.
    let rho: Rc<Subst> = Rc::new(PrimSubst::Cons(Term::universe(7), ids()));
    let sgm: Rc<Subst> = Rc::new(PrimSubst::Weak(1, ids()));
    let r = Subst::compose(rho, sgm);
    assert_eq!(*r, PrimSubst::IdS);
    // The same composition looked up at 0 gives the variable itself.
    assert_eq!(
        Subst::compose(
            Rc::new(PrimSubst::Cons(Term::universe(7), ids())),
            Rc::new(PrimSubst::Weak(1, ids())),
        )
        .lookup(0),
        Term::from_dbi(0),
    );
}

#[test]
fn compose_cons_substitutes_through() {
    // compose(raise(2), Cons(var 0, IdS)) raises the extension's payload.
    let rho = Subst::raise(2);
    let sgm: Rc<Subst> = Rc::new(PrimSubst::Cons(Term::from_dbi(0), ids()));
    let r = Subst::compose(rho, sgm);
    assert_eq!(r.lookup(0), Term::from_dbi(2));
}

#[test]
fn lookup_through_a_weakening_resolves_the_queried_index() {
    // Weakening over a non-identity tail: the queried variable is
    // resolved through the tail, then the result is shifted.
    let s: Rc<Subst> = Rc::new(PrimSubst::Weak(
        1,
        Rc::new(PrimSubst::Cons(Term::universe(0), ids())),
    ));
    assert_eq!(s.lookup(0), Term::universe(0));
    assert_eq!(s.lookup(1), Term::from_dbi(1));
    assert_eq!(s.lookup(2), Term::from_dbi(2));
    // The shift applies to the resolved term's variables.
    let s2: Rc<Subst> = Rc::new(PrimSubst::Weak(
        3,
        Rc::new(PrimSubst::Cons(Term::from_dbi(5), ids())),
    ));
    assert_eq!(s2.lookup(0), Term::from_dbi(8));
}

#[test]
fn composing_then_looking_up_agrees_with_sequential_application() {
    // compose(rho, sgm) applies sgm first, then rho.
    let rho: Rc<Subst> = Rc::new(PrimSubst::Cons(Term::universe(7), ids()));
    let sgm: Rc<Subst> = Rc::new(PrimSubst::Weak(
        1,
        Rc::new(PrimSubst::Cons(Term::universe(0), ids())),
    ));
    let composite = Subst::compose(Rc::clone(&rho), Rc::clone(&sgm));
    for i in 0..4usize {
        let sequential = sgm.lookup(i).reduce_dbi(&rho);
        assert_eq!(composite.lookup(i), sequential, "at index {}", i);
    }
}

#[test]
fn substitution_under_a_binder_leaves_the_bound_variable_alone() {
    // In the closure body, variable 0 is the binder's own variable;
    // variable 1 is the substitution's variable 0.
    let bound = Closure::plain(Term::from_dbi(0));
    let free = Closure::plain(Term::from_dbi(1));
    let s = Subst::one(Term::universe(5));
    assert_eq!(bound.reduce_dbi(&s), Closure::plain(Term::from_dbi(0)));
    assert_eq!(free.reduce_dbi(&s), Closure::plain(Term::universe(5)));
}

#[test]
fn reducing_a_function_type_lifts_into_the_codomain() {
    // Pi over a domain naming variable 0, whose codomain also names the
    // domain's variable (index 1 under the binder) next to its own
    // bound variable (index 0).
    let pi = Val::Pi(
        Box::new(Bind::new(Plicit::Ex, 9, Term::from_dbi(0))),
        Closure::plain(Term::Whnf(Val::Id(
            Box::new(Term::from_dbi(1)),
            Box::new(Term::from_dbi(0)),
            Box::new(Term::from_dbi(0)),
        ))),
    );
    let s = Subst::one(Term::universe(4));
    let reduced = pi.reduce_dbi(&s);
    match reduced {
        Term::Whnf(Val::Pi(bind, Closure::Plain(body))) => {
            assert_eq!(bind.ty, Term::universe(4));
            assert_eq!(
                *body,
                Term::Whnf(Val::Id(
                    Box::new(Term::universe(4)),
                    Box::new(Term::from_dbi(0)),
                    Box::new(Term::from_dbi(0)),
                )),
            );
        }
        other => panic!("expected a function type, got {:?}", other),
    }
}
