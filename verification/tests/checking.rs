//! Normalization, conversion and bidirectional checking on concrete
//! values.

use narc::abs::{Abs, AbsBind};
use narc::common::{Ductive, Ident, Loc, Plicit};
use narc::decl::{Clause, ConsDecl, Decl, FuncDecl};
use narc::monad::{TCE, TCS};
use narc::term::{Bind, Elim, Term, Val};
use narc::tycheck::{check, check_fallback, is_eta_var, is_eta_var_borrow};
use narc::unify::subtype;
use narc::whnf::{elims_to_terms, simplify};

fn ident(text: &str) -> Ident {
    Ident::new(text.to_string(), Loc::new(0, text.len()))
}

fn empty_tcs() -> TCS {
    TCS::new(vec![])
}

// ------------------------------------------------------------------
// Weak-head normalization.
// ------------------------------------------------------------------

#[test]
fn simplify_is_the_identity_on_weak_head_terms() {
    let cases = vec![
        Term::universe(0),
        Term::from_dbi(3),
        Term::reflexivity(),
        Term::Whnf(Val::Axiom(9)),
    ];
    for t in cases {
        let expected = match &t {
            Term::Whnf(v) => format!("{:?}", v),
            _ => unreachable!(),
        };
        let (v, _) = simplify(empty_tcs(), t).unwrap();
        assert_eq!(format!("{:?}", v), expected);
    }
}

#[test]
fn simplify_unfolds_a_data_redex() {
    let tcs = TCS::new(vec![Decl::Data]);
    let redex = Term::Redex(0, ident("Nat"), vec![Elim::app(Term::universe(0))]);
    let (v, _) = simplify(tcs, redex).unwrap();
    assert_eq!(v, Val::Data(Ductive::In, 0, vec![Term::universe(0)]));
}

#[test]
fn simplify_unfolds_a_constructor_redex_in_order() {
    let sigma = vec![
        Decl::Data,
        Decl::Cons(ConsDecl { data: 0, fields: Some(vec!["car".to_string()]) }),
    ];
    let redex = Term::Redex(
        1,
        ident("cons"),
        vec![Elim::app(Term::from_dbi(0)), Elim::app(Term::universe(2))],
    );
    let (v, _) = simplify(TCS::new(sigma), redex).unwrap();
    match v {
        Val::Cons(head, args) => {
            assert_eq!(head.cons_gi, 0);
            assert_eq!(head.ductive, Ductive::In);
            assert_eq!(head.fields, vec!["car".to_string()]);
            assert_eq!(args, vec![Term::from_dbi(0), Term::universe(2)]);
        }
        other => panic!("expected a constructor value, got {:?}", other),
    }
}

#[test]
fn simplify_rejects_a_projection_in_a_constructor_spine() {
    let sigma = vec![
        Decl::Data,
        Decl::Cons(ConsDecl { data: 0, fields: None }),
    ];
    let redex = Term::Redex(
        1,
        ident("mk"),
        vec![Elim::app(Term::universe(0)), Elim::Proj("fst".to_string())],
    );
    let e = simplify(TCS::new(sigma), redex).unwrap_err();
    assert_eq!(e, TCE::NotTerm("fst".to_string()));
}

#[test]
fn simplify_fails_when_no_clause_matches() {
    let f = FuncDecl { name: ident("f"), clauses: vec![] };
    let tcs = TCS::new(vec![Decl::Func(f)]);
    let redex = Term::Redex(0, ident("f"), vec![]);
    let e = simplify(tcs, redex).unwrap_err();
    assert_eq!(e, TCE::CantFindPattern(ident("f")));
}

#[test]
fn simplify_filters_absurd_and_oversized_clauses() {
    // One absurd clause, and one needing more eliminations than given:
    // neither survives the filter, so unfolding fails.
    let clauses = vec![
        Clause { patterns: vec![], body: None },
        Clause {
            patterns: vec![
                narc::decl::CoreCopat::App(narc::decl::CorePat::Var(0)),
                narc::decl::CoreCopat::App(narc::decl::CorePat::Refl),
            ],
            body: Some(Term::universe(0)),
        },
    ];
    let f = FuncDecl { name: ident("g"), clauses };
    let tcs = TCS::new(vec![Decl::Func(f)]);
    let redex = Term::Redex(0, ident("g"), vec![Elim::app(Term::universe(0))]);
    let e = simplify(tcs, redex).unwrap_err();
    assert_eq!(e, TCE::CantFindPattern(ident("g")));
}

#[test]
fn elims_to_terms_keeps_order_and_names_the_first_projection() {
    let ok = elims_to_terms(vec![
        Elim::app(Term::universe(1)),
        Elim::app(Term::from_dbi(0)),
    ]);
    assert_eq!(ok.unwrap(), vec![Term::universe(1), Term::from_dbi(0)]);
    let err = elims_to_terms(vec![
        Elim::app(Term::universe(1)),
        Elim::Proj("a".to_string()),
        Elim::Proj("b".to_string()),
    ]);
    assert_eq!(err.unwrap_err(), TCE::NotTerm("a".to_string()));
}

// ------------------------------------------------------------------
// Conversion.
// ------------------------------------------------------------------

#[test]
fn subtype_is_reflexive_on_weak_head_values() {
    let samples = vec![
        Val::Type(4),
        Val::Refl,
        Val::Axiom(2),
        Val::Var(1, vec![Elim::app(Term::universe(0)), Elim::Proj("p".to_string())]),
        Val::Data(Ductive::Coin, 0, vec![Term::from_dbi(0)]),
    ];
    for v in samples {
        assert!(subtype(empty_tcs(), &v, &v).is_ok(), "not reflexive at {:?}", v);
    }
}

#[test]
fn subtype_subsumes_universe_levels() {
    assert!(subtype(empty_tcs(), &Val::Type(0), &Val::Type(1)).is_ok());
    assert!(subtype(empty_tcs(), &Val::Type(3), &Val::Type(3)).is_ok());
    let e = subtype(empty_tcs(), &Val::Type(1), &Val::Type(0)).unwrap_err();
    match e {
        TCE::DifferentTerm(a, b) => {
            assert_eq!(*a, Term::universe(1));
            assert_eq!(*b, Term::universe(0));
        }
        other => panic!("expected a conversion error, got {:?}", other),
    }
}

#[test]
fn subtype_tells_different_neutrals_apart() {
    let a = Val::Var(0, vec![]);
    let b = Val::Var(1, vec![]);
    assert!(subtype(empty_tcs(), &a, &b).is_err());
}

// ------------------------------------------------------------------
// Bidirectional checking.
// ------------------------------------------------------------------

#[test]
fn universe_checks_against_a_strictly_higher_universe() {
    let abs = Abs::Type(ident("Type0"), 0);
    let (info, tcs) = check(empty_tcs(), &abs, &Val::Type(1)).unwrap();
    assert_eq!(info.ast, Term::universe(0));
    assert_eq!(tcs.gamma.len(), 0);
}

#[test]
fn universe_against_a_lower_universe_is_a_level_mismatch() {
    let tok = ident("Type1");
    let loc = tok.loc;
    let abs = Abs::Type(tok, 1);
    let e = check(empty_tcs(), &abs, &Val::Type(0)).unwrap_err();
    assert_eq!(e, TCE::LevelMismatch(loc, 2, 0));
}

#[test]
fn pi_checks_against_a_universe_and_restores_the_context() {
    let dom = Abs::Type(ident("Type0"), 0);
    let cod = Abs::Type(ident("Type0"), 0);
    let pi = Abs::Pi(
        Loc::new(0, 20),
        AbsBind { licit: Plicit::Ex, name: 11, ty: Box::new(dom) },
        Box::new(cod),
    );
    let tcs = empty_tcs();
    let before = tcs.gamma.len();
    let (info, tcs) = check(tcs, &pi, &Val::Type(1)).unwrap();
    assert_eq!(tcs.gamma.len(), before);
    match info.ast {
        Term::Whnf(Val::Pi(bind, _closure)) => {
            assert_eq!(bind.licit, Plicit::Ex);
            assert_eq!(bind.name, 11);
            assert_eq!(bind.ty, Term::universe(0));
        }
        other => panic!("expected a function type, got {:?}", other),
    }
}

#[test]
fn checking_traces_leave_the_depth_balanced() {
    let mut tcs = empty_tcs();
    tcs.trace_tc = true;
    let abs = Abs::Type(ident("Type0"), 0);
    let (_, tcs) = check(tcs, &abs, &Val::Type(1)).unwrap();
    assert_eq!(tcs.tc_depth, 0);
    assert!(tcs.trace_tc);
}

#[test]
fn a_variable_checks_by_inference_and_conversion() {
    let mut tcs = empty_tcs();
    tcs.gamma.push(Bind::new(Plicit::Ex, 5, Term::universe(0)));
    let abs = Abs::Var(ident("x"), 0);
    let (info, tcs) = check(tcs, &abs, &Val::Type(0)).unwrap();
    assert_eq!(info.ast, Term::from_dbi(0));
    assert_eq!(tcs.gamma.len(), 1);
}

#[test]
fn a_failed_conversion_is_wrapped_with_the_location() {
    let mut tcs = empty_tcs();
    tcs.gamma.push(Bind::new(Plicit::Ex, 5, Term::universe(0)));
    let tok = ident("x");
    let loc = tok.loc;
    let abs = Abs::Var(tok, 0);
    let e = check_fallback(tcs, abs, &Val::Refl).unwrap_err();
    match e {
        TCE::Wrapped(at, inner) => {
            assert_eq!(at, loc);
            assert!(matches!(*inner, TCE::DifferentTerm(_, _)));
        }
        other => panic!("expected a wrapped error, got {:?}", other),
    }
}

// ------------------------------------------------------------------
// Eta-variable analysis.
// ------------------------------------------------------------------

#[test]
fn a_bare_variable_is_eta_equal_to_itself() {
    let (found, _) = is_eta_var(empty_tcs(), Term::from_dbi(1), Term::universe(0)).unwrap();
    assert_eq!(found, Some(1));
}

#[test]
fn anything_else_is_unresolved() {
    let (found, _) = is_eta_var(empty_tcs(), Term::universe(0), Term::universe(1)).unwrap();
    assert_eq!(found, None);
    let applied = Term::Whnf(Val::Var(0, vec![Elim::app(Term::universe(0))]));
    let (found, _) = is_eta_var(empty_tcs(), applied, Term::universe(1)).unwrap();
    assert_eq!(found, None);
}

#[test]
fn the_borrowing_shortcut_agrees_on_bare_variables() {
    let term = Term::from_dbi(2);
    let ty = Term::universe(0);
    let (found, _) = is_eta_var_borrow(empty_tcs(), &term, &ty).unwrap();
    assert_eq!(found, Some(2));
}

// ------------------------------------------------------------------
// The diagnostic trace protocol.
// ------------------------------------------------------------------

#[test]
fn the_trace_line_format_is_verbatim() {
    let mut tcs = empty_tcs();
    tcs.tc_depth = 2;
    assert_eq!(
        tcs.trace_line("x", "T", "V"),
        "    \u{22A2} x : T \u{2193} V".to_string(),
    );
    tcs.tc_depth = 0;
    assert_eq!(tcs.trace_line("a", "b", "c"), "\u{22A2} a : b \u{2193} c".to_string());
}

#[test]
fn the_failure_line_format_is_verbatim() {
    let mut tcs = empty_tcs();
    tcs.tc_depth = 1;
    assert_eq!(tcs.checking_line("x", "T"), "  Checking x : T".to_string());
}
