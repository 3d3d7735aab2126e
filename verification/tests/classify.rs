//! Partitioning problem equations.

use narc::common::{Ident, Loc};
use narc::eqs::{classify_eqs, AbsCopat, AbsPat, AsBind, Equation, PatClass};
use narc::monad::TCS;
use narc::term::Term;

fn ident(text: &str) -> Ident {
    Ident::new(text.to_string(), Loc::new(0, text.len()))
}

fn empty_tcs() -> TCS {
    TCS::new(vec![])
}

fn absurd_eq() -> Equation {
    Equation {
        in_pat: AbsCopat::App(AbsPat::Absurd),
        inst: Term::from_dbi(0),
        ty: Term::universe(0),
    }
}

fn var_eq(name: usize, inst: Term) -> Equation {
    Equation { in_pat: AbsCopat::App(AbsPat::Var(name)), inst, ty: Term::universe(0) }
}

fn other_eq() -> Equation {
    Equation {
        in_pat: AbsCopat::App(AbsPat::Refl),
        inst: Term::reflexivity(),
        ty: Term::universe(0),
    }
}

#[test]
fn one_absurd_pattern_only_counts() {
    let (class, _) = classify_eqs(empty_tcs(), vec![absurd_eq()]).unwrap();
    assert_eq!(class.absurd_count, 1);
    assert!(class.as_binds.is_empty());
    assert!(class.other_pats.is_empty());
    assert!(class.pat_vars.is_empty());
}

#[test]
fn a_variable_pattern_on_a_bound_variable_names_its_position() {
    let (class, _) = classify_eqs(empty_tcs(), vec![var_eq(40, Term::from_dbi(2))]).unwrap();
    assert_eq!(class.absurd_count, 0);
    assert!(class.as_binds.is_empty());
    assert!(class.other_pats.is_empty());
    assert_eq!(class.pat_vars, vec![(2, vec![40])]);
}

#[test]
fn a_variable_pattern_on_anything_else_becomes_an_as_binding() {
    let (class, _) = classify_eqs(empty_tcs(), vec![var_eq(41, Term::universe(3))]).unwrap();
    assert_eq!(class.absurd_count, 0);
    assert!(class.pat_vars.is_empty());
    assert_eq!(
        class.as_binds,
        vec![AsBind { name: 41, term: Term::universe(3), ty: Term::universe(0) }],
    );
}

#[test]
fn names_at_one_position_accumulate_in_order() {
    let eqs = vec![
        var_eq(1, Term::from_dbi(2)),
        var_eq(2, Term::from_dbi(0)),
        var_eq(3, Term::from_dbi(2)),
    ];
    let (class, _) = classify_eqs(empty_tcs(), eqs).unwrap();
    assert_eq!(class.pat_vars, vec![(2, vec![1, 3]), (0, vec![2])]);
}

#[test]
fn any_other_pattern_is_left_for_splitting() {
    let (class, _) = classify_eqs(empty_tcs(), vec![other_eq()]).unwrap();
    assert_eq!(class.other_pats, vec![AbsCopat::App(AbsPat::Refl)]);
    let projection = Equation {
        in_pat: AbsCopat::Proj("fst".to_string()),
        inst: Term::from_dbi(0),
        ty: Term::universe(0),
    };
    let (class, _) = classify_eqs(empty_tcs(), vec![projection]).unwrap();
    assert_eq!(class.other_pats, vec![AbsCopat::Proj("fst".to_string())]);
}

fn batch_one() -> Vec<Equation> {
    vec![absurd_eq(), var_eq(7, Term::from_dbi(1)), other_eq()]
}

fn batch_two() -> Vec<Equation> {
    vec![
        var_eq(8, Term::from_dbi(1)),
        var_eq(9, Term::universe(0)),
        absurd_eq(),
        var_eq(10, Term::from_dbi(3)),
    ]
}

#[test]
fn the_partition_is_total() {
    let eqs = batch_one();
    let n = eqs.len();
    let (class, _) = classify_eqs(empty_tcs(), eqs).unwrap();
    let named: usize = class.pat_vars.iter().map(|(_, names)| names.len()).sum();
    assert_eq!(
        class.absurd_count + class.as_binds.len() + class.other_pats.len() + named,
        n,
    );
}

#[test]
fn classifying_a_concatenation_combines_the_batches() {
    let mut joined = batch_one();
    joined.extend(batch_two());
    let (whole, _) = classify_eqs(empty_tcs(), joined).unwrap();
    let (c1, _) = classify_eqs(empty_tcs(), batch_one()).unwrap();
    let (c2, _) = classify_eqs(empty_tcs(), batch_two()).unwrap();
    let combined = c1.add(c2);
    assert_eq!(whole, combined);
}

#[test]
fn combining_concatenates_name_lists_per_position() {
    let (c1, _) = classify_eqs(empty_tcs(), vec![var_eq(1, Term::from_dbi(2))]).unwrap();
    let (c2, _) = classify_eqs(
        empty_tcs(),
        vec![var_eq(2, Term::from_dbi(2)), var_eq(3, Term::from_dbi(5))],
    )
    .unwrap();
    let combined = c1.add(c2);
    assert_eq!(combined.pat_vars, vec![(2, vec![1, 2]), (5, vec![3])]);
}

#[test]
fn combining_adds_counts_and_concatenates_lists() {
    let a = PatClass {
        absurd_count: 2,
        as_binds: vec![AsBind { name: 1, term: Term::universe(0), ty: Term::universe(1) }],
        other_pats: vec![AbsCopat::App(AbsPat::Refl)],
        pat_vars: vec![(0, vec![4])],
    };
    let b = PatClass {
        absurd_count: 3,
        as_binds: vec![AsBind { name: 2, term: Term::reflexivity(), ty: Term::universe(0) }],
        other_pats: vec![AbsCopat::Proj("p".to_string())],
        pat_vars: vec![(1, vec![5]), (0, vec![6])],
    };
    let r = a.add(b);
    assert_eq!(r.absurd_count, 5);
    assert_eq!(r.as_binds.len(), 2);
    assert_eq!(
        r.other_pats,
        vec![AbsCopat::App(AbsPat::Refl), AbsCopat::Proj("p".to_string())],
    );
    assert_eq!(r.pat_vars, vec![(0, vec![4, 6]), (1, vec![5])]);
}

#[test]
fn an_as_binding_becomes_a_let_like_context_entry() {
    let asb = AsBind { name: 3, term: Term::universe(0), ty: Term::universe(1) };
    let bind = asb.into_bind();
    assert_eq!(bind.name, 3);
    assert_eq!(bind.ty, Term::universe(1));
    assert_eq!(bind.val, Some(Box::new(Term::universe(0))));
}
