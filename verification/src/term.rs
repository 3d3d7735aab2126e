//! Core terms and weak-head values, with their mathematical images.
//!
//! A [`Term`] is either already in weak-head normal form ([`Val`]) or a
//! redex: an application of a global definition to an elimination spine,
//! awaiting unfolding.  Every type here has a ghost mirror (`TermV`,
//! `ValV`, ...) over `nat`, `Seq` and `Box`, reached through `View`; all
//! contracts in this crate speak about those mirrors.

use vstd::prelude::*;

use crate::common::{Ductive, Ident, IdentV, Level, Plicit, DBI, GI, MI, UID};

verus! {

/// Constructor head: the display name, the constructor's index in the
/// global signature, whether it is inductive, and its field names.
#[derive(PartialEq, Eq, Debug)]
pub struct ConHead {
    pub name: Ident,
    pub cons_gi: GI,
    pub ductive: Ductive,
    pub fields: Vec<String>,
}

/// A named, plicity-tagged typed binding; `val` carries the definition of
/// a let-like or as-bound variable, where there is one.
#[derive(PartialEq, Eq, Debug)]
pub struct Bind {
    pub licit: Plicit,
    pub name: UID,
    pub ty: Term,
    pub val: Option<Box<Term>>,
}

/// A core term: weak-head normal, or a redex awaiting unfolding.
#[derive(PartialEq, Eq, Debug)]
pub enum Term {
    Whnf(Val),
    Redex(GI, Ident, Vec<Elim>),
}

/// Weak-head normal values.
#[derive(PartialEq, Eq, Debug)]
pub enum Val {
    /// Universe at a level.
    Type(Level),
    /// Dependent function type.
    Pi(Box<Bind>, Closure),
    /// Saturated constructor application.
    Cons(ConHead, Vec<Term>),
    /// Inductive or coinductive type former applied to arguments.
    Data(Ductive, GI, Vec<Term>),
    /// Metavariable applied to eliminations.
    Meta(MI, Vec<Elim>),
    /// Neutral: a bound variable applied to eliminations.
    Var(DBI, Vec<Elim>),
    /// Postulated constant.
    Axiom(UID),
    /// Reflexivity proof.
    Refl,
    /// Identity type: type, left side, right side.
    Id(Box<Term>, Box<Term>, Box<Term>),
}

/// One elimination: apply an argument, or project a named field.
#[derive(PartialEq, Eq, Debug)]
pub enum Elim {
    App(Box<Term>),
    Proj(String),
}

/// The body of a binder, one de Bruijn level deeper; substitution into it
/// is explicit.
#[derive(PartialEq, Eq, Debug)]
pub enum Closure {
    Plain(Box<Term>),
}

// ------------------------------------------------------------------
// Ghost mirrors.
// ------------------------------------------------------------------

#[verifier::ext_equal]
pub struct ConHeadV {
    pub name: IdentV,
    pub cons_gi: nat,
    pub ductive: Ductive,
    pub fields: Seq<Seq<char>>,
}

#[verifier::ext_equal]
pub struct BindV {
    pub licit: Plicit,
    pub name: nat,
    pub ty: Box<TermV>,
    pub val: Option<Box<TermV>>,
}

#[verifier::ext_equal]
pub enum TermV {
    Whnf(Box<ValV>),
    Redex(nat, IdentV, Seq<ElimV>),
}

#[verifier::ext_equal]
pub enum ValV {
    Type(nat),
    Pi(Box<BindV>, Box<ClosureV>),
    Cons(ConHeadV, Seq<TermV>),
    Data(Ductive, nat, Seq<TermV>),
    Meta(nat, Seq<ElimV>),
    Var(nat, Seq<ElimV>),
    Axiom(nat),
    Refl,
    Id(Box<TermV>, Box<TermV>, Box<TermV>),
}

#[verifier::ext_equal]
pub enum ElimV {
    App(Box<TermV>),
    Proj(Seq<char>),
}

#[verifier::ext_equal]
pub enum ClosureV {
    Plain(Box<TermV>),
}

// ------------------------------------------------------------------
// View functions.
// ------------------------------------------------------------------

pub open spec fn strs_v(s: Seq<String>) -> Seq<Seq<char>>
    decreases s,
{
    if s.len() == 0 {
        Seq::empty()
    } else {
        strs_v(s.drop_last()).push(s.last()@)
    }
}

pub open spec fn conhead_v(h: ConHead) -> ConHeadV {
    ConHeadV {
        name: h.name@,
        cons_gi: h.cons_gi as nat,
        ductive: h.ductive,
        fields: strs_v(h.fields@),
    }
}

pub open spec fn term_v(t: Term) -> TermV
    decreases t,
{
    match t {
        Term::Whnf(v) => TermV::Whnf(Box::new(val_v(v))),
        Term::Redex(f, id, es) => TermV::Redex(f as nat, id@, elims_v(es@)),
    }
}

pub open spec fn val_v(v: Val) -> ValV
    decreases v,
{
    match v {
        Val::Type(l) => ValV::Type(l as nat),
        Val::Pi(b, c) => ValV::Pi(Box::new(bind_v(*b)), Box::new(closure_v(c))),
        Val::Cons(h, ts) => ValV::Cons(conhead_v(h), terms_v(ts@)),
        Val::Data(k, g, ts) => ValV::Data(k, g as nat, terms_v(ts@)),
        Val::Meta(m, es) => ValV::Meta(m as nat, elims_v(es@)),
        Val::Var(d, es) => ValV::Var(d as nat, elims_v(es@)),
        Val::Axiom(u) => ValV::Axiom(u as nat),
        Val::Refl => ValV::Refl,
        Val::Id(t, a, b) => ValV::Id(
            Box::new(term_v(*t)),
            Box::new(term_v(*a)),
            Box::new(term_v(*b)),
        ),
    }
}

pub open spec fn bind_v(b: Bind) -> BindV
    decreases b,
{
    BindV {
        licit: b.licit,
        name: b.name as nat,
        ty: Box::new(term_v(b.ty)),
        val: match b.val {
            Option::None => Option::None,
            Option::Some(t) => Option::Some(Box::new(term_v(*t))),
        },
    }
}

pub open spec fn elim_v(e: Elim) -> ElimV
    decreases e,
{
    match e {
        Elim::App(t) => ElimV::App(Box::new(term_v(*t))),
        Elim::Proj(s) => ElimV::Proj(s@),
    }
}

pub open spec fn closure_v(c: Closure) -> ClosureV
    decreases c,
{
    match c {
        Closure::Plain(t) => ClosureV::Plain(Box::new(term_v(*t))),
    }
}

pub open spec fn terms_v(s: Seq<Term>) -> Seq<TermV>
    decreases s,
{
    if s.len() == 0 {
        Seq::empty()
    } else {
        terms_v(s.drop_last()).push(term_v(s.last()))
    }
}

pub open spec fn elims_v(s: Seq<Elim>) -> Seq<ElimV>
    decreases s,
{
    if s.len() == 0 {
        Seq::empty()
    } else {
        elims_v(s.drop_last()).push(elim_v(s.last()))
    }
}

impl View for Term {
    type V = TermV;

    open spec fn view(&self) -> TermV {
        term_v(*self)
    }
}

impl View for Val {
    type V = ValV;

    open spec fn view(&self) -> ValV {
        val_v(*self)
    }
}

impl View for Elim {
    type V = ElimV;

    open spec fn view(&self) -> ElimV {
        elim_v(*self)
    }
}

impl View for Closure {
    type V = ClosureV;

    open spec fn view(&self) -> ClosureV {
        closure_v(*self)
    }
}

impl View for Bind {
    type V = BindV;

    open spec fn view(&self) -> BindV {
        bind_v(*self)
    }
}

impl View for ConHead {
    type V = ConHeadV;

    open spec fn view(&self) -> ConHeadV {
        conhead_v(*self)
    }
}

// ------------------------------------------------------------------
// Elementwise descriptions of the sequence views.
// ------------------------------------------------------------------

pub proof fn lemma_terms_v(s: Seq<Term>)
    ensures
        terms_v(s).len() == s.len(),
        forall|i: int| 0 <= i < s.len() ==> terms_v(s)[i] == term_v(s[i]),
    decreases s,
{
    if s.len() > 0 {
        lemma_terms_v(s.drop_last());
    }
}

pub proof fn lemma_elims_v(s: Seq<Elim>)
    ensures
        elims_v(s).len() == s.len(),
        forall|i: int| 0 <= i < s.len() ==> elims_v(s)[i] == elim_v(s[i]),
    decreases s,
{
    if s.len() > 0 {
        lemma_elims_v(s.drop_last());
    }
}

pub proof fn lemma_strs_v(s: Seq<String>)
    ensures
        strs_v(s).len() == s.len(),
        forall|i: int| 0 <= i < s.len() ==> strs_v(s)[i] == s[i]@,
    decreases s,
{
    if s.len() > 0 {
        lemma_strs_v(s.drop_last());
    }
}

pub proof fn lemma_elims_v_concat(a: Seq<Elim>, b: Seq<Elim>)
    ensures
        elims_v(a + b) == elims_v(a) + elims_v(b),
    decreases b,
{
    if b.len() == 0 {
        assert(a + b =~= a);
        assert(elims_v(a) + elims_v(b) =~= elims_v(a));
    } else {
        lemma_elims_v_concat(a, b.drop_last());
        assert((a + b).drop_last() =~= a + b.drop_last());
        assert((a + b).last() == b.last());
        assert(elims_v(a) + elims_v(b) =~= (elims_v(a) + elims_v(b.drop_last())).push(
            elim_v(b.last()),
        ));
    }
}

// ------------------------------------------------------------------
// Sizes of the mirrors, used as termination measures.
// ------------------------------------------------------------------

pub open spec fn tv_size(t: TermV) -> nat
    decreases t,
{
    match t {
        TermV::Whnf(v) => 1 + vv_size(*v),
        TermV::Redex(_, _, es) => 1 + evs_size(es),
    }
}

pub open spec fn vv_size(v: ValV) -> nat
    decreases v,
{
    match v {
        ValV::Type(_) => 1,
        ValV::Pi(b, c) => 1 + bv_size(*b) + clv_size(*c),
        ValV::Cons(_, ts) => 1 + tvs_size(ts),
        ValV::Data(_, _, ts) => 1 + tvs_size(ts),
        ValV::Meta(_, es) => 1 + evs_size(es),
        ValV::Var(_, es) => 1 + evs_size(es),
        ValV::Axiom(_) => 1,
        ValV::Refl => 1,
        ValV::Id(t, a, b) => 1 + tv_size(*t) + tv_size(*a) + tv_size(*b),
    }
}

pub open spec fn bv_size(b: BindV) -> nat
    decreases b,
{
    1 + tv_size(*b.ty) + match b.val {
        Option::None => 0nat,
        Option::Some(t) => tv_size(*t),
    }
}

pub open spec fn ev_size(e: ElimV) -> nat
    decreases e,
{
    match e {
        ElimV::App(t) => 1 + tv_size(*t),
        ElimV::Proj(_) => 1,
    }
}

pub open spec fn clv_size(c: ClosureV) -> nat
    decreases c,
{
    match c {
        ClosureV::Plain(t) => 1 + tv_size(*t),
    }
}

pub open spec fn tvs_size(s: Seq<TermV>) -> nat
    decreases s,
{
    if s.len() == 0 {
        0
    } else {
        tvs_size(s.drop_last()) + tv_size(s.last())
    }
}

pub open spec fn evs_size(s: Seq<ElimV>) -> nat
    decreases s,
{
    if s.len() == 0 {
        0
    } else {
        evs_size(s.drop_last()) + ev_size(s.last())
    }
}

pub proof fn lemma_tvs_size_concat(a: Seq<TermV>, b: Seq<TermV>)
    ensures
        tvs_size(a + b) == tvs_size(a) + tvs_size(b),
    decreases b,
{
    if b.len() == 0 {
        assert(a + b =~= a);
    } else {
        lemma_tvs_size_concat(a, b.drop_last());
        assert((a + b).drop_last() =~= a + b.drop_last());
        assert((a + b).last() == b.last());
    }
}

pub proof fn lemma_evs_size_concat(a: Seq<ElimV>, b: Seq<ElimV>)
    ensures
        evs_size(a + b) == evs_size(a) + evs_size(b),
    decreases b,
{
    if b.len() == 0 {
        assert(a + b =~= a);
    } else {
        lemma_evs_size_concat(a, b.drop_last());
        assert((a + b).drop_last() =~= a + b.drop_last());
        assert((a + b).last() == b.last());
    }
}

pub proof fn lemma_tvs_size_single(t: TermV)
    ensures
        tvs_size(seq![t]) == tv_size(t),
{
    let single = seq![t];
    assert(single.drop_last() =~= Seq::<TermV>::empty());
    assert(single.last() == t);
    assert(tvs_size(Seq::<TermV>::empty()) == 0);
}

pub proof fn lemma_evs_size_single(e: ElimV)
    ensures
        evs_size(seq![e]) == ev_size(e),
{
    let single = seq![e];
    assert(single.drop_last() =~= Seq::<ElimV>::empty());
    assert(single.last() == e);
    assert(evs_size(Seq::<ElimV>::empty()) == 0);
}

pub proof fn lemma_tvs_size_drop_first(s: Seq<TermV>)
    requires
        s.len() > 0,
    ensures
        tvs_size(s) == tv_size(s.first()) + tvs_size(s.drop_first()),
{
    assert(s =~= seq![s.first()] + s.drop_first());
    lemma_tvs_size_concat(seq![s.first()], s.drop_first());
    lemma_tvs_size_single(s.first());
}

pub proof fn lemma_evs_size_drop_first(s: Seq<ElimV>)
    requires
        s.len() > 0,
    ensures
        evs_size(s) == ev_size(s.first()) + evs_size(s.drop_first()),
{
    assert(s =~= seq![s.first()] + s.drop_first());
    lemma_evs_size_concat(seq![s.first()], s.drop_first());
    lemma_evs_size_single(s.first());
}

pub proof fn lemma_tv_size_pos(t: TermV)
    ensures
        tv_size(t) >= 1,
{
}

pub proof fn lemma_ev_size_pos(e: ElimV)
    ensures
        ev_size(e) >= 1,
{
}

pub proof fn lemma_tvs_size_elem(s: Seq<TermV>, i: int)
    requires
        0 <= i < s.len(),
    ensures
        tv_size(s[i]) <= tvs_size(s),
    decreases s,
{
    if i == s.len() - 1 {
    } else {
        lemma_tvs_size_elem(s.drop_last(), i);
    }
}

pub proof fn lemma_evs_size_elem(s: Seq<ElimV>, i: int)
    requires
        0 <= i < s.len(),
    ensures
        ev_size(s[i]) <= evs_size(s),
    decreases s,
{
    if i == s.len() - 1 {
    } else {
        lemma_evs_size_elem(s.drop_last(), i);
    }
}

// ------------------------------------------------------------------
// Cloning, with the view kept exactly.
// ------------------------------------------------------------------

pub fn clone_strings(v: &Vec<String>) -> (r: Vec<String>)
    ensures
        strs_v(r@) == strs_v(v@),
{
    let mut out: Vec<String> = Vec::new();
    let mut i: usize = 0;
    while i < v.len()
        invariant
            i <= v.len(),
            out@.len() == i as int,
            forall|j: int| 0 <= j < i ==> out@[j]@ == v@[j]@,
        decreases v@.len() - i,
    {
        out.push(v[i].clone());
        i = i + 1;
    }
    proof {
        lemma_strs_v(out@);
        lemma_strs_v(v@);
        assert(strs_v(out@) =~= strs_v(v@));
    }
    out
}

impl Clone for ConHead {
    fn clone(&self) -> (r: Self)
        ensures
            r@ == self@,
    {
        let r = ConHead {
            name: self.name.clone(),
            cons_gi: self.cons_gi,
            ductive: self.ductive,
            fields: clone_strings(&self.fields),
        };
        proof {
            assert(r@ =~= self@);
        }
        r
    }
}

pub fn clone_terms(v: &Vec<Term>) -> (r: Vec<Term>)
    ensures
        terms_v(r@) == terms_v(v@),
    decreases tvs_size(terms_v(v@)), 1nat,
{
    let mut out: Vec<Term> = Vec::new();
    let mut i: usize = 0;
    while i < v.len()
        invariant
            i <= v.len(),
            out@.len() == i as int,
            forall|j: int| 0 <= j < i ==> out@[j]@ == v@[j]@,
        decreases v@.len() - i,
    {
        proof {
            lemma_terms_v(v@);
            lemma_tvs_size_elem(terms_v(v@), i as int);
        }
        out.push(v[i].clone());
        i = i + 1;
    }
    proof {
        lemma_terms_v(out@);
        lemma_terms_v(v@);
        assert(terms_v(out@) =~= terms_v(v@));
    }
    out
}

pub fn clone_elims(v: &Vec<Elim>) -> (r: Vec<Elim>)
    ensures
        elims_v(r@) == elims_v(v@),
    decreases evs_size(elims_v(v@)), 1nat,
{
    let mut out: Vec<Elim> = Vec::new();
    let mut i: usize = 0;
    while i < v.len()
        invariant
            i <= v.len(),
            out@.len() == i as int,
            forall|j: int| 0 <= j < i ==> out@[j]@ == v@[j]@,
        decreases v@.len() - i,
    {
        proof {
            lemma_elims_v(v@);
            lemma_evs_size_elem(elims_v(v@), i as int);
        }
        out.push(v[i].clone());
        i = i + 1;
    }
    proof {
        lemma_elims_v(out@);
        lemma_elims_v(v@);
        assert(elims_v(out@) =~= elims_v(v@));
    }
    out
}

impl Clone for Term {
    fn clone(&self) -> (r: Self)
        ensures
            r@ == self@,
        decreases tv_size(self@), 0nat,
    {
        match self {
            Term::Whnf(v) => Term::Whnf(v.clone()),
            Term::Redex(f, id, es) => Term::Redex(*f, id.clone(), clone_elims(es)),
        }
    }
}

impl Clone for Val {
    fn clone(&self) -> (r: Self)
        ensures
            r@ == self@,
        decreases vv_size(self@), 0nat,
    {
        let r = match self {
            Val::Type(l) => Val::Type(*l),
            Val::Pi(b, c) => Val::Pi(Box::new((**b).clone()), c.clone()),
            Val::Cons(h, ts) => Val::Cons(h.clone(), clone_terms(ts)),
            Val::Data(k, g, ts) => Val::Data(*k, *g, clone_terms(ts)),
            Val::Meta(m, es) => Val::Meta(*m, clone_elims(es)),
            Val::Var(d, es) => Val::Var(*d, clone_elims(es)),
            Val::Axiom(u) => Val::Axiom(*u),
            Val::Refl => Val::Refl,
            Val::Id(t, a, b) => Val::Id(
                Box::new((**t).clone()),
                Box::new((**a).clone()),
                Box::new((**b).clone()),
            ),
        };
        proof {
            assert(r@ =~= self@);
        }
        r
    }
}

impl Clone for Bind {
    fn clone(&self) -> (r: Self)
        ensures
            r@ == self@,
        decreases bv_size(self@), 0nat,
    {
        let r = Bind {
            licit: self.licit,
            name: self.name,
            ty: self.ty.clone(),
            val: match &self.val {
                Option::None => Option::None,
                Option::Some(t) => Option::Some(Box::new((**t).clone())),
            },
        };
        proof {
            assert(r@ =~= self@);
        }
        r
    }
}

impl Clone for Elim {
    fn clone(&self) -> (r: Self)
        ensures
            r@ == self@,
        decreases ev_size(self@), 0nat,
    {
        match self {
            Elim::App(t) => Elim::App(Box::new((**t).clone())),
            Elim::Proj(s) => Elim::Proj(s.clone()),
        }
    }
}

impl Clone for Closure {
    fn clone(&self) -> (r: Self)
        ensures
            r@ == self@,
        decreases clv_size(self@), 0nat,
    {
        match self {
            Closure::Plain(t) => Closure::Plain(Box::new((**t).clone())),
        }
    }
}

// ------------------------------------------------------------------
// Constructors.
// ------------------------------------------------------------------

impl ConHead {
    pub fn new(name: Ident, cons_gi: GI, ductive: Ductive, fields: Vec<String>) -> (r: Self)
        ensures
            r@ == (ConHeadV {
                name: name@,
                cons_gi: cons_gi as nat,
                ductive,
                fields: strs_v(fields@),
            }),
    {
        ConHead { name, cons_gi, ductive, fields }
    }
}

impl Bind {
    pub fn new(licit: Plicit, name: UID, ty: Term) -> (r: Self)
        ensures
            r@ == (BindV {
                licit,
                name: name as nat,
                ty: Box::new(ty@),
                val: Option::None,
            }),
    {
        Bind { licit, name, ty, val: Option::None }
    }

    pub fn with_val(licit: Plicit, name: UID, ty: Term, val: Term) -> (r: Self)
        ensures
            r@ == (BindV {
                licit,
                name: name as nat,
                ty: Box::new(ty@),
                val: Option::Some(Box::new(val@)),
            }),
    {
        Bind { licit, name, ty, val: Option::Some(Box::new(val)) }
    }

    pub fn boxed(self) -> (r: Box<Self>)
        ensures
            *r == self,
    {
        Box::new(self)
    }
}

impl Term {
    /// The neutral term for a bound variable, applied to nothing.
    pub fn from_dbi(dbi: DBI) -> (r: Term)
        ensures
            r@ == TermV::Whnf(Box::new(ValV::Var(dbi as nat, Seq::empty()))),
    {
        let r = Term::Whnf(Val::Var(dbi, Vec::new()));
        proof {
            assert(elims_v(Seq::<Elim>::empty()) =~= Seq::<ElimV>::empty());
        }
        r
    }

    pub fn universe(level: Level) -> (r: Term)
        ensures
            r@ == TermV::Whnf(Box::new(ValV::Type(level as nat))),
    {
        Term::Whnf(Val::Type(level))
    }

    pub fn reflexivity() -> (r: Term)
        ensures
            r@ == TermV::Whnf(Box::new(ValV::Refl)),
    {
        Term::Whnf(Val::Refl)
    }

    pub fn cons(head: ConHead, args: Vec<Term>) -> (r: Term)
        ensures
            r@ == TermV::Whnf(Box::new(ValV::Cons(head@, terms_v(args@)))),
    {
        Term::Whnf(Val::Cons(head, args))
    }

    pub fn data(kind: Ductive, gi: GI, args: Vec<Term>) -> (r: Term)
        ensures
            r@ == TermV::Whnf(Box::new(ValV::Data(kind, gi as nat, terms_v(args@)))),
    {
        Term::Whnf(Val::Data(kind, gi, args))
    }

    pub fn meta(mi: MI, elims: Vec<Elim>) -> (r: Term)
        ensures
            r@ == TermV::Whnf(Box::new(ValV::Meta(mi as nat, elims_v(elims@)))),
    {
        Term::Whnf(Val::Meta(mi, elims))
    }

    pub fn identity(ty: Term, a: Term, b: Term) -> (r: Term)
        ensures
            r@ == TermV::Whnf(Box::new(ValV::Id(
                Box::new(ty@),
                Box::new(a@),
                Box::new(b@),
            ))),
    {
        Term::Whnf(Val::Id(Box::new(ty), Box::new(a), Box::new(b)))
    }

    pub fn pi2(bind: Box<Bind>, closure: Closure) -> (r: Term)
        ensures
            r@ == TermV::Whnf(Box::new(ValV::Pi(Box::new(bind@), Box::new(closure@)))),
    {
        Term::Whnf(Val::Pi(bind, closure))
    }

    pub fn pi(licit: Plicit, name: UID, ty: Term, closure: Closure) -> (r: Term)
        ensures
            r@ == TermV::Whnf(Box::new(ValV::Pi(
                Box::new(BindV {
                    licit,
                    name: name as nat,
                    ty: Box::new(ty@),
                    val: Option::None,
                }),
                Box::new(closure@),
            ))),
    {
        Term::pi2(Bind::new(licit, name, ty).boxed(), closure)
    }
}

impl Val {
    pub fn inductive(gi: GI, args: Vec<Term>) -> (r: Val)
        ensures
            r@ == ValV::Data(Ductive::In, gi as nat, terms_v(args@)),
    {
        Val::Data(Ductive::In, gi, args)
    }

    pub fn coinductive(gi: GI, args: Vec<Term>) -> (r: Val)
        ensures
            r@ == ValV::Data(Ductive::Coin, gi as nat, terms_v(args@)),
    {
        Val::Data(Ductive::Coin, gi, args)
    }
}

impl Elim {
    pub fn app(term: Term) -> (r: Elim)
        ensures
            r@ == ElimV::App(Box::new(term@)),
    {
        Elim::App(Box::new(term))
    }

    /// An elimination that should be a plain argument: the applied term,
    /// or the projection's name as the error.
    pub fn try_into_app(self) -> (r: Result<Term, String>)
        ensures
            match self@ {
                ElimV::App(t) => r matches Ok(o) && o@ == *t,
                ElimV::Proj(s) => r matches Err(e) && e@ == s,
            },
    {
        match self {
            Elim::App(t) => Ok(*t),
            Elim::Proj(s) => Err(s),
        }
    }
}

impl Closure {
    pub fn plain(body: Term) -> (r: Closure)
        ensures
            r@ == ClosureV::Plain(Box::new(body@)),
    {
        Closure::Plain(Box::new(body))
    }
}

// ------------------------------------------------------------------
// Applying an elimination spine to a term.
// ------------------------------------------------------------------

/// Which terms can take more eliminations: neutral variables and
/// metavariables, and still-unfolded redexes; anything else only when the
/// spine is empty.
pub open spec fn tv_apply_elim_ok(t: TermV, es: Seq<ElimV>) -> bool {
    es.len() == 0 || match t {
        TermV::Redex(_, _, _) => true,
        TermV::Whnf(v) => match *v {
            ValV::Var(_, _) => true,
            ValV::Meta(_, _) => true,
            _ => false,
        },
    }
}

/// The result of appending an elimination spine to a term that can take
/// one.
pub open spec fn tv_apply_elim(t: TermV, es: Seq<ElimV>) -> TermV {
    match t {
        TermV::Redex(f, id, a) => TermV::Redex(f, id, a + es),
        TermV::Whnf(v) => match *v {
            ValV::Var(d, a) => TermV::Whnf(Box::new(ValV::Var(d, a + es))),
            ValV::Meta(m, a) => TermV::Whnf(Box::new(ValV::Meta(m, a + es))),
            _ => if es.len() == 0 {
                t
            } else {
                arbitrary()
            },
        },
    }
}

impl Term {
    /// Re-applies an elimination spine to this term; this is how a stuck
    /// term picks its spine back up after substitution.
    pub fn apply_elim(self, elims: Vec<Elim>) -> (r: Term)
        requires
            tv_apply_elim_ok(self@, elims_v(elims@)),
        ensures
            r@ == tv_apply_elim(self@, elims_v(elims@)),
    {
        let ghost old_elims = elims@;
        match self {
            Term::Redex(f, id, mut a) => {
                let ghost a0 = a@;
                let mut elims = elims;
                a.append(&mut elims);
                proof {
                    assert(a@ == a0 + old_elims);
                    lemma_elims_v_concat(a0, old_elims);
                }
                Term::Redex(f, id, a)
            }
            Term::Whnf(Val::Var(d, mut a)) => {
                let ghost a0 = a@;
                let mut elims = elims;
                a.append(&mut elims);
                proof {
                    lemma_elims_v_concat(a0, old_elims);
                }
                Term::Whnf(Val::Var(d, a))
            }
            Term::Whnf(Val::Meta(m, mut a)) => {
                let ghost a0 = a@;
                let mut elims = elims;
                a.append(&mut elims);
                proof {
                    lemma_elims_v_concat(a0, old_elims);
                }
                Term::Whnf(Val::Meta(m, a))
            }
            Term::Whnf(Val::Type(l)) => Term::Whnf(Val::Type(l)),
            Term::Whnf(Val::Pi(b, c)) => Term::Whnf(Val::Pi(b, c)),
            Term::Whnf(Val::Cons(h, ts)) => Term::Whnf(Val::Cons(h, ts)),
            Term::Whnf(Val::Data(k, g, ts)) => Term::Whnf(Val::Data(k, g, ts)),
            Term::Whnf(Val::Axiom(u)) => Term::Whnf(Val::Axiom(u)),
            Term::Whnf(Val::Refl) => Term::Whnf(Val::Refl),
            Term::Whnf(Val::Id(t, a, b)) => Term::Whnf(Val::Id(t, a, b)),
        }
    }
}

} // verus!
