//! Classifying left-hand-side problem equations during clause splitting.
//!
//! Each equation pairs a surface copattern with the core term and type it
//! must equal once splitting completes.  Classification partitions a
//! batch: absurd patterns are counted, a variable pattern either names an
//! existing context position (up to eta) or becomes an as-binding, and
//! every other shape is left for the splitting driver.  The partition is
//! total, and classifying a concatenation of batches equals combining the
//! classifications batchwise — both proved here.

use vstd::prelude::*;

use crate::abs::{abs_v, Abs, AbsV};
use crate::common::{Ident, IdentV, Plicit, DBI, UID};
use crate::decl::DeclV;
use crate::monad::{TCEV, TCMS, TCS};
use crate::term::{term_v, Bind, Term, TermV};
use crate::tycheck::{
    is_eta_var_borrow, spec_is_eta_var_borrow, spec_is_eta_var_borrow_ok,
};

verus! {

/// A surface pattern, as classification sees it.
#[derive(Debug, PartialEq, Eq)]
pub enum AbsPat {
    Var(UID),
    Cons(bool, Ident, Vec<AbsPat>),
    Forced(Box<Abs>),
    Refl,
    Absurd,
}

/// A surface copattern: a pattern, or a field projection.
#[derive(Debug, PartialEq, Eq)]
pub enum AbsCopat {
    App(AbsPat),
    Proj(String),
}

/// A user pattern and the core term and type it should equal after
/// splitting is complete.
#[derive(Debug, PartialEq, Eq)]
pub struct Equation {
    /// The pattern that causes this problem.
    pub in_pat: AbsCopat,
    pub inst: Term,
    pub ty: Term,
}

/// A name bound to a term of a type: what a variable pattern becomes
/// when it does not name an existing context variable up to eta.
#[derive(Debug, PartialEq, Eq)]
pub struct AsBind {
    pub name: UID,
    pub term: Term,
    pub ty: Term,
}

impl AsBind {
    pub fn new(name: UID, term: Term, ty: Term) -> (r: Self)
        ensures
            r@ == (AsBindV { name: name as nat, term: term@, ty: ty@ }),
    {
        AsBind { name, term, ty }
    }

    /// The context entry this as-binding introduces.
    pub fn into_bind(self) -> (r: Bind)
        ensures
            r@.licit == Plicit::Ex,
            r@.name == self@.name,
            *r@.ty == self@.ty,
            r@.val == Option::Some(Box::new(self@.term)),
    {
        Bind::with_val(Plicit::Ex, self.name, self.ty, self.term)
    }
}

/// Positions in the context, each with the user-given names that refer
/// to it; an association list in first-insertion order, keys unique.
pub type PatVars = Vec<(DBI, Vec<UID>)>;

/// Classified patterns: the result of partitioning a batch of
/// equations.
#[derive(Debug, PartialEq, Eq)]
pub struct PatClass {
    /// Number of absurd patterns.
    pub absurd_count: usize,
    pub as_binds: Vec<AsBind>,
    pub other_pats: Vec<AbsCopat>,
    pub pat_vars: PatVars,
}

// ------------------------------------------------------------------
// Ghost mirrors.
// ------------------------------------------------------------------

#[verifier::ext_equal]
pub enum AbsPatV {
    Var(nat),
    Cons(bool, IdentV, Seq<AbsPatV>),
    Forced(Box<AbsV>),
    Refl,
    Absurd,
}

#[verifier::ext_equal]
pub enum AbsCopatV {
    App(AbsPatV),
    Proj(Seq<char>),
}

#[verifier::ext_equal]
pub struct EquationV {
    pub in_pat: AbsCopatV,
    pub inst: TermV,
    pub ty: TermV,
}

#[verifier::ext_equal]
pub struct AsBindV {
    pub name: nat,
    pub term: TermV,
    pub ty: TermV,
}

#[verifier::ext_equal]
pub struct PatClassV {
    pub absurd_count: nat,
    pub as_binds: Seq<AsBindV>,
    pub other_pats: Seq<AbsCopatV>,
    pub pat_vars: Seq<(nat, Seq<nat>)>,
}

pub open spec fn abspat_v(p: AbsPat) -> AbsPatV
    decreases p,
{
    match p {
        AbsPat::Var(x) => AbsPatV::Var(x as nat),
        AbsPat::Cons(forced, id, ps) => AbsPatV::Cons(forced, id@, abspats_v(ps@)),
        AbsPat::Forced(a) => AbsPatV::Forced(Box::new(abs_v(*a))),
        AbsPat::Refl => AbsPatV::Refl,
        AbsPat::Absurd => AbsPatV::Absurd,
    }
}

pub open spec fn abspats_v(s: Seq<AbsPat>) -> Seq<AbsPatV>
    decreases s,
{
    if s.len() == 0 {
        Seq::empty()
    } else {
        abspats_v(s.drop_last()).push(abspat_v(s.last()))
    }
}

pub open spec fn abscopat_v(p: AbsCopat) -> AbsCopatV
    decreases p,
{
    match p {
        AbsCopat::App(q) => AbsCopatV::App(abspat_v(q)),
        AbsCopat::Proj(s) => AbsCopatV::Proj(s@),
    }
}

impl View for AbsCopat {
    type V = AbsCopatV;

    open spec fn view(&self) -> AbsCopatV {
        abscopat_v(*self)
    }
}

impl View for Equation {
    type V = EquationV;

    open spec fn view(&self) -> EquationV {
        EquationV { in_pat: abscopat_v(self.in_pat), inst: term_v(self.inst), ty: term_v(self.ty) }
    }
}

impl View for AsBind {
    type V = AsBindV;

    open spec fn view(&self) -> AsBindV {
        AsBindV { name: self.name as nat, term: term_v(self.term), ty: term_v(self.ty) }
    }
}

pub open spec fn copats_v(s: Seq<AbsCopat>) -> Seq<AbsCopatV>
    decreases s,
{
    if s.len() == 0 {
        Seq::empty()
    } else {
        copats_v(s.drop_last()).push(abscopat_v(s.last()))
    }
}

pub open spec fn equations_v(s: Seq<Equation>) -> Seq<EquationV>
    decreases s,
{
    if s.len() == 0 {
        Seq::empty()
    } else {
        equations_v(s.drop_last()).push(s.last()@)
    }
}

pub open spec fn asbinds_v(s: Seq<AsBind>) -> Seq<AsBindV>
    decreases s,
{
    if s.len() == 0 {
        Seq::empty()
    } else {
        asbinds_v(s.drop_last()).push(s.last()@)
    }
}

pub open spec fn uids_v(s: Seq<UID>) -> Seq<nat>
    decreases s,
{
    if s.len() == 0 {
        Seq::empty()
    } else {
        uids_v(s.drop_last()).push(s.last() as nat)
    }
}

pub open spec fn pv_v(s: Seq<(DBI, Vec<UID>)>) -> Seq<(nat, Seq<nat>)>
    decreases s,
{
    if s.len() == 0 {
        Seq::empty()
    } else {
        pv_v(s.drop_last()).push((s.last().0 as nat, uids_v(s.last().1@)))
    }
}

impl View for PatClass {
    type V = PatClassV;

    open spec fn view(&self) -> PatClassV {
        PatClassV {
            absurd_count: self.absurd_count as nat,
            as_binds: asbinds_v(self.as_binds@),
            other_pats: copats_v(self.other_pats@),
            pat_vars: pv_v(self.pat_vars@),
        }
    }
}

pub proof fn lemma_copats_v(s: Seq<AbsCopat>)
    ensures
        copats_v(s).len() == s.len(),
        forall|i: int| 0 <= i < s.len() ==> copats_v(s)[i] == abscopat_v(s[i]),
    decreases s,
{
    if s.len() > 0 {
        lemma_copats_v(s.drop_last());
    }
}

pub proof fn lemma_equations_v(s: Seq<Equation>)
    ensures
        equations_v(s).len() == s.len(),
        forall|i: int| 0 <= i < s.len() ==> equations_v(s)[i] == s[i]@,
    decreases s,
{
    if s.len() > 0 {
        lemma_equations_v(s.drop_last());
    }
}

pub proof fn lemma_asbinds_v(s: Seq<AsBind>)
    ensures
        asbinds_v(s).len() == s.len(),
        forall|i: int| 0 <= i < s.len() ==> asbinds_v(s)[i] == s[i]@,
    decreases s,
{
    if s.len() > 0 {
        lemma_asbinds_v(s.drop_last());
    }
}

pub proof fn lemma_uids_v(s: Seq<UID>)
    ensures
        uids_v(s).len() == s.len(),
        forall|i: int| 0 <= i < s.len() ==> uids_v(s)[i] == s[i] as nat,
    decreases s,
{
    if s.len() > 0 {
        lemma_uids_v(s.drop_last());
        assert forall|i: int| 0 <= i < s.len() implies uids_v(s)[i] == s[i] as nat by {
            if i < s.len() - 1 {
                assert(s.drop_last()[i] == s[i]);
                assert(uids_v(s.drop_last())[i] == s.drop_last()[i] as nat);
            }
        }
    }
}

pub proof fn lemma_pv_v(s: Seq<(DBI, Vec<UID>)>)
    ensures
        pv_v(s).len() == s.len(),
        forall|i: int| 0 <= i < s.len() ==> #[trigger] pv_v(s)[i] == (
            s[i].0 as nat,
            uids_v(s[i].1@),
        ),
    decreases s,
{
    if s.len() > 0 {
        lemma_pv_v(s.drop_last());
    }
}

pub proof fn lemma_asbinds_v_concat(a: Seq<AsBind>, b: Seq<AsBind>)
    ensures
        asbinds_v(a + b) == asbinds_v(a) + asbinds_v(b),
    decreases b,
{
    if b.len() == 0 {
        assert(a + b =~= a);
        assert(asbinds_v(a) + asbinds_v(b) =~= asbinds_v(a));
    } else {
        lemma_asbinds_v_concat(a, b.drop_last());
        assert((a + b).drop_last() =~= a + b.drop_last());
        assert((a + b).last() == b.last());
        assert(asbinds_v(a) + asbinds_v(b) =~= (asbinds_v(a) + asbinds_v(b.drop_last())).push(
            b.last()@,
        ));
    }
}

pub proof fn lemma_copats_v_concat(a: Seq<AbsCopat>, b: Seq<AbsCopat>)
    ensures
        copats_v(a + b) == copats_v(a) + copats_v(b),
    decreases b,
{
    if b.len() == 0 {
        assert(a + b =~= a);
        assert(copats_v(a) + copats_v(b) =~= copats_v(a));
    } else {
        lemma_copats_v_concat(a, b.drop_last());
        assert((a + b).drop_last() =~= a + b.drop_last());
        assert((a + b).last() == b.last());
        assert(copats_v(a) + copats_v(b) =~= (copats_v(a) + copats_v(b.drop_last())).push(
            abscopat_v(b.last()),
        ));
    }
}

// ------------------------------------------------------------------
// The name-list table and its algebra.
// ------------------------------------------------------------------

/// Index of the first entry for a position, or a negative number when
/// there is none.
pub open spec fn pv_idx(s: Seq<(nat, Seq<nat>)>, k: nat) -> int
    decreases s.len(),
{
    if s.len() == 0 {
        -1
    } else if s.first().0 == k {
        0
    } else {
        let r = pv_idx(s.drop_first(), k);
        if r < 0 {
            -1
        } else {
            r + 1
        }
    }
}

pub open spec fn pv_has(s: Seq<(nat, Seq<nat>)>, k: nat) -> bool {
    pv_idx(s, k) >= 0
}

/// Record more names for one position: append to its entry, or open a
/// new entry at the end.
pub open spec fn pv_add1(s: Seq<(nat, Seq<nat>)>, e: (nat, Seq<nat>)) -> Seq<(nat, Seq<nat>)> {
    let i = pv_idx(s, e.0);
    if i < 0 {
        s.push(e)
    } else {
        s.update(i, (e.0, s[i].1 + e.1))
    }
}

/// Merge a second table into a first, entry by entry, keeping the
/// first's positions and appending the second's names.
pub open spec fn pv_merge(a: Seq<(nat, Seq<nat>)>, b: Seq<(nat, Seq<nat>)>) -> Seq<
    (nat, Seq<nat>),
>
    decreases b.len(),
{
    if b.len() == 0 {
        a
    } else {
        pv_add1(pv_merge(a, b.drop_last()), b.last())
    }
}

/// Well-formed table: one entry per position.
pub open spec fn pv_wf(s: Seq<(nat, Seq<nat>)>) -> bool {
    forall|i: int, j: int| 0 <= i < j < s.len() ==> (#[trigger] s[i]).0 != (#[trigger] s[j]).0
}

/// All the names recorded for one position, in order.
pub open spec fn pv_lookup(s: Seq<(nat, Seq<nat>)>, k: nat) -> Seq<nat>
    decreases s.len(),
{
    if s.len() == 0 {
        Seq::empty()
    } else if s.last().0 == k {
        pv_lookup(s.drop_last(), k) + s.last().1
    } else {
        pv_lookup(s.drop_last(), k)
    }
}

/// How many names the table records in all.
pub open spec fn pv_count(s: Seq<(nat, Seq<nat>)>) -> nat
    decreases s.len(),
{
    if s.len() == 0 {
        0
    } else {
        pv_count(s.drop_last()) + s.last().1.len()
    }
}

/// Where the first entry for a position sits, and that it is the only
/// one a well-formed table has.
pub proof fn lemma_pv_idx(s: Seq<(nat, Seq<nat>)>, k: nat)
    ensures
        pv_idx(s, k) < s.len(),
        pv_idx(s, k) >= 0 ==> s[pv_idx(s, k)].0 == k,
        pv_idx(s, k) >= 0 ==> forall|j: int| 0 <= j < pv_idx(s, k) ==> (#[trigger] s[j]).0 != k,
        pv_idx(s, k) < 0 ==> forall|j: int| 0 <= j < s.len() ==> (#[trigger] s[j]).0 != k,
    decreases s.len(),
{
    if s.len() > 0 {
        lemma_pv_idx(s.drop_first(), k);
        assert(forall|j: int| 0 <= j < s.drop_first().len() ==> s.drop_first()[j] == s[j + 1]);
        let t = s.drop_first();
        if s.first().0 != k {
            if pv_idx(t, k) >= 0 {
                assert forall|j: int| 0 <= j < pv_idx(s, k) implies (#[trigger] s[j]).0 != k by {
                    if j > 0 {
                        assert(s[j] == t[j - 1]);
                    }
                }
            } else {
                assert forall|j: int| 0 <= j < s.len() implies (#[trigger] s[j]).0 != k by {
                    if j > 0 {
                        assert(s[j] == t[j - 1]);
                    }
                }
            }
        }
    }
}

/// Adding names leaves every other position's entries alone, and makes
/// the added position present.
pub proof fn lemma_pv_add1_idx(s: Seq<(nat, Seq<nat>)>, e: (nat, Seq<nat>), k: nat)
    ensures
        k == e.0 ==> pv_has(pv_add1(s, e), k),
        k != e.0 ==> pv_idx(pv_add1(s, e), k) == pv_idx(s, k),
    decreases s.len(),
{
    lemma_pv_idx(s, e.0);
    lemma_pv_idx(s, k);
    if s.len() == 0 {
        assert(pv_add1(s, e) =~= s.push(e));
        reveal_with_fuel(pv_idx, 3);
    } else {
        let t = s.drop_first();
        lemma_pv_add1_idx(t, e, k);
        lemma_pv_idx(t, e.0);
        lemma_pv_idx(t, k);
        if pv_idx(s, e.0) < 0 {
            assert(pv_add1(s, e) == s.push(e));
            assert(s.push(e).first() == s.first());
            assert(s.push(e).drop_first() =~= t.push(e));
            assert(pv_idx(t, e.0) < 0);
            assert(pv_add1(t, e) == t.push(e));
        } else {
            let i = pv_idx(s, e.0);
            assert(pv_add1(s, e) == s.update(i, (e.0, s[i].1 + e.1)));
            if i == 0 {
                assert(s.update(0, (e.0, s[0].1 + e.1)).first().0 == e.0);
                assert(s.update(0, (e.0, s[0].1 + e.1)).drop_first() =~= t);
            } else {
                assert(s.update(i, (e.0, s[i].1 + e.1)).first() == s.first());
                assert(s.update(i, (e.0, s[i].1 + e.1)).drop_first() =~= t.update(
                    i - 1,
                    (e.0, t[i - 1].1 + e.1),
                ));
                assert(pv_idx(t, e.0) == i - 1);
                assert(t[i - 1] == s[i]);
                assert(pv_add1(t, e) == t.update(i - 1, (e.0, t[i - 1].1 + e.1)));
            }
        }
    }
}

/// Adding names preserves well-formedness.
pub proof fn lemma_pv_add1_wf(s: Seq<(nat, Seq<nat>)>, e: (nat, Seq<nat>))
    requires
        pv_wf(s),
    ensures
        pv_wf(pv_add1(s, e)),
{
    lemma_pv_idx(s, e.0);
    let i = pv_idx(s, e.0);
    if i < 0 {
        let r = s.push(e);
        assert forall|x: int, y: int| 0 <= x < y < r.len() implies (#[trigger] r[x]).0 != (
        #[trigger] r[y]).0 by {
            if y == r.len() - 1 {
                assert(r[x] == s[x]);
            }
        }
    } else {
        let r = s.update(i, (e.0, s[i].1 + e.1));
        assert forall|x: int, y: int| 0 <= x < y < r.len() implies (#[trigger] r[x]).0 != (
        #[trigger] r[y]).0 by {
            assert(r[x].0 == s[x].0);
            assert(r[y].0 == s[y].0);
        }
    }
}

/// Merging preserves the first table's well-formedness.
pub proof fn lemma_pv_merge_wf(a: Seq<(nat, Seq<nat>)>, b: Seq<(nat, Seq<nat>)>)
    requires
        pv_wf(a),
    ensures
        pv_wf(pv_merge(a, b)),
    decreases b.len(),
{
    if b.len() > 0 {
        lemma_pv_merge_wf(a, b.drop_last());
        lemma_pv_add1_wf(pv_merge(a, b.drop_last()), b.last());
    }
}

/// What adding names does to the recorded name lists, entrywise.
pub proof fn lemma_pv_add1_lookup(s: Seq<(nat, Seq<nat>)>, e: (nat, Seq<nat>), k: nat)
    requires
        pv_wf(s),
    ensures
        k == e.0 ==> pv_lookup(pv_add1(s, e), k) == pv_lookup(s, k) + e.1,
        k != e.0 ==> pv_lookup(pv_add1(s, e), k) == pv_lookup(s, k),
    decreases s.len(),
{
    lemma_pv_idx(s, e.0);
    let i = pv_idx(s, e.0);
    if i < 0 {
        let r = s.push(e);
        assert(r.drop_last() =~= s);
        assert(r.last() == e);
        if k == e.0 {
        }
    } else {
        let r = s.update(i, (e.0, s[i].1 + e.1));
        if i == s.len() - 1 {
            assert(r.drop_last() =~= s.drop_last());
            assert(r.last() == (e.0, s[i].1 + e.1));
            if k == e.0 {
                assert(pv_lookup(r, k) == pv_lookup(s.drop_last(), k) + (s[i].1 + e.1));
                assert(pv_lookup(s, k) == pv_lookup(s.drop_last(), k) + s[i].1);
                assert(pv_lookup(s.drop_last(), k) + (s[i].1 + e.1) =~= (pv_lookup(
                    s.drop_last(),
                    k,
                ) + s[i].1) + e.1);
            }
        } else {
            let t = s.drop_last();
            assert(pv_wf(t));
            assert(forall|j: int| 0 <= j < t.len() ==> t[j] == s[j]);
            assert(pv_idx(t, e.0) == i) by {
                lemma_pv_idx(t, e.0);
                assert(t[i] == s[i]);
                if pv_idx(t, e.0) != i {
                    if pv_idx(t, e.0) < 0 {
                        assert(t[i].0 != e.0);
                    } else if pv_idx(t, e.0) < i {
                        assert(s[pv_idx(t, e.0)].0 == e.0);
                    } else {
                        assert(t[i].0 == e.0);
                        assert(forall|j: int| 0 <= j < pv_idx(t, e.0) ==> (#[trigger] t[j]).0
                            != e.0);
                    }
                }
            }
            lemma_pv_add1_lookup(t, e, k);
            assert(r.drop_last() =~= pv_add1(t, e));
            assert(r.last() == s.last());
            assert(s.last().0 != e.0);
        }
    }
}

/// What merging does to the recorded name lists: the second table's
/// names come after the first's, position by position.
pub proof fn lemma_pv_merge_lookup(a: Seq<(nat, Seq<nat>)>, b: Seq<(nat, Seq<nat>)>, k: nat)
    requires
        pv_wf(a),
    ensures
        pv_lookup(pv_merge(a, b), k) == pv_lookup(a, k) + pv_lookup(b, k),
    decreases b.len(),
{
    if b.len() == 0 {
        assert(pv_lookup(b, k) =~= Seq::<nat>::empty());
        assert(pv_lookup(a, k) + pv_lookup(b, k) =~= pv_lookup(a, k));
    } else {
        lemma_pv_merge_lookup(a, b.drop_last(), k);
        lemma_pv_merge_wf(a, b.drop_last());
        lemma_pv_add1_lookup(pv_merge(a, b.drop_last()), b.last(), k);
        if k == b.last().0 {
            assert((pv_lookup(a, k) + pv_lookup(b.drop_last(), k)) + b.last().1 =~= pv_lookup(
                a,
                k,
            ) + (pv_lookup(b.drop_last(), k) + b.last().1));
        }
    }
}

/// Adding names grows the total count by exactly the names added.
pub proof fn lemma_pv_add1_count(s: Seq<(nat, Seq<nat>)>, e: (nat, Seq<nat>))
    ensures
        pv_count(pv_add1(s, e)) == pv_count(s) + e.1.len(),
    decreases s.len(),
{
    lemma_pv_idx(s, e.0);
    let i = pv_idx(s, e.0);
    if i < 0 {
        let r = s.push(e);
        assert(r.drop_last() =~= s);
    } else {
        let r = s.update(i, (e.0, s[i].1 + e.1));
        if i == s.len() - 1 {
            assert(r.drop_last() =~= s.drop_last());
        } else {
            let t = s.drop_last();
            assert(pv_idx(t, e.0) == i) by {
                lemma_pv_idx(t, e.0);
                assert(t[i] == s[i]);
                if pv_idx(t, e.0) != i {
                    if pv_idx(t, e.0) < 0 {
                        assert(t[i].0 != e.0);
                    } else if pv_idx(t, e.0) < i {
                        assert(s[pv_idx(t, e.0)].0 == e.0);
                    } else {
                        assert(forall|j: int| 0 <= j < pv_idx(t, e.0) ==> (#[trigger] t[j]).0
                            != e.0);
                    }
                }
            }
            lemma_pv_add1_count(t, e);
            assert(r.drop_last() =~= pv_add1(t, e));
            assert(r.last() == s.last());
        }
    }
}

/// Merging adds the counts.
pub proof fn lemma_pv_merge_count(a: Seq<(nat, Seq<nat>)>, b: Seq<(nat, Seq<nat>)>)
    ensures
        pv_count(pv_merge(a, b)) == pv_count(a) + pv_count(b),
    decreases b.len(),
{
    if b.len() > 0 {
        lemma_pv_merge_count(a, b.drop_last());
        lemma_pv_add1_count(pv_merge(a, b.drop_last()), b.last());
    }
}

// ------------------------------------------------------------------
// Classification.
// ------------------------------------------------------------------

pub open spec fn spec_empty_class() -> PatClassV {
    PatClassV {
        absurd_count: 0,
        as_binds: Seq::empty(),
        other_pats: Seq::empty(),
        pat_vars: Seq::empty(),
    }
}

/// Combining two classifications: counts add, lists concatenate, and
/// the name tables merge, the second batch's names after the first's.
pub open spec fn spec_class_add(a: PatClassV, b: PatClassV) -> PatClassV {
    PatClassV {
        absurd_count: a.absurd_count + b.absurd_count,
        as_binds: a.as_binds + b.as_binds,
        other_pats: a.other_pats + b.other_pats,
        pat_vars: pv_merge(a.pat_vars, b.pat_vars),
    }
}

/// Classifying one equation: an absurd pattern is counted; a variable
/// pattern asks the eta-variable analysis whether its term is an
/// existing context position, recording the name there or making an
/// as-binding; any other pattern is left for the splitting driver.
pub open spec fn spec_classify_one(sigma: Seq<DeclV>, eq: EquationV) -> Result<
    PatClassV,
    TCEV,
> {
    match eq.in_pat {
        AbsCopatV::App(AbsPatV::Absurd) => Result::Ok(
            PatClassV { absurd_count: 1, ..spec_empty_class() },
        ),
        AbsCopatV::App(AbsPatV::Var(x)) => match spec_is_eta_var_borrow(
            sigma,
            eq.inst,
            eq.ty,
        ) {
            Result::Err(e) => Result::Err(e),
            Result::Ok(Option::Some(i)) => Result::Ok(
                PatClassV {
                    pat_vars: Seq::empty().push((i, Seq::empty().push(x))),
                    ..spec_empty_class()
                },
            ),
            Result::Ok(Option::None) => Result::Ok(
                PatClassV {
                    as_binds: Seq::empty().push(
                        AsBindV { name: x, term: eq.inst, ty: eq.ty },
                    ),
                    ..spec_empty_class()
                },
            ),
        },
        p => Result::Ok(PatClassV { other_pats: Seq::empty().push(p), ..spec_empty_class() }),
    }
}

/// Classifying a batch: the equations are processed in order, threading
/// the state; the first error aborts.
pub open spec fn spec_classify(sigma: Seq<DeclV>, eqs: Seq<EquationV>) -> Result<
    PatClassV,
    TCEV,
>
    decreases eqs.len(),
{
    if eqs.len() == 0 {
        Result::Ok(spec_empty_class())
    } else {
        match spec_classify(sigma, eqs.drop_last()) {
            Result::Err(e) => Result::Err(e),
            Result::Ok(c) => match spec_classify_one(sigma, eqs.last()) {
                Result::Err(e) => Result::Err(e),
                Result::Ok(c1) => Result::Ok(spec_class_add(c, c1)),
            },
        }
    }
}

/// The inputs classification is defined on: every variable pattern's
/// instantiating term and type can go through the eta-variable
/// analysis.
pub open spec fn spec_classify_ok(sigma: Seq<DeclV>, eqs: Seq<EquationV>) -> bool {
    forall|i: int| 0 <= i < eqs.len() ==> ((#[trigger] eqs[i]).in_pat matches AbsCopatV::App(
        AbsPatV::Var(_),
    ) ==> spec_is_eta_var_borrow_ok(sigma, eqs[i].inst, eqs[i].ty))
}

/// The total number of things a classification records.
pub open spec fn spec_class_total(c: PatClassV) -> nat {
    c.absurd_count + c.as_binds.len() + c.other_pats.len() + pv_count(c.pat_vars)
}

/// A classification's name table is well-formed: one entry per context
/// position.
pub proof fn lemma_classify_wf(sigma: Seq<DeclV>, eqs: Seq<EquationV>)
    ensures
        spec_classify(sigma, eqs) matches Result::Ok(c) ==> pv_wf(c.pat_vars),
    decreases eqs.len(),
{
    if eqs.len() > 0 {
        lemma_classify_wf(sigma, eqs.drop_last());
        if spec_classify(sigma, eqs) matches Result::Ok(c) {
            let c0 = spec_classify(sigma, eqs.drop_last())->Ok_0;
            lemma_pv_merge_wf(c0.pat_vars, spec_classify_one(sigma, eqs.last())->Ok_0.pat_vars);
        }
    }
}

/// Partitioning is total: every equation of a batch lands in exactly
/// one bucket, so the buckets' sizes add up to the batch's length.
pub proof fn lemma_classify_total(sigma: Seq<DeclV>, eqs: Seq<EquationV>)
    ensures
        spec_classify(sigma, eqs) matches Result::Ok(c) ==> spec_class_total(c) == eqs.len(),
    decreases eqs.len(),
{
    if eqs.len() > 0 {
        lemma_classify_total(sigma, eqs.drop_last());
        if spec_classify(sigma, eqs) matches Result::Ok(c) {
            let c0 = spec_classify(sigma, eqs.drop_last())->Ok_0;
            let c1 = spec_classify_one(sigma, eqs.last())->Ok_0;
            lemma_pv_merge_count(c0.pat_vars, c1.pat_vars);
            assert(spec_class_total(c1) == 1) by {
                let lastv = eqs.last();
                match lastv.in_pat {
                    AbsCopatV::App(q) => {
                        match q {
                            AbsPatV::Absurd => {}
                            AbsPatV::Var(x) => {
                                match spec_is_eta_var_borrow(sigma, lastv.inst, lastv.ty) {
                                    Result::Ok(Option::Some(i)) => {
                                        let single = Seq::<(nat, Seq<nat>)>::empty().push(
                                            (i, Seq::<nat>::empty().push(x)),
                                        );
                                        assert(c1.pat_vars == single);
                                        assert(single.drop_last() =~= Seq::<
                                            (nat, Seq<nat>),
                                        >::empty());
                                        assert(pv_count(single.drop_last()) == 0);
                                        assert(pv_count(single) == 1);
                                    }
                                    Result::Ok(Option::None) => {
                                        assert(c1.as_binds.len() == 1);
                                    }
                                    Result::Err(_) => {
                                        assert(false);
                                    }
                                }
                            }
                            _ => {
                                assert(c1.other_pats.len() == 1);
                            }
                        }
                    }
                    AbsCopatV::Proj(_) => {
                        assert(c1.other_pats.len() == 1);
                    }
                }
            }
        }
    }
}

/// The combination law: classifying the concatenation of two batches
/// is the batchwise combination — absurd counts add, as-bindings and
/// leftover patterns concatenate in order, and at every context
/// position the first batch's names come before the second's.
pub proof fn lemma_classify_append(sigma: Seq<DeclV>, e1: Seq<EquationV>, e2: Seq<EquationV>)
    requires
        spec_classify(sigma, e1) is Ok,
        spec_classify(sigma, e2) is Ok,
    ensures
        spec_classify(sigma, e1 + e2) is Ok,
        ({
            let c = spec_classify(sigma, e1 + e2)->Ok_0;
            let c1 = spec_classify(sigma, e1)->Ok_0;
            let c2 = spec_classify(sigma, e2)->Ok_0;
            &&& c.absurd_count == c1.absurd_count + c2.absurd_count
            &&& c.as_binds == c1.as_binds + c2.as_binds
            &&& c.other_pats == c1.other_pats + c2.other_pats
            &&& forall|k: nat| pv_lookup(#[trigger] c.pat_vars, k) == pv_lookup(
                c1.pat_vars,
                k,
            ) + pv_lookup(c2.pat_vars, k)
        }),
    decreases e2.len(),
{
    let c1 = spec_classify(sigma, e1)->Ok_0;
    lemma_classify_wf(sigma, e1);
    if e2.len() == 0 {
        assert(e1 + e2 =~= e1);
        let c2 = spec_classify(sigma, e2)->Ok_0;
        assert(c2 == spec_empty_class());
        assert(c1.as_binds + c2.as_binds =~= c1.as_binds);
        assert(c1.other_pats + c2.other_pats =~= c1.other_pats);
        assert forall|k: nat| pv_lookup(#[trigger] c1.pat_vars, k) == pv_lookup(
            c1.pat_vars,
            k,
        ) + pv_lookup(c2.pat_vars, k) by {
            assert(pv_lookup(c2.pat_vars, k) =~= Seq::<nat>::empty());
            assert(pv_lookup(c1.pat_vars, k) + Seq::<nat>::empty() =~= pv_lookup(
                c1.pat_vars,
                k,
            ));
        }
    } else {
        let e2p = e2.drop_last();
        let last = e2.last();
        lemma_classify_append(sigma, e1, e2p);
        let cmid = spec_classify(sigma, e1 + e2p)->Ok_0;
        let c2p = spec_classify(sigma, e2p)->Ok_0;
        let cone = spec_classify_one(sigma, last)->Ok_0;
        let c2 = spec_classify(sigma, e2)->Ok_0;
        assert((e1 + e2).drop_last() =~= e1 + e2p);
        assert((e1 + e2).last() == last);
        let c = spec_classify(sigma, e1 + e2)->Ok_0;
        assert(c == spec_class_add(cmid, cone));
        assert(c2 == spec_class_add(c2p, cone));
        assert(c.as_binds =~= c1.as_binds + c2.as_binds);
        assert(c.other_pats =~= c1.other_pats + c2.other_pats);
        lemma_classify_wf(sigma, e1 + e2p);
        lemma_classify_wf(sigma, e2p);
        assert forall|k: nat| pv_lookup(#[trigger] c.pat_vars, k) == pv_lookup(
            c1.pat_vars,
            k,
        ) + pv_lookup(c2.pat_vars, k) by {
            lemma_pv_merge_lookup(cmid.pat_vars, cone.pat_vars, k);
            lemma_pv_merge_lookup(c2p.pat_vars, cone.pat_vars, k);
            assert((pv_lookup(c1.pat_vars, k) + pv_lookup(c2p.pat_vars, k)) + pv_lookup(
                cone.pat_vars,
                k,
            ) =~= pv_lookup(c1.pat_vars, k) + (pv_lookup(c2p.pat_vars, k) + pv_lookup(
                cone.pat_vars,
                k,
            )));
        }
    }
}

// ------------------------------------------------------------------
// Executable classification.
// ------------------------------------------------------------------

/// The first entry with this position, where the table has one.
pub proof fn lemma_pv_idx_unique(s: Seq<(nat, Seq<nat>)>, k: nat, j: int)
    requires
        0 <= j < s.len(),
        s[j].0 == k,
        forall|jj: int| 0 <= jj < j ==> (#[trigger] s[jj]).0 != k,
    ensures
        pv_idx(s, k) == j,
    decreases s.len(),
{
    if j == 0 {
    } else {
        let t = s.drop_first();
        assert(forall|jj: int| 0 <= jj < t.len() ==> t[jj] == s[jj + 1]);
        assert(forall|jj: int| 0 <= jj < j - 1 ==> (#[trigger] t[jj]).0 != k);
        lemma_pv_idx_unique(t, k, j - 1);
    }
}

/// Records names for a position: appends to its entry where there is
/// one, opens a new entry at the end otherwise.
#[verifier::loop_isolation(false)]
fn pat_vars_insert_all(pat_vars: &mut PatVars, key: DBI, names: Vec<UID>)
    ensures
        pv_v(final(pat_vars)@) == pv_add1(
            pv_v(old(pat_vars)@),
            (key as nat, uids_v(names@)),
        ),
{
    let ghost oldv = pv_v(pat_vars@);
    let ghost entrynames = uids_v(names@);
    proof {
        lemma_pv_v(pat_vars@);
    }
    let mut j: usize = 0;
    while j < pat_vars.len()
        invariant
            j <= pat_vars@.len(),
            oldv == pv_v(pat_vars@),
            oldv.len() == pat_vars@.len(),
            forall|i: int| 0 <= i < pat_vars@.len() ==> #[trigger] pv_v(pat_vars@)[i] == (
                pat_vars@[i].0 as nat,
                uids_v(pat_vars@[i].1@),
            ),
            forall|i: int| 0 <= i < j ==> (#[trigger] pat_vars@[i]).0 != key,
        decreases pat_vars@.len() - j,
    {
        if pat_vars[j].0 == key {
            let ghost before = pat_vars@;
            let (ekey, mut bucket) = pat_vars.remove(j);
            let mut names = names;
            let ghost bucket0 = bucket@;
            let ghost names0 = names@;
            bucket.append(&mut names);
            proof {
                lemma_uids_v(bucket0);
                lemma_uids_v(names0);
                lemma_uids_v(bucket@);
                assert(bucket@ == bucket0 + names0);
                assert(entrynames == uids_v(names0));
                assert forall|x: int| 0 <= x < bucket@.len() implies uids_v(bucket@)[x] == (
                uids_v(bucket0) + uids_v(names0))[x] by {
                    if x < bucket0.len() {
                        assert(bucket@[x] == bucket0[x]);
                    } else {
                        assert(bucket@[x] == names0[x - bucket0.len()]);
                    }
                }
                assert(uids_v(bucket@) =~= uids_v(bucket0) + entrynames);
            }
            let ghost key_n = key as nat;
            pat_vars.insert(j, (ekey, bucket));
            proof {
                assert(pat_vars@ =~= before.update(j as int, pat_vars@[j as int]));
                lemma_pv_v(pat_vars@);
                lemma_pv_idx_unique(oldv, key_n, j as int);
                let target = pv_add1(oldv, (key_n, entrynames));
                assert(target == oldv.update(
                    j as int,
                    (key_n, oldv[j as int].1 + entrynames),
                ));
                assert(pv_v(pat_vars@) =~= target);
            }
            return;
        }
        j = j + 1;
    }
    let ghost before = pat_vars@;
    pat_vars.push((key, names));
    proof {
        lemma_pv_v(pat_vars@);
        lemma_pv_idx(oldv, key as nat);
        if pv_idx(oldv, key as nat) >= 0 {
            assert(oldv[pv_idx(oldv, key as nat)].0 == key as nat);
            assert(before[pv_idx(oldv, key as nat)].0 == key);
            assert(false);
        }
        assert(pv_v(pat_vars@) =~= oldv.push((key as nat, entrynames)));
    }
}

impl PatClass {
    /// Combines two classifications: counts add, the lists and each
    /// position's name lists concatenate, this batch's parts first.
    #[verifier::loop_isolation(false)]
    pub fn add(self, rhs: Self) -> (r: Self)
        requires
            self.absurd_count + rhs.absurd_count <= usize::MAX,
        ensures
            r@ == spec_class_add(self@, rhs@),
    {
        let ghost selfv = self@;
        let ghost rhsv = rhs@;
        let mut s = self;
        let mut rhs = rhs;
        let ghost ob1 = s.other_pats@;
        let ghost ob2 = rhs.other_pats@;
        s.other_pats.append(&mut rhs.other_pats);
        proof {
            lemma_copats_v_concat(ob1, ob2);
        }
        let ghost ab1 = s.as_binds@;
        let ghost ab2 = rhs.as_binds@;
        s.as_binds.append(&mut rhs.as_binds);
        proof {
            lemma_asbinds_v_concat(ab1, ab2);
        }
        s.absurd_count = s.absurd_count + rhs.absurd_count;
        let ghost rpv = pv_v(rhs.pat_vars@);
        proof {
            lemma_pv_v(rhs.pat_vars@);
            assert(rpv.take(0) =~= Seq::<(nat, Seq<nat>)>::empty());
        }
        let mut k: usize = 0;
        while k < rhs.pat_vars.len()
            invariant
                k <= rhs.pat_vars@.len(),
                s.absurd_count as nat == selfv.absurd_count + rhsv.absurd_count,
                asbinds_v(s.as_binds@) == selfv.as_binds + rhsv.as_binds,
                copats_v(s.other_pats@) == selfv.other_pats + rhsv.other_pats,
                rpv == pv_v(rhs.pat_vars@),
                rpv.len() == rhs.pat_vars@.len(),
                forall|x: int| 0 <= x < rhs.pat_vars@.len() ==> #[trigger] pv_v(
                    rhs.pat_vars@,
                )[x] == (rhs.pat_vars@[x].0 as nat, uids_v(rhs.pat_vars@[x].1@)),
                pv_v(s.pat_vars@) == pv_merge(selfv.pat_vars, rpv.take(k as int)),
            decreases rhs.pat_vars@.len() - k,
        {
            let key = rhs.pat_vars[k].0;
            let names = clone_uids(&rhs.pat_vars[k].1);
            proof {
                assert(rpv[k as int] == (key as nat, uids_v(names@)));
            }
            pat_vars_insert_all(&mut s.pat_vars, key, names);
            proof {
                assert(rpv.take(k as int + 1) =~= rpv.take(k as int).push(rpv[k as int]));
                assert((rpv.take(k as int).push(rpv[k as int])).drop_last() =~= rpv.take(
                    k as int,
                ));
                assert(pv_merge(selfv.pat_vars, rpv.take(k as int + 1)) == pv_add1(
                    pv_merge(selfv.pat_vars, rpv.take(k as int)),
                    rpv[k as int],
                ));
            }
            k = k + 1;
        }
        proof {
            assert(rpv.take(rpv.len() as int) =~= rpv);
            assert(s@ =~= spec_class_add(selfv, rhsv));
        }
        s
    }
}

/// Copies a list of display names.
#[verifier::loop_isolation(false)]
fn clone_uids(v: &Vec<UID>) -> (r: Vec<UID>)
    ensures
        r@ == v@,
{
    let mut out: Vec<UID> = Vec::new();
    let mut i: usize = 0;
    while i < v.len()
        invariant
            i <= v@.len(),
            out@.len() == i as int,
            forall|j: int| 0 <= j < i ==> out@[j] == v@[j],
        decreases v@.len() - i,
    {
        out.push(v[i]);
        i = i + 1;
    }
    proof {
        assert(out@ =~= v@);
    }
    out
}

/// Once a prefix classifies and the next equation fails, the whole
/// batch fails with that same error.
pub proof fn lemma_classify_err_at(sigma: Seq<DeclV>, eqs: Seq<EquationV>, i: int)
    requires
        0 <= i < eqs.len(),
        spec_classify(sigma, eqs.take(i)) is Ok,
        spec_classify_one(sigma, eqs[i]) is Err,
    ensures
        spec_classify(sigma, eqs) == Result::<PatClassV, TCEV>::Err(
            spec_classify_one(sigma, eqs[i])->Err_0,
        ),
    decreases eqs.len(),
{
    if i == eqs.len() - 1 {
        assert(eqs.take(i) =~= eqs.drop_last());
    } else {
        let t = eqs.drop_last();
        assert(t.take(i) =~= eqs.take(i));
        assert(t[i] == eqs[i]);
        lemma_classify_err_at(sigma, t, i);
    }
}

/// Partitions a batch of problem equations: counts the absurd
/// patterns, sends each variable pattern to an existing context
/// position or a fresh as-binding, and leaves every other pattern for
/// the splitting driver.  The state is threaded through the
/// eta-variable analysis and comes back untouched.
#[verifier::loop_isolation(false)]
#[verifier::rlimit(60)]
pub fn classify_eqs(tcs: TCS, eqs: Vec<Equation>) -> (r: TCMS<PatClass>)
    requires
        spec_classify_ok(tcs@.sigma, equations_v(eqs@)),
    ensures
        ({
            let sr = spec_classify(tcs@.sigma, equations_v(eqs@));
            match r {
                Result::Ok((class, tcs2)) => sr matches Result::Ok(cv) && class@ == cv
                    && tcs2@ == tcs@,
                Result::Err(e) => sr matches Result::Err(ev) && e@ == ev,
            }
        }),
{
    let ghost sigma = tcs@.sigma;
    let ghost orig = equations_v(eqs@);
    proof {
        lemma_equations_v(eqs@);
        assert(orig.take(0) =~= Seq::<EquationV>::empty());
    }
    let mut pat_vars: PatVars = Vec::new();
    let mut other_pats: Vec<AbsCopat> = Vec::new();
    let mut as_binds: Vec<AsBind> = Vec::new();
    let mut absurd_count: usize = 0;
    let mut eqs = eqs;
    let mut tcs = tcs;
    let ghost tcs0 = tcs@;
    let total = eqs.len();
    proof {
        assert(orig.len() == total);
    }
    let mut i: usize = 0;
    proof {
        assert(pv_v(pat_vars@) =~= Seq::<(nat, Seq<nat>)>::empty());
        assert(copats_v(other_pats@) =~= Seq::<AbsCopatV>::empty());
        assert(asbinds_v(as_binds@) =~= Seq::<AsBindV>::empty());
    }
    while eqs.len() > 0
        invariant
            i <= orig.len(),
            orig.len() <= usize::MAX,
            spec_classify_ok(sigma, orig),
            equations_v(eqs@) =~= orig.skip(i as int),
            eqs@.len() == orig.len() - i,
            forall|j: int| 0 <= j < eqs@.len() ==> #[trigger] eqs@[j]@ == orig[i + j],
            tcs@ == tcs0,
            absurd_count <= i,
            spec_classify(sigma, orig.take(i as int)) is Ok,
            spec_classify(sigma, orig.take(i as int))->Ok_0 == (PatClassV {
                absurd_count: absurd_count as nat,
                as_binds: asbinds_v(as_binds@),
                other_pats: copats_v(other_pats@),
                pat_vars: pv_v(pat_vars@),
            }),
        decreases eqs@.len(),
    {
        let ghost before = eqs@;
        let ghost acc = spec_classify(sigma, orig.take(i as int))->Ok_0;
        let eq = eqs.remove(0);
        proof {
            assert(eq@ == orig[i as int]);
            lemma_equations_v(eqs@);
            assert(forall|j: int| 0 <= j < eqs@.len() ==> eqs@[j] == before[j + 1]);
            assert(equations_v(eqs@) =~= orig.skip(i as int + 1));
            assert(orig.take(i as int + 1) =~= orig.take(i as int).push(orig[i as int]));
        }
        let Equation { in_pat, inst, ty } = eq;
        match in_pat {
            AbsCopat::App(AbsPat::Absurd) => {
                absurd_count = absurd_count + 1;
                proof {
                    let one = spec_classify_one(sigma, orig[i as int])->Ok_0;
                    assert(one.pat_vars =~= Seq::<(nat, Seq<nat>)>::empty());
                    assert(pv_merge(acc.pat_vars, one.pat_vars) == acc.pat_vars);
                    assert(spec_class_add(acc, one).as_binds =~= acc.as_binds);
                    assert(spec_class_add(acc, one).other_pats =~= acc.other_pats);
                }
            }
            AbsCopat::App(AbsPat::Var(x)) => {
                match is_eta_var_borrow(tcs, &inst, &ty) {
                    Result::Err(e) => {
                        proof {
                            lemma_classify_err_at(sigma, orig, i as int);
                        }
                        return Result::Err(e);
                    }
                    Result::Ok((found, tcs2)) => {
                        tcs = tcs2;
                        match found {
                            Option::Some(pos) => {
                                let names: Vec<UID> = vec![x];
                                proof {
                                    assert(names@ =~= Seq::<UID>::empty().push(x));
                                    assert(names@.drop_last() =~= Seq::<UID>::empty());
                                    assert(uids_v(names@.drop_last()) == Seq::<nat>::empty());
                                    assert(uids_v(names@) =~= Seq::<nat>::empty().push(
                                        x as nat,
                                    ));
                                }
                                pat_vars_insert_all(&mut pat_vars, pos, names);
                                proof {
                                    assert(orig[i as int].in_pat == AbsCopatV::App(
                                        AbsPatV::Var(x as nat),
                                    ));
                                    assert(spec_is_eta_var_borrow(
                                        sigma,
                                        orig[i as int].inst,
                                        orig[i as int].ty,
                                    ) == Result::<Option<nat>, TCEV>::Ok(
                                        Option::Some(pos as nat),
                                    ));
                                    let one = spec_classify_one(sigma, orig[i as int])->Ok_0;
                                    assert(one.pat_vars =~= Seq::<(nat, Seq<nat>)>::empty()
                                        .push((pos as nat, Seq::<nat>::empty().push(
                                        x as nat,
                                    ))));
                                    assert(pv_merge(acc.pat_vars, one.pat_vars)
                                        == pv_add1(acc.pat_vars, one.pat_vars.last())) by {
                                        assert(one.pat_vars.drop_last() =~= Seq::<
                                            (nat, Seq<nat>),
                                        >::empty());
                                        assert(pv_merge(
                                            acc.pat_vars,
                                            one.pat_vars.drop_last(),
                                        ) == acc.pat_vars);
                                    }
                                    assert(spec_class_add(acc, one).as_binds
                                        =~= acc.as_binds);
                                    assert(spec_class_add(acc, one).other_pats
                                        =~= acc.other_pats);
                                }
                            }
                            Option::None => {
                                let ghost ab0 = as_binds@;
                                as_binds.push(AsBind::new(x, inst, ty));
                                proof {
                                    let one = spec_classify_one(sigma, orig[i as int])->Ok_0;
                                    assert(one.pat_vars =~= Seq::<(nat, Seq<nat>)>::empty());
                                    assert(pv_merge(acc.pat_vars, one.pat_vars)
                                        == acc.pat_vars);
                                    assert(as_binds@.drop_last() =~= ab0);
                                    assert(asbinds_v(as_binds@) =~= asbinds_v(ab0).push(
                                        as_binds@.last()@,
                                    ));
                                    assert(asbinds_v(ab0) + one.as_binds =~= asbinds_v(
                                        as_binds@,
                                    ));
                                    assert(spec_class_add(acc, one).other_pats
                                        =~= acc.other_pats);
                                }
                            }
                        }
                    }
                }
            }
            p => {
                let ghost op0 = other_pats@;
                other_pats.push(p);
                proof {
                    let one = spec_classify_one(sigma, orig[i as int])->Ok_0;
                    assert(one.pat_vars =~= Seq::<(nat, Seq<nat>)>::empty());
                    assert(pv_merge(acc.pat_vars, one.pat_vars) == acc.pat_vars);
                    assert(other_pats@.drop_last() =~= op0);
                    assert(copats_v(other_pats@) =~= copats_v(op0).push(abscopat_v(
                        other_pats@.last(),
                    )));
                    assert(copats_v(op0) + one.other_pats =~= copats_v(other_pats@));
                    assert(spec_class_add(acc, one).as_binds =~= acc.as_binds);
                }
            }
        }
        proof {
            let one = spec_classify_one(sigma, orig[i as int])->Ok_0;
            assert(spec_classify_one(sigma, orig[i as int]) is Ok);
            assert((orig.take(i as int).push(orig[i as int])).drop_last() =~= orig.take(
                i as int,
            ));
            assert((orig.take(i as int).push(orig[i as int])).last() == orig[i as int]);
            assert(spec_classify(sigma, orig.take(i as int + 1))
                == Result::<PatClassV, TCEV>::Ok(spec_class_add(acc, one)));
            assert(spec_class_add(acc, one) =~= (PatClassV {
                absurd_count: absurd_count as nat,
                as_binds: asbinds_v(as_binds@),
                other_pats: copats_v(other_pats@),
                pat_vars: pv_v(pat_vars@),
            }));
        }
        i = i + 1;
    }
    proof {
        assert(orig.take(i as int) =~= orig);
    }
    let class = PatClass { absurd_count, other_pats, pat_vars, as_binds };
    Result::Ok((class, tcs))
}

} // verus!
