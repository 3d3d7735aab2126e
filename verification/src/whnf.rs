//! The weak-head normalizer: reduces a term to its outermost constructor
//! form, unfolding global declarations lazily.

use vstd::prelude::*;

use crate::common::{Ductive, Ident};
use crate::decl::{clause_v, lemma_clauses_v, lemma_corecopats_v, ClauseV, Decl, DeclV};
use crate::monad::{TCEV, TCM, TCS, ValTCM};
use crate::term::{
    clone_strings, elim_v, elims_v, lemma_elims_v, lemma_terms_v, terms_v, ConHead, ConHeadV,
    Elim, ElimV, Term, TermV, Val, ValV,
};

verus! {

/// Turning an elimination spine into plain arguments: every elimination
/// must be an application; the first projection from the left fails the
/// whole spine.
pub open spec fn spec_elims_to_terms(es: Seq<ElimV>) -> Result<Seq<TermV>, TCEV>
    decreases es.len(),
{
    if es.len() == 0 {
        Result::Ok(Seq::empty())
    } else {
        match es.first() {
            ElimV::Proj(p) => Result::Err(TCEV::NotTerm(p)),
            ElimV::App(t) => match spec_elims_to_terms(es.drop_first()) {
                Result::Ok(ts) => Result::Ok(Seq::empty().push(*t) + ts),
                Result::Err(e) => Result::Err(e),
            },
        }
    }
}

/// When every elimination is an application, conversion succeeds and
/// gives the applied terms in order.
pub proof fn lemma_elims_to_terms_ok(es: Seq<ElimV>)
    requires
        forall|j: int| 0 <= j < es.len() ==> es[j] is App,
    ensures
        spec_elims_to_terms(es) is Ok,
        spec_elims_to_terms(es)->Ok_0.len() == es.len(),
        forall|j: int| 0 <= j < es.len() ==> spec_elims_to_terms(es)->Ok_0[j] == *es[j]->App_0,
    decreases es.len(),
{
    if es.len() > 0 {
        let tail = es.drop_first();
        assert(forall|j: int| 0 <= j < tail.len() ==> tail[j] == es[j + 1]);
        lemma_elims_to_terms_ok(tail);
        let r = spec_elims_to_terms(es);
        let rr = spec_elims_to_terms(tail);
        assert(r->Ok_0 == Seq::empty().push(*es.first()->App_0) + rr->Ok_0);
        assert(forall|j: int| 1 <= j < es.len() ==> r->Ok_0[j] == rr->Ok_0[j - 1]);
    }
}

/// The first projection from the left decides the error.
pub proof fn lemma_elims_to_terms_err(es: Seq<ElimV>, k: int)
    requires
        0 <= k < es.len(),
        es[k] is Proj,
        forall|j: int| 0 <= j < k ==> es[j] is App,
    ensures
        spec_elims_to_terms(es) == Result::<Seq<TermV>, TCEV>::Err(
            TCEV::NotTerm(es[k]->Proj_0),
        ),
    decreases es.len(),
{
    if k > 0 {
        let tail = es.drop_first();
        assert(forall|j: int| 0 <= j < tail.len() ==> tail[j] == es[j + 1]);
        assert(es[0] is App);
        lemma_elims_to_terms_err(tail, k - 1);
    }
}

/// Converts an elimination spine to plain argument terms, failing with
/// [`crate::monad::TCE::NotTerm`] on the first projection.
pub fn elims_to_terms(elims: Vec<Elim>) -> (r: TCM<Vec<Term>>)
    ensures
        ({
            let sr = spec_elims_to_terms(elims_v(elims@));
            match r {
                Result::Ok(ts) => sr matches Result::Ok(tsv) && terms_v(ts@) == tsv,
                Result::Err(e) => sr matches Result::Err(ev) && e@ == ev,
            }
        }),
{
    let ghost esv = elims_v(elims@);
    proof {
        lemma_elims_v(elims@);
    }
    let mut out: Vec<Term> = Vec::new();
    let mut i: usize = 0;
    while i < elims.len()
        invariant
            i <= elims.len(),
            esv == elims_v(elims@),
            esv.len() == elims@.len(),
            forall|j: int| 0 <= j < elims@.len() ==> esv[j] == elims@[j]@,
            forall|j: int| 0 <= j < i ==> esv[j] is App,
            out@.len() == i as int,
            forall|j: int| 0 <= j < i ==> out@[j]@ == *esv[j]->App_0,
        decreases elims@.len() - i,
    {
        let e = elims[i].clone();
        match e.try_into_app() {
            Result::Ok(t) => {
                out.push(t);
            }
            Result::Err(p) => {
                proof {
                    lemma_elims_to_terms_err(esv, i as int);
                }
                return Result::Err(crate::monad::TCE::NotTerm(p));
            }
        }
        i = i + 1;
    }
    proof {
        lemma_elims_to_terms_ok(esv);
        lemma_terms_v(out@);
        let sr = spec_elims_to_terms(esv);
        assert(terms_v(out@) =~= sr->Ok_0);
    }
    Result::Ok(out)
}

/// The plain arguments of a spine weigh no more than the spine itself.
pub proof fn lemma_elims_to_terms_size(es: Seq<ElimV>)
    ensures
        spec_elims_to_terms(es) matches Result::Ok(ts) ==> crate::term::tvs_size(ts)
            <= crate::term::evs_size(es),
    decreases es.len(),
{
    if es.len() > 0 {
        lemma_elims_to_terms_size(es.drop_first());
        crate::term::lemma_evs_size_drop_first(es);
        if spec_elims_to_terms(es) matches Result::Ok(ts) {
            let t = es.first()->App_0;
            let rest = spec_elims_to_terms(es.drop_first())->Ok_0;
            assert(Seq::empty().push(*t) =~= seq![*t]);
            crate::term::lemma_tvs_size_concat(seq![*t], rest);
            crate::term::lemma_tvs_size_single(*t);
        }
    }
}

/// Normalizing never grows a term: the weak-head value weighs no more
/// than the redex it came from.
pub proof fn lemma_simplify_size(sigma: Seq<DeclV>, t: TermV)
    requires
        spec_simplify_ok(sigma, t),
    ensures
        spec_simplify(sigma, t) matches Result::Ok(v) ==> crate::term::vv_size(v)
            <= crate::term::tv_size(t),
{
    match t {
        TermV::Whnf(_) => {}
        TermV::Redex(def, id, es) => {
            lemma_elims_to_terms_size(es);
        }
    }
}

/// Whether one clause could take part in unfolding against a spine of the
/// given length: enough eliminations for its patterns, and not absurd.
pub open spec fn clause_applicable(c: ClauseV, n_elims: nat) -> bool {
    n_elims >= c.patterns.len() && !(c.body is None)
}

/// The inputs on which normalization is defined: a term already in
/// weak-head form, or a redex over a declaration that unfolds without the
/// open completion points — projections, forward placeholders, and the
/// clause-matching step (so no clause may survive the filter).
pub open spec fn spec_simplify_ok(sigma: Seq<DeclV>, t: TermV) -> bool {
    match t {
        TermV::Whnf(_) => true,
        TermV::Redex(def, _, es) => def < sigma.len() && match sigma[def as int] {
            DeclV::Data => true,
            DeclV::Codata => true,
            DeclV::Cons(_) => true,
            DeclV::Func(fi) => forall|i: int| 0 <= i < fi.clauses.len()
                ==> !clause_applicable(#[trigger] fi.clauses[i], es.len()),
            DeclV::Proj => false,
            DeclV::ClausePlaceholder => false,
        },
    }
}

/// What normalization returns: a weak-head term unchanged; a redex turned
/// into the value form its declaration names, with the spine as plain
/// arguments; for a function, the clause filter finds nothing to unfold
/// and the lookup fails.
pub open spec fn spec_simplify(sigma: Seq<DeclV>, t: TermV) -> Result<ValV, TCEV> {
    match t {
        TermV::Whnf(v) => Result::Ok(*v),
        TermV::Redex(def, id, es) => match sigma[def as int] {
            DeclV::Data => match spec_elims_to_terms(es) {
                Result::Ok(ts) => Result::Ok(ValV::Data(Ductive::In, def, ts)),
                Result::Err(e) => Result::Err(e),
            },
            DeclV::Codata => match spec_elims_to_terms(es) {
                Result::Ok(ts) => Result::Ok(ValV::Data(Ductive::Coin, def, ts)),
                Result::Err(e) => Result::Err(e),
            },
            DeclV::Cons(ci) => match spec_elims_to_terms(es) {
                Result::Ok(ts) => Result::Ok(
                    ValV::Cons(
                        ConHeadV {
                            name: id,
                            cons_gi: ci.data,
                            ductive: if ci.fields is Some {
                                Ductive::In
                            } else {
                                Ductive::Coin
                            },
                            fields: match ci.fields {
                                Option::Some(fs) => fs,
                                Option::None => Seq::empty(),
                            },
                        },
                        ts,
                    ),
                ),
                Result::Err(e) => Result::Err(e),
            },
            DeclV::Func(_) => Result::Err(TCEV::CantFindPattern(id)),
            _ => arbitrary(),
        },
    }
}

/// A term already in weak-head normal form normalizes to itself:
/// normalization is idempotent.
pub proof fn lemma_simplify_whnf(sigma: Seq<DeclV>, v: ValV)
    ensures
        spec_simplify(sigma, TermV::Whnf(Box::new(v))) == Result::<ValV, TCEV>::Ok(v),
{
}

/// Attempts to unfold a function declaration against a spine.  Building
/// the matching substitution is an open completion point, so no clause is
/// ever selected: the applicable-clause filter must have found nothing,
/// and the lookup fails.
fn unfold_func(f: Ident, applicable: usize, tcs: TCS, elims: Vec<Elim>) -> (r: ValTCM)
    requires
        applicable == 0,
    ensures
        r matches Result::Err(e) && e@ == TCEV::CantFindPattern(f@),
{
    let _ = tcs;
    let _ = elims;
    Result::Err(crate::monad::TCE::CantFindPattern(f))
}

/// Weak-head normalization: a weak-head term is returned unchanged; a
/// redex is unfolded through its global declaration.  The state rides
/// along untouched.
pub fn simplify(tcs: TCS, term: Term) -> (r: ValTCM)
    requires
        spec_simplify_ok(tcs@.sigma, term@),
    ensures
        ({
            let sr = spec_simplify(tcs@.sigma, term@);
            match r {
                Result::Ok((v, tcs2)) => sr matches Result::Ok(vv) && v@ == vv && tcs2@
                    == tcs@,
                Result::Err(e) => sr matches Result::Err(ev) && e@ == ev,
            }
        }),
{
    match term {
        Term::Whnf(whnf) => Result::Ok((whnf, tcs)),
        Term::Redex(def, id, elims) => {
            proof {
                crate::decl::lemma_decls_v(tcs.sigma@);
            }
            match tcs.def(def) {
                Decl::Data => match elims_to_terms(elims) {
                    Result::Ok(ts) => Result::Ok((Val::inductive(def, ts), tcs)),
                    Result::Err(e) => Result::Err(e),
                },
                Decl::Codata => match elims_to_terms(elims) {
                    Result::Ok(ts) => Result::Ok((Val::coinductive(def, ts), tcs)),
                    Result::Err(e) => Result::Err(e),
                },
                Decl::Cons(cons) => {
                    let (ductive, fields) = match &cons.fields {
                        Option::Some(fields) => (Ductive::In, clone_strings(fields)),
                        Option::None => (Ductive::Coin, Vec::new()),
                    };
                    let data_gi = cons.data;
                    proof {
                        assert(crate::term::strs_v(Seq::<String>::empty())
                            =~= Seq::<Seq<char>>::empty());
                    }
                    let head = ConHead::new(id, data_gi, ductive, fields);
                    match elims_to_terms(elims) {
                        Result::Ok(ts) => Result::Ok((Val::Cons(head, ts), tcs)),
                        Result::Err(e) => Result::Err(e),
                    }
                }
                Decl::Func(func) => {
                    let ghost fi = tcs@.sigma[def as int]->Func_0;
                    let mut applicable: usize = 0;
                    let mut i: usize = 0;
                    proof {
                        lemma_clauses_v(func.clauses@);
                        lemma_elims_v(elims@);
                    }
                    while i < func.clauses.len()
                        invariant
                            i <= func.clauses.len(),
                            applicable == 0,
                            fi.clauses == crate::decl::clauses_v(func.clauses@),
                            fi.clauses.len() == func.clauses@.len(),
                            forall|j: int| 0 <= j < func.clauses@.len() ==> fi.clauses[j]
                                == clause_v(func.clauses@[j]),
                            forall|j: int| 0 <= j < fi.clauses.len() ==> !clause_applicable(
                                #[trigger] fi.clauses[j],
                                elims@.len() as nat,
                            ),
                            elims@.len() == elims_v(elims@).len(),
                        decreases func.clauses@.len() - i,
                    {
                        let c = &func.clauses[i];
                        proof {
                            lemma_corecopats_v(c.patterns@);
                        }
                        if elims.len() >= c.patterns.len() && !c.is_absurd() {
                            applicable = applicable + 1;
                            proof {
                                assert(clause_applicable(fi.clauses[i as int], elims@.len() as nat));
                            }
                        }
                        i = i + 1;
                    }
                    unfold_func(id, applicable, tcs, elims)
                }
                Decl::Proj => {
                    proof {
                        assert(false);
                    }
                    unreached()
                }
                Decl::ClausePlaceholder => {
                    proof {
                        assert(false);
                    }
                    unreached()
                }
            }
        }
    }
}

} // verus!
