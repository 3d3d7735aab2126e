//! The checking state and the typed errors, threaded explicitly through
//! every operation: each is a pure step from state and input to state and
//! output, or to the one error that aborts the enclosing call chain.

use vstd::prelude::*;
use vstd::string::StringExecFns;

use crate::common::{Ident, IdentV, Level, Loc, GI};
use crate::decl::{decl_v, decls_v, lemma_decls_v, Decl, DeclV};
use crate::term::{bind_v, term_v, Bind, BindV, Term, TermV, Val};

verus! {

/// The checking state: the typing context (innermost entry last), the
/// read-only global signature, and the diagnostic trace controls.
#[derive(Debug)]
pub struct TCS {
    /// The context, indexed from the end: the innermost binding is the
    /// last entry, named by de Bruijn index zero.
    pub gamma: Vec<Bind>,
    /// The global signature, looked up by declaration index.
    pub sigma: Vec<Decl>,
    /// Whether checking traces are recorded.
    pub trace_tc: bool,
    /// Current nesting depth of traced checking calls.
    pub tc_depth: usize,
}

#[verifier::ext_equal]
pub struct TCSV {
    pub gamma: Seq<BindV>,
    pub sigma: Seq<DeclV>,
    pub trace_tc: bool,
    pub tc_depth: nat,
}

pub open spec fn binds_v(s: Seq<Bind>) -> Seq<BindV>
    decreases s,
{
    if s.len() == 0 {
        Seq::empty()
    } else {
        binds_v(s.drop_last()).push(bind_v(s.last()))
    }
}

pub proof fn lemma_binds_v(s: Seq<Bind>)
    ensures
        binds_v(s).len() == s.len(),
        forall|i: int| 0 <= i < s.len() ==> binds_v(s)[i] == bind_v(s[i]),
    decreases s,
{
    if s.len() > 0 {
        lemma_binds_v(s.drop_last());
    }
}

/// Pushing a binding extends the context view by exactly that binding.
pub proof fn lemma_binds_v_push(s: Seq<Bind>, b: Bind)
    ensures
        binds_v(s.push(b)) == binds_v(s).push(bind_v(b)),
{
    assert(s.push(b).drop_last() =~= s);
}

impl View for TCS {
    type V = TCSV;

    open spec fn view(&self) -> TCSV {
        TCSV {
            gamma: binds_v(self.gamma@),
            sigma: decls_v(self.sigma@),
            trace_tc: self.trace_tc,
            tc_depth: self.tc_depth as nat,
        }
    }
}

impl TCS {
    /// A fresh state over a signature: empty context, trace off.
    pub fn new(sigma: Vec<Decl>) -> (r: TCS)
        ensures
            r@ == (TCSV {
                gamma: Seq::empty(),
                sigma: decls_v(sigma@),
                trace_tc: false,
                tc_depth: 0,
            }),
    {
        let r = TCS { gamma: Vec::new(), sigma, trace_tc: false, tc_depth: 0 };
        proof {
            assert(binds_v(Seq::<Bind>::empty()) =~= Seq::<BindV>::empty());
            assert(r@ =~= (TCSV {
                gamma: Seq::empty(),
                sigma: decls_v(r.sigma@),
                trace_tc: false,
                tc_depth: 0,
            }));
        }
        r
    }

    /// Pure lookup into the global signature.
    pub fn def(&self, gi: GI) -> (r: &Decl)
        requires
            gi < self@.sigma.len(),
        ensures
            decl_v(*r) == self@.sigma[gi as int],
    {
        proof {
            lemma_decls_v(self.sigma@);
        }
        &self.sigma[gi]
    }

    /// One step deeper into a traced checking call.
    pub fn tc_deeper(&mut self)
        requires
            old(self).tc_depth < usize::MAX,
        ensures
            final(self).gamma == old(self).gamma,
            final(self).sigma == old(self).sigma,
            final(self).trace_tc == old(self).trace_tc,
            final(self).tc_depth == old(self).tc_depth + 1,
    {
        self.tc_depth = self.tc_depth + 1;
    }

    /// Two spaces of indentation for each nesting level of the trace.
    pub fn tc_depth_ws(&self) -> (r: String)
        ensures
            r@ == spec_indent(self@.tc_depth),
    {
        let mut out = String::new();
        let mut i: usize = 0;
        while i < self.tc_depth
            invariant
                i <= self.tc_depth,
                out@ == spec_indent(i as nat),
            decreases self.tc_depth - i,
        {
            out.append("  ");
            i = i + 1;
        }
        out
    }

    /// The trace line a successful checking call emits: indentation,
    /// then the term, its expected type, and the weak-head result.
    pub fn trace_line(&self, term: &str, against: &str, whnf: &str) -> (r: String)
        ensures
            r@ == spec_trace_line(self@.tc_depth, term@, against@, whnf@),
    {
        let mut out = self.tc_depth_ws();
        out.append("\u{22A2} ");
        out.append(term);
        out.append(" : ");
        out.append(against);
        out.append(" \u{2193} ");
        out.append(whnf);
        out
    }

    /// The trace line a failing checking call emits before the error is
    /// re-raised.
    pub fn checking_line(&self, term: &str, against: &str) -> (r: String)
        ensures
            r@ == spec_checking_line(self@.tc_depth, term@, against@),
    {
        let mut out = self.tc_depth_ws();
        out.append("Checking ");
        out.append(term);
        out.append(" : ");
        out.append(against);
        out
    }

    /// One step back out of a traced checking call.
    pub fn tc_shallower(&mut self)
        requires
            old(self).tc_depth > 0,
        ensures
            final(self).gamma == old(self).gamma,
            final(self).sigma == old(self).sigma,
            final(self).trace_tc == old(self).trace_tc,
            final(self).tc_depth == old(self).tc_depth - 1,
    {
        self.tc_depth = self.tc_depth - 1;
    }
}

/// Two spaces for each nesting level.
pub open spec fn spec_indent(depth: nat) -> Seq<char>
    decreases depth,
{
    if depth == 0 {
        Seq::empty()
    } else {
        spec_indent((depth - 1) as nat) + "  "@
    }
}

/// The one textual protocol of the checker: the line traced for a
/// successful call, from the term, its expected type and the weak-head
/// result, each already rendered.
pub open spec fn spec_trace_line(
    depth: nat,
    term: Seq<char>,
    against: Seq<char>,
    whnf: Seq<char>,
) -> Seq<char> {
    spec_indent(depth) + "\u{22A2} "@ + term + " : "@ + against + " \u{2193} "@ + whnf
}

/// The line traced for a failing call, before the error is re-raised
/// unchanged.
pub open spec fn spec_checking_line(depth: nat, term: Seq<char>, against: Seq<char>) -> Seq<
    char,
> {
    spec_indent(depth) + "Checking "@ + term + " : "@ + against
}

/// The typed errors; the first one produced aborts the whole enclosing
/// call chain.
#[derive(Debug, PartialEq, Eq)]
pub enum TCE {
    /// A universe literal was checked against a universe not strictly
    /// above it: the location, the level the literal inhabits, and the
    /// level it was checked against.
    LevelMismatch(Loc, Level, Level),
    /// No clause of the named function declaration matched the spine.
    CantFindPattern(Ident),
    /// An elimination spine held a projection where plain arguments were
    /// required; carries a description of the offender.
    NotTerm(String),
    /// A clause head could not be resolved to a known declaration.
    UnresolvedReference(Ident),
    /// Two values that conversion checking could not identify.
    DifferentTerm(Box<Term>, Box<Term>),
    /// An inner error, wrapped with the source location it arose at.
    Wrapped(Loc, Box<TCE>),
}

#[verifier::ext_equal]
pub enum TCEV {
    LevelMismatch(Loc, nat, nat),
    CantFindPattern(IdentV),
    NotTerm(Seq<char>),
    UnresolvedReference(IdentV),
    DifferentTerm(Box<TermV>, Box<TermV>),
    Wrapped(Loc, Box<TCEV>),
}

pub open spec fn tce_v(e: TCE) -> TCEV
    decreases e,
{
    match e {
        TCE::LevelMismatch(loc, lower, upper) => TCEV::LevelMismatch(
            loc,
            lower as nat,
            upper as nat,
        ),
        TCE::CantFindPattern(id) => TCEV::CantFindPattern(id@),
        TCE::NotTerm(s) => TCEV::NotTerm(s@),
        TCE::UnresolvedReference(id) => TCEV::UnresolvedReference(id@),
        TCE::DifferentTerm(a, b) => TCEV::DifferentTerm(
            Box::new(term_v(*a)),
            Box::new(term_v(*b)),
        ),
        TCE::Wrapped(loc, inner) => TCEV::Wrapped(loc, Box::new(tce_v(*inner))),
    }
}

impl View for TCE {
    type V = TCEV;

    open spec fn view(&self) -> TCEV {
        tce_v(*self)
    }
}

impl TCE {
    /// Wraps this error with the source location it arose at.
    pub fn wrap(self, loc: Loc) -> (r: TCE)
        ensures
            r@ == TCEV::Wrapped(loc, Box::new(self@)),
    {
        TCE::Wrapped(loc, Box::new(self))
    }
}

/// A checked term together with the location it came from.
#[derive(Debug, PartialEq, Eq)]
pub struct TermInfo {
    pub ast: Term,
    pub loc: Loc,
}

#[verifier::ext_equal]
pub struct TermInfoV {
    pub ast: TermV,
    pub loc: Loc,
}

impl View for TermInfo {
    type V = TermInfoV;

    open spec fn view(&self) -> TermInfoV {
        TermInfoV { ast: term_v(self.ast), loc: self.loc }
    }
}

impl Term {
    /// Attaches a source location to a checked term.
    pub fn at(self, loc: Loc) -> (r: TermInfo)
        ensures
            r@ == (TermInfoV { ast: self@, loc }),
    {
        TermInfo { ast: self, loc }
    }
}

/// A checking computation: the value, or the error that aborted it.
pub type TCM<T> = Result<T, TCE>;

/// A checking computation that threads the state through.
pub type TCMS<T> = TCM<(T, TCS)>;

/// A normalization result: a weak-head value and the state.
pub type ValTCM = TCMS<Val>;

/// A checking result: a located term and the state.
pub type TermTCM = TCMS<TermInfo>;

} // verus!
