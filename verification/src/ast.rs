//! The basic Datalog term model: terms, literals, clauses, statements, and
//! programs.

use vstd::prelude::*;

use crate::bindings::Bindings;
use crate::bindings::spec_bind;
use crate::name::Name;
use crate::name::spec_name_valid;
use crate::variable::Variable;
use crate::variable::spec_variable_valid;

verus! {

/// The mathematical value of a term: a constant name or a variable, each
/// carried as its text.
#[verifier::ext_equal]
pub enum TermV {
    Name(Seq<char>),
    Var(Seq<char>),
}

impl TermV {
    /// The text under either constructor.
    pub open spec fn name_of(self) -> Seq<char>
        recommends
            self is Name,
    {
        match self {
            TermV::Name(n) => n,
            TermV::Var(v) => v,
        }
    }
}

/// The mathematical value of a literal.
#[verifier::ext_equal]
pub struct LiteralV {
    pub name: Seq<char>,
    pub args: Seq<TermV>,
}

impl LiteralV {
    /// The signature: predicate name and arity.
    pub open spec fn sig(self) -> (Seq<char>, nat) {
        (self.name, self.args.len())
    }

    /// Every argument is a constant.
    pub open spec fn is_ground(self) -> bool {
        forall|i: int| 0 <= i < self.args.len() ==> (#[trigger] self.args[i]) is Name
    }
}

/// The mathematical value of a clause.
#[verifier::ext_equal]
pub struct ClauseV {
    pub head: LiteralV,
    pub body: Seq<LiteralV>,
}

impl ClauseV {
    /// The argument tuple of a fact clause: the head's argument names, owed
    /// only when the clause has an empty body and a ground head.
    pub open spec fn fact_tuple(self) -> Option<Seq<Seq<char>>> {
        if self.body.len() == 0 && self.head.is_ground() {
            Some(self.head.args.map_values(|t: TermV| t.name_of()))
        } else {
            None
        }
    }
}

/// The mathematical value of a statement.
#[verifier::ext_equal]
pub enum StatementV {
    Assertion(ClauseV),
    Retraction(ClauseV),
    Query(LiteralV),
}

/// A term, for example `foo` or `Bar`.
#[derive(Debug)]
pub enum Term {
    /// A name.
    Name(Name),
    /// A variable.
    Var(Variable),
}

impl DeepView for Term {
    type V = TermV;

    open spec fn deep_view(&self) -> TermV {
        match self {
            Term::Name(n) => TermV::Name(n@),
            Term::Var(v) => TermV::Var(v@),
        }
    }
}

impl Clone for Term {
    fn clone(&self) -> (r: Self)
        ensures
            r == *self,
    {
        match self {
            Term::Name(n) => Term::Name(n.clone()),
            Term::Var(v) => Term::Var(v.clone()),
        }
    }
}

impl Term {
    /// Creates a new `Term` from the string, trying to parse it both as a
    /// `Name` and as a `Variable`.
    pub fn new(s: &str) -> (r: Option<Term>)
        ensures
            spec_name_valid(s@) ==> (r matches Some(t) && t.deep_view() == TermV::Name(s@)),
            !spec_name_valid(s@) && spec_variable_valid(s@) ==> (r matches Some(t)
                && t.deep_view() == TermV::Var(s@)),
            !spec_name_valid(s@) && !spec_variable_valid(s@) ==> r is None,
    {
        if let Some(name) = Name::new(s) {
            Some(Term::Name(name))
        } else if let Some(var) = Variable::new(s) {
            Some(Term::Var(var))
        } else {
            None
        }
    }
}

impl PartialEq for Term {
    fn eq(&self, other: &Term) -> (r: bool) {
        match (self, other) {
            (Term::Name(a), Term::Name(b)) => a == b,
            (Term::Var(a), Term::Var(b)) => a == b,
            _ => false,
        }
    }
}

impl vstd::std_specs::cmp::PartialEqSpecImpl for Term {
    open spec fn obeys_eq_spec() -> bool {
        true
    }

    open spec fn eq_spec(&self, other: &Term) -> bool {
        self.deep_view() == other.deep_view()
    }
}

/// Whether two term lists have the same value.
pub fn terms_eq(a: &Vec<Term>, b: &Vec<Term>) -> (r: bool)
    ensures
        r == (a.deep_view() == b.deep_view()),
{
    if a.len() != b.len() {
        proof {
            assert(a.deep_view().len() != b.deep_view().len());
        }
        return false;
    }
    let mut i: usize = 0;
    while i < a.len()
        invariant
            a.deep_view().len() == b.deep_view().len(),
            i <= a@.len(),
            a@.len() == a.deep_view().len(),
            forall|j: int| 0 <= j < i ==> a.deep_view()[j] == b.deep_view()[j],
        decreases a@.len() - i,
    {
        if !(a[i] == b[i]) {
            proof {
                assert(a.deep_view()[i as int] != b.deep_view()[i as int]);
            }
            return false;
        }
        i = i + 1;
    }
    proof {
        assert(a.deep_view() =~= b.deep_view());
    }
    true
}

/// A literal, for example `foo`, `bar(X)`, or `parent(john, douglas)`.
#[derive(Debug)]
pub struct Literal(pub Name, pub Vec<Term>);

impl DeepView for Literal {
    type V = LiteralV;

    open spec fn deep_view(&self) -> LiteralV {
        LiteralV { name: self.0@, args: self.1.deep_view() }
    }
}

impl Clone for Literal {
    fn clone(&self) -> (r: Self)
        ensures
            r.deep_view() == self.deep_view(),
    {
        let mut args: Vec<Term> = Vec::new();
        let mut i: usize = 0;
        while i < self.1.len()
            invariant
                i <= self.1@.len(),
                args@.len() == i,
                forall|j: int| 0 <= j < i ==> (#[trigger] args@[j]).deep_view()
                    == self.1@[j].deep_view(),
            decreases self.1@.len() - i,
        {
            args.push(self.1[i].clone());
            i = i + 1;
        }
        proof {
            assert(args.deep_view() =~= self.1.deep_view());
        }
        let r = Literal(self.0.clone(), args);
        proof {
            assert(r.deep_view() =~= self.deep_view());
        }
        r
    }
}

impl Literal {
    /// Returns the name and arity of this literal.
    pub fn signature(&self) -> (r: (Name, usize))
        ensures
            r.0@ == self.deep_view().name,
            r.1 == self.deep_view().args.len(),
    {
        (self.0.clone(), self.1.len())
    }

    /// Tries to instantiate this literal (the left scope) to `other` (the
    /// right scope). On success, returns this literal with its matched
    /// variables rewritten, together with the bindings that this side needed
    /// for the match.
    pub fn try_instantiate(self, other: Literal) -> (r: Option<(Literal, Bindings)>)
        ensures
            match spec_try_instantiate(self.deep_view(), other.deep_view()) {
                Some(t) => r matches Some(p) && p.0.deep_view() == t.0 && p.1@ == t.1 && p.1.wf(),
                None => r is None,
            },
    {
        let (sn, sa) = (&self.0, self.1.len());
        let (on, oa) = (&other.0, other.1.len());
        if !(sn == on) || sa != oa {
            return None;
        }
        let Literal(name, mut sargs) = self;
        let Literal(_, mut oargs) = other;
        match crate::pattern_match::pattern_match(&mut sargs, &mut oargs) {
            Some((lb, _rb)) => Some((Literal(name, sargs), lb)),
            None => None,
        }
    }

    /// Tries to instantiate this literal to the argument tuple of a fact
    /// describing this literal. The tuple must have exactly as many names as
    /// the literal has arguments.
    pub fn try_instantiate_fact(&self, arg_tuple: &Vec<Name>) -> (r: Option<Bindings>)
        requires
            self.deep_view().args.len() == arg_tuple.deep_view().len(),
        ensures
            match spec_instantiate_fact(self.deep_view().args, arg_tuple.deep_view()) {
                Some(its) => r matches Some(b) && b@ == its && b.wf(),
                None => r is None,
            },
    {
        let mut bindings = Bindings::new();
        let mut i: usize = 0;
        while i < self.1.len()
            invariant
                self.1.deep_view().len() == arg_tuple.deep_view().len(),
                self.1@.len() == self.1.deep_view().len(),
                i <= self.1@.len(),
                bindings.wf(),
                spec_instantiate_fact(self.deep_view().args, arg_tuple.deep_view())
                    == spec_instantiate_fact_from(
                    self.deep_view().args,
                    arg_tuple.deep_view(),
                    i as int,
                    bindings@,
                ),
            decreases self.1@.len() - i,
        {
            let r = &arg_tuple[i];
            match &self.1[i] {
                Term::Name(l) => {
                    if !(l == r) {
                        return None;
                    }
                },
                Term::Var(l) => {
                    match bindings.bind(l, r) {
                        Ok(()) => {},
                        Err(_) => {
                            return None;
                        },
                    }
                },
            }
            i = i + 1;
        }
        Some(bindings)
    }
}

/// The bindings produced by aligning goal arguments `args` against the fully
/// ground fact tuple `tuple`, position by position from `i` with accumulated
/// bindings `acc`: equal constants pass, a variable binds to the tuple's
/// name unless it is already bound to a different one, and any mismatch
/// fails the whole alignment.
pub open spec fn spec_instantiate_fact_from(
    args: Seq<TermV>,
    tuple: Seq<Seq<char>>,
    i: int,
    acc: Seq<(Seq<char>, Seq<char>)>,
) -> Option<Seq<(Seq<char>, Seq<char>)>>
    decreases args.len() - i,
{
    if i < 0 || i >= args.len() {
        Some(acc)
    } else {
        match args[i] {
            TermV::Name(n) => if n == tuple[i] {
                spec_instantiate_fact_from(args, tuple, i + 1, acc)
            } else {
                None
            },
            TermV::Var(v) => match spec_bind(acc, v, tuple[i]) {
                Some(acc2) => spec_instantiate_fact_from(args, tuple, i + 1, acc2),
                None => None,
            },
        }
    }
}

/// The bindings produced by aligning `args` against `tuple`.
pub open spec fn spec_instantiate_fact(args: Seq<TermV>, tuple: Seq<Seq<char>>) -> Option<
    Seq<(Seq<char>, Seq<char>)>,
> {
    spec_instantiate_fact_from(args, tuple, 0, Seq::empty())
}

/// Instantiating literal `a` to literal `b`: owed exactly when the
/// signatures agree and the two-sided pattern match of the argument lists
/// succeeds; the result is `a` with its rewritten arguments, and `a`'s side
/// of the match's bindings.
pub open spec fn spec_try_instantiate(a: LiteralV, b: LiteralV) -> Option<
    (LiteralV, Seq<(Seq<char>, Seq<char>)>),
> {
    if a.sig() != b.sig() {
        None
    } else {
        match crate::pattern_match::spec_pattern_match(a.args, b.args) {
            Some(t) => Some((LiteralV { name: a.name, args: t.2 }, t.0)),
            None => None,
        }
    }
}

/// Whether two literals have the same value.
pub fn literal_eq(a: &Literal, b: &Literal) -> (r: bool)
    ensures
        r == (a.deep_view() == b.deep_view()),
{
    let r = a.0 == b.0 && terms_eq(&a.1, &b.1);
    proof {
        if r {
            assert(a.deep_view() =~= b.deep_view());
        }
    }
    r
}

impl PartialEq for Literal {
    fn eq(&self, other: &Literal) -> (r: bool) {
        literal_eq(self, other)
    }
}

impl vstd::std_specs::cmp::PartialEqSpecImpl for Literal {
    open spec fn obeys_eq_spec() -> bool {
        true
    }

    open spec fn eq_spec(&self, other: &Literal) -> bool {
        self.deep_view() == other.deep_view()
    }
}

/// A clause: a fact or a rule, a head literal with a (possibly empty) body.
#[derive(Debug)]
pub struct Clause(pub Literal, pub Vec<Literal>);

impl DeepView for Clause {
    type V = ClauseV;

    open spec fn deep_view(&self) -> ClauseV {
        ClauseV { head: self.0.deep_view(), body: self.1.deep_view() }
    }
}

impl Clone for Clause {
    fn clone(&self) -> (r: Self)
        ensures
            r.deep_view() == self.deep_view(),
    {
        let mut body: Vec<Literal> = Vec::new();
        let mut i: usize = 0;
        while i < self.1.len()
            invariant
                i <= self.1@.len(),
                body@.len() == i,
                forall|j: int| 0 <= j < i ==> (#[trigger] body@[j]).deep_view()
                    == self.1@[j].deep_view(),
            decreases self.1@.len() - i,
        {
            body.push(self.1[i].clone());
            i = i + 1;
        }
        proof {
            assert(body.deep_view() =~= self.1.deep_view());
        }
        let r = Clause(self.0.clone(), body);
        proof {
            assert(r.deep_view() =~= self.deep_view());
        }
        r
    }
}

impl Clause {
    /// If this clause is a fact, returns its arguments; otherwise returns
    /// `None`.
    pub fn as_fact(&self) -> (r: Option<Vec<Name>>)
        ensures
            match self.deep_view().fact_tuple() {
                Some(t) => r matches Some(names) && names.deep_view() == t,
                None => r is None,
            },
    {
        if self.1.len() != 0 {
            return None;
        }
        let args = &self.0.1;
        let mut names: Vec<Name> = Vec::new();
        let mut i: usize = 0;
        while i < args.len()
            invariant
                args == &self.0.1,
                i <= args@.len(),
                args@.len() == args.deep_view().len(),
                forall|j: int| 0 <= j < i ==> (#[trigger] args@[j]).deep_view() is Name,
                names@.len() == i,
                forall|j: int| 0 <= j < i ==> (#[trigger] names@[j])@
                    == args@[j].deep_view().name_of(),
            decreases args@.len() - i,
    {
            match &args[i] {
                Term::Name(n) => {
                    names.push(n.clone());
                },
                Term::Var(_) => {
                    proof {
                        assert(self.deep_view().head.args[i as int] == args@[i as int].deep_view());
                        assert(!(args@[i as int].deep_view() is Name));
                        assert(!self.deep_view().head.is_ground());
                    }
                    return None;
                },
            }
            i = i + 1;
        }
        proof {
            assert forall|j: int| 0 <= j < self.deep_view().head.args.len() implies (
            #[trigger] self.deep_view().head.args[j]) is Name by {
                assert(self.deep_view().head.args[j] == args@[j].deep_view());
            }
            assert(self.deep_view().head.is_ground());
            assert(names.deep_view() =~= self.deep_view().head.args.map_values(
                |t: TermV| t.name_of(),
            ));
        }
        Some(names)
    }

    /// Returns the head of the clause.
    pub fn head(&self) -> (r: &Literal)
        ensures
            r.deep_view() == self.deep_view().head,
    {
        &self.0
    }

    /// Returns the name and arity of the predicate this clause is for.
    pub fn pred(&self) -> (r: (Name, usize))
        ensures
            r.0@ == self.deep_view().head.name,
            r.1 == self.deep_view().head.args.len(),
    {
        self.0.signature()
    }
}

/// Whether two clauses have the same value.
pub fn clause_eq(a: &Clause, b: &Clause) -> (r: bool)
    ensures
        r == (a.deep_view() == b.deep_view()),
{
    if !literal_eq(&a.0, &b.0) {
        return false;
    }
    if a.1.len() != b.1.len() {
        proof {
            assert(a.deep_view().body.len() != b.deep_view().body.len());
        }
        return false;
    }
    let mut i: usize = 0;
    while i < a.1.len()
        invariant
            a.deep_view().head == b.deep_view().head,
            a.1.deep_view().len() == b.1.deep_view().len(),
            a.1@.len() == a.1.deep_view().len(),
            i <= a.1@.len(),
            forall|j: int| 0 <= j < i ==> a.1.deep_view()[j] == b.1.deep_view()[j],
        decreases a.1@.len() - i,
    {
        if !literal_eq(&a.1[i], &b.1[i]) {
            proof {
                assert(a.1.deep_view()[i as int] != b.1.deep_view()[i as int]);
            }
            return false;
        }
        i = i + 1;
    }
    proof {
        assert(a.1.deep_view() =~= b.1.deep_view());
        assert(a.deep_view() =~= b.deep_view());
    }
    true
}

impl PartialEq for Clause {
    fn eq(&self, other: &Clause) -> (r: bool) {
        clause_eq(self, other)
    }
}

impl vstd::std_specs::cmp::PartialEqSpecImpl for Clause {
    open spec fn obeys_eq_spec() -> bool {
        true
    }

    open spec fn eq_spec(&self, other: &Clause) -> bool {
        self.deep_view() == other.deep_view()
    }
}

/// A statement in a program: an assertion, a retraction, or a query.
#[derive(Debug)]
pub enum Statement {
    /// An assertion that a clause is true.
    Assertion(Clause),
    /// A retraction, which removes a clause from the database.
    Retraction(Clause),
    /// A query, which produces all satisfying instantiations of its
    /// variables.
    Query(Literal),
}

impl DeepView for Statement {
    type V = StatementV;

    open spec fn deep_view(&self) -> StatementV {
        match self {
            Statement::Assertion(c) => StatementV::Assertion(c.deep_view()),
            Statement::Retraction(c) => StatementV::Retraction(c.deep_view()),
            Statement::Query(l) => StatementV::Query(l.deep_view()),
        }
    }
}

impl Clone for Statement {
    fn clone(&self) -> (r: Self)
        ensures
            r.deep_view() == self.deep_view(),
    {
        match self {
            Statement::Assertion(c) => Statement::Assertion(c.clone()),
            Statement::Retraction(c) => Statement::Retraction(c.clone()),
            Statement::Query(l) => Statement::Query(l.clone()),
        }
    }
}

impl PartialEq for Statement {
    fn eq(&self, other: &Statement) -> (r: bool) {
        match (self, other) {
            (Statement::Assertion(a), Statement::Assertion(b)) => clause_eq(a, b),
            (Statement::Retraction(a), Statement::Retraction(b)) => clause_eq(a, b),
            (Statement::Query(a), Statement::Query(b)) => literal_eq(a, b),
            _ => false,
        }
    }
}

impl vstd::std_specs::cmp::PartialEqSpecImpl for Statement {
    open spec fn obeys_eq_spec() -> bool {
        true
    }

    open spec fn eq_spec(&self, other: &Statement) -> bool {
        self.deep_view() == other.deep_view()
    }
}

/// A complete program: a sequence of statements.
#[derive(Debug)]
pub struct Program(pub Vec<Statement>);

impl DeepView for Program {
    type V = Seq<StatementV>;

    open spec fn deep_view(&self) -> Seq<StatementV> {
        self.0.deep_view()
    }
}

impl Clone for Program {
    fn clone(&self) -> (r: Self)
        ensures
            r.deep_view() == self.deep_view(),
    {
        let mut stmts: Vec<Statement> = Vec::new();
        let mut i: usize = 0;
        while i < self.0.len()
            invariant
                i <= self.0@.len(),
                stmts@.len() == i,
                forall|j: int| 0 <= j < i ==> (#[trigger] stmts@[j]).deep_view()
                    == self.0@[j].deep_view(),
            decreases self.0@.len() - i,
        {
            stmts.push(self.0[i].clone());
            i = i + 1;
        }
        proof {
            assert(stmts.deep_view() =~= self.0.deep_view());
        }
        Program(stmts)
    }
}

impl PartialEq for Program {
    fn eq(&self, other: &Program) -> (r: bool) {
        if self.0.len() != other.0.len() {
            proof {
                assert(self.deep_view().len() != other.deep_view().len());
            }
            return false;
        }
        let mut i: usize = 0;
        while i < self.0.len()
            invariant
                self.deep_view().len() == other.deep_view().len(),
                self.0@.len() == self.deep_view().len(),
                i <= self.0@.len(),
                forall|j: int| 0 <= j < i ==> self.deep_view()[j] == other.deep_view()[j],
            decreases self.0@.len() - i,
    {
            if !(self.0[i] == other.0[i]) {
                proof {
                    assert(self.deep_view()[i as int] != other.deep_view()[i as int]);
                }
                return false;
            }
            i = i + 1;
        }
        proof {
            assert(self.deep_view() =~= other.deep_view());
        }
        true
    }
}

impl vstd::std_specs::cmp::PartialEqSpecImpl for Program {
    open spec fn obeys_eq_spec() -> bool {
        true
    }

    open spec fn eq_spec(&self, other: &Program) -> bool {
        self.deep_view() == other.deep_view()
    }
}

} // verus!
