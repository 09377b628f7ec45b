//! The interpreter interface: statement dispatch, program loading, and the
//! enumeration over the interpreters defined in this crate.

use vstd::prelude::*;

use crate::ast::Clause;
use crate::ast::Literal;
use crate::ast::Program;
use crate::ast::Statement;
use crate::ast::StatementV;
use crate::bindings::Bindings;
use crate::errors::Error;
use crate::errors::ErrorV;
use crate::naive::KbV;
use crate::naive::NaiveInterpreter;
use crate::naive::spec_assert;
use crate::naive::spec_retract;
use crate::resolve::DEFAULT_SEARCH_DEPTH;
use crate::resolve::spec_solve;

verus! {

/// The knowledge base and first failure after running the statements from
/// position `i` onward: assertions and retractions mutate the store, a
/// failed retraction stops the load with its clause, and queries leave the
/// store untouched.
pub open spec fn spec_load_from(kb: KbV, stmts: Seq<StatementV>, i: int) -> (KbV, Option<
    crate::ast::ClauseV,
>)
    decreases stmts.len() - i,
{
    if i < 0 || i >= stmts.len() {
        (kb, None)
    } else {
        match stmts[i] {
            StatementV::Assertion(c) => spec_load_from(spec_assert(kb, c), stmts, i + 1),
            StatementV::Retraction(c) => match spec_retract(kb, c) {
                Some(kb2) => spec_load_from(kb2, stmts, i + 1),
                None => (kb, Some(c)),
            },
            StatementV::Query(_) => spec_load_from(kb, stmts, i + 1),
        }
    }
}

/// A Datalog interpreter. Every implementation presents its store as a
/// knowledge-base value, and each operation is tied to the store
/// specifications, so that callers dispatching through the trait get the
/// same guarantees as callers of a concrete interpreter.
pub trait Interpeter {
    /// The interpreter's internal invariant, which its operations assume
    /// and preserve.
    spec fn inv(&self) -> bool;

    /// The knowledge base the interpreter currently holds.
    spec fn kb_model(&self) -> KbV;

    /// Adds an assertion to the fact set.
    fn run_assertion(&mut self, clause: Clause) -> (r: Result<(), Error>)
        requires
            old(self).inv(),
        ensures
            final(self).inv(),
            r is Ok,
            final(self).kb_model() == spec_assert(old(self).kb_model(), clause.deep_view()),
    ;

    /// Retracts an assertion from the fact set.
    fn run_retraction(&mut self, clause: Clause) -> (r: Result<(), Error>)
        requires
            old(self).inv(),
        ensures
            final(self).inv(),
            match spec_retract(old(self).kb_model(), clause.deep_view()) {
                Some(kb2) => r is Ok && final(self).kb_model() == kb2,
                None => (r matches Err(e) && e.deep_view() == ErrorV::NoSuchClause(
                    clause.deep_view(),
                )) && final(self).kb_model() == old(self).kb_model(),
            },
    ;

    /// Runs a query against the fact set, returning every variable binding
    /// that makes it true.
    fn run_query(&self, query: Literal) -> (r: Vec<Bindings>)
        requires
            self.inv(),
        ensures
            r.deep_view() == spec_solve(self.kb_model(), query.deep_view(), DEFAULT_SEARCH_DEPTH),
    ;

    /// Runs a statement; a query's answers are returned, and any other
    /// statement yields an empty answer list.
    fn run_stmt(&mut self, stmt: Statement) -> (r: Result<Vec<Bindings>, Error>)
        requires
            old(self).inv(),
        ensures
            final(self).inv(),
            match stmt.deep_view() {
                StatementV::Assertion(c) => (r matches Ok(v) && v.deep_view() == Seq::<
                    Seq<(Seq<char>, Seq<char>)>,
                >::empty()) && final(self).kb_model() == spec_assert(old(self).kb_model(), c),
                StatementV::Retraction(c) => match spec_retract(old(self).kb_model(), c) {
                    Some(kb2) => (r matches Ok(v) && v.deep_view() == Seq::<
                        Seq<(Seq<char>, Seq<char>)>,
                    >::empty()) && final(self).kb_model() == kb2,
                    None => (r matches Err(e) && e.deep_view() == ErrorV::NoSuchClause(c))
                        && final(self).kb_model() == old(self).kb_model(),
                },
                StatementV::Query(q) => (r matches Ok(v) && v.deep_view() == spec_solve(
                    old(self).kb_model(),
                    q,
                    DEFAULT_SEARCH_DEPTH,
                )) && final(self).kb_model() == old(self).kb_model(),
            },
    ;

    /// Loads a program into the interpreter, stopping at the first failed
    /// statement; queries in the program are skipped.
    fn load_program(&mut self, program: Program) -> (r: Result<(), Error>)
        requires
            old(self).inv(),
        ensures
            final(self).inv(),
            final(self).kb_model() == spec_load_from(
                old(self).kb_model(),
                program.deep_view(),
                0,
            ).0,
            match spec_load_from(old(self).kb_model(), program.deep_view(), 0).1 {
                Some(c) => r matches Err(e) && e.deep_view() == ErrorV::NoSuchClause(c),
                None => r is Ok,
            },
    ;
}

impl NaiveInterpreter {
    /// Runs a statement: an assertion or retraction mutates the store and
    /// yields no bindings, and a query yields its answers without touching
    /// the store.
    pub fn run_stmt(&mut self, stmt: Statement) -> (r: Result<Vec<Bindings>, Error>)
        requires
            old(self).wf(),
        ensures
            final(self).wf(),
            match stmt.deep_view() {
                StatementV::Assertion(c) => (r matches Ok(v) && v.deep_view() == Seq::<
                    Seq<(Seq<char>, Seq<char>)>,
                >::empty()) && final(self)@ == spec_assert(old(self)@, c),
                StatementV::Retraction(c) => match spec_retract(old(self)@, c) {
                    Some(kb2) => (r matches Ok(v) && v.deep_view() == Seq::<
                        Seq<(Seq<char>, Seq<char>)>,
                    >::empty()) && final(self)@ == kb2,
                    None => (r matches Err(e) && e.deep_view() == ErrorV::NoSuchClause(c))
                        && *final(self) == *old(self),
                },
                StatementV::Query(q) => (r matches Ok(v) && v.deep_view() == spec_solve(
                    old(self)@,
                    q,
                    DEFAULT_SEARCH_DEPTH,
                )) && *final(self) == *old(self),
            },
    {
        match stmt {
            Statement::Assertion(clause) => {
                match self.run_assertion(clause) {
                    Ok(()) => {
                        let v: Vec<Bindings> = Vec::new();
                        proof {
                            assert(v.deep_view() =~= Seq::<Seq<(Seq<char>, Seq<char>)>>::empty());
                        }
                        Ok(v)
                    },
                    Err(e) => Err(e),
                }
            },
            Statement::Retraction(clause) => {
                match self.run_retraction(clause) {
                    Ok(()) => {
                        let v: Vec<Bindings> = Vec::new();
                        proof {
                            assert(v.deep_view() =~= Seq::<Seq<(Seq<char>, Seq<char>)>>::empty());
                        }
                        Ok(v)
                    },
                    Err(e) => Err(e),
                }
            },
            Statement::Query(query) => Ok(self.run_query(query)),
        }
    }

    /// Runs a query against the store.
    pub fn run_query(&self, query: Literal) -> (r: Vec<Bindings>)
        requires
            self.wf(),
        ensures
            r.deep_view() == spec_solve(self@, query.deep_view(), DEFAULT_SEARCH_DEPTH),
    {
        self.solve(query)
    }

    /// Loads a program: its assertions and retractions run in order, the
    /// first failed retraction stops the load with its error, and its
    /// queries are skipped.
    pub fn load_program(&mut self, program: Program) -> (r: Result<(), Error>)
        requires
            old(self).wf(),
        ensures
            final(self).wf(),
            final(self)@ == spec_load_from(old(self)@, program.deep_view(), 0).0,
            match spec_load_from(old(self)@, program.deep_view(), 0).1 {
                Some(c) => r matches Err(e) && e.deep_view() == ErrorV::NoSuchClause(c),
                None => r is Ok,
            },
    {
        let Program(stmts) = program;
        let ghost stmtsv = stmts.deep_view();
        let mut i: usize = 0;
        while i < stmts.len()
            invariant
                i <= stmts@.len(),
                stmts.deep_view() == stmtsv,
                program.deep_view() == stmtsv,
                self.wf(),
                spec_load_from(old(self)@, stmtsv, 0) == spec_load_from(self@, stmtsv, i as int),
            decreases stmts@.len() - i,
        {
            match &stmts[i] {
                Statement::Assertion(clause) => {
                    let c = clause.clone();
                    match self.run_assertion(c) {
                        Ok(()) => {},
                        Err(e) => {
                            proof {
                                assert(false);
                            }
                        },
                    }
                },
                Statement::Retraction(clause) => {
                    let c = clause.clone();
                    let ghost pre = self@;
                    match self.run_retraction(c) {
                        Ok(()) => {},
                        Err(e) => {
                            proof {
                                assert(stmtsv[i as int] == StatementV::Retraction(
                                    clause.deep_view(),
                                ));
                                assert(spec_load_from(pre, stmtsv, i as int) == (
                                    pre,
                                    Some(clause.deep_view()),
                                ));
                            }
                            return Err(e);
                        },
                    }
                },
                Statement::Query(_) => {},
            }
            i = i + 1;
        }
        Ok(())
    }
}

impl Interpeter for NaiveInterpreter {
    open spec fn inv(&self) -> bool {
        self.wf()
    }

    open spec fn kb_model(&self) -> KbV {
        self@
    }

    fn run_assertion(&mut self, clause: Clause) -> Result<(), Error> {
        NaiveInterpreter::run_assertion(self, clause)
    }

    fn run_retraction(&mut self, clause: Clause) -> Result<(), Error> {
        NaiveInterpreter::run_retraction(self, clause)
    }

    fn run_query(&self, query: Literal) -> Vec<Bindings> {
        NaiveInterpreter::run_query(self, query)
    }

    fn run_stmt(&mut self, stmt: Statement) -> Result<Vec<Bindings>, Error> {
        NaiveInterpreter::run_stmt(self, stmt)
    }

    fn load_program(&mut self, program: Program) -> Result<(), Error> {
        NaiveInterpreter::load_program(self, program)
    }
}

/// An enumeration over the interpreters defined in this crate.
pub enum DynamicInterpreter {
    /// A naive interpreter.
    Naive(NaiveInterpreter),
}

impl DynamicInterpreter {
    /// The wrapped interpreter's invariant.
    pub open spec fn wf(&self) -> bool {
        match self {
            DynamicInterpreter::Naive(i) => i.wf(),
        }
    }

    /// The wrapped interpreter's knowledge base value.
    pub open spec fn kb(&self) -> KbV {
        match self {
            DynamicInterpreter::Naive(i) => i@,
        }
    }
}

impl From<NaiveInterpreter> for DynamicInterpreter {
    fn from(i: NaiveInterpreter) -> (r: DynamicInterpreter) {
        DynamicInterpreter::Naive(i)
    }
}

impl vstd::std_specs::convert::FromSpecImpl<NaiveInterpreter> for DynamicInterpreter {
    open spec fn obeys_from_spec() -> bool {
        true
    }

    open spec fn from_spec(i: NaiveInterpreter) -> DynamicInterpreter {
        DynamicInterpreter::Naive(i)
    }
}

impl Interpeter for DynamicInterpreter {
    open spec fn inv(&self) -> bool {
        self.wf()
    }

    open spec fn kb_model(&self) -> KbV {
        self.kb()
    }

    fn run_assertion(&mut self, clause: Clause) -> (r: Result<(), Error>) {
        match self {
            DynamicInterpreter::Naive(i) => NaiveInterpreter::run_assertion(i, clause),
        }
    }

    fn run_retraction(&mut self, clause: Clause) -> (r: Result<(), Error>) {
        match self {
            DynamicInterpreter::Naive(i) => NaiveInterpreter::run_retraction(i, clause),
        }
    }

    fn run_query(&self, query: Literal) -> (r: Vec<Bindings>) {
        match self {
            DynamicInterpreter::Naive(i) => NaiveInterpreter::run_query(i, query),
        }
    }

    fn run_stmt(&mut self, stmt: Statement) -> (r: Result<Vec<Bindings>, Error>) {
        match self {
            DynamicInterpreter::Naive(i) => NaiveInterpreter::run_stmt(i, stmt),
        }
    }

    fn load_program(&mut self, program: Program) -> (r: Result<(), Error>) {
        match self {
            DynamicInterpreter::Naive(i) => NaiveInterpreter::load_program(i, program),
        }
    }
}

} // verus!
