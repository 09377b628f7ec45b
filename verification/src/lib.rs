//! A deductive-database engine for a Datalog dialect.
//!
//! The engine stores ground facts and Horn-clause rules over uninterpreted
//! constants and answers queries by top-down resolution, returning every
//! variable binding that satisfies a goal.

pub mod ast;
pub mod bindings;
pub mod errors;
pub mod interp;
pub mod laws;
pub mod naive;
pub mod name;
pub mod parser;
pub mod pattern_match;
pub mod resolve;
pub mod symbol;
pub mod text;
pub mod variable;

pub use ast::Clause;
pub use ast::Literal;
pub use ast::Program;
pub use ast::Statement;
pub use ast::Term;
pub use bindings::Bindings;
pub use errors::Error;
pub use interp::DynamicInterpreter;
pub use interp::Interpeter;
pub use naive::NaiveInterpreter;
pub use name::Name;
pub use symbol::Symbol;
pub use variable::Variable;
