//! A small interpreted scripting language whose statements are written as
//! fixed phrases.
//!
//! [`parser::parse`] turns a source into the nodes of its top level: the
//! function declarations and the entry point. [`interpreter::evaluate`]
//! sets up a machine for them, and [`interpreter::State::step`] runs the
//! machine one bounded step at a time.
//!
//! The machine neither reads nor prints, and it carries numbers as bit
//! patterns without ever computing with them. Whatever needs the outside
//! world leaves it as a [`protocol::Request`] and comes back as a
//! [`protocol::Reply`]: a program that loops forever keeps its driver
//! busy, and no call of the library.
//!
//! Each executable function computes what a specification function of
//! the same name, with `spec_` before it, defines. What follows from the
//! definitions is proved in three modules: [`syntax_laws`] and
//! [`progress`] for the grammar, [`laws`] for runs of the machine.
pub mod text;
pub mod number;
pub mod vocabulary;
pub mod ast;
pub mod parser;
pub mod syntax_laws;
pub mod progress;
pub mod value;
pub mod scope;
pub mod protocol;
pub mod task;
pub mod frame;
pub mod interpreter;
pub mod laws;
