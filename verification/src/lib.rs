//! Consistency checks for a compiler's program-introspection interface.
//!
//! The crate walks the control-flow bodies of a compiled program, discovers
//! every function instance reachable from the program's roots, and compares
//! what a generic traversal observes with what the bodies themselves report.
//!
//! - [`ir`] and [`program`] model the inspected program: bodies, items,
//!   instances, the resolver that turns a definition with type arguments
//!   into an instance, and beside each body what the interface's own
//!   traversal recorded of it.
//! - [`visit`] is the traversal protocol; [`snapshot`] and [`calls`] are its
//!   two observers, one recording the whole structure of a body and one its
//!   calls.
//! - [`reach`] finds the transitive closure of the roots under direct calls.
//! - [`consistency`] compares a record with a body; [`sanity_checks`] holds
//!   the checks, [`driver`] runs them by name and tallies, [`render`] and
//!   [`text`] write the reports.
//! - [`demo`], [`compiletest`] and [`devtool`] decide for the tools around the
//!   checks what is to be analysed, set up or run.
//!
//! A run goes through its phases in one direction: the roots are resolved,
//! the worklist is drained, every discovered instance is checked once, and
//! the results are tallied. Each run starts from an empty visited set and an
//! empty worklist; nothing is kept from one run to the next.
pub mod calls;
pub mod compiletest;
pub mod consistency;
pub mod demo;
pub mod devtool;
pub mod driver;
pub mod ir;
pub mod program;
pub mod reach;
pub mod render;
pub mod sanity_checks;
pub mod snapshot;
pub mod text;
pub mod visit;
