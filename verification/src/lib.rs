//! A debugging-control layer between a debugger front end and a running
//! script engine (the debuggee).
//!
//! The crate models the debuggee state that the layer observes — lexical
//! environments, stack frames, heap objects, compiled scripts and their
//! sources — as one explicit [`debuggee::Debuggee`] value, and exposes the
//! wrapper API over lightweight handles: [`environment::Environment`],
//! [`frame::Frame`], [`object::Object`], [`script::Script`] and
//! [`source::Source`]. Every accessor re-validates liveness and
//! inspectability against the current debuggee state, and every mutation is
//! specified exactly: which error it returns on which input, and how the new
//! state relates to the old.
//!
//! Control points (breakpoint, step and frame-pop events) invoke registered
//! handlers; a handler answers with a resumption value that can redirect how
//! the debuggee continues. Handler firings are recorded in an invocation log
//! on the debuggee state so that the exactly-once and ordering guarantees
//! are stated — and proved — rather than assumed.

pub mod debuggee;
pub mod environment;
pub mod error;
pub mod frame;
pub mod handler;
pub mod laws;
pub mod object;
pub mod script;
pub mod source;
pub mod value;
