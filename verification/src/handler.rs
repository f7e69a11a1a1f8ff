//! Handlers for the three control points (breakpoint, step, frame pop), and
//! the invocation log in which their firings are recorded.
//!
//! A handler is modeled as data: an identity, so that two references to the
//! same registration compare equal, and the fixed resumption value the
//! handler answers with when it is invoked. The engine is suspended while a
//! handler runs, so delivering a handler's answer is a pure step of the
//! control state machine; recording each delivery in the debuggee's
//! invocation log is what lets the exactly-once and ordering guarantees be
//! stated and proved.

use vstd::prelude::*;
use crate::frame::Frame;
use crate::value::{clone_resumption, CompletionValue, ResumptionValue};

verus! {

/// A handler for a frame-pop event. Its `response` is the resumption value
/// it returns when the frame it is registered on is popped.
#[derive(Debug)]
pub struct PopHandler {
    /// Identity of the registration: two handles to the same registered
    /// handler carry the same identifier.
    pub id: u64,
    /// The resumption value the handler answers with when invoked.
    pub response: ResumptionValue,
}

/// A handler for a single-step event. Its `response` is the resumption
/// value it returns when the executing bytecode offset changes within the
/// frame it is registered on.
#[derive(Debug)]
pub struct StepHandler {
    /// Identity of the registration.
    pub id: u64,
    /// The resumption value the handler answers with when invoked.
    pub response: ResumptionValue,
}

/// A handler for a breakpoint hit. Its `response` is the resumption value
/// it returns when the breakpoint's offset is reached.
#[derive(Debug)]
pub struct BreakpointHandler {
    /// Identity of the registration.
    pub id: u64,
    /// The resumption value the handler answers with when invoked.
    pub response: ResumptionValue,
}

/// The control point at which a handler fired.
#[derive(Clone, Copy, Debug, PartialEq, Eq, Structural)]
pub enum ControlPoint {
    /// A frame was popped from the stack.
    Pop,
    /// The executing bytecode offset changed within a frame.
    Step,
    /// A breakpoint offset was reached.
    Breakpoint,
}

/// One recorded handler firing.
#[derive(Debug)]
pub struct Invocation {
    /// The control point at which the handler fired.
    pub control_point: ControlPoint,
    /// The identity of the handler that fired.
    pub handler_id: u64,
    /// The frame the handler received.
    pub frame: Frame,
    /// The frame's bytecode offset at the moment the handler fired.
    pub offset: u32,
    /// For a pop handler, the frame's natural completion value; `None` for
    /// step and breakpoint handlers, which receive no completion.
    pub completion: Option<CompletionValue>,
}

impl Clone for PopHandler {
    fn clone(&self) -> (res: Self)
        ensures
            res == *self,
    {
        PopHandler { id: self.id, response: clone_resumption(&self.response) }
    }
}

impl Clone for StepHandler {
    fn clone(&self) -> (res: Self)
        ensures
            res == *self,
    {
        StepHandler { id: self.id, response: clone_resumption(&self.response) }
    }
}

impl Clone for BreakpointHandler {
    fn clone(&self) -> (res: Self)
        ensures
            res == *self,
    {
        BreakpointHandler { id: self.id, response: clone_resumption(&self.response) }
    }
}

impl Clone for Invocation {
    fn clone(&self) -> (res: Self)
        ensures
            res == *self,
    {
        Invocation {
            control_point: self.control_point,
            handler_id: self.handler_id,
            frame: self.frame,
            offset: self.offset,
            completion: match &self.completion {
                None => None,
                Some(c) => Some(c.clone()),
            },
        }
    }
}

} // verus!
