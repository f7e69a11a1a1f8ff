//! The stack-frame wrapper: accessors over one activation record, the
//! registration of pop and step handlers, eval-in-scope, and the pop and
//! step control points of the state machine.

use vstd::prelude::*;
use crate::debuggee::{frame_record_ok, Debuggee, FrameRecord};
use crate::environment::{chain_value, eval_in_chain, eval_result, resolve_in_chain, Environment};
use crate::error::{Error, Fallible};
use crate::handler::{ControlPoint, Invocation, PopHandler, StepHandler};
use crate::object::Object;
use crate::script::Script;
use crate::value::{
    adopted_completion, clone_values, CompletionValue, ResumptionValue, Value,
};

verus! {

/// An enum describing where a frame is executing.
#[derive(Clone, Copy, Debug, PartialEq, Eq, Structural)]
pub enum FrameImplementation {
    /// A frame executing in the interpreter.
    Interpreter,
    /// A frame executing in the non-optimized JIT.
    Baseline,
    /// A frame executing in the optimized JIT.
    Ion,
}

/// An enum describing the type of a frame.
#[derive(Clone, Copy, Debug, PartialEq, Eq, Structural)]
pub enum FrameType {
    /// A frame introduced by a function call.
    Call,
    /// A frame introduced by a call to `eval`.
    Eval,
    /// A frame introduced by global code.
    Global,
    /// A frame introduced by top-level module code.
    Module,
}

/// A wrapper to a stack frame.
///
/// The handle is weak and re-validated: a frame is only meaningful while it
/// is live (still on the debuggee's call stack), and every accessor
/// re-checks liveness against the debuggee state it is given.
#[derive(Clone, Copy, Debug, PartialEq, Eq, Structural)]
pub struct Frame {
    /// The position of the wrapped frame in the debuggee state.
    pub index: usize,
}

/// Whether the frame still shows its executing state: it must be live and
/// a debuggee frame.
pub open spec fn frame_data_visible(r: FrameRecord) -> bool {
    r.live && r.is_debuggee
}

/// The environment a frame shows: `None` once the frame is not live or is
/// not a debuggee frame.
pub open spec fn environment_of(r: FrameRecord) -> Option<Environment> {
    if frame_data_visible(r) {
        r.environment
    } else {
        None
    }
}

/// The bytecode offset a frame shows: `None` once the frame is not live or
/// is not a debuggee frame.
pub open spec fn offset_of(r: FrameRecord) -> Option<u32> {
    if frame_data_visible(r) {
        Some(r.offset)
    } else {
        None
    }
}

/// The script a frame shows: `None` once the frame is not live or is not a
/// debuggee frame.
pub open spec fn script_of(r: FrameRecord) -> Option<Script> {
    if frame_data_visible(r) {
        r.script
    } else {
        None
    }
}

/// How the caller observes a popped frame's completion: the pop handler's
/// override if one is registered and answers one, else the natural
/// completion.
pub open spec fn pop_observed(r: FrameRecord, natural: CompletionValue) -> CompletionValue {
    match r.pop_handler {
        Some(h) => adopted_completion(h.response, natural),
        None => natural,
    }
}

/// The two frame records agree in everything that is not liveness, the
/// offset or a handler registration.
pub open spec fn frame_same_but_control(pre: FrameRecord, post: FrameRecord) -> bool {
    &&& post.frame_type == pre.frame_type
    &&& post.implementation == pre.implementation
    &&& post.depth == pre.depth
    &&& post.older == pre.older
    &&& post.callee == pre.callee
    &&& post.constructing == pre.constructing
    &&& post.this == pre.this
    &&& post.arguments == pre.arguments
    &&& post.is_debuggee == pre.is_debuggee
    &&& post.environment == pre.environment
    &&& post.script == pre.script
}

/// The two debuggee states agree everywhere except possibly in frame
/// record `f` and in the invocation log.
pub open spec fn unchanged_except_frame_and_log(pre: Debuggee, post: Debuggee, f: int) -> bool {
    &&& post.environments == pre.environments
    &&& post.objects == pre.objects
    &&& post.scripts == pre.scripts
    &&& post.sources == pre.sources
    &&& post.frames@.len() == pre.frames@.len()
    &&& (forall|i: int| 0 <= i < pre.frames@.len() && i != f ==> post.frames@[i] == pre.frames@[i])
}

impl Frame {
    /// Whether the handle names a frame of the given debuggee state.
    pub open spec fn in_bounds(&self, dbg: &Debuggee) -> bool {
        (self.index as int) < dbg.frames@.len()
    }

    /// The record the handle names.
    pub open spec fn record(&self, dbg: &Debuggee) -> FrameRecord {
        dbg.frames@[self.index as int]
    }

    /// Returns `true` if the wrapped frame is still on the stack. Returns
    /// `false` otherwise.
    pub fn is_live(&self, dbg: &Debuggee) -> (r: bool)
        requires
            dbg.wf(),
            self.in_bounds(dbg),
        ensures
            r == self.record(dbg).live,
    {
        dbg.frames[self.index].live
    }

    /// Returns the type of the wrapped frame.
    pub fn get_type(&self, dbg: &Debuggee) -> (r: FrameType)
        requires
            dbg.wf(),
            self.in_bounds(dbg),
        ensures
            r == self.record(dbg).frame_type,
    {
        dbg.frames[self.index].frame_type
    }

    /// Returns the implementation of the wrapped frame.
    pub fn implementation(&self, dbg: &Debuggee) -> (r: FrameImplementation)
        requires
            dbg.wf(),
            self.in_bounds(dbg),
        ensures
            r == self.record(dbg).implementation,
    {
        dbg.frames[self.index].implementation
    }

    /// Returns the depth of the wrapped frame on the stack.
    pub fn depth(&self, dbg: &Debuggee) -> (r: u32)
        requires
            dbg.wf(),
            self.in_bounds(dbg),
        ensures
            r == self.record(dbg).depth,
    {
        dbg.frames[self.index].depth
    }

    /// Returns a wrapper to the next-older visible frame. If there is no
    /// such frame, returns `None` instead.
    pub fn older(&self, dbg: &Debuggee) -> (r: Option<Frame>)
        requires
            dbg.wf(),
            self.in_bounds(dbg),
        ensures
            r == self.record(dbg).older,
    {
        dbg.frames[self.index].older
    }

    /// If the wrapped frame is a call frame, returns a wrapper to the
    /// function being called. Otherwise, returns `None`.
    pub fn callee(&self, dbg: &Debuggee) -> (r: Option<Object>)
        requires
            dbg.wf(),
            self.in_bounds(dbg),
        ensures
            self.record(dbg).frame_type is Call ==> r == self.record(dbg).callee,
            !(self.record(dbg).frame_type is Call) ==> r is None,
    {
        let rec = &dbg.frames[self.index];
        if matches!(rec.frame_type, FrameType::Call) {
            rec.callee
        } else {
            None
        }
    }

    /// Returns `true` if the wrapped frame is a call frame for a function
    /// being called as a constructor. Returns `false` otherwise.
    pub fn is_constructing(&self, dbg: &Debuggee) -> (r: bool)
        requires
            dbg.wf(),
            self.in_bounds(dbg),
        ensures
            r == (self.record(dbg).frame_type is Call && self.record(dbg).constructing),
    {
        let rec = &dbg.frames[self.index];
        matches!(rec.frame_type, FrameType::Call) && rec.constructing
    }

    /// If the wrapped frame is a call frame, returns the this value for
    /// the call. Otherwise, returns `Undefined`.
    pub fn this(&self, dbg: &Debuggee) -> (r: Value)
        requires
            dbg.wf(),
            self.in_bounds(dbg),
        ensures
            self.record(dbg).frame_type is Call ==> r == self.record(dbg).this,
            !(self.record(dbg).frame_type is Call) ==> r == Value::Undefined,
    {
        let rec = &dbg.frames[self.index];
        if matches!(rec.frame_type, FrameType::Call) {
            rec.this.clone()
        } else {
            Value::Undefined
        }
    }

    /// If the wrapped frame is a call frame, returns the arguments for the
    /// call. Otherwise, returns `None`.
    pub fn arguments(&self, dbg: &Debuggee) -> (r: Option<Vec<Value>>)
        requires
            dbg.wf(),
            self.in_bounds(dbg),
        ensures
            self.record(dbg).frame_type is Call ==> (r matches Some(a) && a@ == self.record(
                dbg,
            ).arguments@),
            !(self.record(dbg).frame_type is Call) ==> r is None,
    {
        let rec = &dbg.frames[self.index];
        if matches!(rec.frame_type, FrameType::Call) {
            Some(clone_values(&rec.arguments))
        } else {
            None
        }
    }

    /// Returns the environment in which the wrapped frame is executing. If
    /// the wrapped frame does not show one because it is not live or is
    /// not a debuggee frame, returns `None` instead.
    pub fn environment(&self, dbg: &Debuggee) -> (r: Option<Environment>)
        requires
            dbg.wf(),
            self.in_bounds(dbg),
        ensures
            r == environment_of(self.record(dbg)),
    {
        let rec = &dbg.frames[self.index];
        if rec.live && rec.is_debuggee {
            rec.environment
        } else {
            None
        }
    }

    /// Returns the offset of the bytecode being executed in the script of
    /// the wrapped frame. If the wrapped frame does not show one because
    /// it is not live or is not a debuggee frame, returns `None` instead.
    pub fn offset(&self, dbg: &Debuggee) -> (r: Option<u32>)
        requires
            dbg.wf(),
            self.in_bounds(dbg),
        ensures
            r == offset_of(self.record(dbg)),
    {
        let rec = &dbg.frames[self.index];
        if rec.live && rec.is_debuggee {
            Some(rec.offset)
        } else {
            None
        }
    }

    /// Returns the script being executed in the wrapped frame. If the
    /// wrapped frame does not show one because it is not live or is not a
    /// debuggee frame, returns `None` instead.
    pub fn script(&self, dbg: &Debuggee) -> (r: Option<Script>)
        requires
            dbg.wf(),
            self.in_bounds(dbg),
        ensures
            r == script_of(self.record(dbg)),
    {
        let rec = &dbg.frames[self.index];
        if rec.live && rec.is_debuggee {
            rec.script
        } else {
            None
        }
    }

    /// Returns the pop handler for the wrapped frame. If there is no pop
    /// handler for the wrapped frame, returns `None` instead.
    pub fn pop_handler(&self, dbg: &Debuggee) -> (r: Option<PopHandler>)
        requires
            dbg.wf(),
            self.in_bounds(dbg),
        ensures
            r == self.record(dbg).pop_handler,
    {
        match &dbg.frames[self.index].pop_handler {
            None => None,
            Some(h) => Some(h.clone()),
        }
    }

    /// Returns the step handler for the wrapped frame. If there is no step
    /// handler for the wrapped frame, returns `None` instead.
    pub fn step_handler(&self, dbg: &Debuggee) -> (r: Option<StepHandler>)
        requires
            dbg.wf(),
            self.in_bounds(dbg),
        ensures
            r == self.record(dbg).step_handler,
    {
        match &dbg.frames[self.index].step_handler {
            None => None,
            Some(h) => Some(h.clone()),
        }
    }

    /// Sets the pop handler for the wrapped frame to the given `handler`.
    /// When the wrapped frame is popped from the stack, the handler will
    /// be invoked. If the given `handler` is `None`, the pop handler for
    /// the wrapped frame is cleared instead. Setting a new handler
    /// replaces the old; the registration takes effect before the next pop
    /// event.
    pub fn set_pop_handler(&self, dbg: &mut Debuggee, handler: Option<PopHandler>)
        requires
            old(dbg).wf(),
            self.in_bounds(old(dbg)),
        ensures
            final(dbg).wf(),
            final(dbg).invocations == old(dbg).invocations,
            unchanged_except_frame_and_log(*old(dbg), *final(dbg), self.index as int),
            frame_same_but_control(self.record(old(dbg)), self.record(final(dbg))),
            self.record(final(dbg)).live == self.record(old(dbg)).live,
            self.record(final(dbg)).offset == self.record(old(dbg)).offset,
            self.record(final(dbg)).step_handler == self.record(old(dbg)).step_handler,
            self.record(final(dbg)).pop_handler == handler,
    {
        let idx = self.index;
        let mut rec = dbg.frames.remove(idx);
        rec.pop_handler = handler;
        dbg.frames.insert(idx, rec);
        proof {
            lemma_frame_update(*old(dbg), *dbg, idx as int);
        }
    }

    /// Sets the step handler for the wrapped frame to the given `handler`.
    /// When the offset of the bytecode being executed in the script of the
    /// wrapped frame changes, the handler will be invoked. If the given
    /// `handler` is `None`, the step handler for the wrapped frame is
    /// cleared instead. Setting a new handler replaces the old; the
    /// registration takes effect before the next step event.
    pub fn set_step_handler(&self, dbg: &mut Debuggee, handler: Option<StepHandler>)
        requires
            old(dbg).wf(),
            self.in_bounds(old(dbg)),
        ensures
            final(dbg).wf(),
            final(dbg).invocations == old(dbg).invocations,
            unchanged_except_frame_and_log(*old(dbg), *final(dbg), self.index as int),
            frame_same_but_control(self.record(old(dbg)), self.record(final(dbg))),
            self.record(final(dbg)).live == self.record(old(dbg)).live,
            self.record(final(dbg)).offset == self.record(old(dbg)).offset,
            self.record(final(dbg)).pop_handler == self.record(old(dbg)).pop_handler,
            self.record(final(dbg)).step_handler == handler,
    {
        let idx = self.index;
        let mut rec = dbg.frames.remove(idx);
        rec.step_handler = handler;
        dbg.frames.insert(idx, rec);
        proof {
            lemma_frame_update(*old(dbg), *dbg, idx as int);
        }
    }

    /// Evaluates the given `code` in the environment of the wrapped frame.
    /// Returns a completion value describing how the evaluation completed.
    /// This is the explicit, intentional re-entry into the debuggee.
    ///
    /// # Errors
    /// If the wrapped frame does not have an environment because it is not
    /// a live debuggee frame, returns `FrameNotDebuggee`.
    pub fn eval(&self, dbg: &Debuggee, code: &str) -> (res: Fallible<CompletionValue>)
        requires
            dbg.wf(),
            self.in_bounds(dbg),
        ensures
            !frame_data_visible(self.record(dbg)) ==> res == Err::<CompletionValue, Error>(
                Error::FrameNotDebuggee,
            ),
            frame_data_visible(self.record(dbg)) ==> res == Ok::<CompletionValue, Error>(
                CompletionValue::Return(
                    chain_value(
                        *dbg,
                        (self.record(dbg).environment->Some_0).index as int,
                        code@,
                    ),
                ),
            ),
    {
        let rec = &dbg.frames[self.index];
        if !(rec.live && rec.is_debuggee) {
            return Err(Error::FrameNotDebuggee);
        }
        proof {
            assert(frame_record_ok(
                dbg.frames@[self.index as int],
                self.index as int,
                dbg.environments@.len() as int,
                dbg.objects@.len() as int,
                dbg.scripts@.len() as int,
            ));
        }
        match rec.environment {
            None => {
                proof {
                    assert(false);
                }
                Err(Error::FrameNotDebuggee)
            },
            Some(e) => Ok(CompletionValue::Return(resolve_in_chain(dbg, &e, code))),
        }
    }

    /// Evaluates the given `code` in the environment of the wrapped frame,
    /// extending the environment with the given `bindings`, where
    /// `bindings` is a map from variable names to values, shadowing on
    /// conflict. Returns a completion value describing how the evaluation
    /// completed.
    ///
    /// # Errors
    /// If the wrapped frame does not have an environment because it is not
    /// a live debuggee frame, returns `FrameNotDebuggee`.
    pub fn eval_with_bindings(
        &self,
        dbg: &Debuggee,
        code: &str,
        bindings: &Vec<(String, Value)>,
    ) -> (res: Fallible<CompletionValue>)
        requires
            dbg.wf(),
            self.in_bounds(dbg),
        ensures
            !frame_data_visible(self.record(dbg)) ==> res == Err::<CompletionValue, Error>(
                Error::FrameNotDebuggee,
            ),
            frame_data_visible(self.record(dbg)) ==> res == Ok::<CompletionValue, Error>(
                eval_result(
                    *dbg,
                    (self.record(dbg).environment->Some_0).index as int,
                    bindings@,
                    code@,
                ),
            ),
    {
        let rec = &dbg.frames[self.index];
        if !(rec.live && rec.is_debuggee) {
            return Err(Error::FrameNotDebuggee);
        }
        proof {
            assert(frame_record_ok(
                dbg.frames@[self.index as int],
                self.index as int,
                dbg.environments@.len() as int,
                dbg.objects@.len() as int,
                dbg.scripts@.len() as int,
            ));
        }
        match rec.environment {
            None => {
                proof {
                    assert(false);
                }
                Err(Error::FrameNotDebuggee)
            },
            Some(e) => Ok(eval_in_chain(dbg, &e, code, bindings)),
        }
    }
}

/// After a remove-and-insert of one frame record that kept every field the
/// frame's well-formedness depends on, the state is well formed again.
proof fn lemma_frame_update(pre: Debuggee, post: Debuggee, f: int)
    requires
        pre.wf(),
        0 <= f < pre.frames@.len(),
        post.environments == pre.environments,
        post.objects == pre.objects,
        post.scripts == pre.scripts,
        post.sources == pre.sources,
        post.frames@.len() == pre.frames@.len(),
        forall|i: int| 0 <= i < pre.frames@.len() && i != f ==> post.frames@[i] == pre.frames@[i],
        frame_same_but_control(pre.frames@[f], post.frames@[f]),
    ensures
        post.wf(),
{
    assert forall|k: int| 0 <= k < post.frames@.len() implies #[trigger] frame_record_ok(
        post.frames@[k],
        k,
        post.environments@.len() as int,
        post.objects@.len() as int,
        post.scripts@.len() as int,
    ) by {
        assert(frame_record_ok(
            pre.frames@[k],
            k,
            pre.environments@.len() as int,
            pre.objects@.len() as int,
            pre.scripts@.len() as int,
        ));
    }
}

impl Debuggee {
    /// The pop control point: the engine pops `frame` from the stack with
    /// the natural completion `natural`, and this layer answers how the
    /// caller observes the frame's completion.
    ///
    /// If a pop handler is registered it is invoked exactly once,
    /// receiving the frame and its natural completion — the invocation log
    /// grows by exactly that one entry — and its response overrides the
    /// observed completion. The frame stops being live, and both handler
    /// registrations are dropped with it: a handler is never invoked after
    /// its frame stopped being live.
    pub fn pop_frame(&mut self, frame: &Frame, natural: CompletionValue) -> (observed:
        CompletionValue)
        requires
            old(self).wf(),
            frame.in_bounds(old(self)),
            frame.record(old(self)).live,
        ensures
            final(self).wf(),
            unchanged_except_frame_and_log(*old(self), *final(self), frame.index as int),
            frame_same_but_control(frame.record(old(self)), frame.record(final(self))),
            !frame.record(final(self)).live,
            frame.record(final(self)).offset == frame.record(old(self)).offset,
            frame.record(final(self)).pop_handler is None,
            frame.record(final(self)).step_handler is None,
            observed == pop_observed(frame.record(old(self)), natural),
            match frame.record(old(self)).pop_handler {
                Some(h) => final(self).invocations@ == old(self).invocations@.push(
                    Invocation {
                        control_point: ControlPoint::Pop,
                        handler_id: h.id,
                        frame: *frame,
                        offset: frame.record(old(self)).offset,
                        completion: Some(natural),
                    },
                ),
                None => final(self).invocations@ == old(self).invocations@,
            },
    {
        let idx = frame.index;
        let mut rec = self.frames.remove(idx);
        let handler = match &rec.pop_handler {
            None => None,
            Some(h) => Some(h.clone()),
        };
        let off = rec.offset;
        rec.live = false;
        rec.pop_handler = None;
        rec.step_handler = None;
        self.frames.insert(idx, rec);
        proof {
            lemma_frame_update(*old(self), *self, idx as int);
        }
        match handler {
            None => natural,
            Some(h) => {
                self.invocations.push(
                    Invocation {
                        control_point: ControlPoint::Pop,
                        handler_id: h.id,
                        frame: Frame { index: idx },
                        offset: off,
                        completion: Some(natural.clone()),
                    },
                );
                match h.response {
                    Some(c) => c,
                    None => natural,
                }
            },
        }
    }

    /// The step control point: the executing bytecode offset of the live
    /// debuggee `frame` changes to `new_offset`, and this layer answers
    /// the resumption value for the engine.
    ///
    /// The frame reports the new offset first; a registered step handler
    /// is then invoked exactly once — the invocation log grows by exactly
    /// that one entry, recorded at the new offset — and its response is
    /// the answer. Without a handler the answer is `None`: continue
    /// unmodified.
    pub fn step_frame(&mut self, frame: &Frame, new_offset: u32) -> (resumption: ResumptionValue)
        requires
            old(self).wf(),
            frame.in_bounds(old(self)),
            frame.record(old(self)).live,
            frame.record(old(self)).is_debuggee,
        ensures
            final(self).wf(),
            unchanged_except_frame_and_log(*old(self), *final(self), frame.index as int),
            frame_same_but_control(frame.record(old(self)), frame.record(final(self))),
            frame.record(final(self)).live,
            frame.record(final(self)).offset == new_offset,
            frame.record(final(self)).pop_handler == frame.record(old(self)).pop_handler,
            frame.record(final(self)).step_handler == frame.record(old(self)).step_handler,
            match frame.record(old(self)).step_handler {
                Some(h) => resumption == h.response && final(self).invocations@ == old(
                    self,
                ).invocations@.push(
                    Invocation {
                        control_point: ControlPoint::Step,
                        handler_id: h.id,
                        frame: *frame,
                        offset: new_offset,
                        completion: None,
                    },
                ),
                None => resumption == None::<CompletionValue> && final(self).invocations@ == old(
                    self,
                ).invocations@,
            },
    {
        let idx = frame.index;
        let mut rec = self.frames.remove(idx);
        rec.offset = new_offset;
        let handler = match &rec.step_handler {
            None => None,
            Some(h) => Some(h.clone()),
        };
        self.frames.insert(idx, rec);
        proof {
            lemma_frame_update(*old(self), *self, idx as int);
        }
        match handler {
            None => None,
            Some(h) => {
                self.invocations.push(
                    Invocation {
                        control_point: ControlPoint::Step,
                        handler_id: h.id,
                        frame: Frame { index: idx },
                        offset: new_offset,
                        completion: None,
                    },
                );
                h.response
            },
        }
    }
}

} // verus!
