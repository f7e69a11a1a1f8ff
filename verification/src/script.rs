//! The compiled-script wrapper: the breakpoint registry keyed by bytecode
//! offset, the static line/offset maps, and the breakpoint control point.

use vstd::prelude::*;
use crate::debuggee::{
    assoc_find_u32, contains_u32, find_u32_key, frame_record_ok, lemma_assoc_find_u32_at,
    lemma_assoc_find_u32_none, script_record_ok, unique_u32_keys, Debuggee, ScriptRecord,
};
use crate::error::{Error, Fallible};
use crate::frame::Frame;
use crate::handler::{BreakpointHandler, ControlPoint, Invocation};
use crate::object::Object;
use crate::source::Source;
use crate::value::{clone_opt_string, clone_resumption, ResumptionValue};

verus! {

/// A wrapper to a compiled script.
#[derive(Clone, Copy, Debug, PartialEq, Eq, Structural)]
pub struct Script {
    /// The position of the wrapped script in the debuggee state.
    pub index: usize,
}

/// The handlers registered at one offset of a script, in registration
/// order; empty where none are.
pub open spec fn breakpoint_handlers(r: ScriptRecord, offset: u32) -> Seq<BreakpointHandler> {
    match assoc_find_u32(r.breakpoints@, offset) {
        Some(l) => l@,
        None => Seq::empty(),
    }
}

/// The offsets that are entry points of one line of a script; empty where
/// the line has none.
pub open spec fn line_entry_offsets(r: ScriptRecord, line: u32) -> Seq<u32> {
    match assoc_find_u32(r.line_offsets@, line) {
        Some(l) => l@,
        None => Seq::empty(),
    }
}

/// The resumption a run of breakpoint handlers produces: the response of
/// the first handler, in registration order, that answers one.
pub open spec fn first_response(hs: Seq<BreakpointHandler>) -> ResumptionValue
    decreases hs.len(),
{
    if hs.len() == 0 {
        None
    } else if hs[0].response is Some {
        hs[0].response
    } else {
        first_response(hs.drop_first())
    }
}

/// The invocation log grew by exactly one entry per handler, in
/// registration order, each recording a breakpoint firing on `f` at
/// `offset`.
pub open spec fn log_extended_with_breakpoints(
    pre: Seq<Invocation>,
    post: Seq<Invocation>,
    hs: Seq<BreakpointHandler>,
    f: Frame,
    offset: u32,
) -> bool {
    &&& post.len() == pre.len() + hs.len()
    &&& (forall|j: int| 0 <= j < pre.len() ==> #[trigger] post[j] == pre[j])
    &&& (forall|j: int|
        0 <= j < hs.len() ==> #[trigger] post[pre.len() + j] == (Invocation {
            control_point: ControlPoint::Breakpoint,
            handler_id: hs[j].id,
            frame: f,
            offset: offset,
            completion: None,
        }))
}

/// The breakpoint tables after a successful registration at `offset`: an
/// existing entry gets the handler appended, keys and order kept; a
/// missing entry is created at the end with just that handler.
pub open spec fn breakpoints_appended(
    pre: Seq<(u32, Vec<BreakpointHandler>)>,
    post: Seq<(u32, Vec<BreakpointHandler>)>,
    offset: u32,
    h: BreakpointHandler,
) -> bool {
    if assoc_find_u32(pre, offset) is Some {
        &&& post.len() == pre.len()
        &&& (forall|j: int| 0 <= j < pre.len() ==> (#[trigger] post[j]).0 == pre[j].0)
        &&& (forall|j: int| 0 <= j < pre.len() && pre[j].0 != offset ==> (#[trigger] post[j]) == pre[j])
        &&& (forall|j: int|
            0 <= j < pre.len() && pre[j].0 == offset ==> (#[trigger] post[j]).1@ == pre[j].1@.push(
                h,
            ))
    } else {
        &&& post.len() == pre.len() + 1
        &&& (forall|j: int| 0 <= j < pre.len() ==> (#[trigger] post[j]) == pre[j])
        &&& post[pre.len() as int].0 == offset
        &&& post[pre.len() as int].1@ == Seq::empty().push(h)
    }
}

/// The breakpoint tables after clearing `offset`: the entry at that
/// offset, if any, is gone, the rest keep their order.
pub open spec fn breakpoints_cleared(
    pre: Seq<(u32, Vec<BreakpointHandler>)>,
    post: Seq<(u32, Vec<BreakpointHandler>)>,
    offset: u32,
) -> bool {
    if assoc_find_u32(pre, offset) is Some {
        exists|i: int| 0 <= i < pre.len() && (#[trigger] pre[i]).0 == offset && post == pre.remove(i)
    } else {
        post == pre
    }
}

/// The two debuggee states agree everywhere except possibly in script
/// record `s`.
pub open spec fn unchanged_except_script(pre: Debuggee, post: Debuggee, s: int) -> bool {
    &&& post.environments == pre.environments
    &&& post.frames == pre.frames
    &&& post.objects == pre.objects
    &&& post.sources == pre.sources
    &&& post.invocations == pre.invocations
    &&& post.scripts@.len() == pre.scripts@.len()
    &&& (forall|i: int|
        0 <= i < pre.scripts@.len() && i != s ==> post.scripts@[i] == pre.scripts@[i])
}

/// The two script records agree in everything but the breakpoint table.
pub open spec fn script_same_but_breakpoints(pre: ScriptRecord, post: ScriptRecord) -> bool {
    &&& post.url == pre.url
    &&& post.display_name == pre.display_name
    &&& post.start_line == pre.start_line
    &&& post.line_count == pre.line_count
    &&& post.source_start == pre.source_start
    &&& post.source_length == pre.source_length
    &&& post.global == pre.global
    &&& post.source == pre.source
    &&& post.child_scripts == pre.child_scripts
    &&& post.valid_offsets == pre.valid_offsets
    &&& post.line_offsets == pre.line_offsets
}

fn clone_breakpoint_handlers(v: &Vec<BreakpointHandler>) -> (res: Vec<BreakpointHandler>)
    ensures
        res@ == v@,
{
    let n = v.len();
    let mut out: Vec<BreakpointHandler> = Vec::new();
    let mut i: usize = 0;
    while i < n
        invariant
            i <= n,
            n == v@.len(),
            out@.len() == i,
            forall|j: int| 0 <= j < i ==> out@[j] == v@[j],
        decreases n - i,
    {
        out.push(v[i].clone());
        i = i + 1;
    }
    proof {
        assert(out@ =~= v@);
    }
    out
}

fn clone_offsets(v: &Vec<u32>) -> (res: Vec<u32>)
    ensures
        res@ == v@,
{
    let n = v.len();
    let mut out: Vec<u32> = Vec::new();
    let mut i: usize = 0;
    while i < n
        invariant
            i <= n,
            n == v@.len(),
            out@.len() == i,
            forall|j: int| 0 <= j < i ==> out@[j] == v@[j],
        decreases n - i,
    {
        out.push(v[i]);
        i = i + 1;
    }
    proof {
        assert(out@ =~= v@);
    }
    out
}

/// After a remove-and-insert of one script record that kept uniquely and
/// validly keyed breakpoints and every other field, the state is well
/// formed again.
proof fn lemma_script_update(pre: Debuggee, post: Debuggee, s: int)
    requires
        pre.wf(),
        0 <= s < pre.scripts@.len(),
        post.environments == pre.environments,
        post.frames == pre.frames,
        post.objects == pre.objects,
        post.sources == pre.sources,
        post.scripts@.len() == pre.scripts@.len(),
        forall|i: int| 0 <= i < pre.scripts@.len() && i != s ==> post.scripts@[i] == pre.scripts@[i],
        script_same_but_breakpoints(pre.scripts@[s], post.scripts@[s]),
        unique_u32_keys(post.scripts@[s].breakpoints@),
        forall|i: int|
            0 <= i < post.scripts@[s].breakpoints@.len() ==> post.scripts@[s].valid_offsets@.contains(
                (#[trigger] post.scripts@[s].breakpoints@[i]).0,
            ),
    ensures
        post.wf(),
{
    assert forall|k: int| 0 <= k < post.scripts@.len() implies #[trigger] script_record_ok(
        post.scripts@[k],
        post.objects@.len() as int,
        post.scripts@.len() as int,
        post.sources@.len() as int,
    ) by {
        assert(script_record_ok(
            pre.scripts@[k],
            pre.objects@.len() as int,
            pre.scripts@.len() as int,
            pre.sources@.len() as int,
        ));
    }
}

impl Script {
    /// Whether the handle names a script of the given debuggee state.
    pub open spec fn in_bounds(&self, dbg: &Debuggee) -> bool {
        (self.index as int) < dbg.scripts@.len()
    }

    /// The record the handle names.
    pub open spec fn record(&self, dbg: &Debuggee) -> ScriptRecord {
        dbg.scripts@[self.index as int]
    }

    /// Returns the url of the document from which the source of the
    /// wrapped script was loaded.
    pub fn url(&self, dbg: &Debuggee) -> (r: String)
        requires
            dbg.wf(),
            self.in_bounds(dbg),
        ensures
            r == self.record(dbg).url,
    {
        dbg.scripts[self.index].url.clone()
    }

    /// Returns the display name of the wrapped script. If the wrapped
    /// script has no display name, returns `None` instead.
    pub fn display_name(&self, dbg: &Debuggee) -> (r: Option<String>)
        requires
            dbg.wf(),
            self.in_bounds(dbg),
        ensures
            r == self.record(dbg).display_name,
    {
        clone_opt_string(&dbg.scripts[self.index].display_name)
    }

    /// The line number at which the code of the wrapped script starts in
    /// the document from which its source was loaded.
    pub fn start_line(&self, dbg: &Debuggee) -> (r: u32)
        requires
            dbg.wf(),
            self.in_bounds(dbg),
        ensures
            r == self.record(dbg).start_line,
    {
        dbg.scripts[self.index].start_line
    }

    /// The number of lines spanned by the code of the wrapped script in
    /// the document from which its source was loaded.
    pub fn line_count(&self, dbg: &Debuggee) -> (r: u32)
        requires
            dbg.wf(),
            self.in_bounds(dbg),
        ensures
            r == self.record(dbg).line_count,
    {
        dbg.scripts[self.index].line_count
    }

    /// The index of the character at which the code of the wrapped script
    /// starts in the source from which it was compiled.
    pub fn source_start(&self, dbg: &Debuggee) -> (r: u32)
        requires
            dbg.wf(),
            self.in_bounds(dbg),
        ensures
            r == self.record(dbg).source_start,
    {
        dbg.scripts[self.index].source_start
    }

    /// The number of characters spanned by the code of the wrapped script
    /// in the source from which it was compiled.
    pub fn source_length(&self, dbg: &Debuggee) -> (r: u32)
        requires
            dbg.wf(),
            self.in_bounds(dbg),
        ensures
            r == self.record(dbg).source_length,
    {
        dbg.scripts[self.index].source_length
    }

    /// Returns a wrapper to the global in which the script is being
    /// executed.
    pub fn global(&self, dbg: &Debuggee) -> (r: Object)
        requires
            dbg.wf(),
            self.in_bounds(dbg),
        ensures
            r == self.record(dbg).global,
    {
        dbg.scripts[self.index].global
    }

    /// Returns a wrapper to the source from which the wrapped script was
    /// compiled. If the source was not retained, returns `None` instead.
    pub fn source(&self, dbg: &Debuggee) -> (r: Option<Source>)
        requires
            dbg.wf(),
            self.in_bounds(dbg),
        ensures
            r == self.record(dbg).source,
    {
        dbg.scripts[self.index].source
    }

    /// Returns the wrappers to the scripts for each function in the
    /// wrapped script.
    pub fn get_child_scripts(&self, dbg: &Debuggee) -> (r: Vec<Script>)
        requires
            dbg.wf(),
            self.in_bounds(dbg),
        ensures
            r@ == self.record(dbg).child_scripts@,
    {
        let v = &dbg.scripts[self.index].child_scripts;
        let n = v.len();
        let mut out: Vec<Script> = Vec::new();
        let mut i: usize = 0;
        while i < n
            invariant
                i <= n,
                n == v@.len(),
                out@.len() == i,
                forall|j: int| 0 <= j < i ==> out@[j] == v@[j],
            decreases n - i,
        {
            out.push(v[i]);
            i = i + 1;
        }
        proof {
            assert(out@ =~= v@);
        }
        out
    }

    /// Returns the offsets that are entry points for the given `line`.
    pub fn get_line_offsets(&self, dbg: &Debuggee, line: u32) -> (r: Vec<u32>)
        requires
            dbg.wf(),
            self.in_bounds(dbg),
        ensures
            r@ == line_entry_offsets(self.record(dbg), line),
    {
        let rec = &dbg.scripts[self.index];
        match find_u32_key(&rec.line_offsets, line) {
            Some(i) => {
                proof {
                    lemma_assoc_find_u32_at(rec.line_offsets@, line, i as int);
                }
                clone_offsets(&rec.line_offsets[i].1)
            },
            None => {
                proof {
                    lemma_assoc_find_u32_none(rec.line_offsets@, line);
                }
                Vec::new()
            },
        }
    }

    /// Returns a map from lines to the offsets that are entry points for
    /// each line, as uniquely keyed pairs in the script's own order.
    pub fn get_all_line_offsets(&self, dbg: &Debuggee) -> (r: Vec<(u32, Vec<u32>)>)
        requires
            dbg.wf(),
            self.in_bounds(dbg),
        ensures
            r@.len() == self.record(dbg).line_offsets@.len(),
            forall|j: int|
                0 <= j < r@.len() ==> (#[trigger] r@[j]).0 == self.record(dbg).line_offsets@[j].0
                    && r@[j].1@ == self.record(dbg).line_offsets@[j].1@,
    {
        let v = &dbg.scripts[self.index].line_offsets;
        let n = v.len();
        let mut out: Vec<(u32, Vec<u32>)> = Vec::new();
        let mut i: usize = 0;
        while i < n
            invariant
                i <= n,
                n == v@.len(),
                out@.len() == i,
                forall|j: int|
                    0 <= j < i ==> (#[trigger] out@[j]).0 == v@[j].0 && out@[j].1@ == v@[j].1@,
            decreases n - i,
        {
            let line = v[i].0;
            let offs = clone_offsets(&v[i].1);
            out.push((line, offs));
            i = i + 1;
        }
        out
    }

    /// Returns the handlers for the breakpoints at the given `offset` in
    /// the wrapped script, in registration order. An offset with no
    /// breakpoints — a not-even-valid offset included — has the empty
    /// list: read-only reflection does not error.
    pub fn get_breakpoints(&self, dbg: &Debuggee, offset: u32) -> (r: Vec<BreakpointHandler>)
        requires
            dbg.wf(),
            self.in_bounds(dbg),
        ensures
            r@ == breakpoint_handlers(self.record(dbg), offset),
    {
        let rec = &dbg.scripts[self.index];
        match find_u32_key(&rec.breakpoints, offset) {
            Some(i) => {
                proof {
                    lemma_assoc_find_u32_at(rec.breakpoints@, offset, i as int);
                }
                clone_breakpoint_handlers(&rec.breakpoints[i].1)
            },
            None => {
                proof {
                    lemma_assoc_find_u32_none(rec.breakpoints@, offset);
                }
                Vec::new()
            },
        }
    }

    /// Sets a breakpoint at the given `offset` in the wrapped script:
    /// appends the handler to that offset's list, after any already
    /// registered. When the breakpoint is hit, every handler of the list
    /// fires, in registration order.
    ///
    /// # Errors
    /// If the given `offset` is not a valid offset in the wrapped script,
    /// returns `OffsetNotValid`.
    pub fn set_breakpoint(&self, dbg: &mut Debuggee, offset: u32, handler: BreakpointHandler) -> (res:
        Fallible<()>)
        requires
            old(dbg).wf(),
            self.in_bounds(old(dbg)),
        ensures
            final(dbg).wf(),
            !self.record(old(dbg)).valid_offsets@.contains(offset) ==> res == Err::<(), Error>(
                Error::OffsetNotValid,
            ) && *final(dbg) == *old(dbg),
            self.record(old(dbg)).valid_offsets@.contains(offset) ==> {
                &&& res == Ok::<(), Error>(())
                &&& unchanged_except_script(*old(dbg), *final(dbg), self.index as int)
                &&& script_same_but_breakpoints(self.record(old(dbg)), self.record(final(dbg)))
                &&& breakpoints_appended(
                    self.record(old(dbg)).breakpoints@,
                    self.record(final(dbg)).breakpoints@,
                    offset,
                    handler,
                )
            },
    {
        let idx = self.index;
        if !contains_u32(&dbg.scripts[idx].valid_offsets, offset) {
            return Err(Error::OffsetNotValid);
        }
        let found = find_u32_key(&dbg.scripts[idx].breakpoints, offset);
        let mut rec = dbg.scripts.remove(idx);
        match found {
            Some(i) => {
                proof {
                    lemma_assoc_find_u32_at(rec.breakpoints@, offset, i as int);
                }
                let mut pair = rec.breakpoints.remove(i);
                pair.1.push(handler);
                rec.breakpoints.insert(i, pair);
                dbg.scripts.insert(idx, rec);
                proof {
                    let pre = *old(dbg);
                    let post = *dbg;
                    let pre_b = self.record(&pre).breakpoints@;
                    let post_b = self.record(&post).breakpoints@;
                    assert(post.scripts@ =~= pre.scripts@.update(
                        idx as int,
                        post.scripts@[idx as int],
                    ));
                    assert(post_b =~= pre_b.update(i as int, post_b[i as int]));
                    assert(script_record_ok(
                        pre.scripts@[idx as int],
                        pre.objects@.len() as int,
                        pre.scripts@.len() as int,
                        pre.sources@.len() as int,
                    ));
                    assert forall|j: int|
                        0 <= j < pre_b.len() && pre_b[j].0 == offset implies (
                    #[trigger] post_b[j]).1@ == pre_b[j].1@.push(handler) by {
                        if j != i {
                            if j < i {
                                assert(pre_b[j].0 != offset);
                            } else {
                                assert(pre_b[i as int].0 != pre_b[j].0);
                            }
                        }
                    }
                    assert(unique_u32_keys(post_b)) by {
                        assert forall|x: int, y: int|
                            0 <= x < y < post_b.len() implies (#[trigger] post_b[x]).0 != (
                        #[trigger] post_b[y]).0 by {
                            assert(pre_b[x].0 != pre_b[y].0);
                        }
                    }
                    lemma_script_update(pre, post, idx as int);
                }
                Ok(())
            },
            None => {
                proof {
                    lemma_assoc_find_u32_none(rec.breakpoints@, offset);
                }
                let mut list: Vec<BreakpointHandler> = Vec::new();
                list.push(handler);
                rec.breakpoints.push((offset, list));
                dbg.scripts.insert(idx, rec);
                proof {
                    let pre = *old(dbg);
                    let post = *dbg;
                    let pre_b = self.record(&pre).breakpoints@;
                    let post_b = self.record(&post).breakpoints@;
                    assert(post.scripts@ =~= pre.scripts@.update(
                        idx as int,
                        post.scripts@[idx as int],
                    ));
                    assert(post_b =~= pre_b.push(post_b[pre_b.len() as int]));
                    assert(script_record_ok(
                        pre.scripts@[idx as int],
                        pre.objects@.len() as int,
                        pre.scripts@.len() as int,
                        pre.sources@.len() as int,
                    ));
                    assert(unique_u32_keys(post_b)) by {
                        assert forall|x: int, y: int|
                            0 <= x < y < post_b.len() implies (#[trigger] post_b[x]).0 != (
                        #[trigger] post_b[y]).0 by {
                            if y < pre_b.len() {
                                assert(pre_b[x].0 != pre_b[y].0);
                            } else {
                                assert(pre_b[x].0 != offset);
                            }
                        }
                    }
                    lemma_script_update(pre, post, idx as int);
                }
                Ok(())
            },
        }
    }

    /// Clears the breakpoints at the given `offset` in the wrapped
    /// script.
    ///
    /// # Errors
    /// If the given `offset` is not a valid offset in the wrapped script,
    /// returns `OffsetNotValid`.
    pub fn clear_breakpoints(&self, dbg: &mut Debuggee, offset: u32) -> (res: Fallible<()>)
        requires
            old(dbg).wf(),
            self.in_bounds(old(dbg)),
        ensures
            final(dbg).wf(),
            !self.record(old(dbg)).valid_offsets@.contains(offset) ==> res == Err::<(), Error>(
                Error::OffsetNotValid,
            ) && *final(dbg) == *old(dbg),
            self.record(old(dbg)).valid_offsets@.contains(offset) ==> {
                &&& res == Ok::<(), Error>(())
                &&& unchanged_except_script(*old(dbg), *final(dbg), self.index as int)
                &&& script_same_but_breakpoints(self.record(old(dbg)), self.record(final(dbg)))
                &&& breakpoints_cleared(
                    self.record(old(dbg)).breakpoints@,
                    self.record(final(dbg)).breakpoints@,
                    offset,
                )
            },
    {
        let idx = self.index;
        if !contains_u32(&dbg.scripts[idx].valid_offsets, offset) {
            return Err(Error::OffsetNotValid);
        }
        let found = find_u32_key(&dbg.scripts[idx].breakpoints, offset);
        match found {
            None => {
                proof {
                    lemma_assoc_find_u32_none(self.record(dbg).breakpoints@, offset);
                }
                Ok(())
            },
            Some(i) => {
                proof {
                    lemma_assoc_find_u32_at(self.record(dbg).breakpoints@, offset, i as int);
                }
                let mut rec = dbg.scripts.remove(idx);
                rec.breakpoints.remove(i);
                dbg.scripts.insert(idx, rec);
                proof {
                    let pre = *old(dbg);
                    let post = *dbg;
                    let pre_b = self.record(&pre).breakpoints@;
                    let post_b = self.record(&post).breakpoints@;
                    assert(post.scripts@ =~= pre.scripts@.update(
                        idx as int,
                        post.scripts@[idx as int],
                    ));
                    assert(script_record_ok(
                        pre.scripts@[idx as int],
                        pre.objects@.len() as int,
                        pre.scripts@.len() as int,
                        pre.sources@.len() as int,
                    ));
                    assert(post_b == pre_b.remove(i as int));
                    assert(unique_u32_keys(post_b)) by {
                        assert forall|x: int, y: int|
                            0 <= x < y < post_b.len() implies (#[trigger] post_b[x]).0 != (
                        #[trigger] post_b[y]).0 by {
                            let px: int = if x < i as int {
                                x
                            } else {
                                x + 1
                            };
                            let py: int = if y < i as int {
                                y
                            } else {
                                y + 1
                            };
                            assert(post_b[x] == pre_b[px]);
                            assert(post_b[y] == pre_b[py]);
                            assert(pre_b[px].0 != pre_b[py].0);
                        }
                    }
                    lemma_script_update(pre, post, idx as int);
                }
                Ok(())
            },
        }
    }

    /// Clears all the breakpoints in this script. Always succeeds: every
    /// offset's handler list is emptied.
    pub fn clear_all_breakpoints(&self, dbg: &mut Debuggee)
        requires
            old(dbg).wf(),
            self.in_bounds(old(dbg)),
        ensures
            final(dbg).wf(),
            unchanged_except_script(*old(dbg), *final(dbg), self.index as int),
            script_same_but_breakpoints(self.record(old(dbg)), self.record(final(dbg))),
            self.record(final(dbg)).breakpoints@.len() == 0,
    {
        let idx = self.index;
        let mut rec = dbg.scripts.remove(idx);
        rec.breakpoints.clear();
        dbg.scripts.insert(idx, rec);
        proof {
            let pre = *old(dbg);
            let post = *dbg;
            assert(post.scripts@ =~= pre.scripts@.update(idx as int, post.scripts@[idx as int]));
            assert(script_record_ok(
                pre.scripts@[idx as int],
                pre.objects@.len() as int,
                pre.scripts@.len() as int,
                pre.sources@.len() as int,
            ));
            lemma_script_update(pre, post, idx as int);
        }
    }
}

/// One more handler after a prefix: the run's answer is the prefix's
/// answer where it has one, else the new handler's response.
proof fn lemma_first_response_step(hs: Seq<BreakpointHandler>, i: int)
    requires
        0 <= i < hs.len(),
    ensures
        first_response(hs.take(i + 1)) == match first_response(hs.take(i)) {
            Some(c) => Some(c),
            None => hs[i].response,
        },
    decreases i,
{
    reveal_with_fuel(first_response, 4);
    if i == 0 {
        assert(hs.take(0).len() == 0);
        assert(hs.take(1).len() == 1);
        assert(hs.take(1)[0] == hs[0]);
        assert(hs.take(1).drop_first() =~= Seq::<BreakpointHandler>::empty());
    } else {
        lemma_first_response_step(hs.drop_first(), i - 1);
        assert(hs.take(i + 1).len() == i + 1);
        assert(hs.take(i).len() == i);
        assert(hs.take(i + 1)[0] == hs[0]);
        assert(hs.take(i)[0] == hs[0]);
        assert(hs.drop_first()[i - 1] == hs[i]);
        assert(hs.take(i + 1).drop_first() =~= hs.drop_first().take(i));
        assert(hs.take(i).drop_first() =~= hs.drop_first().take(i - 1));
    }
}

impl Debuggee {
    /// The breakpoint control point: the live debuggee `frame` reached an
    /// offset with breakpoints, and this layer answers the resumption
    /// value for the engine.
    ///
    /// Every handler registered at the frame's current offset in its
    /// script fires, in registration order — the invocation log grows by
    /// exactly one entry per handler — and the answer is the response of
    /// the first handler that gives one, `None` where none does. The
    /// handler list is snapshotted at dispatch time: registrations made
    /// while the control point runs take effect from the next hit on.
    pub fn breakpoint_hit(&mut self, frame: &Frame) -> (resumption: ResumptionValue)
        requires
            old(self).wf(),
            frame.in_bounds(old(self)),
            frame.record(old(self)).live,
            frame.record(old(self)).is_debuggee,
        ensures
            final(self).wf(),
            final(self).environments == old(self).environments,
            final(self).frames == old(self).frames,
            final(self).objects == old(self).objects,
            final(self).scripts == old(self).scripts,
            final(self).sources == old(self).sources,
            ({
                let s = frame.record(old(self)).script->Some_0;
                let off = frame.record(old(self)).offset;
                let hs = breakpoint_handlers(old(self).scripts@[s.index as int], off);
                &&& log_extended_with_breakpoints(
                    old(self).invocations@,
                    final(self).invocations@,
                    hs,
                    *frame,
                    off,
                )
                &&& resumption == first_response(hs)
            }),
    {
        let idx = frame.index;
        proof {
            assert(frame_record_ok(
                self.frames@[idx as int],
                idx as int,
                self.environments@.len() as int,
                self.objects@.len() as int,
                self.scripts@.len() as int,
            ));
        }
        let off = self.frames[idx].offset;
        let s = match self.frames[idx].script {
            Some(s) => s,
            None => {
                proof {
                    assert(false);
                }
                return None;
            },
        };
        let handlers = match find_u32_key(&self.scripts[s.index].breakpoints, off) {
            Some(bi) => {
                proof {
                    lemma_assoc_find_u32_at(self.scripts@[s.index as int].breakpoints@, off, bi as int);
                }
                clone_breakpoint_handlers(&self.scripts[s.index].breakpoints[bi].1)
            },
            None => {
                proof {
                    lemma_assoc_find_u32_none(self.scripts@[s.index as int].breakpoints@, off);
                }
                Vec::new()
            },
        };
        let ghost hs = handlers@;
        let n = handlers.len();
        let mut resumption: ResumptionValue = None;
        let mut i: usize = 0;
        while i < n
            invariant
                i <= n,
                n == hs.len(),
                handlers@ == hs,
                self.environments == old(self).environments,
                self.frames == old(self).frames,
                self.objects == old(self).objects,
                self.scripts == old(self).scripts,
                self.sources == old(self).sources,
                self.invocations@.len() == old(self).invocations@.len() + i,
                forall|j: int|
                    0 <= j < old(self).invocations@.len() ==> #[trigger] self.invocations@[j] == old(
                        self,
                    ).invocations@[j],
                forall|j: int|
                    0 <= j < i ==> #[trigger] self.invocations@[old(self).invocations@.len() + j]
                        == (Invocation {
                        control_point: ControlPoint::Breakpoint,
                        handler_id: hs[j].id,
                        frame: Frame { index: idx },
                        offset: off,
                        completion: None,
                    }),
                idx == frame.index,
                resumption == first_response(hs.take(i as int)),
            decreases n - i,
        {
            let h = &handlers[i];
            self.invocations.push(
                Invocation {
                    control_point: ControlPoint::Breakpoint,
                    handler_id: h.id,
                    frame: Frame { index: idx },
                    offset: off,
                    completion: None,
                },
            );
            proof {
                lemma_first_response_step(hs, i as int);
            }
            if resumption.is_none() {
                resumption = clone_resumption(&h.response);
            }
            i = i + 1;
        }
        proof {
            assert(hs.take(n as int) =~= hs);
        }
        resumption
    }
}

} // verus!
