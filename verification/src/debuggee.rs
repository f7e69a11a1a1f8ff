//! The modeled debuggee state.
//!
//! The engine itself (interpreter, JIT, garbage collector, bytecode
//! stepping) is an external collaborator; what this layer observes and
//! manipulates of it is captured here as one explicit [`Debuggee`] value:
//! arenas of environment, frame, object, script and source records, plus the
//! log of handler invocations delivered so far. Handles index into the
//! arenas and are re-validated on every access. The arenas only grow, so a
//! handle once obtained keeps naming the same record; a frame's liveness is
//! an explicit flag that the pop transition clears.

use vstd::prelude::*;
use crate::environment::{Environment, EnvironmentType};
use crate::frame::{Frame, FrameImplementation, FrameType};
use crate::handler::{BreakpointHandler, Invocation, PopHandler, StepHandler};
use crate::object::Object;
use crate::script::Script;
use crate::source::Source;
use crate::value::{CompletionValue, Value};

verus! {

/// One property of an object, as stored: every attribute resolved to a
/// concrete value (a descriptor's missing attributes default to `false` or
/// `Undefined` when the property is created).
#[derive(Debug)]
pub struct Property {
    /// If `false`, the attributes of the property, except the value of a
    /// writable data property, may not be changed.
    pub configurable: bool,
    /// If `false`, the property is skipped by for-in enumeration.
    pub enumerable: bool,
    /// `true` for an accessor property, `false` for a data property.
    pub is_accessor: bool,
    /// For a data property: whether its value may be changed.
    pub writable: bool,
    /// For a data property: its value.
    pub value: Value,
    /// For an accessor property: its getter.
    pub get: Value,
    /// For an accessor property: its setter.
    pub set: Value,
}

/// One lexical environment in the debuggee: a node in a singly-linked
/// parent chain holding uniquely named bindings.
#[derive(Debug)]
pub struct EnvironmentRecord {
    /// The type of the environment.
    pub env_type: EnvironmentType,
    /// The enclosing environment; `None` for the outermost one.
    pub parent: Option<Environment>,
    /// The named bindings, uniquely named; insertion order is irrelevant
    /// for lookup.
    pub bindings: Vec<(String, Value)>,
    /// For the variable environment of a function call: the function being
    /// called.
    pub callee: Option<Object>,
    /// For a global or `with` environment: the object it reflects.
    pub object: Option<Object>,
    /// Whether the environment is a script-visible debuggee environment.
    /// Inspecting a non-debuggee environment fails.
    pub is_debuggee: bool,
    /// Whether the environment was optimized out.
    pub optimized_out: bool,
    /// Whether the reflected object is a proxy, so that reading or writing
    /// bindings would run debuggee code.
    pub is_proxy: bool,
}

/// One heap object in the debuggee, with the reflective data this layer
/// exposes. The outcome of invoking a callable object is part of the
/// configured state: the engine that would produce it is a black box.
#[derive(Debug)]
pub struct ObjectRecord {
    /// The value of the internal property [[Class]].
    pub class: String,
    /// Whether properties may be added.
    pub extensible: bool,
    /// Whether the object is a proxy, so that structural operations on it
    /// would run debuggee code.
    pub is_proxy: bool,
    /// The own properties, uniquely named.
    pub properties: Vec<(String, Property)>,
    /// The prototype, if the object has one.
    pub prototype: Option<Object>,
    /// The global of the object (a global object is its own global).
    pub global: Object,
    /// For a global object: its global environment. `None` for any other
    /// object.
    pub global_env: Option<Environment>,
    /// Whether the object can be called.
    pub callable: bool,
    /// The completion the engine produces when the object is invoked,
    /// either as a function or as a constructor.
    pub call_completion: CompletionValue,
    /// Whether the object is a function in the debuggee.
    pub is_function: bool,
    /// For a named function: its name.
    pub fn_name: Option<String>,
    /// For a function with a display name: that name.
    pub fn_display_name: Option<String>,
    /// For a debuggee function: the names of its parameters.
    pub parameter_names: Vec<String>,
    /// Whether the object is an arrow function.
    pub is_arrow: bool,
    /// For a debuggee function: the environment in which it was created.
    pub fn_environment: Option<Environment>,
    /// For a debuggee function: its script.
    pub fn_script: Option<Script>,
    /// For a bound function: the target function.
    pub bound_target: Option<Object>,
    /// For a bound function: the bound this value.
    pub bound_this: Value,
    /// For a bound function: the bound arguments.
    pub bound_arguments: Vec<Value>,
}

/// One activation record on the debuggee's call stack.
#[derive(Debug)]
pub struct FrameRecord {
    /// The type of the frame.
    pub frame_type: FrameType,
    /// Where the frame is executing.
    pub implementation: FrameImplementation,
    /// Whether the frame is still on the stack.
    pub live: bool,
    /// The depth of the frame on the stack.
    pub depth: u32,
    /// The next-older visible frame.
    pub older: Option<Frame>,
    /// For a call frame: the function being called.
    pub callee: Option<Object>,
    /// For a call frame: whether the function is called as a constructor.
    pub constructing: bool,
    /// For a call frame: the this value of the call.
    pub this: Value,
    /// For a call frame: the arguments of the call.
    pub arguments: Vec<Value>,
    /// Whether the frame is a debuggee frame. A non-debuggee frame has no
    /// environment and no script to show.
    pub is_debuggee: bool,
    /// For a debuggee frame: the environment it executes in.
    pub environment: Option<Environment>,
    /// For a debuggee frame: the script it executes.
    pub script: Option<Script>,
    /// The offset of the bytecode being executed.
    pub offset: u32,
    /// The registered pop handler, at most one.
    pub pop_handler: Option<PopHandler>,
    /// The registered step handler, at most one.
    pub step_handler: Option<StepHandler>,
}

/// One compiled script in the debuggee.
#[derive(Debug)]
pub struct ScriptRecord {
    /// The url of the document the source was loaded from.
    pub url: String,
    /// The display name, if the script has one.
    pub display_name: Option<String>,
    /// The line at which the script's code starts in its document.
    pub start_line: u32,
    /// The number of lines the script's code spans.
    pub line_count: u32,
    /// The index of the character at which the script's code starts in its
    /// source.
    pub source_start: u32,
    /// The number of characters the script's code spans.
    pub source_length: u32,
    /// The global in which the script executes.
    pub global: Object,
    /// The source the script was compiled from, if retained.
    pub source: Option<Source>,
    /// The scripts of the functions defined inside this script.
    pub child_scripts: Vec<Script>,
    /// The bytecode offsets that are instruction boundaries: the valid
    /// breakpoint positions.
    pub valid_offsets: Vec<u32>,
    /// The line-to-offsets map: for each line, the offsets that are entry
    /// points of that line. Lines are uniquely keyed; one line may have
    /// several offsets.
    pub line_offsets: Vec<(u32, Vec<u32>)>,
    /// The breakpoint registry: for each offset with breakpoints, the
    /// handlers in registration order. Offsets are uniquely keyed and
    /// valid.
    pub breakpoints: Vec<(u32, Vec<BreakpointHandler>)>,
}

/// One script source in the debuggee. Immutable once captured.
#[derive(Debug)]
pub struct SourceRecord {
    /// The text of the source.
    pub text: String,
    /// The url of the document the source was loaded from.
    pub url: String,
    /// A unique identifier, so that two wrappers to the same source compare
    /// equal by identifier.
    pub canonical_id: String,
    /// For a source introduced by a DOM element: that element.
    pub element: Option<Object>,
    /// For a source introduced by an attribute on a DOM element: the name
    /// of the attribute.
    pub element_attribute_name: Option<String>,
    /// For a source introduced by a function call: the offset of the
    /// bytecode of the call.
    pub introduction_offset: Option<u32>,
    /// For a source introduced by a function call: the script containing
    /// the call.
    pub introduction_script: Option<Script>,
    /// How the source was introduced, where known.
    pub introduction_type: Option<crate::source::IntroductionType>,
    /// The url of the source map, where the source is mapped and the url is
    /// known.
    pub source_map_url: Option<String>,
}

/// The debuggee state this layer operates on: the arenas all handles index
/// into, and the log of handler invocations delivered so far.
#[derive(Debug)]
pub struct Debuggee {
    /// The lexical environments.
    pub environments: Vec<EnvironmentRecord>,
    /// The activation records, live and popped.
    pub frames: Vec<FrameRecord>,
    /// The heap objects.
    pub objects: Vec<ObjectRecord>,
    /// The compiled scripts.
    pub scripts: Vec<ScriptRecord>,
    /// The script sources.
    pub sources: Vec<SourceRecord>,
    /// Every handler firing so far, oldest first.
    pub invocations: Vec<Invocation>,
}

/// Looks a name up in an association list: the value at the first entry
/// whose key has the given characters, if any.
pub open spec fn assoc_find<T>(s: Seq<(String, T)>, name: Seq<char>) -> Option<T>
    decreases s.len(),
{
    if s.len() == 0 {
        None
    } else if s[0].0@ == name {
        Some(s[0].1)
    } else {
        assoc_find(s.drop_first(), name)
    }
}

/// Whether an association list has an entry with the given key.
pub open spec fn assoc_has<T>(s: Seq<(String, T)>, name: Seq<char>) -> bool {
    exists|i: int| 0 <= i < s.len() && s[i].0@ == name
}

/// Looks an offset or line up in an integer-keyed association list.
pub open spec fn assoc_find_u32<T>(s: Seq<(u32, T)>, key: u32) -> Option<T>
    decreases s.len(),
{
    if s.len() == 0 {
        None
    } else if s[0].0 == key {
        Some(s[0].1)
    } else {
        assoc_find_u32(s.drop_first(), key)
    }
}

/// String-keyed entries have pairwise distinct keys.
pub open spec fn unique_str_keys<T>(s: Seq<(String, T)>) -> bool {
    forall|j: int, k: int| 0 <= j < k < s.len() ==> (#[trigger] s[j]).0@ != (#[trigger] s[k]).0@
}

/// Integer-keyed entries have pairwise distinct keys.
pub open spec fn unique_u32_keys<T>(s: Seq<(u32, T)>) -> bool {
    forall|j: int, k: int| 0 <= j < k < s.len() ==> (#[trigger] s[j]).0 != (#[trigger] s[k]).0
}

/// If the first `i` keys differ from `name` and entry `i` matches, the
/// lookup answers entry `i`.
pub proof fn lemma_assoc_find_at<T>(s: Seq<(String, T)>, name: Seq<char>, i: int)
    requires
        0 <= i < s.len(),
        s[i].0@ == name,
        forall|j: int| 0 <= j < i ==> (#[trigger] s[j]).0@ != name,
    ensures
        assoc_find(s, name) == Some(s[i].1),
    decreases i,
{
    if i > 0 {
        lemma_assoc_find_at(s.drop_first(), name, i - 1);
    }
}

/// If no key matches `name`, the lookup answers nothing.
pub proof fn lemma_assoc_find_none<T>(s: Seq<(String, T)>, name: Seq<char>)
    requires
        forall|j: int| 0 <= j < s.len() ==> (#[trigger] s[j]).0@ != name,
    ensures
        assoc_find(s, name) is None,
    decreases s.len(),
{
    if s.len() > 0 {
        lemma_assoc_find_none(s.drop_first(), name);
    }
}

/// The lookup succeeds exactly when some entry has the key.
pub proof fn lemma_assoc_find_has<T>(s: Seq<(String, T)>, name: Seq<char>)
    ensures
        assoc_find(s, name) is Some <==> assoc_has(s, name),
    decreases s.len(),
{
    if s.len() > 0 {
        lemma_assoc_find_has(s.drop_first(), name);
        if s[0].0@ != name && assoc_has(s, name) {
            let i = choose|i: int| 0 <= i < s.len() && s[i].0@ == name;
            assert(s.drop_first()[i - 1].0@ == name);
        }
        if assoc_has(s.drop_first(), name) {
            let i = choose|i: int| 0 <= i < s.drop_first().len() && s.drop_first()[i].0@ == name;
            assert(s[i + 1].0@ == name);
        }
    }
}

/// A successful lookup answers the value of an entry with that key.
pub proof fn lemma_assoc_find_is_entry<T>(s: Seq<(String, T)>, name: Seq<char>)
    requires
        assoc_find(s, name) is Some,
    ensures
        exists|i: int|
            0 <= i < s.len() && (#[trigger] s[i]).0@ == name && s[i].1 == assoc_find(
                s,
                name,
            )->Some_0,
    decreases s.len(),
{
    if s[0].0@ == name {
        assert(0 <= 0 < s.len() && s[0].0@ == name && s[0].1 == assoc_find(s, name)->Some_0);
    } else {
        lemma_assoc_find_is_entry(s.drop_first(), name);
        let w = choose|w: int|
            0 <= w < s.drop_first().len() && (#[trigger] s.drop_first()[w]).0@ == name
                && s.drop_first()[w].1 == assoc_find(s.drop_first(), name)->Some_0;
        assert(s[w + 1].0@ == name && s[w + 1].1 == assoc_find(s, name)->Some_0);
    }
}

/// The integer-keyed counterpart of [`lemma_assoc_find_at`].
pub proof fn lemma_assoc_find_u32_at<T>(s: Seq<(u32, T)>, key: u32, i: int)
    requires
        0 <= i < s.len(),
        s[i].0 == key,
        forall|j: int| 0 <= j < i ==> (#[trigger] s[j]).0 != key,
    ensures
        assoc_find_u32(s, key) == Some(s[i].1),
    decreases i,
{
    if i > 0 {
        lemma_assoc_find_u32_at(s.drop_first(), key, i - 1);
    }
}

/// The integer-keyed counterpart of [`lemma_assoc_find_none`].
pub proof fn lemma_assoc_find_u32_none<T>(s: Seq<(u32, T)>, key: u32)
    requires
        forall|j: int| 0 <= j < s.len() ==> (#[trigger] s[j]).0 != key,
    ensures
        assoc_find_u32(s, key) is None,
    decreases s.len(),
{
    if s.len() > 0 {
        lemma_assoc_find_u32_none(s.drop_first(), key);
    }
}

/// Well-formedness of one environment record, at position `before` in the
/// arena, against the number of objects.
pub open spec fn env_record_ok(r: EnvironmentRecord, before: int, n_objects: int) -> bool {
    &&& (r.parent matches Some(p) ==> (p.index as int) < before)
    &&& unique_str_keys(r.bindings@)
    &&& (r.callee matches Some(o) ==> (o.index as int) < n_objects)
    &&& (r.object matches Some(o) ==> (o.index as int) < n_objects)
    &&& ((r.env_type is Object || r.env_type is With) <==> r.object is Some)
    &&& (r.callee is Some ==> r.env_type is Declarative)
}

/// Well-formedness of one frame record at position `before`.
pub open spec fn frame_record_ok(
    r: FrameRecord,
    before: int,
    n_envs: int,
    n_objects: int,
    n_scripts: int,
) -> bool {
    &&& (r.older matches Some(f) ==> (f.index as int) < before)
    &&& (r.callee matches Some(o) ==> (o.index as int) < n_objects)
    &&& (r.environment matches Some(e) ==> (e.index as int) < n_envs)
    &&& (r.script matches Some(s) ==> (s.index as int) < n_scripts)
    &&& (r.is_debuggee ==> r.environment is Some && r.script is Some)
}

/// Well-formedness of one object record.
pub open spec fn object_record_ok(
    r: ObjectRecord,
    n_envs: int,
    n_objects: int,
    n_scripts: int,
) -> bool {
    &&& unique_str_keys(r.properties@)
    &&& (r.prototype matches Some(o) ==> (o.index as int) < n_objects)
    &&& (r.global.index as int) < n_objects
    &&& (r.global_env matches Some(e) ==> (e.index as int) < n_envs)
    &&& (r.is_function ==> r.fn_environment is Some && r.fn_script is Some)
    &&& (r.fn_environment matches Some(e) ==> (e.index as int) < n_envs)
    &&& (r.fn_script matches Some(s) ==> (s.index as int) < n_scripts)
    &&& (r.bound_target matches Some(o) ==> (o.index as int) < n_objects)
}

/// Well-formedness of one script record.
pub open spec fn script_record_ok(
    r: ScriptRecord,
    n_objects: int,
    n_scripts: int,
    n_sources: int,
) -> bool {
    &&& (r.global.index as int) < n_objects
    &&& (r.source matches Some(s) ==> (s.index as int) < n_sources)
    &&& (forall|i: int|
        0 <= i < r.child_scripts@.len() ==> ((#[trigger] r.child_scripts@[i]).index as int)
            < n_scripts)
    &&& unique_u32_keys(r.breakpoints@)
    &&& (forall|i: int|
        0 <= i < r.breakpoints@.len() ==> r.valid_offsets@.contains(
            (#[trigger] r.breakpoints@[i]).0,
        ))
    &&& unique_u32_keys(r.line_offsets@)
}

/// Well-formedness of one source record.
pub open spec fn source_record_ok(r: SourceRecord, n_objects: int, n_scripts: int) -> bool {
    &&& (r.element matches Some(o) ==> (o.index as int) < n_objects)
    &&& (r.introduction_script matches Some(s) ==> (s.index as int) < n_scripts)
}

impl Debuggee {
    /// Well-formedness of the whole state: every record's references stay
    /// inside the arenas, parent and older chains point strictly downward
    /// (so walking them terminates), and every keyed table is uniquely
    /// keyed.
    pub open spec fn wf(&self) -> bool {
        &&& (forall|i: int|
            0 <= i < self.environments@.len() ==> #[trigger] env_record_ok(
                self.environments@[i],
                i,
                self.objects@.len() as int,
            ))
        &&& (forall|i: int|
            0 <= i < self.frames@.len() ==> #[trigger] frame_record_ok(
                self.frames@[i],
                i,
                self.environments@.len() as int,
                self.objects@.len() as int,
                self.scripts@.len() as int,
            ))
        &&& (forall|i: int|
            0 <= i < self.objects@.len() ==> #[trigger] object_record_ok(
                self.objects@[i],
                self.environments@.len() as int,
                self.objects@.len() as int,
                self.scripts@.len() as int,
            ))
        &&& (forall|i: int|
            0 <= i < self.scripts@.len() ==> #[trigger] script_record_ok(
                self.scripts@[i],
                self.objects@.len() as int,
                self.scripts@.len() as int,
                self.sources@.len() as int,
            ))
        &&& (forall|i: int|
            0 <= i < self.sources@.len() ==> #[trigger] source_record_ok(
                self.sources@[i],
                self.objects@.len() as int,
                self.scripts@.len() as int,
            ))
    }

    /// An empty debuggee: nothing to observe yet, nothing fired yet.
    pub fn new() -> (d: Debuggee)
        ensures
            d.wf(),
            d.environments@.len() == 0,
            d.frames@.len() == 0,
            d.objects@.len() == 0,
            d.scripts@.len() == 0,
            d.sources@.len() == 0,
            d.invocations@.len() == 0,
    {
        Debuggee {
            environments: Vec::new(),
            frames: Vec::new(),
            objects: Vec::new(),
            scripts: Vec::new(),
            sources: Vec::new(),
            invocations: Vec::new(),
        }
    }

    /// Adds an environment to the debuggee and answers its handle. The
    /// record may name any already-added environment as parent and
    /// already-added objects.
    pub fn add_environment(&mut self, record: EnvironmentRecord) -> (e: Environment)
        requires
            old(self).wf(),
            env_record_ok(
                record,
                old(self).environments@.len() as int,
                old(self).objects@.len() as int,
            ),
        ensures
            final(self).wf(),
            e.index == old(self).environments@.len(),
            final(self).environments@ == old(self).environments@.push(record),
            final(self).frames == old(self).frames,
            final(self).objects == old(self).objects,
            final(self).scripts == old(self).scripts,
            final(self).sources == old(self).sources,
            final(self).invocations == old(self).invocations,
    {
        let e = Environment { index: self.environments.len() };
        self.environments.push(record);
        proof {
            let pre = *old(self);
            assert forall|i: int| 0 <= i < self.environments@.len() implies #[trigger] env_record_ok(
                self.environments@[i],
                i,
                self.objects@.len() as int,
            ) by {
                if i < pre.environments@.len() {
                    assert(env_record_ok(pre.environments@[i], i, pre.objects@.len() as int));
                }
            }
            assert forall|i: int| 0 <= i < self.frames@.len() implies #[trigger] frame_record_ok(
                self.frames@[i],
                i,
                self.environments@.len() as int,
                self.objects@.len() as int,
                self.scripts@.len() as int,
            ) by {
                assert(frame_record_ok(
                    pre.frames@[i],
                    i,
                    pre.environments@.len() as int,
                    pre.objects@.len() as int,
                    pre.scripts@.len() as int,
                ));
            }
            assert forall|i: int| 0 <= i < self.objects@.len() implies #[trigger] object_record_ok(
                self.objects@[i],
                self.environments@.len() as int,
                self.objects@.len() as int,
                self.scripts@.len() as int,
            ) by {
                assert(object_record_ok(
                    pre.objects@[i],
                    pre.environments@.len() as int,
                    pre.objects@.len() as int,
                    pre.scripts@.len() as int,
                ));
            }
        }
        e
    }

    /// Adds a frame to the debuggee and answers its handle.
    pub fn add_frame(&mut self, record: FrameRecord) -> (f: Frame)
        requires
            old(self).wf(),
            frame_record_ok(
                record,
                old(self).frames@.len() as int,
                old(self).environments@.len() as int,
                old(self).objects@.len() as int,
                old(self).scripts@.len() as int,
            ),
        ensures
            final(self).wf(),
            f.index == old(self).frames@.len(),
            final(self).frames@ == old(self).frames@.push(record),
            final(self).environments == old(self).environments,
            final(self).objects == old(self).objects,
            final(self).scripts == old(self).scripts,
            final(self).sources == old(self).sources,
            final(self).invocations == old(self).invocations,
    {
        let f = Frame { index: self.frames.len() };
        self.frames.push(record);
        f
    }

    /// Adds an object to the debuggee and answers its handle. The record's
    /// global may be the object itself: the new index is in bounds too.
    pub fn add_object(&mut self, record: ObjectRecord) -> (o: Object)
        requires
            old(self).wf(),
            object_record_ok(
                record,
                old(self).environments@.len() as int,
                old(self).objects@.len() as int + 1,
                old(self).scripts@.len() as int,
            ),
        ensures
            final(self).wf(),
            o.index == old(self).objects@.len(),
            final(self).objects@ == old(self).objects@.push(record),
            final(self).environments == old(self).environments,
            final(self).frames == old(self).frames,
            final(self).scripts == old(self).scripts,
            final(self).sources == old(self).sources,
            final(self).invocations == old(self).invocations,
    {
        let o = Object { index: self.objects.len() };
        self.objects.push(record);
        proof {
            let pre = *old(self);
            assert forall|i: int| 0 <= i < self.environments@.len() implies #[trigger] env_record_ok(
                self.environments@[i],
                i,
                self.objects@.len() as int,
            ) by {
                assert(env_record_ok(pre.environments@[i], i, pre.objects@.len() as int));
            }
            assert forall|i: int| 0 <= i < self.frames@.len() implies #[trigger] frame_record_ok(
                self.frames@[i],
                i,
                self.environments@.len() as int,
                self.objects@.len() as int,
                self.scripts@.len() as int,
            ) by {
                assert(frame_record_ok(
                    pre.frames@[i],
                    i,
                    pre.environments@.len() as int,
                    pre.objects@.len() as int,
                    pre.scripts@.len() as int,
                ));
            }
            assert forall|i: int| 0 <= i < self.objects@.len() implies #[trigger] object_record_ok(
                self.objects@[i],
                self.environments@.len() as int,
                self.objects@.len() as int,
                self.scripts@.len() as int,
            ) by {
                if i < pre.objects@.len() {
                    assert(object_record_ok(
                        pre.objects@[i],
                        pre.environments@.len() as int,
                        pre.objects@.len() as int,
                        pre.scripts@.len() as int,
                    ));
                }
            }
            assert forall|i: int| 0 <= i < self.scripts@.len() implies #[trigger] script_record_ok(
                self.scripts@[i],
                self.objects@.len() as int,
                self.scripts@.len() as int,
                self.sources@.len() as int,
            ) by {
                assert(script_record_ok(
                    pre.scripts@[i],
                    pre.objects@.len() as int,
                    pre.scripts@.len() as int,
                    pre.sources@.len() as int,
                ));
            }
            assert forall|i: int| 0 <= i < self.sources@.len() implies #[trigger] source_record_ok(
                self.sources@[i],
                self.objects@.len() as int,
                self.scripts@.len() as int,
            ) by {
                assert(source_record_ok(
                    pre.sources@[i],
                    pre.objects@.len() as int,
                    pre.scripts@.len() as int,
                ));
            }
        }
        o
    }

    /// Adds a script to the debuggee and answers its handle. The record's
    /// children may include the script itself.
    pub fn add_script(&mut self, record: ScriptRecord) -> (s: Script)
        requires
            old(self).wf(),
            script_record_ok(
                record,
                old(self).objects@.len() as int,
                old(self).scripts@.len() as int + 1,
                old(self).sources@.len() as int,
            ),
        ensures
            final(self).wf(),
            s.index == old(self).scripts@.len(),
            final(self).scripts@ == old(self).scripts@.push(record),
            final(self).environments == old(self).environments,
            final(self).frames == old(self).frames,
            final(self).objects == old(self).objects,
            final(self).sources == old(self).sources,
            final(self).invocations == old(self).invocations,
    {
        let s = Script { index: self.scripts.len() };
        self.scripts.push(record);
        proof {
            let pre = *old(self);
            assert forall|i: int| 0 <= i < self.frames@.len() implies #[trigger] frame_record_ok(
                self.frames@[i],
                i,
                self.environments@.len() as int,
                self.objects@.len() as int,
                self.scripts@.len() as int,
            ) by {
                assert(frame_record_ok(
                    pre.frames@[i],
                    i,
                    pre.environments@.len() as int,
                    pre.objects@.len() as int,
                    pre.scripts@.len() as int,
                ));
            }
            assert forall|i: int| 0 <= i < self.objects@.len() implies #[trigger] object_record_ok(
                self.objects@[i],
                self.environments@.len() as int,
                self.objects@.len() as int,
                self.scripts@.len() as int,
            ) by {
                assert(object_record_ok(
                    pre.objects@[i],
                    pre.environments@.len() as int,
                    pre.objects@.len() as int,
                    pre.scripts@.len() as int,
                ));
            }
            assert forall|i: int| 0 <= i < self.scripts@.len() implies #[trigger] script_record_ok(
                self.scripts@[i],
                self.objects@.len() as int,
                self.scripts@.len() as int,
                self.sources@.len() as int,
            ) by {
                if i < pre.scripts@.len() {
                    assert(script_record_ok(
                        pre.scripts@[i],
                        pre.objects@.len() as int,
                        pre.scripts@.len() as int,
                        pre.sources@.len() as int,
                    ));
                }
            }
            assert forall|i: int| 0 <= i < self.sources@.len() implies #[trigger] source_record_ok(
                self.sources@[i],
                self.objects@.len() as int,
                self.scripts@.len() as int,
            ) by {
                assert(source_record_ok(
                    pre.sources@[i],
                    pre.objects@.len() as int,
                    pre.scripts@.len() as int,
                ));
            }
        }
        s
    }

    /// Adds a source to the debuggee and answers its handle.
    pub fn add_source(&mut self, record: SourceRecord) -> (s: Source)
        requires
            old(self).wf(),
            source_record_ok(
                record,
                old(self).objects@.len() as int,
                old(self).scripts@.len() as int,
            ),
        ensures
            final(self).wf(),
            s.index == old(self).sources@.len(),
            final(self).sources@ == old(self).sources@.push(record),
            final(self).environments == old(self).environments,
            final(self).frames == old(self).frames,
            final(self).objects == old(self).objects,
            final(self).scripts == old(self).scripts,
            final(self).invocations == old(self).invocations,
    {
        let s = Source { index: self.sources.len() };
        self.sources.push(record);
        proof {
            let pre = *old(self);
            assert forall|i: int| 0 <= i < self.scripts@.len() implies #[trigger] script_record_ok(
                self.scripts@[i],
                self.objects@.len() as int,
                self.scripts@.len() as int,
                self.sources@.len() as int,
            ) by {
                assert(script_record_ok(
                    pre.scripts@[i],
                    pre.objects@.len() as int,
                    pre.scripts@.len() as int,
                    pre.sources@.len() as int,
                ));
            }
        }
        s
    }
}

/// Finds the position of the first entry with the given name in a
/// string-keyed table.
pub fn find_str_key<T>(v: &Vec<(String, T)>, name: &String) -> (r: Option<usize>)
    ensures
        match r {
            Some(i) => {
                &&& (i as int) < v@.len()
                &&& v@[i as int].0@ == name@
                &&& forall|j: int| 0 <= j < i ==> (#[trigger] v@[j]).0@ != name@
            },
            None => forall|j: int| 0 <= j < v@.len() ==> (#[trigger] v@[j]).0@ != name@,
        },
{
    let n = v.len();
    let mut i: usize = 0;
    while i < n
        invariant
            i <= n,
            n == v@.len(),
            forall|j: int| 0 <= j < i ==> (#[trigger] v@[j]).0@ != name@,
        decreases n - i,
    {
        if v[i].0 == *name {
            return Some(i);
        }
        i = i + 1;
    }
    None
}

/// Finds the position of the first entry with the given key in an
/// integer-keyed table.
pub fn find_u32_key<T>(v: &Vec<(u32, T)>, key: u32) -> (r: Option<usize>)
    ensures
        match r {
            Some(i) => {
                &&& (i as int) < v@.len()
                &&& v@[i as int].0 == key
                &&& forall|j: int| 0 <= j < i ==> (#[trigger] v@[j]).0 != key
            },
            None => forall|j: int| 0 <= j < v@.len() ==> (#[trigger] v@[j]).0 != key,
        },
{
    let n = v.len();
    let mut i: usize = 0;
    while i < n
        invariant
            i <= n,
            n == v@.len(),
            forall|j: int| 0 <= j < i ==> (#[trigger] v@[j]).0 != key,
        decreases n - i,
    {
        if v[i].0 == key {
            return Some(i);
        }
        i = i + 1;
    }
    None
}

/// Whether a list of offsets contains the given one.
pub fn contains_u32(v: &Vec<u32>, x: u32) -> (r: bool)
    ensures
        r == v@.contains(x),
{
    let n = v.len();
    let mut i: usize = 0;
    while i < n
        invariant
            i <= n,
            n == v@.len(),
            forall|j: int| 0 <= j < i ==> v@[j] != x,
        decreases n - i,
    {
        if v[i] == x {
            assert(v@.contains(x));
            return true;
        }
        i = i + 1;
    }
    assert(!v@.contains(x));
    false
}

} // verus!
