//! The layer's cross-cutting guarantees, stated and proved over the spec
//! functions that the method contracts speak of.

use vstd::prelude::*;
use crate::debuggee::{
    assoc_find, assoc_has, lemma_assoc_find_has, lemma_assoc_find_is_entry, EnvironmentRecord,
    FrameRecord, ObjectRecord, Property,
};
use crate::environment::lookup_value;
use crate::error::Error;
use crate::frame::{environment_of, offset_of, pop_observed, script_of};
use crate::object::{
    define_refusal, disallowed_change, obj_frozen, obj_sealed, props_map_frozen, props_map_sealed,
    sealed_property, PropertyDescriptor,
};
use crate::value::{CompletionValue, Value};

verus! {

/// Where no binding holds `Undefined` itself, an inspectable environment
/// answers `Undefined` for a name exactly when the name is not among its
/// bound names: absence is encoded as a value, never as an error.
pub proof fn lemma_absent_binding_is_undefined(r: EnvironmentRecord, name: Seq<char>)
    requires
        forall|i: int|
            0 <= i < r.bindings@.len() ==> (#[trigger] r.bindings@[i]).1 != Value::Undefined,
    ensures
        lookup_value(r, name) == Value::Undefined <==> !assoc_has(r.bindings@, name),
{
    lemma_assoc_find_has(r.bindings@, name);
    if assoc_has(r.bindings@, name) {
        lemma_assoc_find_is_entry(r.bindings@, name);
    }
}

/// Once a frame is no longer live, it shows no environment, no offset and
/// no script: every such accessor answers `None`.
pub proof fn lemma_dead_frame_reports_nothing(r: FrameRecord)
    requires
        !r.live,
    ensures
        environment_of(r) is None,
        offset_of(r) is None,
        script_of(r) is None,
{
}

/// A pop handler that answers `Throw(w)` makes the caller observe
/// `Throw(w)` in place of the frame's natural `Return(v)`.
pub proof fn lemma_pop_handler_redirects(r: FrameRecord, v: Value, w: Value)
    requires
        r.pop_handler matches Some(h) && h.response == Some(CompletionValue::Throw(w)),
    ensures
        pop_observed(r, CompletionValue::Return(v)) == CompletionValue::Throw(w),
{
}

/// A handler that answers `None` leaves the natural completion in place:
/// the debuggee continues unmodified.
pub proof fn lemma_pop_handler_declines(r: FrameRecord, natural: CompletionValue)
    requires
        r.pop_handler matches Some(h) && h.response is None,
    ensures
        pop_observed(r, natural) == natural,
{
}

/// Sealing leaves an object sealed: what the seal transition guarantees of
/// the record makes the `is_sealed` predicate true.
pub proof fn lemma_seal_establishes_sealed(pre: ObjectRecord, post: ObjectRecord)
    requires
        !post.extensible,
        props_map_sealed(pre.properties@, post.properties@),
    ensures
        obj_sealed(post),
{
    assert forall|i: int| 0 <= i < post.properties@.len() implies !(#[trigger] post.properties@[i]).1.configurable by {
        assert(post.properties@[i].1 == sealed_property(pre.properties@[i].1));
    }
}

/// Freezing leaves an object frozen: what the freeze transition guarantees
/// of the record makes the `is_frozen` predicate true.
pub proof fn lemma_freeze_establishes_frozen(pre: ObjectRecord, post: ObjectRecord)
    requires
        !post.extensible,
        props_map_frozen(pre.properties@, post.properties@),
    ensures
        obj_frozen(post),
{
    assert forall|i: int|
        0 <= i < post.properties@.len() implies !(#[trigger] post.properties@[i]).1.configurable
        && (post.properties@[i].1.is_accessor || !post.properties@[i].1.writable) by {
        assert(post.properties@[i].1 == crate::object::frozen_property(pre.properties@[i].1));
    }
}

/// Sealing is idempotent: sealing a second time changes nothing — the
/// properties after two seals are exactly those after one.
pub proof fn lemma_seal_idempotent(
    a: Seq<(String, Property)>,
    b: Seq<(String, Property)>,
    c: Seq<(String, Property)>,
)
    requires
        props_map_sealed(a, b),
        props_map_sealed(b, c),
    ensures
        c == b,
{
    assert forall|j: int| 0 <= j < b.len() implies c[j] == b[j] by {
        assert(b[j].1 == sealed_property(a[j].1));
        assert(c[j].1 == sealed_property(b[j].1));
    }
    assert(c =~= b);
}

/// On a frozen, non-proxy object, defining a property by any descriptor
/// that asks for a value, a getter, a setter, writability or
/// configurability is refused: with `ObjectNotExtensible` where the name
/// is new, with `PropertyNotConfigurable` where it exists.
pub proof fn lemma_frozen_rejects_define(r: ObjectRecord, name: Seq<char>, d: PropertyDescriptor)
    requires
        !r.is_proxy,
        obj_frozen(r),
        d.configurable == Some(true) || d.writable == Some(true) || d.value is Some || d.get is Some
            || d.set is Some,
    ensures
        define_refusal(r, name, d) == Some(Error::ObjectNotExtensible) || define_refusal(
            r,
            name,
            d,
        ) == Some(Error::PropertyNotConfigurable),
{
    if assoc_find(r.properties@, name) is Some {
        lemma_assoc_find_is_entry(r.properties@, name);
        let p = assoc_find(r.properties@, name)->Some_0;
        assert(!p.configurable && (p.is_accessor || !p.writable));
        assert(disallowed_change(p, d));
    }
}

} // verus!
