//! The object wrapper: property manipulation, callability, the
//! extensibility / sealed / frozen ladder, and function-specific reflection.

use vstd::prelude::*;
use vstd::string::StringExecFns;
use crate::debuggee::{
    assoc_find, assoc_has, find_str_key, lemma_assoc_find_at, lemma_assoc_find_none,
    object_record_ok, unique_str_keys, Debuggee, ObjectRecord, Property,
};
use crate::environment::{chain_value, eval_in_chain, eval_result, resolve_in_chain, Environment};
use crate::error::{Error, Fallible};
use crate::script::Script;
use crate::value::{clone_opt_string, clone_strings, clone_values, CompletionValue, Value};

verus! {

/// A wrapper to an object in the debuggee.
///
/// The handle is non-owning: the debuggee's heap owns the object, and the
/// handle merely names it within a [`crate::debuggee::Debuggee`] state.
#[derive(Clone, Copy, Debug, PartialEq, Eq, Structural)]
pub struct Object {
    /// The position of the wrapped object in the debuggee state.
    pub index: usize,
}

/// A property descriptor describes a property. It consists of zero or more
/// optional attributes.
///
/// A property descriptor is either a data property descriptor, an accessor
/// property descriptor, or a generic property descriptor. A data property
/// descriptor has either a writable or a value attribute. An accessor
/// property descriptor has either a get or a set attribute. A generic
/// property descriptor is neither a data property descriptor nor an
/// accessor property descriptor.
#[derive(Debug)]
pub struct PropertyDescriptor {
    /// If `false`, the attributes of the property, except its value, may
    /// not be changed. Defaults to `false`.
    pub configurable: Option<bool>,
    /// If `false`, the property will not be enumerated by a for-in
    /// enumeration. Defaults to `false`.
    pub enumerable: Option<bool>,
    /// If `false`, the value of the property may not be changed. Defaults
    /// to `false`.
    pub writable: Option<bool>,
    /// The value of the property. Defaults to `Undefined`.
    pub value: Option<Value>,
    /// A getter for the property. Must be either a wrapper to a function or
    /// `Undefined`. Defaults to `Undefined`.
    pub get: Option<Value>,
    /// A setter for the property. Must be either a wrapper to a function or
    /// `Undefined`. Defaults to `Undefined`.
    pub set: Option<Value>,
}

impl PropertyDescriptor {
    /// True of a data property descriptor: one with a writable or a value
    /// attribute.
    pub open spec fn is_data_descriptor(&self) -> bool {
        self.writable is Some || self.value is Some
    }

    /// True of an accessor property descriptor: one with a get or a set
    /// attribute.
    pub open spec fn is_accessor_descriptor(&self) -> bool {
        self.get is Some || self.set is Some
    }

    /// A descriptor with no attributes set.
    pub fn empty() -> (d: PropertyDescriptor)
        ensures
            d.configurable is None,
            d.enumerable is None,
            d.writable is None,
            d.value is None,
            d.get is None,
            d.set is None,
    {
        PropertyDescriptor {
            configurable: None,
            enumerable: None,
            writable: None,
            value: None,
            get: None,
            set: None,
        }
    }
}

fn clone_opt_value(v: &Option<Value>) -> (res: Option<Value>)
    ensures
        res == *v,
{
    match v {
        None => None,
        Some(x) => Some(x.clone()),
    }
}

/// An optional attribute, or its default where it is absent.
pub open spec fn opt_or<T>(o: Option<T>, dflt: T) -> T {
    match o {
        Some(x) => x,
        None => dflt,
    }
}

fn opt_or_bool(o: &Option<bool>, dflt: bool) -> (r: bool)
    ensures
        r == opt_or(*o, dflt),
{
    match o {
        Some(b) => *b,
        None => dflt,
    }
}

fn opt_or_value(o: &Option<Value>, dflt: Value) -> (r: Value)
    ensures
        r == opt_or(*o, dflt),
{
    match o {
        Some(v) => v.clone(),
        None => dflt,
    }
}

/// A data property with every attribute at its default.
pub open spec fn blank_property() -> Property {
    Property {
        configurable: false,
        enumerable: false,
        is_accessor: false,
        writable: false,
        value: Value::Undefined,
        get: Value::Undefined,
        set: Value::Undefined,
    }
}

/// The property that results from applying descriptor `d` to property `p`:
/// attributes the descriptor sets replace the old ones, the rest are kept —
/// except that changing a property's kind resets the other kind's
/// attributes to their defaults.
pub open spec fn apply_descriptor(p: Property, d: PropertyDescriptor) -> Property {
    if d.is_accessor_descriptor() && !p.is_accessor {
        Property {
            configurable: opt_or(d.configurable, p.configurable),
            enumerable: opt_or(d.enumerable, p.enumerable),
            is_accessor: true,
            writable: false,
            value: Value::Undefined,
            get: opt_or(d.get, Value::Undefined),
            set: opt_or(d.set, Value::Undefined),
        }
    } else if d.is_data_descriptor() && p.is_accessor {
        Property {
            configurable: opt_or(d.configurable, p.configurable),
            enumerable: opt_or(d.enumerable, p.enumerable),
            is_accessor: false,
            writable: opt_or(d.writable, false),
            value: opt_or(d.value, Value::Undefined),
            get: Value::Undefined,
            set: Value::Undefined,
        }
    } else {
        Property {
            configurable: opt_or(d.configurable, p.configurable),
            enumerable: opt_or(d.enumerable, p.enumerable),
            is_accessor: p.is_accessor,
            writable: opt_or(d.writable, p.writable),
            value: opt_or(d.value, p.value),
            get: opt_or(d.get, p.get),
            set: opt_or(d.set, p.set),
        }
    }
}

/// The property created for a descriptor where none existed: every
/// attribute the descriptor leaves out takes its default.
pub open spec fn new_property(d: PropertyDescriptor) -> Property {
    apply_descriptor(blank_property(), d)
}

/// Whether applying `d` to the non-configurable property `p` is a
/// disallowed change: a non-configurable property admits nothing but the
/// value and writability restriction of a writable data property.
pub open spec fn disallowed_change(p: Property, d: PropertyDescriptor) -> bool {
    ||| d.configurable == Some(true)
    ||| (d.enumerable matches Some(e) && e != p.enumerable)
    ||| d.is_accessor_descriptor()
    ||| (p.is_accessor && d.is_data_descriptor())
    ||| (!p.is_accessor && !p.writable && (d.writable == Some(true) || d.value is Some))
}

/// The descriptor describing a stored property: the attributes of its own
/// kind, with the other kind's attributes absent.
pub open spec fn descriptor_of(p: Property) -> PropertyDescriptor {
    if p.is_accessor {
        PropertyDescriptor {
            configurable: Some(p.configurable),
            enumerable: Some(p.enumerable),
            writable: None,
            value: None,
            get: Some(p.get),
            set: Some(p.set),
        }
    } else {
        PropertyDescriptor {
            configurable: Some(p.configurable),
            enumerable: Some(p.enumerable),
            writable: Some(p.writable),
            value: Some(p.value),
            get: None,
            set: None,
        }
    }
}

/// The descriptor of an absent property: no attributes at all.
pub open spec fn absent_descriptor() -> PropertyDescriptor {
    PropertyDescriptor {
        configurable: None,
        enumerable: None,
        writable: None,
        value: None,
        get: None,
        set: None,
    }
}

/// The refusal, if any, that defining property `name` by `d` meets on this
/// object. Proxies refuse outright; a new property needs extensibility; a
/// non-configurable property admits only allowed changes.
pub open spec fn define_refusal(r: ObjectRecord, name: Seq<char>, d: PropertyDescriptor) -> Option<
    Error,
> {
    if r.is_proxy {
        Some(Error::DebuggeeWouldRun)
    } else {
        match assoc_find(r.properties@, name) {
            None => if !r.extensible {
                Some(Error::ObjectNotExtensible)
            } else {
                None
            },
            Some(p) => if !p.configurable && disallowed_change(p, d) {
                Some(Error::PropertyNotConfigurable)
            } else {
                None
            },
        }
    }
}

/// The refusal, if any, that deleting property `name` meets on this
/// object. Deleting an absent property is a no-op success.
pub open spec fn delete_refusal(r: ObjectRecord, name: Seq<char>) -> Option<Error> {
    if r.is_proxy {
        Some(Error::DebuggeeWouldRun)
    } else {
        match assoc_find(r.properties@, name) {
            None => None,
            Some(p) => if !p.configurable {
                Some(Error::PropertyNotConfigurable)
            } else {
                None
            },
        }
    }
}

/// The properties after a successful define: an existing property of that
/// name is replaced by the applied descriptor, everything else untouched;
/// an absent one is appended as a new property.
pub open spec fn props_defined(
    pre: Seq<(String, Property)>,
    post: Seq<(String, Property)>,
    name: Seq<char>,
    d: PropertyDescriptor,
) -> bool {
    if assoc_has(pre, name) {
        &&& post.len() == pre.len()
        &&& (forall|j: int| 0 <= j < pre.len() ==> (#[trigger] post[j]).0 == pre[j].0)
        &&& (forall|j: int|
            0 <= j < pre.len() && pre[j].0@ != name ==> (#[trigger] post[j]).1 == pre[j].1)
        &&& (forall|j: int|
            0 <= j < pre.len() && pre[j].0@ == name ==> (#[trigger] post[j]).1 == apply_descriptor(
                pre[j].1,
                d,
            ))
    } else {
        &&& post.len() == pre.len() + 1
        &&& (forall|j: int| 0 <= j < pre.len() ==> (#[trigger] post[j]) == pre[j])
        &&& post[pre.len() as int].0@ == name
        &&& post[pre.len() as int].1 == new_property(d)
    }
}

/// The properties after a successful delete: the one entry of that name is
/// gone, the rest keep their order.
pub open spec fn props_deleted(
    pre: Seq<(String, Property)>,
    post: Seq<(String, Property)>,
    name: Seq<char>,
) -> bool {
    exists|i: int| 0 <= i < pre.len() && (#[trigger] pre[i]).0@ == name && post == pre.remove(i)
}

/// A property after sealing: no longer configurable, everything else kept.
pub open spec fn sealed_property(p: Property) -> Property {
    Property {
        configurable: false,
        enumerable: p.enumerable,
        is_accessor: p.is_accessor,
        writable: p.writable,
        value: p.value,
        get: p.get,
        set: p.set,
    }
}

/// A property after freezing: no longer configurable, and a data property
/// is no longer writable.
pub open spec fn frozen_property(p: Property) -> Property {
    Property {
        configurable: false,
        enumerable: p.enumerable,
        is_accessor: p.is_accessor,
        writable: if p.is_accessor {
            p.writable
        } else {
            false
        },
        value: p.value,
        get: p.get,
        set: p.set,
    }
}

/// Every property sealed, names and order kept.
pub open spec fn props_map_sealed(
    pre: Seq<(String, Property)>,
    post: Seq<(String, Property)>,
) -> bool {
    &&& post.len() == pre.len()
    &&& (forall|j: int|
        0 <= j < pre.len() ==> (#[trigger] post[j]).0 == pre[j].0 && post[j].1 == sealed_property(
            pre[j].1,
        ))
}

/// Every property frozen, names and order kept.
pub open spec fn props_map_frozen(
    pre: Seq<(String, Property)>,
    post: Seq<(String, Property)>,
) -> bool {
    &&& post.len() == pre.len()
    &&& (forall|j: int|
        0 <= j < pre.len() ==> (#[trigger] post[j]).0 == pre[j].0 && post[j].1 == frozen_property(
            pre[j].1,
        ))
}

/// Sealed: not extensible, and no property is configurable.
pub open spec fn obj_sealed(r: ObjectRecord) -> bool {
    &&& !r.extensible
    &&& forall|i: int|
        0 <= i < r.properties@.len() ==> !(#[trigger] r.properties@[i]).1.configurable
}

/// Frozen: sealed, and no data property is writable.
pub open spec fn obj_frozen(r: ObjectRecord) -> bool {
    &&& !r.extensible
    &&& forall|i: int|
        0 <= i < r.properties@.len() ==> !(#[trigger] r.properties@[i]).1.configurable && (
        r.properties@[i].1.is_accessor || !r.properties@[i].1.writable)
}

/// The two debuggee states agree everywhere except possibly in object
/// record `o`.
pub open spec fn unchanged_except_object(pre: Debuggee, post: Debuggee, o: int) -> bool {
    &&& post.environments == pre.environments
    &&& post.frames == pre.frames
    &&& post.scripts == pre.scripts
    &&& post.sources == pre.sources
    &&& post.invocations == pre.invocations
    &&& post.objects@.len() == pre.objects@.len()
    &&& (forall|i: int|
        0 <= i < pre.objects@.len() && i != o ==> post.objects@[i] == pre.objects@[i])
}

/// The two object records agree in everything but extensibility and
/// properties.
pub open spec fn object_same_but_structure(pre: ObjectRecord, post: ObjectRecord) -> bool {
    &&& post.class == pre.class
    &&& post.is_proxy == pre.is_proxy
    &&& post.prototype == pre.prototype
    &&& post.global == pre.global
    &&& post.global_env == pre.global_env
    &&& post.callable == pre.callable
    &&& post.call_completion == pre.call_completion
    &&& post.is_function == pre.is_function
    &&& post.fn_name == pre.fn_name
    &&& post.fn_display_name == pre.fn_display_name
    &&& post.parameter_names == pre.parameter_names
    &&& post.is_arrow == pre.is_arrow
    &&& post.fn_environment == pre.fn_environment
    &&& post.fn_script == pre.fn_script
    &&& post.bound_target == pre.bound_target
    &&& post.bound_this == pre.bound_this
    &&& post.bound_arguments == pre.bound_arguments
}

impl Clone for PropertyDescriptor {
    fn clone(&self) -> (res: Self)
        ensures
            res == *self,
    {
        PropertyDescriptor {
            configurable: self.configurable,
            enumerable: self.enumerable,
            writable: self.writable,
            value: clone_opt_value(&self.value),
            get: clone_opt_value(&self.get),
            set: clone_opt_value(&self.set),
        }
    }
}

impl PropertyDescriptor {
    /// Whether the descriptor carries a data attribute.
    pub fn has_data_attrs(&self) -> (r: bool)
        ensures
            r == self.is_data_descriptor(),
    {
        self.writable.is_some() || self.value.is_some()
    }

    /// Whether the descriptor carries an accessor attribute.
    pub fn has_accessor_attrs(&self) -> (r: bool)
        ensures
            r == self.is_accessor_descriptor(),
    {
        self.get.is_some() || self.set.is_some()
    }
}

fn disallowed_change_exec(p: &Property, d: &PropertyDescriptor) -> (r: bool)
    ensures
        r == disallowed_change(*p, *d),
{
    if matches!(d.configurable, Some(true)) {
        return true;
    }
    if let Some(e) = d.enumerable {
        if e != p.enumerable {
            return true;
        }
    }
    if d.has_accessor_attrs() {
        return true;
    }
    if p.is_accessor && d.has_data_attrs() {
        return true;
    }
    if !p.is_accessor && !p.writable && (matches!(d.writable, Some(true)) || d.value.is_some()) {
        return true;
    }
    false
}

fn apply_descriptor_exec(p: Property, d: &PropertyDescriptor) -> (r: Property)
    ensures
        r == apply_descriptor(p, *d),
{
    if d.has_accessor_attrs() && !p.is_accessor {
        Property {
            configurable: opt_or_bool(&d.configurable, p.configurable),
            enumerable: opt_or_bool(&d.enumerable, p.enumerable),
            is_accessor: true,
            writable: false,
            value: Value::Undefined,
            get: opt_or_value(&d.get, Value::Undefined),
            set: opt_or_value(&d.set, Value::Undefined),
        }
    } else if d.has_data_attrs() && p.is_accessor {
        Property {
            configurable: opt_or_bool(&d.configurable, p.configurable),
            enumerable: opt_or_bool(&d.enumerable, p.enumerable),
            is_accessor: false,
            writable: opt_or_bool(&d.writable, false),
            value: opt_or_value(&d.value, Value::Undefined),
            get: Value::Undefined,
            set: Value::Undefined,
        }
    } else {
        Property {
            configurable: opt_or_bool(&d.configurable, p.configurable),
            enumerable: opt_or_bool(&d.enumerable, p.enumerable),
            is_accessor: p.is_accessor,
            writable: opt_or_bool(&d.writable, p.writable),
            value: opt_or_value(&d.value, p.value),
            get: opt_or_value(&d.get, p.get),
            set: opt_or_value(&d.set, p.set),
        }
    }
}

impl Object {
    /// Whether the handle names an object of the given debuggee state.
    pub open spec fn in_bounds(&self, dbg: &Debuggee) -> bool {
        (self.index as int) < dbg.objects@.len()
    }

    /// The record the handle names.
    pub open spec fn record(&self, dbg: &Debuggee) -> ObjectRecord {
        dbg.objects@[self.index as int]
    }

    /// Returns the value of the internal property [[Class]] of the wrapped
    /// object.
    pub fn class(&self, dbg: &Debuggee) -> (r: String)
        requires
            dbg.wf(),
            self.in_bounds(dbg),
        ensures
            r == self.record(dbg).class,
    {
        dbg.objects[self.index].class.clone()
    }

    /// Returns a wrapper to the global of the wrapped object.
    pub fn global(&self, dbg: &Debuggee) -> (r: Object)
        requires
            dbg.wf(),
            self.in_bounds(dbg),
        ensures
            r == self.record(dbg).global,
    {
        dbg.objects[self.index].global
    }

    /// Returns a wrapper to the prototype of the wrapped object. If the
    /// wrapped object does not have a prototype, returns `None` instead.
    pub fn get_prototype_of(&self, dbg: &Debuggee) -> (r: Option<Object>)
        requires
            dbg.wf(),
            self.in_bounds(dbg),
        ensures
            r == self.record(dbg).prototype,
    {
        dbg.objects[self.index].prototype
    }

    /// Returns `true` if the wrapped object is callable. Returns `false`
    /// otherwise.
    pub fn is_callable(&self, dbg: &Debuggee) -> (r: bool)
        requires
            dbg.wf(),
            self.in_bounds(dbg),
        ensures
            r == self.record(dbg).callable,
    {
        dbg.objects[self.index].callable
    }

    /// Calls the wrapped object with the given `this` value and
    /// `arguments`. Returns a completion value describing how the call
    /// completed: the one the engine is configured to produce for invoking
    /// this object.
    ///
    /// # Errors
    /// If the wrapped object could not be called because it is not
    /// callable, returns `ObjectNotCallable`.
    pub fn call(&self, dbg: &Debuggee, this: &Value, arguments: &[Value]) -> (res: Fallible<
        CompletionValue,
    >)
        requires
            dbg.wf(),
            self.in_bounds(dbg),
        ensures
            !self.record(dbg).callable ==> res == Err::<CompletionValue, Error>(
                Error::ObjectNotCallable,
            ),
            self.record(dbg).callable ==> res == Ok::<CompletionValue, Error>(
                self.record(dbg).call_completion,
            ),
    {
        let r = &dbg.objects[self.index];
        if !r.callable {
            return Err(Error::ObjectNotCallable);
        }
        Ok(r.call_completion.clone())
    }

    /// Calls the wrapped object as a constructor with the given
    /// `arguments`. Returns a completion value describing how the call
    /// completed: the one the engine is configured to produce for invoking
    /// this object.
    ///
    /// # Errors
    /// If the wrapped object could not be called because it is not
    /// callable, returns `ObjectNotCallable`.
    pub fn construct(&self, dbg: &Debuggee, arguments: &[Value]) -> (res: Fallible<
        CompletionValue,
    >)
        requires
            dbg.wf(),
            self.in_bounds(dbg),
        ensures
            !self.record(dbg).callable ==> res == Err::<CompletionValue, Error>(
                Error::ObjectNotCallable,
            ),
            self.record(dbg).callable ==> res == Ok::<CompletionValue, Error>(
                self.record(dbg).call_completion,
            ),
    {
        let r = &dbg.objects[self.index];
        if !r.callable {
            return Err(Error::ObjectNotCallable);
        }
        Ok(r.call_completion.clone())
    }

    /// If the wrapped object is a named function, returns the name of the
    /// function. Otherwise, returns `None`.
    pub fn name(&self, dbg: &Debuggee) -> (r: Option<String>)
        requires
            dbg.wf(),
            self.in_bounds(dbg),
        ensures
            r == self.record(dbg).fn_name,
    {
        clone_opt_string(&dbg.objects[self.index].fn_name)
    }

    /// If the wrapped object is a function with a display name, returns
    /// the display name of the function. Otherwise, returns `None`.
    pub fn display_name(&self, dbg: &Debuggee) -> (r: Option<String>)
        requires
            dbg.wf(),
            self.in_bounds(dbg),
        ensures
            r == self.record(dbg).fn_display_name,
    {
        clone_opt_string(&dbg.objects[self.index].fn_display_name)
    }

    /// If the wrapped object is a function in the debuggee, returns the
    /// names of the parameters of the function. Otherwise, returns `None`.
    pub fn parameter_names(&self, dbg: &Debuggee) -> (r: Option<Vec<String>>)
        requires
            dbg.wf(),
            self.in_bounds(dbg),
        ensures
            self.record(dbg).is_function ==> (r matches Some(ns) && ns@ == self.record(
                dbg,
            ).parameter_names@),
            !self.record(dbg).is_function ==> r is None,
    {
        let rec = &dbg.objects[self.index];
        if rec.is_function {
            Some(clone_strings(&rec.parameter_names))
        } else {
            None
        }
    }

    /// Returns `true` if the wrapped object is an arrow function. Returns
    /// `false` otherwise.
    pub fn is_arrow_function(&self, dbg: &Debuggee) -> (r: bool)
        requires
            dbg.wf(),
            self.in_bounds(dbg),
        ensures
            r == self.record(dbg).is_arrow,
    {
        dbg.objects[self.index].is_arrow
    }

    /// Returns `true` if the wrapped object is a bound function. Returns
    /// `false` otherwise.
    pub fn is_bound_function(&self, dbg: &Debuggee) -> (r: bool)
        requires
            dbg.wf(),
            self.in_bounds(dbg),
        ensures
            r == (self.record(dbg).bound_target is Some),
    {
        dbg.objects[self.index].bound_target.is_some()
    }

    /// If the wrapped object is a bound function, returns the target
    /// function; that is, the function that was bound to a particular this
    /// value and arguments. Otherwise, returns `None`.
    pub fn bound_target_function(&self, dbg: &Debuggee) -> (r: Option<Object>)
        requires
            dbg.wf(),
            self.in_bounds(dbg),
        ensures
            r == self.record(dbg).bound_target,
    {
        dbg.objects[self.index].bound_target
    }

    /// If the wrapped object is a bound function, returns the this value
    /// to which it was bound. Otherwise, returns `Undefined`.
    pub fn bound_this(&self, dbg: &Debuggee) -> (r: Value)
        requires
            dbg.wf(),
            self.in_bounds(dbg),
        ensures
            self.record(dbg).bound_target is Some ==> r == self.record(dbg).bound_this,
            self.record(dbg).bound_target is None ==> r == Value::Undefined,
    {
        let rec = &dbg.objects[self.index];
        if rec.bound_target.is_some() {
            rec.bound_this.clone()
        } else {
            Value::Undefined
        }
    }

    /// If the wrapped object is a bound function, returns the arguments to
    /// which it was bound. Otherwise, returns `None`.
    pub fn bound_arguments(&self, dbg: &Debuggee) -> (r: Option<Vec<Value>>)
        requires
            dbg.wf(),
            self.in_bounds(dbg),
        ensures
            self.record(dbg).bound_target is Some ==> (r matches Some(a) && a@ == self.record(
                dbg,
            ).bound_arguments@),
            self.record(dbg).bound_target is None ==> r is None,
    {
        let rec = &dbg.objects[self.index];
        if rec.bound_target.is_some() {
            Some(clone_values(&rec.bound_arguments))
        } else {
            None
        }
    }

    /// If the wrapped object is a function in the debuggee, returns a
    /// wrapper to the environment in which the function was created.
    /// Otherwise, returns `None`.
    pub fn environment(&self, dbg: &Debuggee) -> (r: Option<Environment>)
        requires
            dbg.wf(),
            self.in_bounds(dbg),
        ensures
            self.record(dbg).is_function ==> r == self.record(dbg).fn_environment,
            !self.record(dbg).is_function ==> r is None,
    {
        let rec = &dbg.objects[self.index];
        if rec.is_function {
            rec.fn_environment
        } else {
            None
        }
    }

    /// If the wrapped object is a function in the debuggee, returns a
    /// wrapper to the script of the function. Otherwise, returns `None`.
    pub fn script(&self, dbg: &Debuggee) -> (r: Option<Script>)
        requires
            dbg.wf(),
            self.in_bounds(dbg),
        ensures
            self.record(dbg).is_function ==> r == self.record(dbg).fn_script,
            !self.record(dbg).is_function ==> r is None,
    {
        let rec = &dbg.objects[self.index];
        if rec.is_function {
            rec.fn_script
        } else {
            None
        }
    }

    /// Returns a wrapper to the global environment of the wrapped object.
    ///
    /// # Errors
    /// If the wrapped object does not have a global environment because it
    /// is not a global, returns `ObjectNotGlobal`.
    pub fn as_environment(&self, dbg: &Debuggee) -> (res: Fallible<Environment>)
        requires
            dbg.wf(),
            self.in_bounds(dbg),
        ensures
            match self.record(dbg).global_env {
                None => res == Err::<Environment, Error>(Error::ObjectNotGlobal),
                Some(e) => res == Ok::<Environment, Error>(e),
            },
    {
        match dbg.objects[self.index].global_env {
            None => Err(Error::ObjectNotGlobal),
            Some(e) => Ok(e),
        }
    }

    /// Executes the given `code` in the global environment of the wrapped
    /// object. Returns a completion value describing how the execution
    /// completed.
    ///
    /// # Errors
    /// If the wrapped object does not have a global environment because it
    /// is not a global, returns `ObjectNotGlobal`.
    pub fn execute_in_global(&self, dbg: &Debuggee, code: &str) -> (res: Fallible<CompletionValue>)
        requires
            dbg.wf(),
            self.in_bounds(dbg),
        ensures
            match self.record(dbg).global_env {
                None => res == Err::<CompletionValue, Error>(Error::ObjectNotGlobal),
                Some(e) => res == Ok::<CompletionValue, Error>(
                    CompletionValue::Return(chain_value(*dbg, e.index as int, code@)),
                ),
            },
    {
        match dbg.objects[self.index].global_env {
            None => Err(Error::ObjectNotGlobal),
            Some(e) => {
                proof {
                    assert(object_record_ok(
                        dbg.objects@[self.index as int],
                        dbg.environments@.len() as int,
                        dbg.objects@.len() as int,
                        dbg.scripts@.len() as int,
                    ));
                }
                Ok(CompletionValue::Return(resolve_in_chain(dbg, &e, code)))
            },
        }
    }

    /// Executes the given `code` in the global environment of the wrapped
    /// object, extending the environment with the given `bindings`, where
    /// `bindings` is a map from variable names to values, shadowing on
    /// conflict. Returns a completion value describing how the execution
    /// completed.
    ///
    /// # Errors
    /// If the wrapped object does not have a global environment because it
    /// is not a global, returns `ObjectNotGlobal`.
    pub fn execute_in_global_with_bindings(
        &self,
        dbg: &Debuggee,
        code: &str,
        bindings: &Vec<(String, Value)>,
    ) -> (res: Fallible<CompletionValue>)
        requires
            dbg.wf(),
            self.in_bounds(dbg),
        ensures
            match self.record(dbg).global_env {
                None => res == Err::<CompletionValue, Error>(Error::ObjectNotGlobal),
                Some(e) => res == Ok::<CompletionValue, Error>(
                    eval_result(*dbg, e.index as int, bindings@, code@),
                ),
            },
    {
        match dbg.objects[self.index].global_env {
            None => Err(Error::ObjectNotGlobal),
            Some(e) => {
                proof {
                    assert(object_record_ok(
                        dbg.objects@[self.index as int],
                        dbg.environments@.len() as int,
                        dbg.objects@.len() as int,
                        dbg.scripts@.len() as int,
                    ));
                }
                Ok(eval_in_chain(dbg, &e, code, bindings))
            },
        }
    }

    /// Returns `true` if the wrapped object is extensible; that is, if
    /// properties can be added to it. Returns `false` otherwise.
    ///
    /// # Errors
    /// If this method would cause the debuggee to run because the wrapped
    /// object is a proxy, returns `DebuggeeWouldRun`.
    pub fn is_extensible(&self, dbg: &Debuggee) -> (res: Fallible<bool>)
        requires
            dbg.wf(),
            self.in_bounds(dbg),
        ensures
            self.record(dbg).is_proxy ==> res == Err::<bool, Error>(Error::DebuggeeWouldRun),
            !self.record(dbg).is_proxy ==> res == Ok::<bool, Error>(self.record(dbg).extensible),
    {
        let r = &dbg.objects[self.index];
        if r.is_proxy {
            return Err(Error::DebuggeeWouldRun);
        }
        Ok(r.extensible)
    }

    /// Returns `true` if the wrapped object is sealed; that is, if it is
    /// not extensible, and all its properties are non-configurable.
    /// Returns `false` otherwise.
    ///
    /// # Errors
    /// If this method would cause the debuggee to run because the wrapped
    /// object is a proxy, returns `DebuggeeWouldRun`.
    pub fn is_sealed(&self, dbg: &Debuggee) -> (res: Fallible<bool>)
        requires
            dbg.wf(),
            self.in_bounds(dbg),
        ensures
            self.record(dbg).is_proxy ==> res == Err::<bool, Error>(Error::DebuggeeWouldRun),
            !self.record(dbg).is_proxy ==> res == Ok::<bool, Error>(obj_sealed(self.record(dbg))),
    {
        let r = &dbg.objects[self.index];
        if r.is_proxy {
            return Err(Error::DebuggeeWouldRun);
        }
        if r.extensible {
            return Ok(false);
        }
        let n = r.properties.len();
        let mut i: usize = 0;
        while i < n
            invariant
                dbg.wf(),
                self.in_bounds(dbg),
                !self.record(dbg).is_proxy,
                !self.record(dbg).extensible,
                i <= n,
                n == self.record(dbg).properties@.len(),
                forall|j: int|
                    0 <= j < i ==> !(#[trigger] self.record(dbg).properties@[j]).1.configurable,
            decreases n - i,
        {
            if dbg.objects[self.index].properties[i].1.configurable {
                return Ok(false);
            }
            i = i + 1;
        }
        Ok(true)
    }

    /// Returns `true` if the wrapped object is frozen; that is, if it is
    /// not extensible, and all its properties are non-configurable and
    /// non-writable. Returns `false` otherwise.
    ///
    /// # Errors
    /// If this method would cause the debuggee to run because the wrapped
    /// object is a proxy, returns `DebuggeeWouldRun`.
    pub fn is_frozen(&self, dbg: &Debuggee) -> (res: Fallible<bool>)
        requires
            dbg.wf(),
            self.in_bounds(dbg),
        ensures
            self.record(dbg).is_proxy ==> res == Err::<bool, Error>(Error::DebuggeeWouldRun),
            !self.record(dbg).is_proxy ==> res == Ok::<bool, Error>(obj_frozen(self.record(dbg))),
    {
        let r = &dbg.objects[self.index];
        if r.is_proxy {
            return Err(Error::DebuggeeWouldRun);
        }
        if r.extensible {
            return Ok(false);
        }
        let n = r.properties.len();
        let mut i: usize = 0;
        while i < n
            invariant
                dbg.wf(),
                self.in_bounds(dbg),
                !self.record(dbg).is_proxy,
                !self.record(dbg).extensible,
                i <= n,
                n == self.record(dbg).properties@.len(),
                forall|j: int|
                    0 <= j < i ==> !(#[trigger] self.record(dbg).properties@[j]).1.configurable && (
                    self.record(dbg).properties@[j].1.is_accessor || !self.record(
                        dbg,
                    ).properties@[j].1.writable),
            decreases n - i,
        {
            let p = &dbg.objects[self.index].properties[i].1;
            if p.configurable || (!p.is_accessor && p.writable) {
                return Ok(false);
            }
            i = i + 1;
        }
        Ok(true)
    }

    /// Returns the names of the own properties of the wrapped object.
    ///
    /// # Errors
    /// If this method would cause the debuggee to run because the wrapped
    /// object is a proxy, returns `DebuggeeWouldRun`.
    pub fn get_own_property_names(&self, dbg: &Debuggee) -> (res: Fallible<Vec<String>>)
        requires
            dbg.wf(),
            self.in_bounds(dbg),
        ensures
            self.record(dbg).is_proxy ==> res == Err::<Vec<String>, Error>(Error::DebuggeeWouldRun),
            !self.record(dbg).is_proxy ==> {
                &&& res matches Ok(ns)
                &&& ns@.len() == self.record(dbg).properties@.len()
                &&& forall|i: int|
                    0 <= i < ns@.len() ==> (#[trigger] ns@[i])@ == self.record(
                        dbg,
                    ).properties@[i].0@
            },
    {
        let r = &dbg.objects[self.index];
        if r.is_proxy {
            return Err(Error::DebuggeeWouldRun);
        }
        let n = r.properties.len();
        let mut names: Vec<String> = Vec::new();
        let mut i: usize = 0;
        while i < n
            invariant
                i <= n,
                n == r.properties@.len(),
                names@.len() == i,
                forall|j: int| 0 <= j < i ==> (#[trigger] names@[j])@ == r.properties@[j].0@,
            decreases n - i,
        {
            names.push(r.properties[i].0.clone());
            i = i + 1;
        }
        Ok(names)
    }

    /// Returns a property descriptor for the own property with the given
    /// `name` on the wrapped object. If there is no such property, returns
    /// a descriptor with no attributes.
    ///
    /// # Errors
    /// If this method would cause the debuggee to run because the wrapped
    /// object is a proxy, returns `DebuggeeWouldRun`.
    pub fn get_own_property_descriptor(&self, dbg: &Debuggee, name: &str) -> (res: Fallible<
        PropertyDescriptor,
    >)
        requires
            dbg.wf(),
            self.in_bounds(dbg),
        ensures
            self.record(dbg).is_proxy ==> res == Err::<PropertyDescriptor, Error>(
                Error::DebuggeeWouldRun,
            ),
            !self.record(dbg).is_proxy ==> res == Ok::<PropertyDescriptor, Error>(
                match assoc_find(self.record(dbg).properties@, name@) {
                    Some(p) => descriptor_of(p),
                    None => absent_descriptor(),
                },
            ),
    {
        let r = &dbg.objects[self.index];
        if r.is_proxy {
            return Err(Error::DebuggeeWouldRun);
        }
        let key = String::from_str(name);
        match find_str_key(&r.properties, &key) {
            Some(i) => {
                proof {
                    lemma_assoc_find_at(r.properties@, name@, i as int);
                }
                let p = &r.properties[i].1;
                if p.is_accessor {
                    Ok(PropertyDescriptor {
                        configurable: Some(p.configurable),
                        enumerable: Some(p.enumerable),
                        writable: None,
                        value: None,
                        get: Some(p.get.clone()),
                        set: Some(p.set.clone()),
                    })
                } else {
                    Ok(PropertyDescriptor {
                        configurable: Some(p.configurable),
                        enumerable: Some(p.enumerable),
                        writable: Some(p.writable),
                        value: Some(p.value.clone()),
                        get: None,
                        set: None,
                    })
                }
            },
            None => {
                proof {
                    lemma_assoc_find_none(r.properties@, name@);
                }
                Ok(PropertyDescriptor {
                    configurable: None,
                    enumerable: None,
                    writable: None,
                    value: None,
                    get: None,
                    set: None,
                })
            },
        }
    }

    /// Prevents extensions on the wrapped object; that is, prevents
    /// properties from being added to it. Idempotent.
    ///
    /// # Errors
    /// If this method would cause the debuggee to run because the wrapped
    /// object is a proxy, returns `DebuggeeWouldRun`.
    pub fn prevent_extensions(&self, dbg: &mut Debuggee) -> (res: Fallible<()>)
        requires
            old(dbg).wf(),
            self.in_bounds(old(dbg)),
        ensures
            final(dbg).wf(),
            self.record(old(dbg)).is_proxy ==> res == Err::<(), Error>(Error::DebuggeeWouldRun)
                && *final(dbg) == *old(dbg),
            !self.record(old(dbg)).is_proxy ==> {
                &&& res == Ok::<(), Error>(())
                &&& unchanged_except_object(*old(dbg), *final(dbg), self.index as int)
                &&& object_same_but_structure(self.record(old(dbg)), self.record(final(dbg)))
                &&& !self.record(final(dbg)).extensible
                &&& self.record(final(dbg)).properties@ == self.record(old(dbg)).properties@
            },
    {
        let idx = self.index;
        if dbg.objects[idx].is_proxy {
            return Err(Error::DebuggeeWouldRun);
        }
        let mut rec = dbg.objects.remove(idx);
        rec.extensible = false;
        dbg.objects.insert(idx, rec);
        proof {
            self.lemma_structure_update(*old(dbg), *dbg);
        }
        Ok(())
    }

    /// Seals the wrapped object; that is, prevents extensions on it, and
    /// makes all its properties non-configurable. Idempotent.
    ///
    /// # Errors
    /// If this method would cause the debuggee to run because the wrapped
    /// object is a proxy, returns `DebuggeeWouldRun`.
    pub fn seal(&self, dbg: &mut Debuggee) -> (res: Fallible<()>)
        requires
            old(dbg).wf(),
            self.in_bounds(old(dbg)),
        ensures
            final(dbg).wf(),
            self.record(old(dbg)).is_proxy ==> res == Err::<(), Error>(Error::DebuggeeWouldRun)
                && *final(dbg) == *old(dbg),
            !self.record(old(dbg)).is_proxy ==> {
                &&& res == Ok::<(), Error>(())
                &&& unchanged_except_object(*old(dbg), *final(dbg), self.index as int)
                &&& object_same_but_structure(self.record(old(dbg)), self.record(final(dbg)))
                &&& !self.record(final(dbg)).extensible
                &&& props_map_sealed(
                    self.record(old(dbg)).properties@,
                    self.record(final(dbg)).properties@,
                )
            },
    {
        let idx = self.index;
        if dbg.objects[idx].is_proxy {
            return Err(Error::DebuggeeWouldRun);
        }
        let mut rec = dbg.objects.remove(idx);
        rec.extensible = false;
        let ghost pre_props = rec.properties@;
        let n = rec.properties.len();
        let mut i: usize = 0;
        while i < n
            invariant
                i <= n,
                n == pre_props.len(),
                rec.properties@.len() == n,
                pre_props == self.record(old(dbg)).properties@,
                object_same_but_structure(self.record(old(dbg)), rec),
                !rec.extensible,
                forall|j: int|
                    0 <= j < i ==> (#[trigger] rec.properties@[j]).0 == pre_props[j].0
                        && rec.properties@[j].1 == sealed_property(pre_props[j].1),
                forall|j: int| i <= j < n ==> (#[trigger] rec.properties@[j]) == pre_props[j],
            decreases n - i,
        {
            let ghost snap = rec.properties@;
            let pair = rec.properties.remove(i);
            let np = Property {
                configurable: false,
                enumerable: pair.1.enumerable,
                is_accessor: pair.1.is_accessor,
                writable: pair.1.writable,
                value: pair.1.value,
                get: pair.1.get,
                set: pair.1.set,
            };
            rec.properties.insert(i, (pair.0, np));
            proof {
                assert(rec.properties@ =~= snap.update(i as int, rec.properties@[i as int]));
            }
            i = i + 1;
        }
        dbg.objects.insert(idx, rec);
        proof {
            self.lemma_structure_update(*old(dbg), *dbg);
        }
        Ok(())
    }

    /// Freezes the wrapped object; that is, prevents extensions on it, and
    /// makes all its properties non-configurable and non-writable.
    /// Idempotent.
    ///
    /// # Errors
    /// If this method would cause the debuggee to run because the wrapped
    /// object is a proxy, returns `DebuggeeWouldRun`.
    pub fn freeze(&self, dbg: &mut Debuggee) -> (res: Fallible<()>)
        requires
            old(dbg).wf(),
            self.in_bounds(old(dbg)),
        ensures
            final(dbg).wf(),
            self.record(old(dbg)).is_proxy ==> res == Err::<(), Error>(Error::DebuggeeWouldRun)
                && *final(dbg) == *old(dbg),
            !self.record(old(dbg)).is_proxy ==> {
                &&& res == Ok::<(), Error>(())
                &&& unchanged_except_object(*old(dbg), *final(dbg), self.index as int)
                &&& object_same_but_structure(self.record(old(dbg)), self.record(final(dbg)))
                &&& !self.record(final(dbg)).extensible
                &&& props_map_frozen(
                    self.record(old(dbg)).properties@,
                    self.record(final(dbg)).properties@,
                )
            },
    {
        let idx = self.index;
        if dbg.objects[idx].is_proxy {
            return Err(Error::DebuggeeWouldRun);
        }
        let mut rec = dbg.objects.remove(idx);
        rec.extensible = false;
        let ghost pre_props = rec.properties@;
        let n = rec.properties.len();
        let mut i: usize = 0;
        while i < n
            invariant
                i <= n,
                n == pre_props.len(),
                rec.properties@.len() == n,
                pre_props == self.record(old(dbg)).properties@,
                object_same_but_structure(self.record(old(dbg)), rec),
                !rec.extensible,
                forall|j: int|
                    0 <= j < i ==> (#[trigger] rec.properties@[j]).0 == pre_props[j].0
                        && rec.properties@[j].1 == frozen_property(pre_props[j].1),
                forall|j: int| i <= j < n ==> (#[trigger] rec.properties@[j]) == pre_props[j],
            decreases n - i,
        {
            let ghost snap = rec.properties@;
            let pair = rec.properties.remove(i);
            let w = if pair.1.is_accessor {
                pair.1.writable
            } else {
                false
            };
            let np = Property {
                configurable: false,
                enumerable: pair.1.enumerable,
                is_accessor: pair.1.is_accessor,
                writable: w,
                value: pair.1.value,
                get: pair.1.get,
                set: pair.1.set,
            };
            rec.properties.insert(i, (pair.0, np));
            proof {
                assert(rec.properties@ =~= snap.update(i as int, rec.properties@[i as int]));
            }
            i = i + 1;
        }
        dbg.objects.insert(idx, rec);
        proof {
            self.lemma_structure_update(*old(dbg), *dbg);
        }
        Ok(())
    }

    /// Defines a property with the given `name` on the wrapped object, as
    /// described by the given `descriptor`. If there already is such a
    /// property, modifies the existing property. Otherwise, adds a new
    /// property. A descriptor mixing data and accessor attributes is a
    /// caller contract violation and is ruled out up front.
    ///
    /// # Errors
    /// If this method would cause the debuggee to run because the wrapped
    /// object is a proxy, returns `DebuggeeWouldRun`.
    ///
    /// If a new property could not be added because the wrapped object is
    /// not extensible, returns `ObjectNotExtensible`.
    ///
    /// If an existing property could not be modified because the property
    /// is not configurable, returns `PropertyNotConfigurable`.
    pub fn define_property(
        &self,
        dbg: &mut Debuggee,
        name: &str,
        descriptor: &PropertyDescriptor,
    ) -> (res: Fallible<()>)
        requires
            old(dbg).wf(),
            self.in_bounds(old(dbg)),
            !(descriptor.is_data_descriptor() && descriptor.is_accessor_descriptor()),
        ensures
            final(dbg).wf(),
            match define_refusal(self.record(old(dbg)), name@, *descriptor) {
                Some(e) => res == Err::<(), Error>(e) && *final(dbg) == *old(dbg),
                None => {
                    &&& res == Ok::<(), Error>(())
                    &&& unchanged_except_object(*old(dbg), *final(dbg), self.index as int)
                    &&& object_same_but_structure(self.record(old(dbg)), self.record(final(dbg)))
                    &&& self.record(final(dbg)).extensible == self.record(old(dbg)).extensible
                    &&& props_defined(
                        self.record(old(dbg)).properties@,
                        self.record(final(dbg)).properties@,
                        name@,
                        *descriptor,
                    )
                },
            },
    {
        let idx = self.index;
        if dbg.objects[idx].is_proxy {
            return Err(Error::DebuggeeWouldRun);
        }
        let key = String::from_str(name);
        let found = find_str_key(&dbg.objects[idx].properties, &key);
        match found {
            None => {
                proof {
                    let pre_p = self.record(old(dbg)).properties@;
                    lemma_assoc_find_none(pre_p, name@);
                    assert(!assoc_has(pre_p, name@)) by {
                        if assoc_has(pre_p, name@) {
                            let w = choose|w: int| 0 <= w < pre_p.len() && pre_p[w].0@ == name@;
                            assert(pre_p[w].0@ != name@);
                        }
                    }
                }
                if !dbg.objects[idx].extensible {
                    return Err(Error::ObjectNotExtensible);
                }
                let blank = Property {
                    configurable: false,
                    enumerable: false,
                    is_accessor: false,
                    writable: false,
                    value: Value::Undefined,
                    get: Value::Undefined,
                    set: Value::Undefined,
                };
                let np = apply_descriptor_exec(blank, descriptor);
                let mut rec = dbg.objects.remove(idx);
                rec.properties.push((key, np));
                dbg.objects.insert(idx, rec);
                proof {
                    let pre = *old(dbg);
                    let post = *dbg;
                    let pre_p = self.record(&pre).properties@;
                    let post_p = self.record(&post).properties@;
                    assert(post.objects@ =~= pre.objects@.update(
                        idx as int,
                        post.objects@[idx as int],
                    ));
                    assert(post_p =~= pre_p.push(post_p[pre_p.len() as int]));
                    assert forall|k: int|
                        0 <= k < post.objects@.len() implies #[trigger] object_record_ok(
                        post.objects@[k],
                        post.environments@.len() as int,
                        post.objects@.len() as int,
                        post.scripts@.len() as int,
                    ) by {
                        assert(object_record_ok(
                            pre.objects@[k],
                            pre.environments@.len() as int,
                            pre.objects@.len() as int,
                            pre.scripts@.len() as int,
                        ));
                        if k == idx as int {
                            assert forall|x: int, y: int|
                                0 <= x < y < post_p.len() implies (#[trigger] post_p[x]).0@ != (
                            #[trigger] post_p[y]).0@ by {
                                if y < pre_p.len() {
                                    assert(pre_p[x].0@ != pre_p[y].0@);
                                } else {
                                    assert(pre_p[x].0@ != name@);
                                }
                            }
                        }
                    }
                }
                Ok(())
            },
            Some(i) => {
                proof {
                    lemma_assoc_find_at(self.record(old(dbg)).properties@, name@, i as int);
                }
                let refuse = {
                    let p = &dbg.objects[idx].properties[i].1;
                    !p.configurable && disallowed_change_exec(p, descriptor)
                };
                if refuse {
                    return Err(Error::PropertyNotConfigurable);
                }
                let mut rec = dbg.objects.remove(idx);
                let pair = rec.properties.remove(i);
                let np = apply_descriptor_exec(pair.1, descriptor);
                rec.properties.insert(i, (pair.0, np));
                dbg.objects.insert(idx, rec);
                proof {
                    let pre = *old(dbg);
                    let post = *dbg;
                    let pre_p = self.record(&pre).properties@;
                    let post_p = self.record(&post).properties@;
                    assert(post.objects@ =~= pre.objects@.update(
                        idx as int,
                        post.objects@[idx as int],
                    ));
                    assert(post_p =~= pre_p.update(
                        i as int,
                        (pre_p[i as int].0, apply_descriptor(pre_p[i as int].1, *descriptor)),
                    ));
                    assert(object_record_ok(
                        pre.objects@[idx as int],
                        pre.environments@.len() as int,
                        pre.objects@.len() as int,
                        pre.scripts@.len() as int,
                    ));
                    assert(assoc_has(pre_p, name@));
                    assert forall|j: int|
                        0 <= j < pre_p.len() && pre_p[j].0@ == name@ implies (
                    #[trigger] post_p[j]).1 == apply_descriptor(pre_p[j].1, *descriptor) by {
                        if j != i {
                            if j < i {
                                assert(pre_p[j].0@ != name@);
                            } else {
                                assert(pre_p[i as int].0@ != pre_p[j].0@);
                            }
                        }
                    }
                    self.lemma_structure_update(pre, post);
                }
                Ok(())
            },
        }
    }

    /// Deletes the property with the given `name` from the wrapped object.
    /// Deleting an absent property is a no-op success.
    ///
    /// # Errors
    /// If this method would cause the debuggee to run because the wrapped
    /// object is a proxy, returns `DebuggeeWouldRun`.
    ///
    /// If the property could not be deleted because it is
    /// non-configurable, returns `PropertyNotConfigurable`.
    pub fn delete_property(&self, dbg: &mut Debuggee, name: &str) -> (res: Fallible<()>)
        requires
            old(dbg).wf(),
            self.in_bounds(old(dbg)),
        ensures
            final(dbg).wf(),
            match delete_refusal(self.record(old(dbg)), name@) {
                Some(e) => res == Err::<(), Error>(e) && *final(dbg) == *old(dbg),
                None => {
                    if assoc_has(self.record(old(dbg)).properties@, name@) {
                        &&& res == Ok::<(), Error>(())
                        &&& unchanged_except_object(*old(dbg), *final(dbg), self.index as int)
                        &&& object_same_but_structure(
                            self.record(old(dbg)),
                            self.record(final(dbg)),
                        )
                        &&& self.record(final(dbg)).extensible == self.record(old(dbg)).extensible
                        &&& props_deleted(
                            self.record(old(dbg)).properties@,
                            self.record(final(dbg)).properties@,
                            name@,
                        )
                    } else {
                        res == Ok::<(), Error>(()) && *final(dbg) == *old(dbg)
                    }
                },
            },
    {
        let idx = self.index;
        if dbg.objects[idx].is_proxy {
            return Err(Error::DebuggeeWouldRun);
        }
        let key = String::from_str(name);
        let found = find_str_key(&dbg.objects[idx].properties, &key);
        match found {
            None => {
                proof {
                    let pre_p = self.record(dbg).properties@;
                    lemma_assoc_find_none(pre_p, name@);
                    assert(!assoc_has(pre_p, name@)) by {
                        if assoc_has(pre_p, name@) {
                            let w = choose|w: int| 0 <= w < pre_p.len() && pre_p[w].0@ == name@;
                            assert(pre_p[w].0@ != name@);
                        }
                    }
                }
                Ok(())
            },
            Some(i) => {
                proof {
                    lemma_assoc_find_at(self.record(dbg).properties@, name@, i as int);
                    assert(assoc_has(self.record(dbg).properties@, name@));
                }
                if !dbg.objects[idx].properties[i].1.configurable {
                    return Err(Error::PropertyNotConfigurable);
                }
                let mut rec = dbg.objects.remove(idx);
                rec.properties.remove(i);
                dbg.objects.insert(idx, rec);
                proof {
                    let pre = *old(dbg);
                    let post = *dbg;
                    let pre_p = self.record(&pre).properties@;
                    let post_p = self.record(&post).properties@;
                    assert(post.objects@ =~= pre.objects@.update(
                        idx as int,
                        post.objects@[idx as int],
                    ));
                    assert(post_p == pre_p.remove(i as int));
                    assert(object_record_ok(
                        pre.objects@[idx as int],
                        pre.environments@.len() as int,
                        pre.objects@.len() as int,
                        pre.scripts@.len() as int,
                    ));
                    assert(pre_p[i as int].0@ == name@ && post_p == pre_p.remove(i as int));
                    assert(props_deleted(pre_p, post_p, name@));
                    assert forall|k: int|
                        0 <= k < post.objects@.len() implies #[trigger] object_record_ok(
                        post.objects@[k],
                        post.environments@.len() as int,
                        post.objects@.len() as int,
                        post.scripts@.len() as int,
                    ) by {
                        assert(object_record_ok(
                            pre.objects@[k],
                            pre.environments@.len() as int,
                            pre.objects@.len() as int,
                            pre.scripts@.len() as int,
                        ));
                        if k == idx as int {
                            assert forall|x: int, y: int|
                                0 <= x < y < post_p.len() implies (#[trigger] post_p[x]).0@ != (
                            #[trigger] post_p[y]).0@ by {
                                let px: int = if x < i as int {
                                    x
                                } else {
                                    x + 1
                                };
                                let py: int = if y < i as int {
                                    y
                                } else {
                                    y + 1
                                };
                                assert(post_p[x] == pre_p[px]);
                                assert(post_p[y] == pre_p[py]);
                                assert(pre_p[px].0@ != pre_p[py].0@);
                            }
                        }
                    }
                }
                Ok(())
            },
        }
    }

    /// After a remove-and-insert of this object's record that kept the
    /// property names pointwise and every other field out of structure
    /// untouched, the state is well formed again and everything else is
    /// unchanged.
    proof fn lemma_structure_update(&self, pre: Debuggee, post: Debuggee)
        requires
            pre.wf(),
            (self.index as int) < pre.objects@.len(),
            post.environments == pre.environments,
            post.frames == pre.frames,
            post.scripts == pre.scripts,
            post.sources == pre.sources,
            post.invocations == pre.invocations,
            post.objects@.len() == pre.objects@.len(),
            forall|i: int|
                0 <= i < pre.objects@.len() && i != self.index as int ==> post.objects@[i]
                    == pre.objects@[i],
            object_same_but_structure(self.record(&pre), self.record(&post)),
            self.record(&post).properties@.len() == self.record(&pre).properties@.len(),
            forall|j: int|
                0 <= j < self.record(&pre).properties@.len() ==> (#[trigger] self.record(
                    &post,
                ).properties@[j]).0@ == self.record(&pre).properties@[j].0@,
        ensures
            post.wf(),
    {
        let o = self.index as int;
        assert forall|k: int| 0 <= k < post.objects@.len() implies #[trigger] object_record_ok(
            post.objects@[k],
            post.environments@.len() as int,
            post.objects@.len() as int,
            post.scripts@.len() as int,
        ) by {
            assert(object_record_ok(
                pre.objects@[k],
                pre.environments@.len() as int,
                pre.objects@.len() as int,
                pre.scripts@.len() as int,
            ));
            if k == o {
                let pre_p = self.record(&pre).properties@;
                let post_p = self.record(&post).properties@;
                assert forall|x: int, y: int|
                    0 <= x < y < post_p.len() implies (#[trigger] post_p[x]).0@ != (
                #[trigger] post_p[y]).0@ by {
                    assert(pre_p[x].0@ != pre_p[y].0@);
                }
            }
        }
    }
}

} // verus!
