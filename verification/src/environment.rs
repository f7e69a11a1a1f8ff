//! The lexical-environment wrapper: variable lookup and mutation over the
//! scope chain, guarded so that inspection never makes the debuggee run.

use vstd::prelude::*;
use vstd::string::StringExecFns;
use crate::debuggee::{
    assoc_find, assoc_has, env_record_ok, find_str_key, lemma_assoc_find_at,
    lemma_assoc_find_none, unique_str_keys, Debuggee, EnvironmentRecord,
};
use crate::error::{Error, Fallible};
use crate::object::Object;
use crate::value::{CompletionValue, Value};

verus! {

/// An enum describing the type of an environment.
#[derive(Clone, Copy, Debug, PartialEq, Eq, Structural)]
pub enum EnvironmentType {
    /// An environment introduced by a function call, call to `eval`, etc.
    Declarative,
    /// An environment introduced by a global or DOM element.
    Object,
    /// An environment introduced by a `with` statement.
    With,
}

/// A wrapper to a lexical environment.
///
/// The handle is weak and re-validated: it names an environment in a
/// [`crate::debuggee::Debuggee`] state, and every operation re-checks
/// inspectability against the state it is given rather than trusting a
/// cached answer.
#[derive(Clone, Copy, Debug, PartialEq, Eq, Structural)]
pub struct Environment {
    /// The position of the wrapped environment in the debuggee state.
    pub index: usize,
}

/// The value bound to `name` in one environment: the bound value, or
/// `Undefined` where no binding with that name exists. Absence is a value,
/// never an error.
pub open spec fn lookup_value(r: EnvironmentRecord, name: Seq<char>) -> Value {
    match assoc_find(r.bindings@, name) {
        Some(v) => v,
        None => Value::Undefined,
    }
}

/// The refusal, if any, that reading or writing bindings of this
/// environment meets: a non-debuggee environment cannot be inspected at
/// all, and where the reflected object is a proxy, touching the bindings
/// would run debuggee code.
pub open spec fn binding_access_refusal(r: EnvironmentRecord) -> Option<Error> {
    if !r.is_debuggee {
        Some(Error::EnvironmentNotDebuggee)
    } else if r.is_proxy {
        Some(Error::DebuggeeWouldRun)
    } else {
        None
    }
}

/// The two debuggee states agree everywhere except possibly in the
/// bindings of environment `e`: every other arena and record is the same,
/// and record `e` keeps all its fields but the bindings.
pub open spec fn unchanged_but_bindings(pre: Debuggee, post: Debuggee, e: int) -> bool {
    &&& post.environments@.len() == pre.environments@.len()
    &&& (forall|i: int|
        0 <= i < pre.environments@.len() && i != e ==> post.environments@[i]
            == pre.environments@[i])
    &&& post.environments@[e].env_type == pre.environments@[e].env_type
    &&& post.environments@[e].parent == pre.environments@[e].parent
    &&& post.environments@[e].callee == pre.environments@[e].callee
    &&& post.environments@[e].object == pre.environments@[e].object
    &&& post.environments@[e].is_debuggee == pre.environments@[e].is_debuggee
    &&& post.environments@[e].optimized_out == pre.environments@[e].optimized_out
    &&& post.environments@[e].is_proxy == pre.environments@[e].is_proxy
}

/// The bindings after a successful variable write: the same names in the
/// same order, every binding of another name untouched, and every binding
/// of the written name holding the new value.
pub open spec fn bindings_updated(
    pre: Seq<(String, Value)>,
    post: Seq<(String, Value)>,
    name: Seq<char>,
    v: Value,
) -> bool {
    &&& post.len() == pre.len()
    &&& (forall|j: int| 0 <= j < pre.len() ==> (#[trigger] post[j]).0@ == pre[j].0@)
    &&& (forall|j: int| 0 <= j < pre.len() && pre[j].0@ != name ==> (#[trigger] post[j]) == pre[j])
    &&& (forall|j: int| 0 <= j < pre.len() && pre[j].0@ == name ==> (#[trigger] post[j]).1 == v)
}

/// Resolves `name` along the parent chain starting at environment `e`: the
/// innermost environment that binds it, `None` where none does, or the
/// refusal met at the first environment that cannot be inspected.
pub open spec fn chain_find(dbg: Debuggee, e: int, name: Seq<char>) -> Fallible<Option<int>>
    decreases e,
        when 0 <= e < dbg.environments@.len() && dbg.wf()
        via chain_find_decreases
{
    let r = dbg.environments@[e];
    if !r.is_debuggee {
        Err(Error::EnvironmentNotDebuggee)
    } else if r.is_proxy {
        Err(Error::DebuggeeWouldRun)
    } else if assoc_has(r.bindings@, name) {
        Ok(Some(e))
    } else {
        match r.parent {
            None => Ok(None),
            Some(p) => chain_find(dbg, p.index as int, name),
        }
    }
}

#[via_fn]
proof fn chain_find_decreases(dbg: Debuggee, e: int, name: Seq<char>) {
    assert(env_record_ok(dbg.environments@[e], e, dbg.objects@.len() as int));
}

/// The value of `name` resolved along the parent chain starting at
/// environment `e`: the binding of the innermost environment that has one,
/// or `Undefined` where none does. Explicit evaluation entry points resolve
/// through this without the inspection guard: they are the intentional
/// re-entry into the debuggee.
pub open spec fn chain_value(dbg: Debuggee, e: int, name: Seq<char>) -> Value
    decreases e,
        when 0 <= e < dbg.environments@.len() && dbg.wf()
        via chain_value_decreases
{
    let r = dbg.environments@[e];
    match assoc_find(r.bindings@, name) {
        Some(v) => v,
        None => match r.parent {
            None => Value::Undefined,
            Some(p) => chain_value(dbg, p.index as int, name),
        },
    }
}

#[via_fn]
proof fn chain_value_decreases(dbg: Debuggee, e: int, name: Seq<char>) {
    assert(env_record_ok(dbg.environments@[e], e, dbg.objects@.len() as int));
}

/// What evaluating `code` in environment `e` completes with, under the
/// extra `bindings` layered above the scope (shadowing on conflict).
///
/// Evaluation is modeled at the level this layer is about: `code` names a
/// single identifier, and the completion returns that identifier's value.
/// How the engine would run richer code is outside this layer.
pub open spec fn eval_result(
    dbg: Debuggee,
    e: int,
    bindings: Seq<(String, Value)>,
    code: Seq<char>,
) -> CompletionValue {
    match assoc_find(bindings, code) {
        Some(v) => CompletionValue::Return(v),
        None => CompletionValue::Return(chain_value(dbg, e, code)),
    }
}

/// Resolves `name` along the parent chain starting at `start`, without the
/// inspection guard.
pub fn resolve_in_chain(dbg: &Debuggee, start: &Environment, name: &str) -> (r: Value)
    requires
        dbg.wf(),
        start.in_bounds(dbg),
    ensures
        r == chain_value(*dbg, start.index as int, name@),
{
    let key = String::from_str(name);
    let mut cur = start.index;
    loop
        invariant
            dbg.wf(),
            (cur as int) < dbg.environments@.len(),
            key@ == name@,
            chain_value(*dbg, start.index as int, name@) == chain_value(*dbg, cur as int, name@),
        decreases cur,
    {
        let r = &dbg.environments[cur];
        match find_str_key(&r.bindings, &key) {
            Some(i) => {
                proof {
                    lemma_assoc_find_at(r.bindings@, name@, i as int);
                }
                return r.bindings[i].1.clone();
            },
            None => {
                proof {
                    lemma_assoc_find_none(r.bindings@, name@);
                }
                match r.parent {
                    None => {
                        return Value::Undefined;
                    },
                    Some(p) => {
                        proof {
                            assert(env_record_ok(
                                dbg.environments@[cur as int],
                                cur as int,
                                dbg.objects@.len() as int,
                            ));
                        }
                        cur = p.index;
                    },
                }
            },
        }
    }
}

/// Evaluates `code` in the chain starting at `start`, with the given
/// pre-bound names shadowing the chain.
pub fn eval_in_chain(
    dbg: &Debuggee,
    start: &Environment,
    code: &str,
    bindings: &Vec<(String, Value)>,
) -> (r: CompletionValue)
    requires
        dbg.wf(),
        start.in_bounds(dbg),
    ensures
        r == eval_result(*dbg, start.index as int, bindings@, code@),
{
    let key = String::from_str(code);
    match find_str_key(bindings, &key) {
        Some(i) => {
            proof {
                lemma_assoc_find_at(bindings@, code@, i as int);
            }
            CompletionValue::Return(bindings[i].1.clone())
        },
        None => {
            proof {
                lemma_assoc_find_none(bindings@, code@);
            }
            CompletionValue::Return(resolve_in_chain(dbg, start, code))
        },
    }
}

impl Environment {
    /// Whether the handle names an environment of the given debuggee
    /// state.
    pub open spec fn in_bounds(&self, dbg: &Debuggee) -> bool {
        (self.index as int) < dbg.environments@.len()
    }

    /// The record the handle names.
    pub open spec fn record(&self, dbg: &Debuggee) -> EnvironmentRecord {
        dbg.environments@[self.index as int]
    }

    /// Returns `true` if the wrapped environment is a debuggee
    /// environment. Returns `false` otherwise. This is the guard predicate
    /// the other methods implicitly apply.
    pub fn is_inspectable(&self, dbg: &Debuggee) -> (r: bool)
        requires
            dbg.wf(),
            self.in_bounds(dbg),
        ensures
            r == self.record(dbg).is_debuggee,
    {
        dbg.environments[self.index].is_debuggee
    }

    /// If the wrapped environment is the variable environment for a
    /// function call, returns a wrapper to the function being called.
    /// Otherwise, returns `None`.
    ///
    /// # Errors
    /// If the wrapped environment could not be inspected because it is not
    /// a debuggee environment, returns `EnvironmentNotDebuggee`.
    pub fn callee(&self, dbg: &Debuggee) -> (res: Fallible<Option<Object>>)
        requires
            dbg.wf(),
            self.in_bounds(dbg),
        ensures
            !self.record(dbg).is_debuggee ==> res == Err::<Option<Object>, Error>(
                Error::EnvironmentNotDebuggee,
            ),
            self.record(dbg).is_debuggee ==> res == Ok::<Option<Object>, Error>(
                self.record(dbg).callee,
            ),
    {
        let r = &dbg.environments[self.index];
        if !r.is_debuggee {
            return Err(Error::EnvironmentNotDebuggee);
        }
        Ok(r.callee)
    }

    /// If the wrapped environment is a global or with environment, returns
    /// a wrapper to the object reflected by the wrapped environment.
    /// Otherwise, returns `None`.
    ///
    /// # Errors
    /// If the wrapped environment could not be inspected because it is not
    /// a debuggee environment, returns `EnvironmentNotDebuggee`.
    pub fn object(&self, dbg: &Debuggee) -> (res: Fallible<Option<Object>>)
        requires
            dbg.wf(),
            self.in_bounds(dbg),
        ensures
            !self.record(dbg).is_debuggee ==> res == Err::<Option<Object>, Error>(
                Error::EnvironmentNotDebuggee,
            ),
            self.record(dbg).is_debuggee ==> res == Ok::<Option<Object>, Error>(
                self.record(dbg).object,
            ),
    {
        let r = &dbg.environments[self.index];
        if !r.is_debuggee {
            return Err(Error::EnvironmentNotDebuggee);
        }
        Ok(r.object)
    }

    /// Returns a wrapper to the environment enclosing the wrapped
    /// environment. If there is no environment enclosing the wrapped
    /// environment because the wrapped environment is the outermost
    /// environment, returns `None` instead.
    ///
    /// # Errors
    /// If the wrapped environment could not be inspected because it is not
    /// a debuggee environment, returns `EnvironmentNotDebuggee`.
    pub fn parent(&self, dbg: &Debuggee) -> (res: Fallible<Option<Environment>>)
        requires
            dbg.wf(),
            self.in_bounds(dbg),
        ensures
            !self.record(dbg).is_debuggee ==> res == Err::<Option<Environment>, Error>(
                Error::EnvironmentNotDebuggee,
            ),
            self.record(dbg).is_debuggee ==> res == Ok::<Option<Environment>, Error>(
                self.record(dbg).parent,
            ),
    {
        let r = &dbg.environments[self.index];
        if !r.is_debuggee {
            return Err(Error::EnvironmentNotDebuggee);
        }
        Ok(r.parent)
    }

    /// Returns the type of the wrapped environment.
    ///
    /// # Errors
    /// If the wrapped environment could not be inspected because it is not
    /// a debuggee environment, returns `EnvironmentNotDebuggee`.
    pub fn get_type(&self, dbg: &Debuggee) -> (res: Fallible<EnvironmentType>)
        requires
            dbg.wf(),
            self.in_bounds(dbg),
        ensures
            !self.record(dbg).is_debuggee ==> res == Err::<EnvironmentType, Error>(
                Error::EnvironmentNotDebuggee,
            ),
            self.record(dbg).is_debuggee ==> res == Ok::<EnvironmentType, Error>(
                self.record(dbg).env_type,
            ),
    {
        let r = &dbg.environments[self.index];
        if !r.is_debuggee {
            return Err(Error::EnvironmentNotDebuggee);
        }
        Ok(r.env_type)
    }

    /// Returns `true` if the wrapped environment is optimized out.
    /// Returns `false` otherwise.
    ///
    /// # Errors
    /// If the wrapped environment could not be inspected because it is not
    /// a debuggee environment, returns `EnvironmentNotDebuggee`.
    pub fn is_optimized_out(&self, dbg: &Debuggee) -> (res: Fallible<bool>)
        requires
            dbg.wf(),
            self.in_bounds(dbg),
        ensures
            !self.record(dbg).is_debuggee ==> res == Err::<bool, Error>(
                Error::EnvironmentNotDebuggee,
            ),
            self.record(dbg).is_debuggee ==> res == Ok::<bool, Error>(
                self.record(dbg).optimized_out,
            ),
    {
        let r = &dbg.environments[self.index];
        if !r.is_debuggee {
            return Err(Error::EnvironmentNotDebuggee);
        }
        Ok(r.optimized_out)
    }

    /// Returns the value of the variable bound to the given `name` by the
    /// wrapped environment. If there is no such variable, returns
    /// `Undefined` instead.
    ///
    /// # Errors
    /// If this method would cause the debuggee to run because the object
    /// reflected by the wrapped environment is a proxy, returns
    /// `DebuggeeWouldRun`.
    ///
    /// If the wrapped environment could not be inspected because it is not
    /// a debuggee environment, returns `EnvironmentNotDebuggee`.
    pub fn get_variable(&self, dbg: &Debuggee, name: &str) -> (res: Fallible<Value>)
        requires
            dbg.wf(),
            self.in_bounds(dbg),
        ensures
            match binding_access_refusal(self.record(dbg)) {
                Some(e) => res == Err::<Value, Error>(e),
                None => res == Ok::<Value, Error>(lookup_value(self.record(dbg), name@)),
            },
    {
        let r = &dbg.environments[self.index];
        if !r.is_debuggee {
            return Err(Error::EnvironmentNotDebuggee);
        }
        if r.is_proxy {
            return Err(Error::DebuggeeWouldRun);
        }
        let key = String::from_str(name);
        match find_str_key(&r.bindings, &key) {
            Some(i) => {
                proof {
                    lemma_assoc_find_at(r.bindings@, name@, i as int);
                }
                Ok(r.bindings[i].1.clone())
            },
            None => {
                proof {
                    lemma_assoc_find_none(r.bindings@, name@);
                }
                Ok(Value::Undefined)
            },
        }
    }

    /// Returns the names of the variables bound by the wrapped
    /// environment.
    ///
    /// # Errors
    /// If this method would cause the debuggee to run because the object
    /// reflected by the wrapped environment is a proxy, returns
    /// `DebuggeeWouldRun`.
    ///
    /// If the wrapped environment could not be inspected because it is not
    /// a debuggee environment, returns `EnvironmentNotDebuggee`.
    pub fn names(&self, dbg: &Debuggee) -> (res: Fallible<Vec<String>>)
        requires
            dbg.wf(),
            self.in_bounds(dbg),
        ensures
            match binding_access_refusal(self.record(dbg)) {
                Some(e) => res == Err::<Vec<String>, Error>(e),
                None => {
                    &&& res matches Ok(ns)
                    &&& ns@.len() == self.record(dbg).bindings@.len()
                    &&& forall|i: int|
                        0 <= i < ns@.len() ==> (#[trigger] ns@[i])@ == self.record(
                            dbg,
                        ).bindings@[i].0@
                },
            },
    {
        let r = &dbg.environments[self.index];
        if !r.is_debuggee {
            return Err(Error::EnvironmentNotDebuggee);
        }
        if r.is_proxy {
            return Err(Error::DebuggeeWouldRun);
        }
        let n = r.bindings.len();
        let mut names: Vec<String> = Vec::new();
        let mut i: usize = 0;
        while i < n
            invariant
                i <= n,
                n == r.bindings@.len(),
                names@.len() == i,
                forall|j: int| 0 <= j < i ==> (#[trigger] names@[j])@ == r.bindings@[j].0@,
            decreases n - i,
        {
            names.push(r.bindings[i].0.clone());
            i = i + 1;
        }
        Ok(names)
    }

    /// Returns a wrapper to the innermost environment that binds a
    /// variable to the given `name`. If there is no such environment,
    /// returns `None` instead.
    ///
    /// # Errors
    /// If this method would cause the debuggee to run because the object
    /// reflected by a wrapped environment is a proxy, returns
    /// `DebuggeeWouldRun`.
    ///
    /// If a wrapped environment could not be inspected because it is not a
    /// debuggee environment, returns `EnvironmentNotDebuggee`.
    pub fn find(&self, dbg: &Debuggee, name: &str) -> (res: Fallible<Option<Environment>>)
        requires
            dbg.wf(),
            self.in_bounds(dbg),
        ensures
            match chain_find(*dbg, self.index as int, name@) {
                Err(e) => res == Err::<Option<Environment>, Error>(e),
                Ok(oi) => match oi {
                    None => res == Ok::<Option<Environment>, Error>(None),
                    Some(i) => res matches Ok(Some(env)) && env.index as int == i,
                },
            },
    {
        let key = String::from_str(name);
        let mut cur = self.index;
        loop
            invariant
                dbg.wf(),
                (cur as int) < dbg.environments@.len(),
                key@ == name@,
                chain_find(*dbg, self.index as int, name@) == chain_find(
                    *dbg,
                    cur as int,
                    name@,
                ),
            decreases cur,
        {
            let r = &dbg.environments[cur];
            if !r.is_debuggee {
                return Err(Error::EnvironmentNotDebuggee);
            }
            if r.is_proxy {
                return Err(Error::DebuggeeWouldRun);
            }
            match find_str_key(&r.bindings, &key) {
                Some(i) => {
                    proof {
                        assert(assoc_has(r.bindings@, name@));
                    }
                    return Ok(Some(Environment { index: cur }));
                },
                None => {
                    proof {
                        assert(!assoc_has(r.bindings@, name@)) by {
                            if assoc_has(r.bindings@, name@) {
                                let w = choose|w: int|
                                    0 <= w < r.bindings@.len() && r.bindings@[w].0@ == name@;
                                assert(r.bindings@[w].0@ != name@);
                            }
                        }
                    }
                    match r.parent {
                        None => {
                            return Ok(None);
                        },
                        Some(p) => {
                            proof {
                                assert(env_record_ok(
                                    dbg.environments@[cur as int],
                                    cur as int,
                                    dbg.objects@.len() as int,
                                ));
                            }
                            cur = p.index;
                        },
                    }
                },
            }
        }
    }

    /// Sets the value of the variable bound to the given `name` by the
    /// wrapped environment.
    ///
    /// # Errors
    /// If this method would cause the debuggee to run because the object
    /// reflected by the wrapped environment is a proxy, returns
    /// `DebuggeeWouldRun`.
    ///
    /// If the wrapped environment could not be inspected because it is not
    /// a debuggee environment, returns `EnvironmentNotDebuggee`.
    ///
    /// If the value of the variable could not be set because there is no
    /// such variable, returns `VariableNotFound`.
    pub fn set_variable(&self, dbg: &mut Debuggee, name: &str, value: &Value) -> (res: Fallible<
        (),
    >)
        requires
            old(dbg).wf(),
            self.in_bounds(old(dbg)),
        ensures
            final(dbg).wf(),
            final(dbg).frames == old(dbg).frames,
            final(dbg).objects == old(dbg).objects,
            final(dbg).scripts == old(dbg).scripts,
            final(dbg).sources == old(dbg).sources,
            final(dbg).invocations == old(dbg).invocations,
            match binding_access_refusal(self.record(old(dbg))) {
                Some(e) => res == Err::<(), Error>(e) && *final(dbg) == *old(dbg),
                None => {
                    if !assoc_has(self.record(old(dbg)).bindings@, name@) {
                        res == Err::<(), Error>(Error::VariableNotFound) && *final(dbg) == *old(dbg)
                    } else {
                        &&& res == Ok::<(), Error>(())
                        &&& lookup_value(self.record(final(dbg)), name@) == *value
                        &&& unchanged_but_bindings(
                            *old(dbg),
                            *final(dbg),
                            self.index as int,
                        )
                        &&& bindings_updated(
                            self.record(old(dbg)).bindings@,
                            self.record(final(dbg)).bindings@,
                            name@,
                            *value,
                        )
                    }
                },
            },
    {
        let idx = self.index;
        if !dbg.environments[idx].is_debuggee {
            return Err(Error::EnvironmentNotDebuggee);
        }
        if dbg.environments[idx].is_proxy {
            return Err(Error::DebuggeeWouldRun);
        }
        let key = String::from_str(name);
        let found = find_str_key(&dbg.environments[idx].bindings, &key);
        match found {
            None => {
                proof {
                    let b = self.record(old(dbg)).bindings@;
                    assert(!assoc_has(b, name@)) by {
                        if assoc_has(b, name@) {
                            let w = choose|w: int| 0 <= w < b.len() && b[w].0@ == name@;
                            assert(b[w].0@ != name@);
                        }
                    }
                }
                Err(Error::VariableNotFound)
            },
            Some(i) => {
                let mut rec = dbg.environments.remove(idx);
                let pair = rec.bindings.remove(i);
                rec.bindings.insert(i, (pair.0, value.clone()));
                dbg.environments.insert(idx, rec);
                proof {
                    let pre = *old(dbg);
                    let post = *dbg;
                    let pre_b = pre.environments@[idx as int].bindings@;
                    let post_b = post.environments@[idx as int].bindings@;
                    assert(post.environments@ =~= pre.environments@.update(
                        idx as int,
                        post.environments@[idx as int],
                    ));
                    assert(post_b =~= pre_b.update(i as int, (pre_b[i as int].0, *value)));
                    assert(env_record_ok(
                        pre.environments@[idx as int],
                        idx as int,
                        pre.objects@.len() as int,
                    ));
                    assert(unique_str_keys(pre_b));
                    assert forall|j: int|
                        0 <= j < pre_b.len() && pre_b[j].0@ == name@ implies (
                    #[trigger] post_b[j]).1 == *value by {
                        if j != i {
                            if j < i {
                                assert(pre_b[j].0@ != name@);
                            } else {
                                assert(pre_b[i as int].0@ != pre_b[j].0@);
                            }
                        }
                    }
                    assert(bindings_updated(pre_b, post_b, name@, *value));
                    assert forall|k: int|
                        0 <= k < post.environments@.len() implies #[trigger] env_record_ok(
                        post.environments@[k],
                        k,
                        post.objects@.len() as int,
                    ) by {
                        assert(env_record_ok(
                            pre.environments@[k],
                            k,
                            pre.objects@.len() as int,
                        ));
                        if k == idx {
                            assert forall|x: int, y: int|
                                0 <= x < y < post_b.len() implies (#[trigger] post_b[x]).0@ != (
                            #[trigger] post_b[y]).0@ by {
                                assert(pre_b[x].0@ != pre_b[y].0@);
                            }
                        }
                    }
                    assert(post_b[i as int].0@ == name@);
                    assert(assoc_has(post_b, name@));
                    lemma_assoc_find_at(post_b, name@, i as int);
                }
                Ok(())
            },
        }
    }
}

} // verus!
