//! The value model: debuggee values, completion values and resumption
//! values.

use vstd::prelude::*;
use crate::object::Object;

verus! {

/// A value in the debuggee. This is either a primitive value or a handle to
/// an object in the debuggee. A primitive value is either undefined, null, a
/// boolean, a string, or a number.
///
/// A number is carried as its IEEE-754 bit pattern: this layer never does
/// arithmetic on debuggee numbers, it only stores and reports them, so the
/// bit pattern is the whole of what it needs.
#[derive(Debug)]
pub enum Value {
    Undefined,
    Null,
    Boolean(bool),
    String(String),
    Number(u64),
    Object(Object),
}

/// A completion value describes how a call or evaluation completed.
#[derive(Debug)]
pub enum CompletionValue {
    /// The call or evaluation returned the given value as a result.
    Return(Value),
    /// The call or evaluation threw the given value as an exception.
    Throw(Value),
    /// The call or evaluation was terminated.
    Terminate,
}

/// A resumption value describes how the debuggee should continue executing:
/// `None` means "continue unmodified", `Some(completion)` forces the
/// debuggee to adopt that completion instead of its natural one.
pub type ResumptionValue = Option<CompletionValue>;

/// Equality of debuggee values: structural, with strings compared by their
/// character sequences.
pub open spec fn value_eq(a: Value, b: Value) -> bool {
    match (a, b) {
        (Value::Undefined, Value::Undefined) => true,
        (Value::Null, Value::Null) => true,
        (Value::Boolean(x), Value::Boolean(y)) => x == y,
        (Value::String(x), Value::String(y)) => x@ == y@,
        (Value::Number(x), Value::Number(y)) => x == y,
        (Value::Object(x), Value::Object(y)) => x == y,
        _ => false,
    }
}

/// Equality of completion values, lifting [`value_eq`].
pub open spec fn completion_eq(a: CompletionValue, b: CompletionValue) -> bool {
    match (a, b) {
        (CompletionValue::Return(x), CompletionValue::Return(y)) => value_eq(x, y),
        (CompletionValue::Throw(x), CompletionValue::Throw(y)) => value_eq(x, y),
        (CompletionValue::Terminate, CompletionValue::Terminate) => true,
        _ => false,
    }
}

/// The completion the debuggee adopts at a control point: the handler's
/// override if it gave one, else the natural completion.
pub open spec fn adopted_completion(r: ResumptionValue, natural: CompletionValue) -> CompletionValue {
    match r {
        Some(c) => c,
        None => natural,
    }
}

impl Clone for Value {
    fn clone(&self) -> (res: Self)
        ensures
            res == *self,
    {
        match self {
            Value::Undefined => Value::Undefined,
            Value::Null => Value::Null,
            Value::Boolean(b) => Value::Boolean(*b),
            Value::String(s) => Value::String(s.clone()),
            Value::Number(n) => Value::Number(*n),
            Value::Object(o) => Value::Object(*o),
        }
    }
}

impl PartialEq for Value {
    fn eq(&self, other: &Self) -> (r: bool) {
        match (self, other) {
            (Value::Undefined, Value::Undefined) => true,
            (Value::Null, Value::Null) => true,
            (Value::Boolean(x), Value::Boolean(y)) => *x == *y,
            (Value::String(x), Value::String(y)) => x.eq(y),
            (Value::Number(x), Value::Number(y)) => *x == *y,
            (Value::Object(x), Value::Object(y)) => x.index == y.index,
            _ => false,
        }
    }
}

impl vstd::std_specs::cmp::PartialEqSpecImpl for Value {
    open spec fn obeys_eq_spec() -> bool {
        true
    }

    open spec fn eq_spec(&self, other: &Self) -> bool {
        value_eq(*self, *other)
    }
}

impl Clone for CompletionValue {
    fn clone(&self) -> (res: Self)
        ensures
            res == *self,
    {
        match self {
            CompletionValue::Return(v) => CompletionValue::Return(v.clone()),
            CompletionValue::Throw(v) => CompletionValue::Throw(v.clone()),
            CompletionValue::Terminate => CompletionValue::Terminate,
        }
    }
}

impl PartialEq for CompletionValue {
    fn eq(&self, other: &Self) -> (r: bool) {
        match (self, other) {
            (CompletionValue::Return(x), CompletionValue::Return(y)) => x == y,
            (CompletionValue::Throw(x), CompletionValue::Throw(y)) => x == y,
            (CompletionValue::Terminate, CompletionValue::Terminate) => true,
            _ => false,
        }
    }
}

impl vstd::std_specs::cmp::PartialEqSpecImpl for CompletionValue {
    open spec fn obeys_eq_spec() -> bool {
        true
    }

    open spec fn eq_spec(&self, other: &Self) -> bool {
        completion_eq(*self, *other)
    }
}

/// Clones a resumption value.
pub fn clone_resumption(r: &ResumptionValue) -> (res: ResumptionValue)
    ensures
        res == *r,
{
    match r {
        None => None,
        Some(c) => Some(c.clone()),
    }
}

/// Clones a list of values.
pub fn clone_values(v: &Vec<Value>) -> (res: Vec<Value>)
    ensures
        res@ == v@,
{
    let n = v.len();
    let mut out: Vec<Value> = Vec::new();
    let mut i: usize = 0;
    while i < n
        invariant
            i <= n,
            n == v@.len(),
            out@.len() == i,
            forall|j: int| 0 <= j < i ==> out@[j] == v@[j],
        decreases n - i,
    {
        out.push(v[i].clone());
        i = i + 1;
    }
    proof {
        assert(out@ =~= v@);
    }
    out
}

/// Clones a list of strings.
pub fn clone_strings(v: &Vec<String>) -> (res: Vec<String>)
    ensures
        res@ == v@,
{
    let n = v.len();
    let mut out: Vec<String> = Vec::new();
    let mut i: usize = 0;
    while i < n
        invariant
            i <= n,
            n == v@.len(),
            out@.len() == i,
            forall|j: int| 0 <= j < i ==> out@[j] == v@[j],
        decreases n - i,
    {
        out.push(v[i].clone());
        i = i + 1;
    }
    proof {
        assert(out@ =~= v@);
    }
    out
}

/// Clones an optional string.
pub fn clone_opt_string(v: &Option<String>) -> (res: Option<String>)
    ensures
        res == *v,
{
    match v {
        None => None,
        Some(s) => Some(s.clone()),
    }
}

} // verus!
