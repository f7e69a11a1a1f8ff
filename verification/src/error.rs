//! The fallible-outcome contract shared by the whole layer: one flat error
//! classification with no payload.

use vstd::prelude::*;

verus! {

/// An enum describing why a method failed.
///
/// Failures are pure classifications: callers match on the kind and nothing
/// else. Absence of a binding, a relation or a datum is never an `Error`; it
/// is reported as `None` or `Undefined` by the method concerned.
#[derive(Clone, Copy, Debug, PartialEq, Eq, Structural)]
pub enum Error {
    /// The method failed because it would cause the debuggee to run.
    DebuggeeWouldRun,
    /// The method failed because the environment is not a debuggee
    /// environment.
    EnvironmentNotDebuggee,
    /// The method failed because the frame is not a debuggee frame.
    FrameNotDebuggee,
    /// The method failed because the object is not callable.
    ObjectNotCallable,
    /// The method failed because the object is not extensible.
    ObjectNotExtensible,
    /// The method failed because the object is not a global.
    ObjectNotGlobal,
    /// The method failed because the offset is not valid.
    OffsetNotValid,
    /// The method failed because the property is not configurable.
    PropertyNotConfigurable,
    /// The method failed because there is no such variable.
    VariableNotFound,
}

/// A return type for methods that are fallible.
pub type Fallible<T> = Result<T, Error>;

} // verus!
