use debug_control::debuggee::{Debuggee, EnvironmentRecord};
use debug_control::environment::{Environment, EnvironmentType};
use debug_control::error::Error;
use debug_control::value::Value;

fn plain_env(bindings: Vec<(String, Value)>, parent: Option<Environment>) -> EnvironmentRecord {
    EnvironmentRecord {
        env_type: EnvironmentType::Declarative,
        parent,
        bindings,
        callee: None,
        object: None,
        is_debuggee: true,
        optimized_out: false,
        is_proxy: false,
    }
}

#[test]
fn get_variable_present_returns_bound_value() {
    let mut dbg = Debuggee::new();
    let e = dbg.add_environment(plain_env(
        vec![(String::from("x"), Value::Number(3f64.to_bits()))],
        None,
    ));
    let got = e.get_variable(&dbg, "x").unwrap();
    assert_eq!(got, Value::Number(3f64.to_bits()));
}

#[test]
fn get_variable_absent_returns_undefined_not_error() {
    let mut dbg = Debuggee::new();
    let e = dbg.add_environment(plain_env(
        vec![(String::from("x"), Value::Boolean(true))],
        None,
    ));
    assert_eq!(e.get_variable(&dbg, "missing").unwrap(), Value::Undefined);
}

#[test]
fn get_variable_undefined_iff_not_in_names() {
    let mut dbg = Debuggee::new();
    let e = dbg.add_environment(plain_env(
        vec![
            (String::from("a"), Value::Null),
            (String::from("b"), Value::Boolean(false)),
        ],
        None,
    ));
    let names = e.names(&dbg).unwrap();
    for name in ["a", "b", "zz"] {
        let absent = !names.iter().any(|n| n == name);
        let undefined = e.get_variable(&dbg, name).unwrap() == Value::Undefined;
        assert_eq!(absent, undefined);
    }
}

#[test]
fn names_lists_bindings_in_order() {
    let mut dbg = Debuggee::new();
    let e = dbg.add_environment(plain_env(
        vec![
            (String::from("first"), Value::Null),
            (String::from("second"), Value::Null),
        ],
        None,
    ));
    let names = e.names(&dbg).unwrap();
    assert_eq!(names, vec![String::from("first"), String::from("second")]);
}

#[test]
fn non_debuggee_environment_refuses_inspection() {
    let mut dbg = Debuggee::new();
    let mut rec = plain_env(vec![(String::from("x"), Value::Null)], None);
    rec.is_debuggee = false;
    let e = dbg.add_environment(rec);
    assert!(!e.is_inspectable(&dbg));
    assert_eq!(
        e.get_variable(&dbg, "x").unwrap_err(),
        Error::EnvironmentNotDebuggee
    );
    assert_eq!(e.names(&dbg).unwrap_err(), Error::EnvironmentNotDebuggee);
    assert_eq!(e.parent(&dbg).unwrap_err(), Error::EnvironmentNotDebuggee);
    assert_eq!(e.get_type(&dbg).unwrap_err(), Error::EnvironmentNotDebuggee);
}

#[test]
fn proxy_environment_refuses_binding_access_but_not_metadata() {
    let mut dbg = Debuggee::new();
    let mut rec = plain_env(vec![(String::from("x"), Value::Null)], None);
    rec.is_proxy = true;
    let e = dbg.add_environment(rec);
    assert_eq!(
        e.get_variable(&dbg, "x").unwrap_err(),
        Error::DebuggeeWouldRun
    );
    assert_eq!(e.names(&dbg).unwrap_err(), Error::DebuggeeWouldRun);
    assert_eq!(
        e.set_variable(&mut dbg, "x", &Value::Null).unwrap_err(),
        Error::DebuggeeWouldRun
    );
    assert_eq!(e.parent(&dbg).unwrap(), None);
    assert_eq!(e.get_type(&dbg).unwrap(), EnvironmentType::Declarative);
}

#[test]
fn set_variable_replaces_value() {
    let mut dbg = Debuggee::new();
    let e = dbg.add_environment(plain_env(
        vec![
            (String::from("x"), Value::Number(1f64.to_bits())),
            (String::from("y"), Value::Null),
        ],
        None,
    ));
    e.set_variable(&mut dbg, "x", &Value::String(String::from("new")))
        .unwrap();
    assert_eq!(
        e.get_variable(&dbg, "x").unwrap(),
        Value::String(String::from("new"))
    );
    assert_eq!(e.get_variable(&dbg, "y").unwrap(), Value::Null);
}

#[test]
fn set_variable_missing_name_is_variable_not_found() {
    let mut dbg = Debuggee::new();
    let e = dbg.add_environment(plain_env(vec![(String::from("x"), Value::Null)], None));
    assert_eq!(
        e.set_variable(&mut dbg, "nope", &Value::Null).unwrap_err(),
        Error::VariableNotFound
    );
    assert_eq!(e.get_variable(&dbg, "x").unwrap(), Value::Null);
}

#[test]
fn find_walks_the_parent_chain_to_the_innermost_binding() {
    let mut dbg = Debuggee::new();
    let outer = dbg.add_environment(plain_env(
        vec![
            (String::from("x"), Value::Boolean(false)),
            (String::from("only_outer"), Value::Null),
        ],
        None,
    ));
    let inner = dbg.add_environment(plain_env(
        vec![(String::from("x"), Value::Boolean(true))],
        Some(outer),
    ));
    assert_eq!(inner.find(&dbg, "x").unwrap(), Some(inner));
    assert_eq!(inner.find(&dbg, "only_outer").unwrap(), Some(outer));
    assert_eq!(inner.find(&dbg, "absent").unwrap(), None);
}

#[test]
fn find_reports_a_non_debuggee_ancestor() {
    let mut dbg = Debuggee::new();
    let mut outer_rec = plain_env(vec![(String::from("x"), Value::Null)], None);
    outer_rec.is_debuggee = false;
    let outer = dbg.add_environment(outer_rec);
    let inner = dbg.add_environment(plain_env(vec![], Some(outer)));
    assert_eq!(
        inner.find(&dbg, "x").unwrap_err(),
        Error::EnvironmentNotDebuggee
    );
}

#[test]
fn parent_and_type_and_optimized_out_report_the_record() {
    let mut dbg = Debuggee::new();
    let outer = dbg.add_environment(plain_env(vec![], None));
    let mut rec = plain_env(vec![], Some(outer));
    rec.optimized_out = true;
    let inner = dbg.add_environment(rec);
    assert_eq!(inner.parent(&dbg).unwrap(), Some(outer));
    assert_eq!(outer.parent(&dbg).unwrap(), None);
    assert_eq!(inner.get_type(&dbg).unwrap(), EnvironmentType::Declarative);
    assert!(inner.is_optimized_out(&dbg).unwrap());
    assert!(!outer.is_optimized_out(&dbg).unwrap());
    assert_eq!(inner.callee(&dbg).unwrap(), None);
    assert_eq!(inner.object(&dbg).unwrap(), None);
}
