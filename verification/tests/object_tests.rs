use debug_control::debuggee::{Debuggee, EnvironmentRecord, ObjectRecord};
use debug_control::environment::EnvironmentType;
use debug_control::error::Error;
use debug_control::object::{Object, PropertyDescriptor};
use debug_control::value::{CompletionValue, Value};

fn plain_object() -> ObjectRecord {
    ObjectRecord {
        class: String::from("Object"),
        extensible: true,
        is_proxy: false,
        properties: Vec::new(),
        prototype: None,
        global: Object { index: 0 },
        global_env: None,
        callable: false,
        call_completion: CompletionValue::Return(Value::Undefined),
        is_function: false,
        fn_name: None,
        fn_display_name: None,
        parameter_names: Vec::new(),
        is_arrow: false,
        fn_environment: None,
        fn_script: None,
        bound_target: None,
        bound_this: Value::Undefined,
        bound_arguments: Vec::new(),
    }
}

fn data_descriptor(value: Value, writable: bool, configurable: bool) -> PropertyDescriptor {
    PropertyDescriptor {
        configurable: Some(configurable),
        enumerable: Some(true),
        writable: Some(writable),
        value: Some(value),
        get: None,
        set: None,
    }
}

#[test]
fn define_then_read_back_a_data_property() {
    let mut dbg = Debuggee::new();
    let o = dbg.add_object(plain_object());
    o.define_property(&mut dbg, "answer", &data_descriptor(Value::Boolean(true), true, true))
        .unwrap();
    let names = o.get_own_property_names(&dbg).unwrap();
    assert_eq!(names, vec![String::from("answer")]);
    let d = o.get_own_property_descriptor(&dbg, "answer").unwrap();
    assert_eq!(d.value, Some(Value::Boolean(true)));
    assert_eq!(d.writable, Some(true));
    assert_eq!(d.configurable, Some(true));
    assert_eq!(d.enumerable, Some(true));
    assert_eq!(d.get, None);
    assert_eq!(d.set, None);
}

#[test]
fn absent_property_descriptor_has_no_attributes() {
    let mut dbg = Debuggee::new();
    let o = dbg.add_object(plain_object());
    let d = o.get_own_property_descriptor(&dbg, "nothing").unwrap();
    assert_eq!(d.configurable, None);
    assert_eq!(d.value, None);
}

#[test]
fn define_on_proxy_would_run_the_debuggee() {
    let mut dbg = Debuggee::new();
    let mut rec = plain_object();
    rec.is_proxy = true;
    let o = dbg.add_object(rec);
    assert_eq!(
        o.define_property(&mut dbg, "p", &data_descriptor(Value::Null, true, true))
            .unwrap_err(),
        Error::DebuggeeWouldRun
    );
    assert_eq!(o.is_extensible(&dbg).unwrap_err(), Error::DebuggeeWouldRun);
    assert_eq!(o.is_sealed(&dbg).unwrap_err(), Error::DebuggeeWouldRun);
    assert_eq!(o.is_frozen(&dbg).unwrap_err(), Error::DebuggeeWouldRun);
    assert_eq!(o.freeze(&mut dbg).unwrap_err(), Error::DebuggeeWouldRun);
}

#[test]
fn define_new_property_on_non_extensible_object_fails() {
    let mut dbg = Debuggee::new();
    let o = dbg.add_object(plain_object());
    o.prevent_extensions(&mut dbg).unwrap();
    assert!(!o.is_extensible(&dbg).unwrap());
    assert_eq!(
        o.define_property(&mut dbg, "new", &data_descriptor(Value::Null, true, true))
            .unwrap_err(),
        Error::ObjectNotExtensible
    );
}

#[test]
fn freeze_then_is_frozen_and_define_fails() {
    let mut dbg = Debuggee::new();
    let o = dbg.add_object(plain_object());
    o.define_property(&mut dbg, "kept", &data_descriptor(Value::Boolean(true), true, true))
        .unwrap();
    o.freeze(&mut dbg).unwrap();
    assert!(o.is_frozen(&dbg).unwrap());
    assert!(o.is_sealed(&dbg).unwrap());
    let on_existing = o
        .define_property(&mut dbg, "kept", &data_descriptor(Value::Boolean(false), true, true))
        .unwrap_err();
    assert_eq!(on_existing, Error::PropertyNotConfigurable);
    let on_new = o
        .define_property(&mut dbg, "fresh", &data_descriptor(Value::Null, true, true))
        .unwrap_err();
    assert_eq!(on_new, Error::ObjectNotExtensible);
    let d = o.get_own_property_descriptor(&dbg, "kept").unwrap();
    assert_eq!(d.value, Some(Value::Boolean(true)));
    assert_eq!(d.writable, Some(false));
    assert_eq!(d.configurable, Some(false));
}

#[test]
fn seal_twice_is_the_same_as_once() {
    let mut dbg = Debuggee::new();
    let o = dbg.add_object(plain_object());
    o.define_property(&mut dbg, "p", &data_descriptor(Value::Null, true, true))
        .unwrap();
    o.seal(&mut dbg).unwrap();
    assert!(o.is_sealed(&dbg).unwrap());
    let after_once = o.get_own_property_descriptor(&dbg, "p").unwrap();
    o.seal(&mut dbg).unwrap();
    assert!(o.is_sealed(&dbg).unwrap());
    let after_twice = o.get_own_property_descriptor(&dbg, "p").unwrap();
    assert_eq!(after_once.configurable, after_twice.configurable);
    assert_eq!(after_once.writable, after_twice.writable);
    assert_eq!(after_once.value, after_twice.value);
    assert_eq!(after_once.enumerable, after_twice.enumerable);
}

#[test]
fn sealed_but_writable_is_not_frozen() {
    let mut dbg = Debuggee::new();
    let o = dbg.add_object(plain_object());
    o.define_property(&mut dbg, "p", &data_descriptor(Value::Null, true, true))
        .unwrap();
    o.seal(&mut dbg).unwrap();
    assert!(o.is_sealed(&dbg).unwrap());
    assert!(!o.is_frozen(&dbg).unwrap());
    // The value of a writable data property may still change on a sealed
    // object.
    o.define_property(
        &mut dbg,
        "p",
        &PropertyDescriptor {
            configurable: None,
            enumerable: None,
            writable: None,
            value: Some(Value::Boolean(true)),
            get: None,
            set: None,
        },
    )
    .unwrap();
    let d = o.get_own_property_descriptor(&dbg, "p").unwrap();
    assert_eq!(d.value, Some(Value::Boolean(true)));
}

#[test]
fn delete_property_rules() {
    let mut dbg = Debuggee::new();
    let o = dbg.add_object(plain_object());
    o.define_property(&mut dbg, "gone", &data_descriptor(Value::Null, true, true))
        .unwrap();
    o.define_property(&mut dbg, "stuck", &data_descriptor(Value::Null, true, false))
        .unwrap();
    // Deleting an absent property is a no-op success.
    o.delete_property(&mut dbg, "never_there").unwrap();
    o.delete_property(&mut dbg, "gone").unwrap();
    assert_eq!(
        o.get_own_property_names(&dbg).unwrap(),
        vec![String::from("stuck")]
    );
    assert_eq!(
        o.delete_property(&mut dbg, "stuck").unwrap_err(),
        Error::PropertyNotConfigurable
    );
}

#[test]
fn accessor_property_round_trip() {
    let mut dbg = Debuggee::new();
    let getter = dbg.add_object(plain_object());
    let o = dbg.add_object(plain_object());
    let d = PropertyDescriptor {
        configurable: Some(true),
        enumerable: Some(false),
        writable: None,
        value: None,
        get: Some(Value::Object(getter)),
        set: Some(Value::Undefined),
    };
    o.define_property(&mut dbg, "acc", &d).unwrap();
    let back = o.get_own_property_descriptor(&dbg, "acc").unwrap();
    assert_eq!(back.get, Some(Value::Object(getter)));
    assert_eq!(back.set, Some(Value::Undefined));
    assert_eq!(back.writable, None);
    assert_eq!(back.value, None);
}

#[test]
fn call_and_construct_need_a_callable() {
    let mut dbg = Debuggee::new();
    let plain = dbg.add_object(plain_object());
    let mut rec = plain_object();
    rec.callable = true;
    rec.call_completion = CompletionValue::Return(Value::String(String::from("ran")));
    let f = dbg.add_object(rec);
    assert_eq!(
        plain.call(&dbg, &Value::Undefined, &[]).unwrap_err(),
        Error::ObjectNotCallable
    );
    assert_eq!(
        plain.construct(&dbg, &[]).unwrap_err(),
        Error::ObjectNotCallable
    );
    assert_eq!(
        f.call(&dbg, &Value::Undefined, &[]).unwrap(),
        CompletionValue::Return(Value::String(String::from("ran")))
    );
    assert_eq!(
        f.construct(&dbg, &[]).unwrap(),
        CompletionValue::Return(Value::String(String::from("ran")))
    );
}

#[test]
fn only_a_global_acts_as_an_environment() {
    let mut dbg = Debuggee::new();
    let reflected = dbg.add_object(plain_object());
    let genv = dbg.add_environment(EnvironmentRecord {
        env_type: EnvironmentType::Object,
        parent: None,
        bindings: vec![(String::from("g"), Value::Number(7f64.to_bits()))],
        callee: None,
        object: Some(reflected),
        is_debuggee: true,
        optimized_out: false,
        is_proxy: false,
    });
    let mut grec = plain_object();
    grec.global_env = Some(genv);
    grec.class = String::from("global");
    let global = dbg.add_object(grec);
    assert_eq!(
        reflected.as_environment(&dbg).unwrap_err(),
        Error::ObjectNotGlobal
    );
    assert_eq!(global.as_environment(&dbg).unwrap(), genv);
    assert_eq!(
        reflected.execute_in_global(&dbg, "g").unwrap_err(),
        Error::ObjectNotGlobal
    );
    assert_eq!(
        global.execute_in_global(&dbg, "g").unwrap(),
        CompletionValue::Return(Value::Number(7f64.to_bits()))
    );
    let bindings = vec![(String::from("g"), Value::Null)];
    assert_eq!(
        global
            .execute_in_global_with_bindings(&dbg, "g", &bindings)
            .unwrap(),
        CompletionValue::Return(Value::Null)
    );
}

#[test]
fn function_reflection_degrades_to_none() {
    let mut dbg = Debuggee::new();
    let o = dbg.add_object(plain_object());
    assert_eq!(o.name(&dbg), None);
    assert_eq!(o.display_name(&dbg), None);
    assert_eq!(o.parameter_names(&dbg), None);
    assert!(!o.is_arrow_function(&dbg));
    assert!(!o.is_bound_function(&dbg));
    assert_eq!(o.bound_target_function(&dbg), None);
    assert_eq!(o.bound_this(&dbg), Value::Undefined);
    assert_eq!(o.bound_arguments(&dbg), None);
    assert_eq!(o.environment(&dbg), None);
    assert_eq!(o.script(&dbg), None);
    assert_eq!(o.class(&dbg), String::from("Object"));
    assert_eq!(o.get_prototype_of(&dbg), None);
    assert_eq!(o.global(&dbg), Object { index: 0 });
}

#[test]
fn bound_function_reflection() {
    let mut dbg = Debuggee::new();
    let target = dbg.add_object(plain_object());
    let mut rec = plain_object();
    rec.callable = true;
    rec.bound_target = Some(target);
    rec.bound_this = Value::Boolean(true);
    rec.bound_arguments = vec![Value::Null, Value::Boolean(false)];
    let bound = dbg.add_object(rec);
    assert!(bound.is_bound_function(&dbg));
    assert_eq!(bound.bound_target_function(&dbg), Some(target));
    assert_eq!(bound.bound_this(&dbg), Value::Boolean(true));
    assert_eq!(
        bound.bound_arguments(&dbg),
        Some(vec![Value::Null, Value::Boolean(false)])
    );
}
