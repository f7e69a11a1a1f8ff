use debug_control::debuggee::{Debuggee, EnvironmentRecord, FrameRecord, ObjectRecord, ScriptRecord};
use debug_control::environment::EnvironmentType;
use debug_control::error::Error;
use debug_control::frame::{Frame, FrameImplementation, FrameType};
use debug_control::handler::{ControlPoint, PopHandler, StepHandler};
use debug_control::object::Object;
use debug_control::value::{CompletionValue, Value};

fn plain_object() -> ObjectRecord {
    ObjectRecord {
        class: String::from("Object"),
        extensible: true,
        is_proxy: false,
        properties: Vec::new(),
        prototype: None,
        global: Object { index: 0 },
        global_env: None,
        callable: false,
        call_completion: CompletionValue::Return(Value::Undefined),
        is_function: false,
        fn_name: None,
        fn_display_name: None,
        parameter_names: Vec::new(),
        is_arrow: false,
        fn_environment: None,
        fn_script: None,
        bound_target: None,
        bound_this: Value::Undefined,
        bound_arguments: Vec::new(),
    }
}

/// A debuggee with one global object, one environment holding `bindings`,
/// one script and one live call frame at offset 10.
fn call_frame_world(bindings: Vec<(String, Value)>) -> (Debuggee, Frame) {
    let mut dbg = Debuggee::new();
    let global = dbg.add_object(plain_object());
    let env = dbg.add_environment(EnvironmentRecord {
        env_type: EnvironmentType::Declarative,
        parent: None,
        bindings,
        callee: None,
        object: None,
        is_debuggee: true,
        optimized_out: false,
        is_proxy: false,
    });
    let script = dbg.add_script(ScriptRecord {
        url: String::from("test.js"),
        display_name: None,
        start_line: 1,
        line_count: 4,
        source_start: 0,
        source_length: 80,
        global,
        source: None,
        child_scripts: Vec::new(),
        valid_offsets: vec![0, 10, 11, 20],
        line_offsets: vec![(1, vec![0]), (2, vec![10, 11])],
        breakpoints: Vec::new(),
    });
    let frame = dbg.add_frame(FrameRecord {
        frame_type: FrameType::Call,
        implementation: FrameImplementation::Interpreter,
        live: true,
        depth: 0,
        older: None,
        callee: None,
        constructing: false,
        this: Value::Null,
        arguments: vec![Value::Boolean(true)],
        is_debuggee: true,
        environment: Some(env),
        script: Some(script),
        offset: 10,
        pop_handler: None,
        step_handler: None,
    });
    (dbg, frame)
}

#[test]
fn accessors_report_the_live_call_frame() {
    let (dbg, f) = call_frame_world(vec![]);
    assert!(f.is_live(&dbg));
    assert_eq!(f.get_type(&dbg), FrameType::Call);
    assert_eq!(f.implementation(&dbg), FrameImplementation::Interpreter);
    assert_eq!(f.depth(&dbg), 0);
    assert_eq!(f.older(&dbg), None);
    assert!(!f.is_constructing(&dbg));
    assert_eq!(f.this(&dbg), Value::Null);
    assert_eq!(f.arguments(&dbg), Some(vec![Value::Boolean(true)]));
    assert_eq!(f.offset(&dbg), Some(10));
    assert!(f.environment(&dbg).is_some());
    assert!(f.script(&dbg).is_some());
    assert!(f.pop_handler(&dbg).is_none());
    assert!(f.step_handler(&dbg).is_none());
}

#[test]
fn dead_frame_shows_no_environment_offset_or_script() {
    let (mut dbg, f) = call_frame_world(vec![]);
    let observed = dbg.pop_frame(&f, CompletionValue::Return(Value::Null));
    assert_eq!(observed, CompletionValue::Return(Value::Null));
    assert!(!f.is_live(&dbg));
    assert_eq!(f.environment(&dbg), None);
    assert_eq!(f.offset(&dbg), None);
    assert_eq!(f.script(&dbg), None);
    assert_eq!(dbg.invocations.len(), 0);
}

#[test]
fn pop_handler_fires_once_and_redirects_the_completion() {
    let (mut dbg, f) = call_frame_world(vec![]);
    let v = Value::Number(5f64.to_bits());
    let w = Value::String(String::from("boom"));
    f.set_pop_handler(
        &mut dbg,
        Some(PopHandler {
            id: 3,
            response: Some(CompletionValue::Throw(w.clone())),
        }),
    );
    let observed = dbg.pop_frame(&f, CompletionValue::Return(v.clone()));
    assert_eq!(observed, CompletionValue::Throw(w));
    assert_eq!(dbg.invocations.len(), 1);
    let inv = &dbg.invocations[0];
    assert_eq!(inv.control_point, ControlPoint::Pop);
    assert_eq!(inv.handler_id, 3);
    assert_eq!(inv.frame, f);
    assert_eq!(inv.offset, 10);
    assert_eq!(inv.completion, Some(CompletionValue::Return(v)));
    // The frame is gone and its registrations with it.
    assert!(!f.is_live(&dbg));
    assert!(f.pop_handler(&dbg).is_none());
    assert!(f.step_handler(&dbg).is_none());
}

#[test]
fn pop_handler_returning_none_leaves_the_completion_alone() {
    let (mut dbg, f) = call_frame_world(vec![]);
    f.set_pop_handler(&mut dbg, Some(PopHandler { id: 9, response: None }));
    let observed = dbg.pop_frame(&f, CompletionValue::Terminate);
    assert_eq!(observed, CompletionValue::Terminate);
    assert_eq!(dbg.invocations.len(), 1);
    assert_eq!(dbg.invocations[0].completion, Some(CompletionValue::Terminate));
}

#[test]
fn clearing_a_pop_handler_silences_it() {
    let (mut dbg, f) = call_frame_world(vec![]);
    f.set_pop_handler(
        &mut dbg,
        Some(PopHandler { id: 1, response: Some(CompletionValue::Terminate) }),
    );
    f.set_pop_handler(&mut dbg, None);
    let observed = dbg.pop_frame(&f, CompletionValue::Return(Value::Null));
    assert_eq!(observed, CompletionValue::Return(Value::Null));
    assert_eq!(dbg.invocations.len(), 0);
}

#[test]
fn replacing_a_pop_handler_keeps_one_registration() {
    let (mut dbg, f) = call_frame_world(vec![]);
    f.set_pop_handler(
        &mut dbg,
        Some(PopHandler { id: 1, response: Some(CompletionValue::Terminate) }),
    );
    f.set_pop_handler(&mut dbg, Some(PopHandler { id: 2, response: None }));
    assert_eq!(f.pop_handler(&dbg).unwrap().id, 2);
    let observed = dbg.pop_frame(&f, CompletionValue::Return(Value::Null));
    assert_eq!(observed, CompletionValue::Return(Value::Null));
    assert_eq!(dbg.invocations.len(), 1);
    assert_eq!(dbg.invocations[0].handler_id, 2);
}

#[test]
fn step_handler_fires_at_the_new_offset_and_continues_unaltered() {
    let (mut dbg, f) = call_frame_world(vec![]);
    f.set_step_handler(&mut dbg, Some(StepHandler { id: 7, response: None }));
    assert_eq!(f.offset(&dbg), Some(10));
    let resumption = dbg.step_frame(&f, 11);
    assert_eq!(resumption, None);
    assert_eq!(f.offset(&dbg), Some(11));
    assert!(f.is_live(&dbg));
    assert_eq!(dbg.invocations.len(), 1);
    let inv = &dbg.invocations[0];
    assert_eq!(inv.control_point, ControlPoint::Step);
    assert_eq!(inv.handler_id, 7);
    assert_eq!(inv.frame, f);
    assert_eq!(inv.offset, 11);
    assert_eq!(inv.completion, None);
    // Stepping again fires the handler again: once per offset change.
    let resumption = dbg.step_frame(&f, 20);
    assert_eq!(resumption, None);
    assert_eq!(dbg.invocations.len(), 2);
    assert_eq!(dbg.invocations[1].offset, 20);
}

#[test]
fn step_without_handler_changes_the_offset_silently() {
    let (mut dbg, f) = call_frame_world(vec![]);
    let resumption = dbg.step_frame(&f, 11);
    assert_eq!(resumption, None);
    assert_eq!(f.offset(&dbg), Some(11));
    assert_eq!(dbg.invocations.len(), 0);
}

#[test]
fn step_handler_can_force_a_completion() {
    let (mut dbg, f) = call_frame_world(vec![]);
    f.set_step_handler(
        &mut dbg,
        Some(StepHandler { id: 4, response: Some(CompletionValue::Terminate) }),
    );
    let resumption = dbg.step_frame(&f, 11);
    assert_eq!(resumption, Some(CompletionValue::Terminate));
}

#[test]
fn eval_resolves_in_the_frame_scope() {
    let (dbg, f) = call_frame_world(vec![(String::from("x"), Value::Boolean(true))]);
    assert_eq!(
        f.eval(&dbg, "x").unwrap(),
        CompletionValue::Return(Value::Boolean(true))
    );
    assert_eq!(
        f.eval(&dbg, "missing").unwrap(),
        CompletionValue::Return(Value::Undefined)
    );
}

#[test]
fn eval_with_bindings_shadows_the_scope() {
    let (dbg, f) = call_frame_world(vec![(String::from("x"), Value::Boolean(true))]);
    let bindings = vec![
        (String::from("x"), Value::Null),
        (String::from("extra"), Value::Boolean(false)),
    ];
    assert_eq!(
        f.eval_with_bindings(&dbg, "x", &bindings).unwrap(),
        CompletionValue::Return(Value::Null)
    );
    assert_eq!(
        f.eval_with_bindings(&dbg, "extra", &bindings).unwrap(),
        CompletionValue::Return(Value::Boolean(false))
    );
}

#[test]
fn eval_on_a_dead_frame_is_frame_not_debuggee() {
    let (mut dbg, f) = call_frame_world(vec![]);
    dbg.pop_frame(&f, CompletionValue::Terminate);
    assert_eq!(f.eval(&dbg, "x").unwrap_err(), Error::FrameNotDebuggee);
    assert_eq!(
        f.eval_with_bindings(&dbg, "x", &vec![]).unwrap_err(),
        Error::FrameNotDebuggee
    );
}

#[test]
fn non_call_frame_hides_call_data() {
    let (mut dbg, f) = call_frame_world(vec![]);
    let env = dbg.add_environment(EnvironmentRecord {
        env_type: EnvironmentType::Declarative,
        parent: None,
        bindings: vec![],
        callee: None,
        object: None,
        is_debuggee: true,
        optimized_out: false,
        is_proxy: false,
    });
    let script = f.script(&dbg).unwrap();
    let g = dbg.add_frame(FrameRecord {
        frame_type: FrameType::Global,
        implementation: FrameImplementation::Baseline,
        live: true,
        depth: 1,
        older: Some(f),
        callee: None,
        constructing: false,
        this: Value::Boolean(true),
        arguments: vec![Value::Null],
        is_debuggee: true,
        environment: Some(env),
        script: Some(script),
        offset: 0,
        pop_handler: None,
        step_handler: None,
    });
    assert_eq!(g.get_type(&dbg), FrameType::Global);
    assert_eq!(g.arguments(&dbg), None);
    assert_eq!(g.callee(&dbg), None);
    assert_eq!(g.this(&dbg), Value::Undefined);
    assert!(!g.is_constructing(&dbg));
}
