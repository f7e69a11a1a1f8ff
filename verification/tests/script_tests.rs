use debug_control::debuggee::{
    Debuggee, EnvironmentRecord, FrameRecord, ObjectRecord, ScriptRecord, SourceRecord,
};
use debug_control::environment::EnvironmentType;
use debug_control::error::Error;
use debug_control::frame::{Frame, FrameImplementation, FrameType};
use debug_control::handler::{BreakpointHandler, ControlPoint};
use debug_control::object::Object;
use debug_control::script::Script;
use debug_control::source::IntroductionType;
use debug_control::value::{CompletionValue, Value};

fn plain_object() -> ObjectRecord {
    ObjectRecord {
        class: String::from("Object"),
        extensible: true,
        is_proxy: false,
        properties: Vec::new(),
        prototype: None,
        global: Object { index: 0 },
        global_env: None,
        callable: false,
        call_completion: CompletionValue::Return(Value::Undefined),
        is_function: false,
        fn_name: None,
        fn_display_name: None,
        parameter_names: Vec::new(),
        is_arrow: false,
        fn_environment: None,
        fn_script: None,
        bound_target: None,
        bound_this: Value::Undefined,
        bound_arguments: Vec::new(),
    }
}

fn script_world() -> (Debuggee, Script) {
    let mut dbg = Debuggee::new();
    let global = dbg.add_object(plain_object());
    let script = dbg.add_script(ScriptRecord {
        url: String::from("app.js"),
        display_name: Some(String::from("app")),
        start_line: 3,
        line_count: 40,
        source_start: 12,
        source_length: 500,
        global,
        source: None,
        child_scripts: Vec::new(),
        valid_offsets: vec![0, 10, 11, 20],
        line_offsets: vec![(3, vec![0]), (4, vec![10, 11]), (9, vec![20])],
        breakpoints: Vec::new(),
    });
    (dbg, script)
}

fn frame_on(dbg: &mut Debuggee, script: Script, offset: u32) -> Frame {
    let env = dbg.add_environment(EnvironmentRecord {
        env_type: EnvironmentType::Declarative,
        parent: None,
        bindings: vec![],
        callee: None,
        object: None,
        is_debuggee: true,
        optimized_out: false,
        is_proxy: false,
    });
    dbg.add_frame(FrameRecord {
        frame_type: FrameType::Call,
        implementation: FrameImplementation::Ion,
        live: true,
        depth: 0,
        older: None,
        callee: None,
        constructing: false,
        this: Value::Undefined,
        arguments: vec![],
        is_debuggee: true,
        environment: Some(env),
        script: Some(script),
        offset,
        pop_handler: None,
        step_handler: None,
    })
}

#[test]
fn set_breakpoint_at_invalid_offset_fails() {
    let (mut dbg, s) = script_world();
    let h = BreakpointHandler { id: 1, response: None };
    assert_eq!(
        s.set_breakpoint(&mut dbg, 7, h).unwrap_err(),
        Error::OffsetNotValid
    );
    assert!(s.get_breakpoints(&dbg, 7).is_empty());
}

#[test]
fn set_breakpoint_then_get_breakpoints_includes_it() {
    let (mut dbg, s) = script_world();
    s.set_breakpoint(&mut dbg, 10, BreakpointHandler { id: 42, response: None })
        .unwrap();
    let at_10 = s.get_breakpoints(&dbg, 10);
    assert_eq!(at_10.len(), 1);
    assert_eq!(at_10[0].id, 42);
    assert!(s.get_breakpoints(&dbg, 20).is_empty());
}

#[test]
fn breakpoints_at_one_offset_keep_registration_order() {
    let (mut dbg, s) = script_world();
    s.set_breakpoint(&mut dbg, 10, BreakpointHandler { id: 1, response: None })
        .unwrap();
    s.set_breakpoint(&mut dbg, 10, BreakpointHandler { id: 2, response: None })
        .unwrap();
    s.set_breakpoint(&mut dbg, 20, BreakpointHandler { id: 3, response: None })
        .unwrap();
    let at_10 = s.get_breakpoints(&dbg, 10);
    assert_eq!(at_10.len(), 2);
    assert_eq!(at_10[0].id, 1);
    assert_eq!(at_10[1].id, 2);
    assert_eq!(s.get_breakpoints(&dbg, 20).len(), 1);
}

#[test]
fn clear_breakpoints_validates_and_clears_one_offset() {
    let (mut dbg, s) = script_world();
    s.set_breakpoint(&mut dbg, 10, BreakpointHandler { id: 1, response: None })
        .unwrap();
    s.set_breakpoint(&mut dbg, 20, BreakpointHandler { id: 2, response: None })
        .unwrap();
    assert_eq!(
        s.clear_breakpoints(&mut dbg, 7).unwrap_err(),
        Error::OffsetNotValid
    );
    s.clear_breakpoints(&mut dbg, 10).unwrap();
    assert!(s.get_breakpoints(&dbg, 10).is_empty());
    assert_eq!(s.get_breakpoints(&dbg, 20).len(), 1);
    // Clearing a valid offset with nothing registered succeeds.
    s.clear_breakpoints(&mut dbg, 11).unwrap();
}

#[test]
fn clear_all_breakpoints_empties_every_offset() {
    let (mut dbg, s) = script_world();
    s.set_breakpoint(&mut dbg, 10, BreakpointHandler { id: 1, response: None })
        .unwrap();
    s.set_breakpoint(&mut dbg, 11, BreakpointHandler { id: 2, response: None })
        .unwrap();
    s.set_breakpoint(&mut dbg, 20, BreakpointHandler { id: 3, response: None })
        .unwrap();
    s.clear_all_breakpoints(&mut dbg);
    assert!(s.get_breakpoints(&dbg, 10).is_empty());
    assert!(s.get_breakpoints(&dbg, 11).is_empty());
    assert!(s.get_breakpoints(&dbg, 20).is_empty());
}

#[test]
fn breakpoint_hit_fires_all_handlers_in_order() {
    let (mut dbg, s) = script_world();
    let f = frame_on(&mut dbg, s, 10);
    s.set_breakpoint(&mut dbg, 10, BreakpointHandler { id: 1, response: None })
        .unwrap();
    s.set_breakpoint(
        &mut dbg,
        10,
        BreakpointHandler { id: 2, response: Some(CompletionValue::Terminate) },
    )
    .unwrap();
    let resumption = dbg.breakpoint_hit(&f);
    assert_eq!(resumption, Some(CompletionValue::Terminate));
    assert_eq!(dbg.invocations.len(), 2);
    assert_eq!(dbg.invocations[0].handler_id, 1);
    assert_eq!(dbg.invocations[1].handler_id, 2);
    assert_eq!(dbg.invocations[0].control_point, ControlPoint::Breakpoint);
    assert_eq!(dbg.invocations[0].offset, 10);
    assert_eq!(dbg.invocations[0].frame, f);
    assert_eq!(dbg.invocations[0].completion, None);
}

#[test]
fn breakpoint_hit_adopts_the_first_response() {
    let (mut dbg, s) = script_world();
    let f = frame_on(&mut dbg, s, 10);
    s.set_breakpoint(
        &mut dbg,
        10,
        BreakpointHandler {
            id: 1,
            response: Some(CompletionValue::Return(Value::Null)),
        },
    )
    .unwrap();
    s.set_breakpoint(
        &mut dbg,
        10,
        BreakpointHandler { id: 2, response: Some(CompletionValue::Terminate) },
    )
    .unwrap();
    let resumption = dbg.breakpoint_hit(&f);
    assert_eq!(resumption, Some(CompletionValue::Return(Value::Null)));
    assert_eq!(dbg.invocations.len(), 2);
}

#[test]
fn breakpoint_hit_without_handlers_continues_silently() {
    let (mut dbg, s) = script_world();
    let f = frame_on(&mut dbg, s, 20);
    let resumption = dbg.breakpoint_hit(&f);
    assert_eq!(resumption, None);
    assert!(dbg.invocations.is_empty());
}

#[test]
fn line_offset_maps_are_many_to_many() {
    let (dbg, s) = script_world();
    assert_eq!(s.get_line_offsets(&dbg, 4), vec![10, 11]);
    assert_eq!(s.get_line_offsets(&dbg, 3), vec![0]);
    assert!(s.get_line_offsets(&dbg, 8).is_empty());
    let all = s.get_all_line_offsets(&dbg);
    assert_eq!(all.len(), 3);
    assert_eq!(all[0], (3, vec![0]));
    assert_eq!(all[1], (4, vec![10, 11]));
    assert_eq!(all[2], (9, vec![20]));
}

#[test]
fn script_getters_report_the_record() {
    let (mut dbg, s) = script_world();
    assert_eq!(s.url(&dbg), String::from("app.js"));
    assert_eq!(s.display_name(&dbg), Some(String::from("app")));
    assert_eq!(s.start_line(&dbg), 3);
    assert_eq!(s.line_count(&dbg), 40);
    assert_eq!(s.source_start(&dbg), 12);
    assert_eq!(s.source_length(&dbg), 500);
    assert_eq!(s.global(&dbg), Object { index: 0 });
    assert_eq!(s.source(&dbg), None);
    assert!(s.get_child_scripts(&dbg).is_empty());
    let child = dbg.add_script(ScriptRecord {
        url: String::from("child.js"),
        display_name: None,
        start_line: 1,
        line_count: 1,
        source_start: 0,
        source_length: 5,
        global: Object { index: 0 },
        source: None,
        child_scripts: vec![s],
        valid_offsets: vec![0],
        line_offsets: vec![],
        breakpoints: vec![],
    });
    assert_eq!(child.get_child_scripts(&dbg), vec![s]);
}

#[test]
fn source_is_purely_descriptive() {
    let (mut dbg, s) = script_world();
    let element = dbg.add_object(plain_object());
    let src = dbg.add_source(SourceRecord {
        text: String::from("function f() {}"),
        url: String::from("app.js"),
        canonical_id: String::from("source-17"),
        element: Some(element),
        element_attribute_name: Some(String::from("onclick")),
        introduction_offset: Some(10),
        introduction_script: Some(s),
        introduction_type: Some(IntroductionType::EventHandler),
        source_map_url: None,
    });
    assert_eq!(src.text(&dbg), String::from("function f() {}"));
    assert_eq!(src.url(&dbg), String::from("app.js"));
    assert_eq!(src.canonical_id(&dbg), String::from("source-17"));
    assert_eq!(src.element(&dbg), Some(element));
    assert_eq!(
        src.element_attribute_name(&dbg),
        Some(String::from("onclick"))
    );
    assert_eq!(src.introduction_offset(&dbg), Some(10));
    assert_eq!(src.introduction_script(&dbg), Some(s));
    assert_eq!(src.introduction_type(&dbg), Some(IntroductionType::EventHandler));
    assert_eq!(src.source_map_url(&dbg), None);

    // Two wrappers to the same source compare equal by identifier.
    let other_wrapper = src;
    assert_eq!(src.canonical_id(&dbg), other_wrapper.canonical_id(&dbg));
}

#[test]
fn end_to_end_step_scenario() {
    // A step handler on a live call frame at offset 10; the debuggee
    // advances one bytecode step to offset 11; the handler fires once with
    // the frame reporting offset 11, answers None, and the debuggee
    // continues unaltered.
    let (mut dbg, s) = script_world();
    let f = frame_on(&mut dbg, s, 10);
    f.set_step_handler(
        &mut dbg,
        Some(debug_control::handler::StepHandler { id: 77, response: None }),
    );
    assert_eq!(f.get_type(&dbg), FrameType::Call);
    assert!(f.is_live(&dbg));
    assert_eq!(f.offset(&dbg), Some(10));
    let resumption = dbg.step_frame(&f, 11);
    assert_eq!(resumption, None);
    assert_eq!(f.offset(&dbg), Some(11));
    assert_eq!(dbg.invocations.len(), 1);
    assert_eq!(dbg.invocations[0].handler_id, 77);
    assert_eq!(dbg.invocations[0].offset, 11);
    assert_eq!(dbg.invocations[0].control_point, ControlPoint::Step);
    assert!(f.is_live(&dbg));
}
