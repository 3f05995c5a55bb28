use neonia_swarm::hooks::DemoHook;

fn hook() -> DemoHook {
    DemoHook { prefix: "[AGENT-3: SMELTER]".to_string(), agent_id: "Worker 3".to_string() }
}

#[test]
fn emit_formats_line_and_event() {
    let e = hook().emit("tool_call", "Generating SVG outline...");
    assert_eq!(e.line, "[Worker 3] tool_call: Generating SVG outline...");
    assert_eq!(e.event.agent_id, "Worker 3");
    assert_eq!(e.event.status, "tool_call");
    assert_eq!(e.event.details, "Generating SVG outline...");
}

#[test]
fn emit_reasoning_formats_line() {
    assert_eq!(hook().emit_reasoning("thinking"), "[Worker 3] thinking");
}

#[test]
fn tool_call_details_per_tool() {
    let h = hook();
    let cases = [
        ("neo_util_svg_generator", "Generating SVG outline..."),
        ("neo_util_svg_validator", "Running deterministic geometric validation..."),
        ("neonia_sys_memory_lesson", "Writing Architectural Lesson to Swarm Memory..."),
        ("neonia_sys_memory_search", "Searching Global Hive-Mind for geometric patterns..."),
        ("neo_util_rng", "Executing neo_util_rng"),
    ];
    for (tool, details) in cases {
        let e = h.on_tool_call(tool);
        assert_eq!(e.event.status, "tool_call");
        assert_eq!(e.event.details, details);
    }
}

#[test]
fn validator_collision_is_reported() {
    let r = hook().on_tool_result("neo_util_svg_layout_validator", "{\"is_valid\":false,\"x\":1}");
    assert_eq!(
        r.reasoning.unwrap(),
        "[Worker 3] [Reflection] \u{26a0}\u{fe0f} Collision detected! Adjusting coordinates..."
    );
    let e = r.emission.unwrap();
    assert_eq!(e.event.status, "tool_result");
    assert_eq!(e.event.details, "\u{26a0}\u{fe0f} Collision detected! Recalculating coordinates...");
}

#[test]
fn validator_success_is_reported() {
    let r = hook().on_tool_result("neo_util_svg_layout_validator", "{\"is_valid\":true}");
    assert_eq!(r.reasoning.unwrap(), "[Worker 3] [Action] \u{2728} Valid placement found. Locking coordinates.");
    assert_eq!(r.emission.unwrap().event.details, "\u{2728} Space found! Coordinates locked.");
}

#[test]
fn validator_other_answer_is_silent() {
    let r = hook().on_tool_result("neo_util_svg_layout_validator", "{\"is_valid\": true}");
    assert!(r.reasoning.is_none());
    assert!(r.emission.is_none());
}

#[test]
fn pathfinder_and_lesson_results() {
    let r = hook().on_tool_result("neo_util_pathfinder", "anything");
    assert_eq!(r.reasoning.unwrap(), "[Worker 3] [Action] \u{1f50c} Routing optimal path...");
    assert_eq!(r.emission.unwrap().line, "[Worker 3] tool_result: \u{1f50c} Path routed.");
    let r = hook().on_tool_result("neonia_sys_memory_lesson", "ok");
    assert!(r.reasoning.is_none());
    assert_eq!(r.emission.unwrap().event.details, "\u{1f310} Lesson propagated to all agents.");
    let r = hook().on_tool_result("neo_util_rng", "4");
    assert!(r.reasoning.is_none() && r.emission.is_none());
}
