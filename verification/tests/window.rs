use neonia_swarm::window::{AgentEffect, CanvasState};

fn event(s: &mut CanvasState<(i32, i32), u8>, id: &str, status: &str, target: bool) -> AgentEffect {
    s.on_agent_event(id, status, "d", (0, 0), target)
}

#[test]
fn producer_events_fill_the_producer_panel_only() {
    let mut s: CanvasState<(i32, i32), u8> = CanvasState::new();
    for i in 0..20 {
        assert_eq!(s.on_agent_event("Producer", "started", &format!("{}", i), (1, 1), false), AgentEffect::Nothing);
    }
    assert_eq!(s.producer_logs.len(), 15);
    assert_eq!(s.producer_logs[0], "> started: 5");
    assert_eq!(s.producer_logs[14], "> started: 19");
    assert!(s.agents.is_empty());
    assert!(s.logs.is_empty());
}

#[test]
fn workers_come_and_go() {
    let mut s: CanvasState<(i32, i32), u8> = CanvasState::new();
    assert_eq!(event(&mut s, "Worker 1", "started", false), AgentEffect::Spawned);
    assert_eq!(event(&mut s, "Worker 1", "started", false), AgentEffect::Nothing);
    assert_eq!(event(&mut s, "Worker 2", "started", false), AgentEffect::Spawned);
    assert_eq!(s.svg_count, 2);
    assert_eq!(event(&mut s, "Worker 2", "working", true), AgentEffect::Retarget(1));
    assert_eq!(event(&mut s, "Worker 2", "working", false), AgentEffect::Nothing);
    assert_eq!(event(&mut s, "Worker 9", "working", true), AgentEffect::Nothing);
    assert_eq!(event(&mut s, "Worker 1", "done", false), AgentEffect::Nothing);
    assert_eq!(s.agents.len(), 1);
    assert_eq!(s.agents[0].id, "Worker 2");
    event(&mut s, "Worker 2", "error", false);
    assert!(s.agents.is_empty());
    assert_eq!(s.logs.len(), 8);
    assert_eq!(s.logs[7], "[Worker 2] error: d");
    for _ in 0..5 {
        event(&mut s, "Worker 3", "tool_call", false);
    }
    assert_eq!(s.logs.len(), 10);
}

#[test]
fn drawings_are_numbered_and_routes_cleared() {
    let mut s: CanvasState<(i32, i32), u8> = CanvasState::new();
    assert_eq!(s.on_svg("<svg/>", Some("SMELTER".to_string()), vec![1, 2]), 1);
    assert_eq!(s.on_svg("<svg/>", Some("Route to SMELTER".to_string()), vec![3]), 2);
    assert_eq!(s.on_svg("<svg/>", Some("SMELTER".to_string()), vec![4]), 1);
    assert_eq!(s.svgs.len(), 4);
    assert_eq!(s.svgs[1].placement, 2);
    assert_eq!(s.part_types, vec!["SMELTER".to_string(), "Route to SMELTER".to_string()]);
    s.on_delete_route("SMELTER");
    assert_eq!(s.svgs.len(), 1);
    s.on_clear_routes();
    assert!(s.svgs.is_empty());
    assert_eq!(s.part_types.len(), 2);
}

#[test]
fn reasoning_stream_is_capped() {
    let mut s: CanvasState<(i32, i32), u8> = CanvasState::new();
    for i in 0..40 {
        s.on_reasoning(format!("r{}", i));
    }
    assert_eq!(s.reasoning_logs.len(), 15);
    assert_eq!(s.reasoning_logs[0], "r25");
}

#[test]
fn only_new_started_agents_spawn() {
    let mut s: CanvasState<(i32, i32), u8> = CanvasState::new();
    assert!(s.would_spawn("Worker 1", "started"));
    assert!(!s.would_spawn("Producer", "started"));
    assert!(!s.would_spawn("Worker 1", "done"));
    event(&mut s, "Worker 1", "started", false);
    assert!(!s.would_spawn("Worker 1", "started"));
}
