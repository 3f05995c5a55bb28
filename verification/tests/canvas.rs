use neonia_swarm::canvas::{
    agent_index, agent_log_line, classify_event, clean_svg, clear_routes, delete_route,
    is_warning_log, producer_log_line, push_capped, receive_svg, register_part, remove_agent,
    route_name, spawn_agent, svg_layer, Agent, EventKind, PlacedSvg, AGENT_LOG_CAP,
};

#[test]
fn logs_keep_their_newest_lines() {
    let mut logs = Vec::new();
    for i in 0..25 {
        push_capped(&mut logs, format!("line {}", i), AGENT_LOG_CAP);
        assert!(logs.len() <= AGENT_LOG_CAP);
        assert_eq!(logs.last().unwrap(), &format!("line {}", i));
    }
    assert_eq!(logs.first().unwrap(), "line 15");
}

#[test]
fn log_lines() {
    assert_eq!(producer_log_line("done", "x"), "> done: x");
    assert_eq!(agent_log_line("Worker 1", "started", "Placing A"), "[Worker 1] started: Placing A");
    assert!(is_warning_log("[W] [Reflection] \u{26a0}\u{fe0f} Collision"));
    assert!(!is_warning_log("[W] fine"));
}

#[test]
fn events_are_classified() {
    assert_eq!(classify_event("Producer", "started"), EventKind::Producer);
    assert_eq!(classify_event("Worker 1", "started"), EventKind::Started);
    assert_eq!(classify_event("Worker 1", "working"), EventKind::Working);
    assert_eq!(classify_event("Worker 1", "done"), EventKind::Finished);
    assert_eq!(classify_event("Worker 1", "error"), EventKind::Finished);
    assert_eq!(classify_event("Worker 1", "tool_call"), EventKind::Other);
}

#[test]
fn agents_spawn_once_and_leave() {
    let mut agents: Vec<Agent<(i32, i32)>> = Vec::new();
    assert!(spawn_agent(&mut agents, "Worker 1", (1, 1)));
    assert!(!spawn_agent(&mut agents, "Worker 1", (2, 2)));
    assert!(spawn_agent(&mut agents, "Worker 2", (3, 3)));
    assert_eq!(agents.len(), 2);
    assert_eq!(agents[0].role, "Worker 1");
    assert_eq!(agents[0].motion, (1, 1));
    assert_eq!(agent_index(&agents, "Worker 2"), Some(1));
    assert_eq!(agent_index(&agents, "Worker 9"), None);
    let agents = remove_agent(agents, "Worker 1");
    assert_eq!(agents.len(), 1);
    assert_eq!(agents[0].id, "Worker 2");
}

fn placed(name: &str) -> PlacedSvg<u8> {
    PlacedSvg { placement: 0, svg: String::new(), item_name: name.to_string(), part_index: 1 }
}

#[test]
fn routes_are_cleared_and_deleted() {
    let svgs = vec![placed("SMELTER"), placed("Route to SMELTER"), placed("Route Redraw 0"), placed("WAREHOUSE")];
    let cleared = clear_routes(svgs);
    let names: Vec<&str> = cleared.iter().map(|s| s.item_name.as_str()).collect();
    assert_eq!(names, ["SMELTER", "WAREHOUSE"]);
    let cleared_again = clear_routes(cleared);
    assert_eq!(cleared_again.len(), 2);
    let svgs = vec![placed("Route Redraw 0"), placed("A"), placed("Route Redraw 0")];
    let kept = delete_route(svgs, "Route Redraw 0");
    assert_eq!(kept.len(), 1);
    assert_eq!(delete_route(kept, "Route Redraw 0").len(), 1);
    assert!(route_name("Route to X"));
    assert_eq!(svg_layer("Route to X"), 0);
    assert_eq!(svg_layer("SMELTER"), 10);
}

#[test]
fn part_numbers_are_stable() {
    let mut parts = Vec::new();
    assert_eq!(register_part(&mut parts, "SMELTER"), 1);
    assert_eq!(register_part(&mut parts, "WAREHOUSE"), 2);
    assert_eq!(register_part(&mut parts, "SMELTER"), 1);
    assert_eq!(parts, vec!["SMELTER".to_string(), "WAREHOUSE".to_string()]);
}

#[test]
fn building_drawings_get_a_backdrop() {
    let svg = "<svg fill=\"#FFFFFF\"><rect fill=\"#ffffff\" style=\"background-color: white\"/></svg>";
    let out = clean_svg(svg, "SMELTER");
    assert_eq!(
        out,
        "<svg fill=\"none\"><rect width=\"100%\" height=\"100%\" fill=\"rgba(10, 15, 25, 0.95)\" rx=\"8\" stroke=\"none\" /><rect fill=\"none\" style=\"background-color: transparent\"/></svg>"
    );
    let route = clean_svg(svg, "Route to SMELTER");
    assert_eq!(route, "<svg fill=\"none\"><rect fill=\"none\" style=\"background-color: transparent\"/></svg>");
    assert_eq!(clean_svg("no tags", "A"), "no tags");
}

#[test]
fn incoming_drawings_are_named_and_numbered() {
    let mut parts = vec!["SMELTER".to_string()];
    let plan = receive_svg(&mut parts, "<svg/>", None);
    assert_eq!(plan.item_name, "Component");
    assert_eq!(plan.part_index, 2);
    let plan = receive_svg(&mut parts, "<svg/>", Some("SMELTER".to_string()));
    assert_eq!(plan.part_index, 1);
    assert_eq!(plan.svg, "<svg/><rect width=\"100%\" height=\"100%\" fill=\"rgba(10, 15, 25, 0.95)\" rx=\"8\" stroke=\"none\" />");
}
