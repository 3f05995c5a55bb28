use neonia_swarm::consumer::{
    after_placement, answer_block, FIRST_ITEM_PAUSE_SECS, POLL_INTERVAL_MS, on_worker_answer, router_answer, WorkerStep,
    clean_uri, component_id, failed_event, finished_event, item_name, item_svg_file, json_block,
    json_block_bounds, needs_background_redraw, placement_request, previous_block_index,
    route_path, route_to_name, router_action, router_name, router_prefix, started_event,
    svg_source, without_last_two, worker_name, worker_prefix, ConsumerState, RouterAction,
    SvgSource,
};

#[test]
fn popped_items_get_consecutive_workers_and_one_pause() {
    let mut c = ConsumerState::new();
    let a = c.on_item_popped("{\"name\":\"SMELTER\",\"width\":180.0,\"height\":180.0,\"svg_file\":\"smelter.svg\"}");
    assert_eq!(a.agent_id, 1);
    assert_eq!(a.item_name, "SMELTER");
    assert_eq!(a.svg_file, "smelter.svg");
    assert!(a.pause_after);
    let b = c.on_item_popped("raw text item");
    assert_eq!(b.agent_id, 2);
    assert_eq!(b.item_name, "raw text item");
    assert_eq!(b.svg_file, "");
    assert!(!b.pause_after);
    assert_eq!(c.items_processed, 2);
}

#[test]
fn item_fields_fall_back() {
    assert_eq!(item_name("{\"width\": 10}"), "{\"width\": 10}");
    assert_eq!(item_name("{\"name\": 5}"), "{\"name\": 5}");
    assert_eq!(item_svg_file("{\"svg_file\": \"a.svg\"}"), "a.svg");
    assert_eq!(item_svg_file("[1,2]"), "");
}

#[test]
fn agent_names_and_events() {
    assert_eq!(worker_name(12), "Worker 12");
    assert_eq!(worker_prefix(3, "SMELTER"), "[AGENT-3: SMELTER]");
    assert_eq!(router_name(3), "Router 3");
    assert_eq!(router_prefix(3, "SMELTER"), "[ROUTER-3: SMELTER]");
    assert_eq!(component_id("SMELTER", 3), "SMELTER_3");
    assert_eq!(placement_request("SMELTER"), "Place the SMELTER on the factory layout and generate its SVG.");
    let e = started_event("Worker 3", "SMELTER");
    assert_eq!((e.status.as_str(), e.details.as_str()), ("started", "Placing SMELTER"));
    let e = finished_event("Worker 3");
    assert_eq!((e.status.as_str(), e.details.as_str()), ("done", "Finished!"));
    let e = failed_event("Worker 3", "timeout");
    assert_eq!((e.agent_id.as_str(), e.status.as_str(), e.details.as_str()), ("Worker 3", "error", "timeout"));
}

#[test]
fn json_block_is_first_open_to_last_close() {
    let reply = "[Hypothesis] at {x}\nresult: {\"x\": 10.5, \"y\": 20} done";
    let (open, close) = json_block_bounds(reply).unwrap();
    let start = reply.find('{').unwrap();
    let end = reply.rfind('}').unwrap();
    assert_eq!(json_block(reply, open, close), &reply[start..=end]);
    assert!(json_block_bounds("no braces").is_none());
    assert!(json_block_bounds("only {").is_none());
    let (o, c) = json_block_bounds("}{").unwrap();
    assert_eq!(json_block("}{", o, c), "");
    let (o, c) = json_block_bounds("x}\u{e9}{").unwrap();
    assert!(o > c + 1);
}

#[test]
fn uris_lose_their_wrapping() {
    assert_eq!(clean_uri("\"ui://svg/abc\"."), "ui://svg/abc");
    assert_eq!(clean_uri("`<[{x}]>`"), "x");
    assert_eq!(clean_uri("..."), "");
    for u in ["\"'ui://x'\"", "<<a>>", "plain"] {
        let once = clean_uri(u);
        assert_eq!(clean_uri(&once), once);
    }
}

#[test]
fn svg_sources() {
    match svg_source("smelter.svg", "{}") {
        SvgSource::File(p) => assert_eq!(p, "assets/components/smelter.svg"),
        _ => panic!("expected a file"),
    }
    match svg_source("", "{\"x\":1,\"svg_uri\":\"'ui://a.svg'\"}") {
        SvgSource::Resource(u) => assert_eq!(u, "ui://a.svg"),
        _ => panic!("expected a resource"),
    }
    assert!(matches!(svg_source("", "{\"x\":1}"), SvgSource::Nothing));
}

#[test]
fn layout_follow_ups() {
    assert_eq!(previous_block_index(0), None);
    assert_eq!(previous_block_index(1), None);
    assert_eq!(previous_block_index(2), Some(0));
    assert_eq!(previous_block_index(5), Some(3));
    assert!(!needs_background_redraw(2));
    assert!(needs_background_redraw(3));
    assert_eq!(without_last_two(vec![1, 2, 3, 4]), vec![1, 2]);
    assert_eq!(without_last_two(vec![1]), Vec::<i32>::new());
}

#[test]
fn router_answers() {
    assert_eq!(route_path("1,2 3,4 5,6"), "M 1,2 L 3,4 L 5,6");
    assert_eq!(route_to_name("SMELTER"), "Route to SMELTER");
    match router_action("{\"svg_polyline\": \"0,0 10,0\"}") {
        RouterAction::Draw(d) => assert_eq!(d, "M 0,0 L 10,0"),
        _ => panic!("expected a route"),
    }
    match router_action("{\"svg_uri\": \"<ui://r.svg>\"}") {
        RouterAction::Fetch(u) => assert_eq!(u, "ui://r.svg"),
        _ => panic!("expected a resource"),
    }
    assert!(matches!(router_action("{not json}"), RouterAction::Nothing));
}

#[test]
fn polls_without_items_change_nothing() {
    let mut c = ConsumerState::new();
    assert!(c.on_poll(None).is_none());
    assert_eq!(c.items_processed, 0);
    let p = c.on_poll(Some("{\"name\":\"A\"}")).unwrap();
    assert_eq!((p.agent_id, p.item_name.as_str(), p.pause_after), (1, "A", true));
    assert!(c.on_poll(None).is_none());
    assert_eq!(c.items_processed, 1);
}

#[test]
fn worker_answers_lead_to_steps() {
    match on_worker_answer("Worker 1", "", Err("boom".to_string())) {
        WorkerStep::Failed(e) => assert_eq!((e.status.as_str(), e.details.as_str()), ("error", "boom")),
        _ => panic!("expected a failure"),
    }
    match on_worker_answer("Worker 1", "a.svg", Ok("ok {\"x\": 1} end".to_string())) {
        WorkerStep::Finished { event, placement: Some((block, SvgSource::File(path))) } => {
            assert_eq!(event.details, "Finished!");
            assert_eq!(block, "{\"x\": 1}");
            assert_eq!(path, "assets/components/a.svg");
        }
        _ => panic!("expected a placement"),
    }
    match on_worker_answer("Worker 1", "a.svg", Ok("x{oops}y".to_string())) {
        WorkerStep::Finished { event, placement: None } => assert_eq!(event.status, "done"),
        _ => panic!("a block that is not JSON places nothing"),
    }
    match on_worker_answer("Worker 1", "", Ok("no block".to_string())) {
        WorkerStep::Finished { placement: None, .. } => {}
        _ => panic!("expected no placement"),
    }
    assert_eq!(answer_block("a {b} c }").unwrap(), "{b} c }");
    assert!(matches!(router_answer("x {\"svg_polyline\": \"1,1 2,2\"} y"), RouterAction::Draw(d) if d == "M 1,1 L 2,2"));
    assert!(matches!(router_answer("none"), RouterAction::Nothing));
    let f = after_placement(3);
    assert_eq!((f.previous, f.redraw), (Some(1), true));
}

#[test]
fn consumer_timings() {
    assert_eq!(POLL_INTERVAL_MS, 500);
    assert_eq!(FIRST_ITEM_PAUSE_SECS, 15);
    assert_eq!(neonia_swarm::producer::BATCH_PERIOD_SECS, 15);
}
