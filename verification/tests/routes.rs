use neonia_swarm::routes::{redraw_decision, redraw_step, RedrawAction, redraw_polyline, redraw_route_count, redraw_route_name, route_changed, route_obstacles};

#[test]
fn obstacles_are_all_but_the_two_ends() {
    let routes = vec!["a", "b", "c", "d", "e"];
    assert_eq!(route_obstacles(routes.clone(), 0), vec!["c", "d", "e"]);
    assert_eq!(route_obstacles(routes.clone(), 2), vec!["a", "b", "e"]);
    assert_eq!(route_obstacles(routes, 3), vec!["a", "b", "c"]);
}

#[test]
fn redraw_names_and_counts() {
    assert_eq!(redraw_route_count(5), 3);
    assert_eq!(redraw_route_name(0), "Route Redraw 0");
    assert_eq!(redraw_route_name(14), "Route Redraw 14");
}

#[test]
fn redraw_polyline_is_read_from_the_answer() {
    let text = serde_json::to_string("{\"svg_polyline\":\"1,1 2,2\"}").unwrap();
    let body = format!("{{\"result\":{{\"content\":[{{\"text\":{}}}]}}}}", text);
    assert_eq!(redraw_polyline(&body).unwrap(), "1,1 2,2");
    assert!(redraw_polyline("{\"result\":{\"content\":[]}}").is_none());
}

#[test]
fn changed_routes() {
    assert!(route_changed("1,1 2,2", None));
    assert!(!route_changed("", None));
    assert!(!route_changed("1,1", Some("1,1")));
    assert!(route_changed("1,1", Some("1,2")));
}

#[test]
fn redraw_steps() {
    let text = serde_json::to_string("{\"svg_polyline\":\"1,1 2,2\"}").unwrap();
    let body = format!("{{\"result\":{{\"content\":[{{\"text\":{}}}]}}}}", text);
    assert!(matches!(redraw_step(0, Some("1,1 2,2"), &body), RedrawAction::Keep));
    assert!(matches!(redraw_step(0, None, "{}"), RedrawAction::Keep));
    match redraw_step(4, Some("0,0"), &body) {
        RedrawAction::Redraw { route_name, svg, polyline } => {
            assert_eq!(route_name, "Route Redraw 4");
            assert_eq!(polyline, "1,1 2,2");
            assert!(svg.contains("d=\"M 1,1 L 2,2\""));
            assert!(svg.contains("<path id=\"route_"));
        }
        RedrawAction::Keep => panic!("expected a redraw"),
    }
}

#[test]
fn redraw_decisions_on_given_routes() {
    assert!(matches!(redraw_decision(0, Some("1,1"), Some("1,1".to_string())), RedrawAction::Keep));
    assert!(matches!(redraw_decision(0, Some("1,1"), None), RedrawAction::Keep));
    assert!(matches!(redraw_decision(0, None, Some(String::new())), RedrawAction::Keep));
    match redraw_decision(2, None, Some("0,0 5,0".to_string())) {
        RedrawAction::Redraw { route_name, svg, polyline } => {
            assert_eq!(route_name, "Route Redraw 2");
            assert_eq!(polyline, "0,0 5,0");
            assert!(svg.contains("d=\"M 0,0 L 5,0\""));
        }
        RedrawAction::Keep => panic!("expected a redraw"),
    }
}
