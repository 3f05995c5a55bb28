use neonia_swarm::templates::{redraw_route_svg, router_preamble, router_route_svg, worker_preamble};

#[test]
fn worker_preamble_is_the_placing_instructions() {
    let agent_id = 7;
    let item_name = "SMELTER";
    let item_width = 180.0f64;
    let item_height = 180.0f64;
    let current_layout_json = "[{\"x\":1.0}]";
    let expected = format!(
                        "You are Spatial Architect {agent_id}. Task: Place the factory block '{item_name}' (Size: {width}x{height}).
                        CURRENT FACTORY LAYOUT: {current_layout}
                        WORKFLOW RULES:
                        1. REASONING: Read the CURRENT FACTORY LAYOUT. Identify the bounding boxes of existing components. Calculate a NEW (x, y) coordinate (between 0-3000 width, 0-3000 height) that provides at least 180px of padding from all existing components. Do NOT guess randomly. Calculate it logically!
                        2. HYPOTHESIS: Output a `[Hypothesis]` block stating your calculated (x, y) coordinates and why they fit.
                        3. SPATIAL VALIDATION: Call `neo_util_svg_layout_validator`. 
                           Pass the CURRENT FACTORY LAYOUT array PLUS YOUR NEW COMPONENT (with `\"allow_overlap\": false`, id: '{item_name}_{agent_id}', your calculated x, y, width: {width}, height: {height}).
                        4. REFLECTION & HEAL: If validation fails (`is_valid: false`), output a `[Reflection]` block, calculate a DIFFERENT empty area, and call the validator AGAIN! 
                           CRITICAL: You MUST loop this step until the validator returns `is_valid: true`.
                        5. FINAL OUTPUT: Do NOT call `neo_util_svg_generator`. Once validated, immediately return EXACTLY this JSON block on a new line at the end, containing your final valid coordinates:
                        {{\"x\": <final_x>, \"y\": <final_y>}}",
                        agent_id = agent_id, item_name = item_name, width = item_width, height = item_height, current_layout = current_layout_json
                    );
    assert_eq!(
        worker_preamble(7, item_name, &item_width.to_string(), &item_height.to_string(), current_layout_json),
        expected
    );
}

#[test]
fn router_preamble_is_the_routing_instructions() {
    let item_name = "WAREHOUSE";
    let current_layout_json = "[]";
    let start_x = 120.5f64;
    let start_y = 80.0f64;
    let end_x = 900.0f64;
    let end_y = 1040.25f64;
    let expected = format!(
                                                        "You are the Logistician Router. Connect the previous block to '{item_name}'.
                                                        CURRENT FACTORY LAYOUT OBSTACLES: {obstacles}
                                                        WORKFLOW RULES:
                                                        1. Call `neo_util_pathfinder` with: start: {{\"x\": {start_x}, \"y\": {start_y}}}, end: {{\"x\": {end_x}, \"y\": {end_y}}}, obstacles: (CURRENT FACTORY LAYOUT), padding: 40
                                                        2. Return EXACTLY: {{\"svg_polyline\": \"<polyline_string>\"}}",
                                                        item_name = item_name, obstacles = current_layout_json, start_x = start_x, start_y = start_y, end_x = end_x, end_y = end_y
                                                    );
    assert_eq!(
        router_preamble(item_name, current_layout_json, &start_x.to_string(), &start_y.to_string(), &end_x.to_string(), &end_y.to_string()),
        expected
    );
}

#[test]
fn redraw_route_svg_is_the_redraw_drawing() {
    let route_id = "route_0123";
    let path_d = "M 1,2 L 3,4";
    let expected = format!(
                                    r##"<svg width="100%" height="100%" style="overflow: visible;" xmlns="http://www.w3.org/2000/svg">
                                        <path id="{}" d="{}" fill="none" stroke="#42f5ce" stroke-width="8" stroke-linejoin="round" filter="drop-shadow(0 0 8px rgba(66, 245, 206, 0.8))"/>
                                        <circle r="6" fill="#f542d4 " filter="drop-shadow(0 0 10px #f542d4 )">
                                            <animateMotion dur="3s" repeatCount="indefinite">
                                                <mpath href="#{}"/>
                                            </animateMotion>
                                            <animate attributeName="r" values="6;10;6" dur="1.5s" repeatCount="indefinite" />
                                        </circle>
                                    </svg>"##,
                                    route_id, path_d, route_id
                                );
    assert_eq!(redraw_route_svg(route_id, path_d), expected);
}

#[test]
fn router_route_svg_is_the_router_drawing() {
    let route_id = "route_ab";
    let path_d = "M 0,0 L 5,5";
    let expected = format!(
                                                                            r##"<svg width="1200" height="800" viewBox="0 0 1200 800" xmlns="http://www.w3.org/2000/svg"><path id="{}" d="{}" fill="none" stroke="#42f5ce" stroke-width="8" stroke-linejoin="round" filter="drop-shadow(0 0 8px rgba(66, 245, 206, 0.8))"/><circle r="6" fill="#f542d4 " filter="drop-shadow(0 0 10px #f542d4 )"><animateMotion dur="3s" repeatCount="indefinite"><mpath href="#{}"/> </animateMotion><animate attributeName="r" values="6;10;6" dur="1.5s" repeatCount="indefinite" /></circle></svg>"##,
                                                                            route_id,
                                                                            path_d,
                                                                            route_id
                                                                        );
    assert_eq!(router_route_svg(route_id, path_d), expected);
}
