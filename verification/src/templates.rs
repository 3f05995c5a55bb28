//! The texts the swarm sends to its agents and the drawings of routes.
use vstd::prelude::*;
use crate::text::{decimal, push_decimal};

verus! {

/// The instructions of the worker agent number `agent_id` that places the building `item_name` of the given size on the layout `layout` (JSON text).
pub open spec fn worker_preamble_text(agent_id: nat, item_name: Seq<char>, width: Seq<char>, height: Seq<char>, layout: Seq<char>) -> Seq<char> {
    "You are Spatial Architect "@
        + decimal(agent_id)
        + ". Task: Place the factory block '"@
        + item_name
        + "' (Size: "@
        + width
        + "x"@
        + height
        + ").\n                        CURRENT FACTORY LAYOUT: "@
        + layout
        + "\n                        WORKFLOW RULES:\n                        1. REASONING: Read the CURRENT FACTORY LAYOUT. Identify the bounding boxes of existing components. Calculate a NEW (x, y) coordinate (between 0-3000 width, 0-3000 height) that provides at least 180px of padding from all existing components. Do NOT guess randomly. Calculate it logically!\n                        2. HYPOTHESIS: Output a `[Hypothesis]` block stating your calculated (x, y) coordinates and why they fit.\n                        3. SPATIAL VALIDATION: Call `neo_util_svg_layout_validator`. \n                           Pass the CURRENT FACTORY LAYOUT array PLUS YOUR NEW COMPONENT (with `\"allow_overlap\": false`, id: '"@
        + item_name
        + "_"@
        + decimal(agent_id)
        + "', your calculated x, y, width: "@
        + width
        + ", height: "@
        + height
        + ").\n                        4. REFLECTION & HEAL: If validation fails (`is_valid: false`), output a `[Reflection]` block, calculate a DIFFERENT empty area, and call the validator AGAIN! \n                           CRITICAL: You MUST loop this step until the validator returns `is_valid: true`.\n                        5. FINAL OUTPUT: Do NOT call `neo_util_svg_generator`. Once validated, immediately return EXACTLY this JSON block on a new line at the end, containing your final valid coordinates:\n                        {\"x\": <final_x>, \"y\": <final_y>}"@
}

/// The instructions of a placing worker; the size comes as the text that `{}` prints for it.
pub fn worker_preamble(agent_id: u64, item_name: &str, width: &str, height: &str, layout: &str) -> (r: String)
    ensures
        r@ == worker_preamble_text(agent_id as nat, item_name@, width@, height@, layout@),
{
    let mut r = String::from_str("You are Spatial Architect ");
    push_decimal(&mut r, agent_id);
    r.append(". Task: Place the factory block '");
    r.append(item_name);
    r.append("' (Size: ");
    r.append(width);
    r.append("x");
    r.append(height);
    r.append(").\n                        CURRENT FACTORY LAYOUT: ");
    r.append(layout);
    r.append("\n                        WORKFLOW RULES:\n                        1. REASONING: Read the CURRENT FACTORY LAYOUT. Identify the bounding boxes of existing components. Calculate a NEW (x, y) coordinate (between 0-3000 width, 0-3000 height) that provides at least 180px of padding from all existing components. Do NOT guess randomly. Calculate it logically!\n                        2. HYPOTHESIS: Output a `[Hypothesis]` block stating your calculated (x, y) coordinates and why they fit.\n                        3. SPATIAL VALIDATION: Call `neo_util_svg_layout_validator`. \n                           Pass the CURRENT FACTORY LAYOUT array PLUS YOUR NEW COMPONENT (with `\"allow_overlap\": false`, id: '");
    r.append(item_name);
    r.append("_");
    push_decimal(&mut r, agent_id);
    r.append("', your calculated x, y, width: ");
    r.append(width);
    r.append(", height: ");
    r.append(height);
    r.append(").\n                        4. REFLECTION & HEAL: If validation fails (`is_valid: false`), output a `[Reflection]` block, calculate a DIFFERENT empty area, and call the validator AGAIN! \n                           CRITICAL: You MUST loop this step until the validator returns `is_valid: true`.\n                        5. FINAL OUTPUT: Do NOT call `neo_util_svg_generator`. Once validated, immediately return EXACTLY this JSON block on a new line at the end, containing your final valid coordinates:\n                        {\"x\": <final_x>, \"y\": <final_y>}");
    r
}

/// The instructions of the router agent that connects the previous building to `item_name` from the point (`start_x`, `start_y`) to the point (`end_x`, `end_y`) around the obstacles `obstacles` (JSON text).
pub open spec fn router_preamble_text(item_name: Seq<char>, obstacles: Seq<char>, start_x: Seq<char>, start_y: Seq<char>, end_x: Seq<char>, end_y: Seq<char>) -> Seq<char> {
    "You are the Logistician Router. Connect the previous block to '"@
        + item_name
        + "'.\n                                                        CURRENT FACTORY LAYOUT OBSTACLES: "@
        + obstacles
        + "\n                                                        WORKFLOW RULES:\n                                                        1. Call `neo_util_pathfinder` with: start: {\"x\": "@
        + start_x
        + ", \"y\": "@
        + start_y
        + "}, end: {\"x\": "@
        + end_x
        + ", \"y\": "@
        + end_y
        + "}, obstacles: (CURRENT FACTORY LAYOUT), padding: 40\n                                                        2. Return EXACTLY: {\"svg_polyline\": \"<polyline_string>\"}"@
}

/// The instructions of a routing agent; the coordinates come as the text that `{}` prints for them.
pub fn router_preamble(item_name: &str, obstacles: &str, start_x: &str, start_y: &str, end_x: &str, end_y: &str) -> (r: String)
    ensures
        r@ == router_preamble_text(item_name@, obstacles@, start_x@, start_y@, end_x@, end_y@),
{
    let mut r = String::from_str("You are the Logistician Router. Connect the previous block to '");
    r.append(item_name);
    r.append("'.\n                                                        CURRENT FACTORY LAYOUT OBSTACLES: ");
    r.append(obstacles);
    r.append("\n                                                        WORKFLOW RULES:\n                                                        1. Call `neo_util_pathfinder` with: start: {\"x\": ");
    r.append(start_x);
    r.append(", \"y\": ");
    r.append(start_y);
    r.append("}, end: {\"x\": ");
    r.append(end_x);
    r.append(", \"y\": ");
    r.append(end_y);
    r.append("}, obstacles: (CURRENT FACTORY LAYOUT), padding: 40\n                                                        2. Return EXACTLY: {\"svg_polyline\": \"<polyline_string>\"}");
    r
}

/// The drawing of a redrawn route: the path `path_d` named `route_id`, with a pulse that runs along it.
pub open spec fn redraw_route_svg_text(route_id: Seq<char>, path_d: Seq<char>) -> Seq<char> {
    "<svg width=\"100%\" height=\"100%\" style=\"overflow: visible;\" xmlns=\"http://www.w3.org/2000/svg\">\n                                        <path id=\""@
        + route_id
        + "\" d=\""@
        + path_d
        + "\" fill=\"none\" stroke=\"#42f5ce\" stroke-width=\"8\" stroke-linejoin=\"round\" filter=\"drop-shadow(0 0 8px rgba(66, 245, 206, 0.8))\"/>\n                                        <circle r=\"6\" fill=\"#f542d4 \" filter=\"drop-shadow(0 0 10px #f542d4 )\">\n                                            <animateMotion dur=\"3s\" repeatCount=\"indefinite\">\n                                                <mpath href=\"#"@
        + route_id
        + "\"/>\n                                            </animateMotion>\n                                            <animate attributeName=\"r\" values=\"6;10;6\" dur=\"1.5s\" repeatCount=\"indefinite\" />\n                                        </circle>\n                                    </svg>"@
}

/// The drawing of a redrawn route.
pub fn redraw_route_svg(route_id: &str, path_d: &str) -> (r: String)
    ensures
        r@ == redraw_route_svg_text(route_id@, path_d@),
{
    let mut r = String::from_str("<svg width=\"100%\" height=\"100%\" style=\"overflow: visible;\" xmlns=\"http://www.w3.org/2000/svg\">\n                                        <path id=\"");
    r.append(route_id);
    r.append("\" d=\"");
    r.append(path_d);
    r.append("\" fill=\"none\" stroke=\"#42f5ce\" stroke-width=\"8\" stroke-linejoin=\"round\" filter=\"drop-shadow(0 0 8px rgba(66, 245, 206, 0.8))\"/>\n                                        <circle r=\"6\" fill=\"#f542d4 \" filter=\"drop-shadow(0 0 10px #f542d4 )\">\n                                            <animateMotion dur=\"3s\" repeatCount=\"indefinite\">\n                                                <mpath href=\"#");
    r.append(route_id);
    r.append("\"/>\n                                            </animateMotion>\n                                            <animate attributeName=\"r\" values=\"6;10;6\" dur=\"1.5s\" repeatCount=\"indefinite\" />\n                                        </circle>\n                                    </svg>");
    r
}

/// The drawing of a route that a router agent found: the path `path_d` named `route_id` on a 1200 by 800 canvas, with a pulse that runs along it.
pub open spec fn router_route_svg_text(route_id: Seq<char>, path_d: Seq<char>) -> Seq<char> {
    "<svg width=\"1200\" height=\"800\" viewBox=\"0 0 1200 800\" xmlns=\"http://www.w3.org/2000/svg\"><path id=\""@
        + route_id
        + "\" d=\""@
        + path_d
        + "\" fill=\"none\" stroke=\"#42f5ce\" stroke-width=\"8\" stroke-linejoin=\"round\" filter=\"drop-shadow(0 0 8px rgba(66, 245, 206, 0.8))\"/><circle r=\"6\" fill=\"#f542d4 \" filter=\"drop-shadow(0 0 10px #f542d4 )\"><animateMotion dur=\"3s\" repeatCount=\"indefinite\"><mpath href=\"#"@
        + route_id
        + "\"/> </animateMotion><animate attributeName=\"r\" values=\"6;10;6\" dur=\"1.5s\" repeatCount=\"indefinite\" /></circle></svg>"@
}

/// The drawing of a route found by a router agent.
pub fn router_route_svg(route_id: &str, path_d: &str) -> (r: String)
    ensures
        r@ == router_route_svg_text(route_id@, path_d@),
{
    let mut r = String::from_str("<svg width=\"1200\" height=\"800\" viewBox=\"0 0 1200 800\" xmlns=\"http://www.w3.org/2000/svg\"><path id=\"");
    r.append(route_id);
    r.append("\" d=\"");
    r.append(path_d);
    r.append("\" fill=\"none\" stroke=\"#42f5ce\" stroke-width=\"8\" stroke-linejoin=\"round\" filter=\"drop-shadow(0 0 8px rgba(66, 245, 206, 0.8))\"/><circle r=\"6\" fill=\"#f542d4 \" filter=\"drop-shadow(0 0 10px #f542d4 )\"><animateMotion dur=\"3s\" repeatCount=\"indefinite\"><mpath href=\"#");
    r.append(route_id);
    r.append("\"/> </animateMotion><animate attributeName=\"r\" values=\"6;10;6\" dur=\"1.5s\" repeatCount=\"indefinite\" /></circle></svg>");
    r
}

} // verus!
