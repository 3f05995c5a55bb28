//! Redrawing the routes between buildings after the layout has grown.
use vstd::prelude::*;
use crate::json::{json_str_at, json_string_at};
use crate::queue::reply_text_pointer;
use crate::consumer::{route_path, route_path_text};
use crate::ids::{is_v4, new_route_id, route_id_text};
use crate::templates::{redraw_route_svg, redraw_route_svg_text};
use crate::text::{decimal, push_decimal, str_eq};

verus! {

/// How many routes are redrawn over a layout of `state_len` entries: one
/// between each pair of neighbours, but for the newest entry.
pub fn redraw_route_count(state_len: usize) -> (r: usize)
    requires
        state_len >= 2,
    ensures
        r == state_len - 2,
{
    state_len - 2
}

/// What route `i` (from entry `i` to entry `i + 1`) goes around: the layout
/// without its two ends.
pub fn route_obstacles<T>(routes: Vec<T>, i: usize) -> (r: Vec<T>)
    requires
        i + 1 < routes.len(),
    ensures
        r@ == routes@.remove(i + 1).remove(i as int),
{
    let mut obstacles = routes;
    obstacles.remove(i + 1);
    obstacles.remove(i);
    obstacles
}

/// The route between entries `i` and `i + 1` goes around every other entry,
/// and around nothing else.
pub proof fn lemma_route_obstacles<T>(routes: Seq<T>, i: int)
    requires
        0 <= i,
        i + 1 < routes.len(),
    ensures
        routes.remove(i + 1).remove(i).len() == routes.len() - 2,
        forall|k: int|
            0 <= k < routes.len() - 2 ==> #[trigger] routes.remove(i + 1).remove(i)[k] == if k < i {
                routes[k]
            } else {
                routes[k + 2]
            },
{
}

/// The name of the drawing of redrawn route `i`: `Route Redraw N`.
pub fn redraw_route_name(i: u64) -> (r: String)
    ensures
        r@ == "Route Redraw "@ + decimal(i as nat),
{
    let mut r = String::from_str("Route Redraw ");
    push_decimal(&mut r, i);
    r
}

/// The route that the path finder's answer `body` carries: the
/// `svg_polyline` string of the answer's text, when there is one.
pub open spec fn redraw_polyline_of(body: Seq<char>) -> Option<Seq<char>> {
    match json_string_at(body, reply_text_pointer()) {
        Some(text) => json_string_at(text, "/svg_polyline"@),
        None => None,
    }
}

/// The route that the path finder's answer `body` carries.
pub fn redraw_polyline(body: &str) -> (r: Option<String>)
    ensures
        crate::json::opt_chars(r) == redraw_polyline_of(body@),
{
    match json_str_at(body, "/result/content/0/text") {
        Some(text) => json_str_at(text.as_str(), "/svg_polyline"),
        None => None,
    }
}

/// The route that an entry keeps: nothing when it keeps none.
pub open spec fn kept_route(kept: Option<&str>) -> Seq<char> {
    match kept {
        Some(k) => k@,
        None => Seq::empty(),
    }
}

/// Whether the route `polyline` differs from the one the layout keeps for
/// the entry (`kept`, nothing when it keeps none), so that it is drawn again.
pub fn route_changed(polyline: &str, kept: Option<&str>) -> (r: bool)
    ensures
        r == (polyline@ != kept_route(kept)),
{
    match kept {
        Some(k) => !str_eq(polyline, k),
        None => {
            proof {
                reveal_strlit("");
                assert(""@ =~= Seq::<char>::empty());
            }
            !str_eq(polyline, "")
        },
    }
}

/// Whether the route of an entry that keeps `kept` is drawn again when the
/// path finder answers `body`: when the answer carries a route that differs.
pub open spec fn redraw_needed(kept: Seq<char>, body: Seq<char>) -> bool {
    match redraw_polyline_of(body) {
        Some(p) => p != kept,
        None => false,
    }
}

/// The route an entry keeps after its redraw step with the answer `body`.
pub open spec fn stored_route(kept: Seq<char>, body: Seq<char>) -> Seq<char> {
    match redraw_polyline_of(body) {
        Some(p) => p,
        None => kept,
    }
}

/// What one step of the redraw does.
pub enum RedrawAction {
    /// Nothing: no route came back, or the same one.
    Keep,
    /// Replace the drawing `route_name` by `svg`, and keep `polyline` as the
    /// entry's route.
    Redraw { route_name: String, svg: String, polyline: String },
}

/// Whether the entry that keeps `kept` is drawn again when the path finder
/// brings back the route `polyline` (nothing when it brings none): when a
/// route came back that differs.
pub open spec fn polyline_changes(kept: Seq<char>, polyline: Option<Seq<char>>) -> bool {
    match polyline {
        Some(p) => p != kept,
        None => false,
    }
}

/// What step `i` of a redraw does when the entry keeps the route `kept`
/// (nothing when it keeps none) and the path finder brought back `polyline`.
pub fn redraw_decision(i: u64, kept: Option<&str>, polyline: Option<String>) -> (r: RedrawAction)
    ensures
        (r is Keep) <==> match polyline {
            Some(p) => p@ == kept_route(kept),
            None => true,
        },
        (r is Keep) <==> !polyline_changes(kept_route(kept), crate::json::opt_chars(polyline)),
        r matches RedrawAction::Redraw { route_name, svg, polyline: p } ==> {
            &&& crate::json::opt_chars(polyline) == Some(p@)
            &&& route_name@ == "Route Redraw "@ + decimal(i as nat)
            &&& exists|u: u128|
                svg@ == redraw_route_svg_text(route_id_text(u), route_path_text(p@)) && is_v4(u)
        },
{
    match polyline {
        None => RedrawAction::Keep,
        Some(polyline) => {
            if route_changed(polyline.as_str(), kept) {
                let path_d = route_path(polyline.as_str());
                let route_id = new_route_id();
                let svg = redraw_route_svg(route_id.as_str(), path_d.as_str());
                RedrawAction::Redraw { route_name: redraw_route_name(i), svg, polyline }
            } else {
                RedrawAction::Keep
            }
        },
    }
}

/// Step `i` of a redraw: the entry keeps the route `kept` (nothing when it
/// keeps none) and the path finder answered `body`.
pub fn redraw_step(i: u64, kept: Option<&str>, body: &str) -> (r: RedrawAction)
    ensures
        (r is Keep) <==> !redraw_needed(kept_route(kept), body@),
        r matches RedrawAction::Redraw { route_name, svg, polyline } ==> {
            &&& redraw_polyline_of(body@) == Some(polyline@)
            &&& route_name@ == "Route Redraw "@ + decimal(i as nat)
            &&& exists|u: u128|
                svg@ == redraw_route_svg_text(route_id_text(u), route_path_text(polyline@))
                    && is_v4(u)
        },
{
    redraw_decision(i, kept, redraw_polyline(body))
}

/// A route is drawn again exactly when a route came back that differs, as
/// text, from the one the entry keeps; an answer without a route changes
/// nothing.
pub proof fn lemma_redraw_law(kept: Seq<char>, p: Seq<char>, body: Seq<char>)
    ensures
        polyline_changes(kept, Some(p)) <==> p != kept,
        !polyline_changes(kept, None),
        redraw_needed(kept, body) <==> (redraw_polyline_of(body) is Some && redraw_polyline_of(
            body,
        )->0 != kept),
        stored_route(kept, body) == match redraw_polyline_of(body) {
            Some(q) => q,
            None => kept,
        },
{
}

/// A redraw whose every answer carries the route the entry keeps does
/// nothing at any step.
pub proof fn lemma_unchanged_redraw_is_silent(kepts: Seq<Seq<char>>, bodies: Seq<Seq<char>>)
    requires
        kepts.len() == bodies.len(),
        forall|i: int| 0 <= i < bodies.len() ==> redraw_polyline_of(#[trigger] bodies[i]) == Some(kepts[i]),
    ensures
        forall|i: int| 0 <= i < bodies.len() ==> !redraw_needed(#[trigger] kepts[i], bodies[i]),
{
}

/// Repeating a redraw step with the same answer on the route the first one
/// left does nothing.
pub proof fn lemma_redraw_repeat_is_silent(kept: Seq<char>, body: Seq<char>)
    ensures
        !redraw_needed(stored_route(kept, body), body),
{
}

} // verus!
