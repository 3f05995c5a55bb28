//! The state the user interface keeps: capped logs, the agents on the canvas,
//! the placed drawings and their part numbers.
use vstd::prelude::*;
use crate::json::opt_chars;
use crate::text::{
    append_chars, chars_of, contains_seq, first_index_of, first_position, has_prefix, is_first_index,
    lemma_filter_keeps_all, lemma_first_index_unique, replace_all, replaced, str_contains, str_eq, str_starts_with,
    string_of, sub_chars,
};

verus! {

// ---------------------------------------------------------------------------
// Logs
// ---------------------------------------------------------------------------

/// How many lines the producer panel keeps.
pub const PRODUCER_LOG_CAP: usize = 15;

/// How many lines the live log keeps.
pub const AGENT_LOG_CAP: usize = 10;

/// How many lines the reasoning stream keeps.
pub const REASONING_LOG_CAP: usize = 15;

/// `logs` with `entry` added at the end and, when that makes more than `cap`
/// lines, the oldest line dropped.
pub open spec fn capped_push(logs: Seq<String>, entry: String, cap: nat) -> Seq<String> {
    if logs.len() + 1 > cap {
        logs.push(entry).drop_first()
    } else {
        logs.push(entry)
    }
}

/// Adds `entry` to `logs`, dropping the oldest line when there are more than `cap`.
pub fn push_capped(logs: &mut Vec<String>, entry: String, cap: usize)
    ensures
        final(logs)@ == capped_push(old(logs)@, entry, cap as nat),
{
    logs.push(entry);
    if logs.len() > cap {
        logs.remove(0);
        assert(old(logs)@.push(entry).remove(0) =~= old(logs)@.push(entry).drop_first());
    }
}

/// A log that holds at most `cap` lines still does after a line is added,
/// and its newest line is the one added.
pub proof fn lemma_capped_push_bound(logs: Seq<String>, entry: String, cap: nat)
    requires
        1 <= cap,
        logs.len() <= cap,
    ensures
        capped_push(logs, entry, cap).len() <= cap,
        capped_push(logs, entry, cap).len() == if logs.len() < cap {
            logs.len() + 1
        } else {
            cap
        },
        capped_push(logs, entry, cap).last() == entry,
{
}

/// A line of the producer panel: `> status: details`.
pub fn producer_log_line(status: &str, details: &str) -> (r: String)
    ensures
        r@ == "> "@ + status@ + ": "@ + details@,
{
    let mut r = String::from_str("> ");
    r.append(status);
    r.append(": ");
    r.append(details);
    r
}

/// A line of the live log: `[agent] status: details`.
pub fn agent_log_line(agent_id: &str, status: &str, details: &str) -> (r: String)
    ensures
        r@ == "["@ + agent_id@ + "] "@ + status@ + ": "@ + details@,
{
    let mut r = String::from_str("[");
    r.append(agent_id);
    r.append("] ");
    r.append(status);
    r.append(": ");
    r.append(details);
    r
}

/// Whether a line of the reasoning stream is a warning: it holds the
/// warning sign.
pub fn is_warning_log(line: &str) -> (r: bool)
    ensures
        r == contains_seq(line@, "\u{26a0}\u{fe0f}"@),
{
    str_contains(line, "\u{26a0}\u{fe0f}")
}

// ---------------------------------------------------------------------------
// Agent events
// ---------------------------------------------------------------------------

/// What an agent event means for the user interface.
#[derive(Clone, Copy, Debug, PartialEq, Eq, Structural)]
pub enum EventKind {
    /// A line for the producer panel.
    Producer,
    /// A worker appears.
    Started,
    /// A worker moves on.
    Working,
    /// A worker leaves.
    Finished,
    /// Only a line for the live log.
    Other,
}

/// What the event of `agent_id` with status `status` means.
pub open spec fn event_kind(agent_id: Seq<char>, status: Seq<char>) -> EventKind {
    if agent_id == "Producer"@ {
        EventKind::Producer
    } else if status == "started"@ {
        EventKind::Started
    } else if status == "working"@ {
        EventKind::Working
    } else if status == "done"@ || status == "error"@ {
        EventKind::Finished
    } else {
        EventKind::Other
    }
}

/// Every event of the producer is a line for its panel, whatever its
/// status; an agent's event is a start, a move, or a departure exactly when
/// its status is `started`, `working`, or `done`/`error`.
pub proof fn lemma_event_kind_law(agent_id: Seq<char>, status: Seq<char>)
    ensures
        agent_id == "Producer"@ ==> event_kind(agent_id, status) == EventKind::Producer,
        (event_kind(agent_id, status) == EventKind::Producer) ==> agent_id == "Producer"@,
        agent_id != "Producer"@ ==> ((event_kind(agent_id, status) == EventKind::Started) <==> status
            == "started"@),
        agent_id != "Producer"@ ==> ((event_kind(agent_id, status) == EventKind::Working) <==> status
            == "working"@),
        agent_id != "Producer"@ ==> ((event_kind(agent_id, status) == EventKind::Finished) <==> (
        status == "done"@ || status == "error"@)),
{
    reveal_strlit("started");
    reveal_strlit("working");
    reveal_strlit("done");
    reveal_strlit("error");
    assert("started"@[0] != "working"@[0]);
    assert("started"@ != "working"@);
    assert("started"@.len() != "done"@.len() && "started"@.len() != "error"@.len());
    assert("working"@.len() != "done"@.len() && "working"@.len() != "error"@.len());
}

/// What the event of `agent_id` with status `status` means.
pub fn classify_event(agent_id: &str, status: &str) -> (k: EventKind)
    ensures
        k == event_kind(agent_id@, status@),
        agent_id@ == "Producer"@ ==> k == EventKind::Producer,
        agent_id@ != "Producer"@ ==> (k == EventKind::Started <==> status@ == "started"@),
        agent_id@ != "Producer"@ ==> (k == EventKind::Working <==> status@ == "working"@),
        agent_id@ != "Producer"@ ==> (k == EventKind::Finished <==> (status@ == "done"@ || status@
            == "error"@)),
{
    proof {
        lemma_event_kind_law(agent_id@, status@);
    }
    if str_eq(agent_id, "Producer") {
        EventKind::Producer
    } else if str_eq(status, "started") {
        EventKind::Started
    } else if str_eq(status, "working") {
        EventKind::Working
    } else if str_eq(status, "done") || str_eq(status, "error") {
        EventKind::Finished
    } else {
        EventKind::Other
    }
}

// ---------------------------------------------------------------------------
// Agents on the canvas
// ---------------------------------------------------------------------------

/// An agent on the canvas: its identifier, its label, and where it is and
/// goes (`motion`, kept by the caller).
#[derive(Clone)]
pub struct Agent<P> {
    pub id: String,
    pub role: String,
    pub motion: P,
}

/// No two agents share an identifier.
pub open spec fn distinct_ids<P>(agents: Seq<Agent<P>>) -> bool {
    forall|i: int, j: int|
        0 <= i < j < agents.len() ==> (#[trigger] agents[i]).id@ != (#[trigger] agents[j]).id@
}

proof fn lemma_filter_keeps_distinct<P>(agents: Seq<Agent<P>>, keep: spec_fn(Agent<P>) -> bool)
    requires
        distinct_ids(agents),
    ensures
        distinct_ids(agents.filter(keep)),
        forall|k: int|
            0 <= k < agents.filter(keep).len() ==> agents.contains(#[trigger] agents.filter(keep)[k]),
    decreases agents.len(),
{
    reveal_with_fuel(Seq::filter, 1);
    if agents.len() > 0 {
        let init = agents.drop_last();
        assert(distinct_ids(init)) by {
            assert forall|i: int, j: int| 0 <= i < j < init.len() implies (#[trigger] init[i]).id@
                != (#[trigger] init[j]).id@ by {
                assert(init[i] == agents[i] && init[j] == agents[j]);
            }
        }
        lemma_filter_keeps_distinct(init, keep);
        let f = init.filter(keep);
        let last = agents.last();
        assert forall|k: int| 0 <= k < f.len() implies (#[trigger] f[k]).id@ != last.id@ by {
            assert(init.contains(f[k]));
            let m = choose|m: int| 0 <= m < init.len() && init[m] == f[k];
            assert(agents[m] == init[m]);
        }
        if keep(last) {
            let g = f.push(last);
            assert(agents.filter(keep) == g);
            assert forall|i: int, j: int| 0 <= i < j < g.len() implies (#[trigger] g[i]).id@ != (
            #[trigger] g[j]).id@ by {
                if j == g.len() - 1 {
                    assert(g[i] == f[i]);
                } else {
                    assert(g[i] == f[i] && g[j] == f[j]);
                }
            }
            assert forall|k: int| 0 <= k < g.len() implies agents.contains(#[trigger] g[k]) by {
                if k == g.len() - 1 {
                    assert(agents[agents.len() - 1] == g[k]);
                } else {
                    assert(init.contains(f[k]));
                    let m = choose|m: int| 0 <= m < init.len() && init[m] == f[k];
                    assert(agents[m] == g[k]);
                }
            }
        } else {
            assert(agents.filter(keep) == f);
            assert forall|k: int| 0 <= k < f.len() implies agents.contains(#[trigger] f[k]) by {
                assert(init.contains(f[k]));
                let m = choose|m: int| 0 <= m < init.len() && init[m] == f[k];
                assert(agents[m] == f[k]);
            }
        }
    } else {
        assert(agents.filter(keep) =~= agents);
    }
}

/// The position of the first agent with the identifier `id`, if any.
pub fn agent_index<P>(agents: &Vec<Agent<P>>, id: &str) -> (r: Option<usize>)
    ensures
        match r {
            Some(i) => i < agents.len() && agents@[i as int].id@ == id@ && forall|j: int|
                0 <= j < i ==> (#[trigger] agents@[j]).id@ != id@,
            None => forall|j: int| 0 <= j < agents.len() ==> (#[trigger] agents@[j]).id@ != id@,
        },
{
    let n = agents.len();
    for i in 0..n
        invariant
            n == agents.len(),
            forall|j: int| 0 <= j < i ==> (#[trigger] agents@[j]).id@ != id@,
    {
        if str_eq(agents[i].id.as_str(), id) {
            return Some(i);
        }
    }
    None
}

/// Adds an agent with the identifier `id` (also its label) and the motion
/// `motion`, unless an agent with that identifier is there already; tells
/// whether it added one.
pub fn spawn_agent<P>(agents: &mut Vec<Agent<P>>, id: &str, motion: P) -> (spawned: bool)
    ensures
        spawned == forall|j: int|
            0 <= j < old(agents).len() ==> (#[trigger] old(agents)@[j]).id@ != id@,
        spawned ==> final(agents)@.len() == old(agents)@.len() + 1 && final(agents)@.take(
            old(agents)@.len() as int,
        ) == old(agents)@ && final(agents)@.last().id@ == id@ && final(agents)@.last().role@
            == id@ && final(agents)@.last().motion == motion,
        !spawned ==> final(agents)@ == old(agents)@,
        distinct_ids(old(agents)@) ==> distinct_ids(final(agents)@),
{
    match agent_index(agents, id) {
        Some(i) => {
            assert(old(agents)@[i as int].id@ == id@);
            false
        },
        None => {
            agents.push(Agent { id: String::from_str(id), role: String::from_str(id), motion });
            assert(agents@.take(old(agents)@.len() as int) =~= old(agents)@);
            proof {
                if distinct_ids(old(agents)@) {
                    assert forall|i: int, j: int| 0 <= i < j < agents@.len() implies (
                    #[trigger] agents@[i]).id@ != (#[trigger] agents@[j]).id@ by {
                        assert(agents@[i] == old(agents)@[i]);
                        if j < old(agents)@.len() {
                            assert(agents@[j] == old(agents)@[j]);
                        }
                    }
                }
            }
            true
        },
    }
}

/// Keeps the agents whose identifier is not `id`.
pub open spec fn agent_stays<P>(id: Seq<char>) -> spec_fn(Agent<P>) -> bool {
    |a: Agent<P>| a.id@ != id
}

/// The agents without those with the identifier `id`, in order.
pub fn remove_agent<P>(agents: Vec<Agent<P>>, id: &str) -> (r: Vec<Agent<P>>)
    ensures
        r@ == agents@.filter(agent_stays::<P>(id@)),
        distinct_ids(agents@) ==> distinct_ids(r@),
{
    let ghost orig = agents@;
    let ghost keep = agent_stays::<P>(id@);
    let mut rest = agents;
    let mut kept: Vec<Agent<P>> = Vec::new();
    let n = rest.len();
    let mut k: usize = 0;
    assert(orig.take(0).filter(keep) =~= Seq::<Agent<P>>::empty()) by {
        reveal(Seq::filter);
    }
    assert(orig.skip(0) =~= orig);
    while k < n
        invariant
            n == orig.len(),
            k <= n,
            rest@ == orig.skip(k as int),
            kept@ == orig.take(k as int).filter(keep),
            keep == agent_stays::<P>(id@),
        decreases n - k,
    {
        let a = rest.remove(0);
        proof {
            assert(a == orig[k as int]);
            assert(orig.take(k + 1) =~= orig.take(k as int).push(orig[k as int]));
            orig.take(k as int).lemma_filter_push(orig[k as int], keep);
            assert(rest@ =~= orig.skip(k + 1));
        }
        if !str_eq(a.id.as_str(), id) {
            kept.push(a);
        }
        k += 1;
    }
    assert(orig.take(n as int) =~= orig);
    proof {
        if distinct_ids(orig) {
            lemma_filter_keeps_distinct(orig, keep);
        }
    }
    kept
}

// ---------------------------------------------------------------------------
// Drawings on the canvas
// ---------------------------------------------------------------------------

/// A drawing on the canvas: where it stands (`placement`, kept by the
/// caller), its markup, the item it shows, and that item's part number.
#[derive(Clone)]
pub struct PlacedSvg<P> {
    pub placement: P,
    pub svg: String,
    pub item_name: String,
    pub part_index: usize,
}

/// The drawings of routes are those whose item name begins with `Route`.
pub open spec fn is_route_name(name: Seq<char>) -> bool {
    has_prefix(name, "Route"@)
}

/// Whether `name` names the drawing of a route.
pub fn route_name(name: &str) -> (r: bool)
    ensures
        r == is_route_name(name@),
{
    str_starts_with(name, "Route")
}

/// The layer of a drawing: routes lie under the buildings.
pub fn svg_layer(item_name: &str) -> (z: u32)
    ensures
        z == if is_route_name(item_name@) {
            0u32
        } else {
            10u32
        },
{
    if route_name(item_name) {
        0
    } else {
        10
    }
}

/// Keeps the drawings that are not routes.
pub open spec fn not_route<P>() -> spec_fn(PlacedSvg<P>) -> bool {
    |s: PlacedSvg<P>| !is_route_name(s.item_name@)
}

/// Keeps the drawings not named `name`.
pub open spec fn not_named<P>(name: Seq<char>) -> spec_fn(PlacedSvg<P>) -> bool {
    |s: PlacedSvg<P>| s.item_name@ != name
}

/// The drawings without the routes, in order.
pub fn clear_routes<P>(svgs: Vec<PlacedSvg<P>>) -> (r: Vec<PlacedSvg<P>>)
    ensures
        r@ == svgs@.filter(not_route::<P>()),
        forall|k: int| 0 <= k < r@.len() ==> !has_prefix((#[trigger] r@[k]).item_name@, "Route"@),
        forall|i: int|
            0 <= i < svgs@.len() && !has_prefix(svgs@[i].item_name@, "Route"@) ==> r@.contains(
                #[trigger] svgs@[i],
            ),
{
    let ghost orig = svgs@;
    let ghost keep = not_route::<P>();
    let mut rest = svgs;
    let mut kept: Vec<PlacedSvg<P>> = Vec::new();
    let n = rest.len();
    let mut k: usize = 0;
    assert(orig.take(0).filter(keep) =~= Seq::<PlacedSvg<P>>::empty()) by {
        reveal(Seq::filter);
    }
    assert(orig.skip(0) =~= orig);
    while k < n
        invariant
            n == orig.len(),
            k <= n,
            rest@ == orig.skip(k as int),
            kept@ == orig.take(k as int).filter(keep),
            keep == not_route::<P>(),
        decreases n - k,
    {
        let s = rest.remove(0);
        proof {
            assert(s == orig[k as int]);
            assert(orig.take(k + 1) =~= orig.take(k as int).push(orig[k as int]));
            orig.take(k as int).lemma_filter_push(orig[k as int], keep);
            assert(rest@ =~= orig.skip(k + 1));
        }
        if !route_name(s.item_name.as_str()) {
            kept.push(s);
        }
        k += 1;
    }
    assert(orig.take(n as int) =~= orig);
    proof {
        lemma_filter_exact(orig, keep);
    }
    kept
}

/// The drawings without those named `route_name`, in order.
pub fn delete_route<P>(svgs: Vec<PlacedSvg<P>>, route_name: &str) -> (r: Vec<PlacedSvg<P>>)
    ensures
        r@ == svgs@.filter(not_named::<P>(route_name@)),
        forall|k: int| 0 <= k < r@.len() ==> (#[trigger] r@[k]).item_name@ != route_name@,
        forall|i: int|
            0 <= i < svgs@.len() && svgs@[i].item_name@ != route_name@ ==> r@.contains(
                #[trigger] svgs@[i],
            ),
{
    let ghost orig = svgs@;
    let ghost keep = not_named::<P>(route_name@);
    let mut rest = svgs;
    let mut kept: Vec<PlacedSvg<P>> = Vec::new();
    let n = rest.len();
    let mut k: usize = 0;
    assert(orig.take(0).filter(keep) =~= Seq::<PlacedSvg<P>>::empty()) by {
        reveal(Seq::filter);
    }
    assert(orig.skip(0) =~= orig);
    while k < n
        invariant
            n == orig.len(),
            k <= n,
            rest@ == orig.skip(k as int),
            kept@ == orig.take(k as int).filter(keep),
            keep == not_named::<P>(route_name@),
        decreases n - k,
    {
        let s = rest.remove(0);
        proof {
            assert(s == orig[k as int]);
            assert(orig.take(k + 1) =~= orig.take(k as int).push(orig[k as int]));
            orig.take(k as int).lemma_filter_push(orig[k as int], keep);
            assert(rest@ =~= orig.skip(k + 1));
        }
        if !str_eq(s.item_name.as_str(), route_name) {
            kept.push(s);
        }
        k += 1;
    }
    assert(orig.take(n as int) =~= orig);
    proof {
        lemma_filter_exact(orig, keep);
    }
    kept
}

/// What a filter keeps passes the test, and every element that passes is kept.
proof fn lemma_filter_exact<T>(s: Seq<T>, keep: spec_fn(T) -> bool)
    ensures
        forall|k: int| 0 <= k < s.filter(keep).len() ==> keep(#[trigger] s.filter(keep)[k]),
        forall|i: int| 0 <= i < s.len() && keep(s[i]) ==> s.filter(keep).contains(#[trigger] s[i]),
{
    assert forall|k: int| 0 <= k < s.filter(keep).len() implies keep(#[trigger] s.filter(keep)[k]) by {
        s.lemma_filter_pred(keep, k);
    }
    assert forall|i: int| 0 <= i < s.len() && keep(s[i]) implies s.filter(keep).contains(
        #[trigger] s[i],
    ) by {
        s.lemma_filter_contains(keep, i);
    }
}

/// Deleting the drawings named `name` keeps exactly the drawings named
/// otherwise, in order; clearing the routes keeps exactly the drawings whose
/// name does not begin with `Route`.
pub proof fn lemma_route_filters_law<P>(svgs: Seq<PlacedSvg<P>>, name: Seq<char>)
    ensures
        forall|s: PlacedSvg<P>| #[trigger] (not_named::<P>(name))(s) <==> s.item_name@ != name,
        forall|s: PlacedSvg<P>| #[trigger] (not_route::<P>())(s) <==> !has_prefix(s.item_name@, "Route"@),
        forall|k: int|
            0 <= k < svgs.filter(not_named::<P>(name)).len() ==> (
            #[trigger] svgs.filter(not_named::<P>(name))[k]).item_name@ != name,
        forall|i: int|
            0 <= i < svgs.len() && svgs[i].item_name@ != name ==> svgs.filter(
                not_named::<P>(name),
            ).contains(#[trigger] svgs[i]),
{
    lemma_filter_exact(svgs, not_named::<P>(name));
}

/// After the routes are cleared no drawing of a route is left, and clearing
/// again changes nothing.
pub proof fn lemma_clear_routes_complete<P>(svgs: Seq<PlacedSvg<P>>)
    ensures
        forall|i: int|
            0 <= i < svgs.filter(not_route::<P>()).len() ==> !is_route_name(
                (#[trigger] svgs.filter(not_route::<P>())[i]).item_name@,
            ),
        svgs.filter(not_route::<P>()).filter(not_route::<P>()) == svgs.filter(not_route::<P>()),
{
    broadcast use Seq::lemma_filter_pred;

    let f = svgs.filter(not_route::<P>());
    assert forall|i: int| 0 <= i < f.len() implies !is_route_name((#[trigger] f[i]).item_name@) by {
        svgs.lemma_filter_pred(not_route::<P>(), i);
    }
    lemma_filter_keeps_all(f, not_route::<P>());
}

/// After the drawings named `name` are deleted, deleting them again changes
/// nothing.
pub proof fn lemma_delete_route_idempotent<P>(svgs: Seq<PlacedSvg<P>>, name: Seq<char>)
    ensures
        svgs.filter(not_named::<P>(name)).filter(not_named::<P>(name)) == svgs.filter(
            not_named::<P>(name),
        ),
{
    let f = svgs.filter(not_named::<P>(name));
    assert forall|i: int| 0 <= i < f.len() implies (not_named::<P>(name))(#[trigger] f[i]) by {
        svgs.lemma_filter_pred(not_named::<P>(name), i);
    }
    lemma_filter_keeps_all(f, not_named::<P>(name));
}

// ---------------------------------------------------------------------------
// Part numbers
// ---------------------------------------------------------------------------

/// `i` is the first position of `name` among the part types `parts`.
pub open spec fn is_first_slot(parts: Seq<Seq<char>>, name: Seq<char>, i: int) -> bool {
    &&& 0 <= i < parts.len()
    &&& parts[i] == name
    &&& forall|j: int| 0 <= j < i ==> parts[j] != name
}

/// The part types after `name` is registered, and the part number of `name`:
/// one more than its first position when it is registered already, else it
/// is added at the end and numbered with the new count.
pub open spec fn registered(parts: Seq<Seq<char>>, name: Seq<char>) -> (Seq<Seq<char>>, nat) {
    if exists|i: int| is_first_slot(parts, name, i) {
        (parts, ((choose|i: int| is_first_slot(parts, name, i)) + 1) as nat)
    } else {
        (parts.push(name), parts.len() + 1)
    }
}

proof fn lemma_first_slot_unique(parts: Seq<Seq<char>>, name: Seq<char>, i: int, j: int)
    requires
        is_first_slot(parts, name, i),
        is_first_slot(parts, name, j),
    ensures
        i == j,
{
    if i < j {
        assert(parts[i] != name);
    }
    if j < i {
        assert(parts[j] != name);
    }
}

/// A registered name keeps its part number: registering it again changes
/// nothing and gives the same number, and that number points at it.
pub proof fn lemma_registered_stable(parts: Seq<Seq<char>>, name: Seq<char>)
    ensures
        registered(registered(parts, name).0, name) == registered(parts, name),
        1 <= registered(parts, name).1 <= registered(parts, name).0.len(),
        registered(parts, name).0[registered(parts, name).1 - 1] == name,
{
    if exists|i: int| is_first_slot(parts, name, i) {
    } else {
        let p = parts.push(name);
        assert forall|j: int| 0 <= j < parts.len() implies p[j] != name by {
            if p[j] == name {
                assert(parts[j] == name);
                lemma_first_occurrence(parts, name, j);
            }
        }
        assert(is_first_slot(p, name, parts.len() as int));
        let c = choose|i: int| is_first_slot(p, name, i);
        lemma_first_slot_unique(p, name, c, parts.len() as int);
    }
}

/// A name that occurs in `parts` has a first position there.
proof fn lemma_first_occurrence(parts: Seq<Seq<char>>, name: Seq<char>, j: int)
    requires
        0 <= j < parts.len(),
        parts[j] == name,
    ensures
        exists|i: int| is_first_slot(parts, name, i),
    decreases j,
{
    if exists|i: int| 0 <= i < j && parts[i] == name {
        let i = choose|i: int| 0 <= i < j && parts[i] == name;
        lemma_first_occurrence(parts, name, i);
    } else {
        assert(is_first_slot(parts, name, j));
    }
}

/// No part type is registered twice.
pub open spec fn distinct_parts(parts: Seq<Seq<char>>) -> bool {
    forall|i: int, j: int| 0 <= i < j < parts.len() ==> #[trigger] parts[i] != #[trigger] parts[j]
}

/// Registering a name never registers a part type twice.
pub proof fn lemma_registered_distinct(parts: Seq<Seq<char>>, name: Seq<char>)
    requires
        distinct_parts(parts),
    ensures
        distinct_parts(registered(parts, name).0),
{
    if !(exists|i: int| is_first_slot(parts, name, i)) {
        let p = parts.push(name);
        assert forall|i: int, j: int| 0 <= i < j < p.len() implies #[trigger] p[i] != #[trigger] p[j] by {
            if j == parts.len() && p[i] == name {
                assert(parts[i] == name);
                lemma_first_occurrence(parts, name, i);
            }
            if j < parts.len() {
                assert(p[i] == parts[i] && p[j] == parts[j]);
            }
        }
    }
}

/// Registers `name` among the part types and gives its part number.
pub fn register_part(parts: &mut Vec<String>, name: &str) -> (idx: usize)
    ensures
        (final(parts).deep_view(), idx as nat) == registered(old(parts).deep_view(), name@),
{
    let ghost before = parts.deep_view();
    let n = parts.len();
    for i in 0..n
        invariant
            n == parts.len(),
            parts.deep_view() == before,
            forall|j: int| 0 <= j < i ==> before[j] != name@,
    {
        if str_eq(parts[i].as_str(), name) {
            proof {
                assert(is_first_slot(before, name@, i as int));
                let c = choose|k: int| is_first_slot(before, name@, k);
                lemma_first_slot_unique(before, name@, c, i as int);
            }
            return i + 1;
        }
    }
    proof {
        assert forall|i: int| !is_first_slot(before, name@, i) by {
            if is_first_slot(before, name@, i) {
                assert(before[i] != name@);
            }
        }
    }
    parts.push(String::from_str(name));
    assert(parts.deep_view() =~= before.push(name@));
    parts.len()
}

// ---------------------------------------------------------------------------
// Incoming drawings
// ---------------------------------------------------------------------------

/// The backdrop inserted into a building's drawing, right after its first tag.
pub open spec fn panel_text() -> Seq<char> {
    "<rect width=\"100%\" height=\"100%\" fill=\"rgba(10, 15, 25, 0.95)\" rx=\"8\" stroke=\"none\" />"@
}

/// `svg` with white fills made transparent and a white background cleared.
pub open spec fn whitened(svg: Seq<char>) -> Seq<char> {
    replaced(
        replaced(
            replaced(svg, "fill=\"#FFFFFF\""@, "fill=\"none\""@),
            "fill=\"#ffffff\""@,
            "fill=\"none\""@,
        ),
        "background-color: white"@,
        "background-color: transparent"@,
    )
}

/// The markup that the canvas shows for the drawing `svg` of `item_name`:
/// whitened, and, for a building (not a route) whose markup has a tag, with
/// the backdrop right after the first `>`.
pub open spec fn cleaned_svg(svg: Seq<char>, item_name: Seq<char>) -> Seq<char> {
    let s = whitened(svg);
    if !is_route_name(item_name) && s.contains('>') {
        let i = first_position(s, '>');
        s.subrange(0, i + 1) + panel_text() + s.subrange(i + 1, s.len() as int)
    } else {
        s
    }
}

/// A route's drawing (its name begins with `Route`) is only whitened; a
/// building's drawing with a tag gets the backdrop, one panel longer.
pub proof fn lemma_cleaned_svg_law(svg: Seq<char>, item_name: Seq<char>)
    ensures
        has_prefix(item_name, "Route"@) ==> cleaned_svg(svg, item_name) == whitened(svg),
        !has_prefix(item_name, "Route"@) && whitened(svg).contains('>') ==> {
            let i = first_position(whitened(svg), '>');
            &&& cleaned_svg(svg, item_name).len() == whitened(svg).len() + panel_text().len()
            &&& cleaned_svg(svg, item_name) == whitened(svg).subrange(0, i + 1) + panel_text()
                + whitened(svg).subrange(i + 1, whitened(svg).len() as int)
        },
        !has_prefix(item_name, "Route"@) && !whitened(svg).contains('>') ==> cleaned_svg(
            svg,
            item_name,
        ) == whitened(svg),
{
    let s = whitened(svg);
    if !has_prefix(item_name, "Route"@) && s.contains('>') {
        let j = choose|j: int| 0 <= j < s.len() && s[j] == '>';
        assert(exists|i: int| is_first_index(s, '>', i)) by {
            lemma_first_gt_exists(s, j);
        }
        let i = first_position(s, '>');
        assert(is_first_index(s, '>', i));
    }
}

proof fn lemma_first_gt_exists(s: Seq<char>, j: int)
    requires
        0 <= j < s.len(),
        s[j] == '>',
    ensures
        exists|i: int| is_first_index(s, '>', i),
    decreases j,
{
    if exists|i: int| 0 <= i < j && s[i] == '>' {
        let i = choose|i: int| 0 <= i < j && s[i] == '>';
        lemma_first_gt_exists(s, i);
    } else {
        assert(is_first_index(s, '>', j));
    }
}

/// The name of an incoming drawing: the one it carries, or `Component`.
pub open spec fn drawing_name(item_name: Option<Seq<char>>) -> Seq<char> {
    match item_name {
        Some(n) => n,
        None => "Component"@,
    }
}

/// What the canvas makes of an incoming drawing before placing it.
pub struct SvgPlan {
    pub svg: String,
    pub item_name: String,
    pub part_index: usize,
}

/// The markup of the drawing `svg` of `item_name` as the canvas shows it.
pub fn clean_svg(svg: &str, item_name: &str) -> (r: String)
    ensures
        r@ == cleaned_svg(svg@, item_name@),
        has_prefix(item_name@, "Route"@) ==> r@ == whitened(svg@),
        !has_prefix(item_name@, "Route"@) && whitened(svg@).contains('>') ==> r@.len()
            == whitened(svg@).len() + panel_text().len(),
        !has_prefix(item_name@, "Route"@) && !whitened(svg@).contains('>') ==> r@ == whitened(
            svg@,
        ),
{
    proof {
        lemma_cleaned_svg_law(svg@, item_name@);
    }
    proof {
        reveal_strlit("fill=\"#FFFFFF\"");
        reveal_strlit("fill=\"#ffffff\"");
        reveal_strlit("background-color: white");
    }
    let s1 = replace_all(svg, "fill=\"#FFFFFF\"", "fill=\"none\"");
    let s2 = replace_all(s1.as_str(), "fill=\"#ffffff\"", "fill=\"none\"");
    let s3 = replace_all(
        s2.as_str(),
        "background-color: white",
        "background-color: transparent",
    );
    if route_name(item_name) {
        return s3;
    }
    let v = chars_of(s3.as_str());
    match first_index_of(&v, '>') {
        None => s3,
        Some(i) => {
            proof {
                lemma_first_index_unique(v@, '>', i as int);
            }
            let mut out = sub_chars(&v, 0, i + 1);
            append_chars(&mut out, &chars_of("<rect width=\"100%\" height=\"100%\" fill=\"rgba(10, 15, 25, 0.95)\" rx=\"8\" stroke=\"none\" />"));
            append_chars(&mut out, &sub_chars(&v, i + 1, v.len()));
            string_of(&out)
        },
    }
}

/// Takes in an incoming drawing: names it, cleans its markup, and gives it
/// the part number of its name.
pub fn receive_svg(parts: &mut Vec<String>, svg: &str, item_name: Option<String>) -> (p: SvgPlan)
    ensures
        p.item_name@ == drawing_name(opt_chars(item_name)),
        p.svg@ == cleaned_svg(svg@, p.item_name@),
        (final(parts).deep_view(), p.part_index as nat) == registered(
            old(parts).deep_view(),
            p.item_name@,
        ),
{
    let name = match item_name {
        Some(n) => n,
        None => String::from_str("Component"),
    };
    let cleaned = clean_svg(svg, name.as_str());
    let idx = register_part(parts, name.as_str());
    SvgPlan { svg: cleaned, item_name: name, part_index: idx }
}

} // verus!
