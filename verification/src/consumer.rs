//! The consumer: it takes buildings off the queue, hands each to a worker
//! agent, and reads back what the agents answer.
use vstd::prelude::*;
use crate::json::{json_is_valid, json_parses, json_str_at, json_string_at, opt_chars};
use crate::models::{agent_event, AgentEvent};
use crate::text::{
    chars_of, concat, decimal, first_index_of, first_position, is_first_index, is_last_index,
    last_index_of, last_position, lemma_first_index_unique, lemma_last_index_unique,
    lemma_trimmed_idempotent, push_decimal, replace_all, replaced, string_of, sub_chars, trim_chars, trimmed,
};

verus! {

// ---------------------------------------------------------------------------
// Popping items
// ---------------------------------------------------------------------------

/// The name of a popped item: the `name` string of the item when it is JSON
/// that has one, else the whole item.
pub open spec fn item_name_text(item: Seq<char>) -> Seq<char> {
    match json_string_at(item, "/name"@) {
        Some(name) => name,
        None => item,
    }
}

/// The drawing file of a popped item: its `svg_file` string when it is JSON
/// that has one, else nothing.
pub open spec fn item_svg_file_text(item: Seq<char>) -> Seq<char> {
    match json_string_at(item, "/svg_file"@) {
        Some(file) => file,
        None => Seq::empty(),
    }
}

/// The name of the popped item `item`.
pub fn item_name(item: &str) -> (r: String)
    ensures
        r@ == item_name_text(item@),
{
    match json_str_at(item, "/name") {
        Some(name) => name,
        None => String::from_str(item),
    }
}

/// The drawing file of the popped item `item`.
pub fn item_svg_file(item: &str) -> (r: String)
    ensures
        r@ == item_svg_file_text(item@),
{
    match json_str_at(item, "/svg_file") {
        Some(file) => file,
        None => String::new(),
    }
}

/// How long the consumer waits before each poll of the queue, in milliseconds.
pub const POLL_INTERVAL_MS: u64 = 500;

/// How long the consumer pauses after handing out its first item, in seconds.
pub const FIRST_ITEM_PAUSE_SECS: u64 = 15;

/// How far the consumer has got: how many items it has taken, and whether it
/// has taken one yet.
pub struct ConsumerState {
    pub items_processed: u64,
    pub first_item_popped: bool,
}

/// What the consumer does with one popped item: the number of the worker
/// agent that places it, what it places, and whether the consumer pauses
/// before it polls again.
pub struct PoppedItem {
    pub agent_id: u64,
    pub item_name: String,
    pub svg_file: String,
    pub pause_after: bool,
}

impl ConsumerState {
    /// A consumer that has taken nothing yet.
    pub fn new() -> (s: Self)
        ensures
            s.items_processed == 0,
            !s.first_item_popped,
    {
        ConsumerState { items_processed: 0, first_item_popped: false }
    }

    /// Takes the item `item`: the next worker number goes to it, and the
    /// consumer pauses after the first item only.
    pub fn on_item_popped(&mut self, item: &str) -> (r: PoppedItem)
        requires
            old(self).items_processed < u64::MAX,
        ensures
            final(self).items_processed == old(self).items_processed + 1,
            final(self).first_item_popped,
            r.agent_id == final(self).items_processed,
            r.item_name@ == item_name_text(item@),
            r.svg_file@ == item_svg_file_text(item@),
            r.pause_after == !old(self).first_item_popped,
    {
        self.items_processed = self.items_processed + 1;
        let pause_after = !self.first_item_popped;
        self.first_item_popped = true;
        PoppedItem {
            agent_id: self.items_processed,
            item_name: item_name(item),
            svg_file: item_svg_file(item),
            pause_after,
        }
    }

    /// One poll of the queue: nothing happens when it hands out no item,
    /// else the item is taken as `on_item_popped` says.
    pub fn on_poll(&mut self, popped: Option<&str>) -> (r: Option<PoppedItem>)
        requires
            popped is Some ==> old(self).items_processed < u64::MAX,
        ensures
            popped is None ==> r is None && final(self).items_processed == old(
                self,
            ).items_processed && final(self).first_item_popped == old(self).first_item_popped,
            popped matches Some(item) ==> r matches Some(p) && {
                &&& final(self).items_processed == old(self).items_processed + 1
                &&& final(self).first_item_popped
                &&& p.agent_id == final(self).items_processed
                &&& p.item_name@ == item_name_text(item@)
                &&& p.svg_file@ == item_svg_file_text(item@)
                &&& p.pause_after == !old(self).first_item_popped
            },
    {
        match popped {
            None => None,
            Some(item) => Some(self.on_item_popped(item)),
        }
    }
}

// ---------------------------------------------------------------------------
// Names and events of the agents
// ---------------------------------------------------------------------------

/// The name of worker agent number `agent_id`: `Worker N`.
pub fn worker_name(agent_id: u64) -> (r: String)
    ensures
        r@ == "Worker "@ + decimal(agent_id as nat),
{
    let mut r = String::from_str("Worker ");
    push_decimal(&mut r, agent_id);
    r
}

/// The console prefix of worker agent number `agent_id` placing `item_name`:
/// `[AGENT-N: NAME]`.
pub fn worker_prefix(agent_id: u64, item_name: &str) -> (r: String)
    ensures
        r@ == "[AGENT-"@ + decimal(agent_id as nat) + ": "@ + item_name@ + "]"@,
{
    let mut r = String::from_str("[AGENT-");
    push_decimal(&mut r, agent_id);
    r.append(": ");
    r.append(item_name);
    r.append("]");
    r
}

/// The name of router agent number `agent_id`: `Router N`.
pub fn router_name(agent_id: u64) -> (r: String)
    ensures
        r@ == "Router "@ + decimal(agent_id as nat),
{
    let mut r = String::from_str("Router ");
    push_decimal(&mut r, agent_id);
    r
}

/// The console prefix of router agent number `agent_id` routing to
/// `item_name`: `[ROUTER-N: NAME]`.
pub fn router_prefix(agent_id: u64, item_name: &str) -> (r: String)
    ensures
        r@ == "[ROUTER-"@ + decimal(agent_id as nat) + ": "@ + item_name@ + "]"@,
{
    let mut r = String::from_str("[ROUTER-");
    push_decimal(&mut r, agent_id);
    r.append(": ");
    r.append(item_name);
    r.append("]");
    r
}

/// The identifier of the building `item_name` placed by worker `agent_id`:
/// `NAME_N`.
pub fn component_id(item_name: &str, agent_id: u64) -> (r: String)
    ensures
        r@ == item_name@ + "_"@ + decimal(agent_id as nat),
{
    let mut r = String::from_str(item_name);
    r.append("_");
    push_decimal(&mut r, agent_id);
    r
}

/// What the worker is asked: to place `item_name` and draw it.
pub fn placement_request(item_name: &str) -> (r: String)
    ensures
        r@ == "Place the "@ + item_name@ + " on the factory layout and generate its SVG."@,
{
    let mut r = String::from_str("Place the ");
    r.append(item_name);
    r.append(" on the factory layout and generate its SVG.");
    r
}

/// The event that the worker `agent_name` starts placing `item_name`.
pub fn started_event(agent_name: &str, item_name: &str) -> (e: AgentEvent)
    ensures
        e.agent_id@ == agent_name@,
        e.status@ == "started"@,
        e.details@ == "Placing "@ + item_name@,
{
    let details = concat("Placing ", item_name);
    agent_event(agent_name, "started", details.as_str())
}

/// The event that the worker `agent_name` is done.
pub fn finished_event(agent_name: &str) -> (e: AgentEvent)
    ensures
        e.agent_id@ == agent_name@,
        e.status@ == "done"@,
        e.details@ == "Finished!"@,
{
    agent_event(agent_name, "done", "Finished!")
}

/// The event that the worker `agent_name` failed with the message `message`.
pub fn failed_event(agent_name: &str, message: &str) -> (e: AgentEvent)
    ensures
        e.agent_id@ == agent_name@,
        e.status@ == "error"@,
        e.details@ == message@,
{
    agent_event(agent_name, "error", message)
}

// ---------------------------------------------------------------------------
// Reading what an agent answers
// ---------------------------------------------------------------------------

/// Where the JSON block of an agent's answer `reply` lies: the first `{` and
/// the last `}`, when the answer holds both.
pub fn json_block_bounds(reply: &str) -> (r: Option<(usize, usize)>)
    ensures
        match r {
            Some((open, close)) => is_first_index(reply@, '{', open as int) && is_last_index(
                reply@,
                '}',
                close as int,
            ),
            None => !reply@.contains('{') || !reply@.contains('}'),
        },
{
    let v = chars_of(reply);
    match first_index_of(&v, '{') {
        None => None,
        Some(open) => match last_index_of(&v, '}') {
            None => None,
            Some(close) => Some((open, close)),
        },
    }
}

/// The JSON block of an agent's answer: the characters from the first `{`
/// through the last `}`. When the last `}` stands more than one place before
/// the first `{` there is no such piece, and the input is left out.
pub fn json_block(reply: &str, open: usize, close: usize) -> (r: String)
    requires
        close < reply@.len(),
        open <= close + 1,
    ensures
        r@ == reply@.subrange(open as int, close + 1),
{
    let v = chars_of(reply);
    assert(close < v.len());
    string_of(&sub_chars(&v, open, close + 1))
}

/// The answer `reply` can be cut at its JSON block: when it holds both
/// braces, the last `}` stands no more than one place before the first `{`.
pub open spec fn block_sliceable(reply: Seq<char>) -> bool {
    forall|a: int, b: int|
        is_first_index(reply, '{', a) && is_last_index(reply, '}', b) ==> a <= b + 1
}

/// The JSON block of an answer: from its first `{` through its last `}`,
/// when it holds both.
pub open spec fn answer_block_of(reply: Seq<char>) -> Option<Seq<char>> {
    if reply.contains('{') && reply.contains('}') {
        Some(reply.subrange(first_position(reply, '{'), last_position(reply, '}') + 1))
    } else {
        None
    }
}

/// Whether the answer `reply` can be cut at its JSON block.
pub fn block_is_sliceable(reply: &str) -> (r: bool)
    ensures
        r == block_sliceable(reply@),
{
    match json_block_bounds(reply) {
        None => true,
        Some((open, close)) => {
            proof {
                assert forall|a: int, b: int|
                    is_first_index(reply@, '{', a) && is_last_index(reply@, '}', b) implies (a
                    == open && b == close) by {
                    lemma_first_index_unique(reply@, '{', a);
                    lemma_first_index_unique(reply@, '{', open as int);
                    lemma_last_index_unique(reply@, '}', b);
                    lemma_last_index_unique(reply@, '}', close as int);
                }
            }
            open <= close || open - close == 1
        },
    }
}

/// The JSON block of the answer `reply`, when it holds one.
pub fn answer_block(reply: &str) -> (r: Option<String>)
    requires
        block_sliceable(reply@),
    ensures
        opt_chars(r) == answer_block_of(reply@),
{
    match json_block_bounds(reply) {
        None => None,
        Some((open, close)) => {
            proof {
                lemma_first_index_unique(reply@, '{', open as int);
                lemma_last_index_unique(reply@, '}', close as int);
                assert(reply@.contains('{') && reply@.contains('}'));
            }
            Some(json_block(reply, open, close))
        },
    }
}

/// What a worker's answer leads to.
pub enum WorkerStep {
    /// The agent failed: this event reports it.
    Failed(AgentEvent),
    /// The agent answered: this event reports it, and, when the answer has a
    /// block between braces that is JSON, the block and where the building's
    /// drawing comes from.
    Finished { event: AgentEvent, placement: Option<(String, SvgSource)> },
}

/// What worker `agent_name`, placing a building with drawing file
/// `svg_file`, does with its agent's `answer` (the answer's text, or the
/// message of its failure). Only a block that is JSON leads to a placement.
pub fn on_worker_answer(agent_name: &str, svg_file: &str, answer: Result<String, String>) -> (r: WorkerStep)
    requires
        answer matches Ok(res) ==> block_sliceable(res@),
    ensures
        match answer {
            Err(msg) => r matches WorkerStep::Failed(e) && e.agent_id@ == agent_name@
                && e.status@ == "error"@ && e.details@ == msg@,
            Ok(res) => r matches WorkerStep::Finished { event, placement } && event.agent_id@
                == agent_name@ && event.status@ == "done"@ && event.details@ == "Finished!"@
                && match answer_block_of(res@) {
                Some(b) if json_parses(b) => placement matches Some((block, source)) && block@
                    == b && source@ == svg_source_of(svg_file@, b),
                _ => placement is None,
            },
        },
{
    match answer {
        Err(msg) => WorkerStep::Failed(failed_event(agent_name, msg.as_str())),
        Ok(res) => {
            let event = finished_event(agent_name);
            let placement = match answer_block(res.as_str()) {
                None => None,
                Some(block) => {
                    if json_is_valid(block.as_str()) {
                        let source = svg_source(svg_file, block.as_str());
                        Some((block, source))
                    } else {
                        None
                    }
                },
            };
            WorkerStep::Finished { event, placement }
        },
    }
}

/// The characters stripped from both ends of a resource address that an
/// agent names.
pub open spec fn uri_noise() -> Seq<char> {
    seq!['"', '\'', '.', ',', '`', '*', '<', '>', '{', '}', '[', ']']
}

/// The resource address `uri` without the quoting and punctuation that
/// agents wrap around it.
pub fn clean_uri(uri: &str) -> (r: String)
    ensures
        r@ == trimmed(uri@, uri_noise()),
{
    let noise = vec!['"', '\'', '.', ',', '`', '*', '<', '>', '{', '}', '[', ']'];
    assert(noise@ =~= uri_noise());
    trim_chars(uri, &noise)
}

/// Cleaning an address twice gives what cleaning it once gives.
pub proof fn lemma_clean_uri_idempotent(uri: Seq<char>)
    ensures
        trimmed(trimmed(uri, uri_noise()), uri_noise()) == trimmed(uri, uri_noise()),
{
    lemma_trimmed_idempotent(uri, uri_noise());
}

/// Where the drawing of a placed building comes from.
pub enum SvgSource {
    /// A file of the application's assets.
    File(String),
    /// A resource of the tool server.
    Resource(String),
    /// Nowhere: nothing is drawn.
    Nothing,
}

/// A drawing source as plain values.
pub enum SvgSourceView {
    File(Seq<char>),
    Resource(Seq<char>),
    Nothing,
}

impl View for SvgSource {
    type V = SvgSourceView;

    open spec fn view(&self) -> SvgSourceView {
        match self {
            SvgSource::File(p) => SvgSourceView::File(p@),
            SvgSource::Resource(u) => SvgSourceView::Resource(u@),
            SvgSource::Nothing => SvgSourceView::Nothing,
        }
    }
}

/// Where the drawing of a building with the drawing file `svg_file` comes
/// from, given the JSON block `block` of the worker's answer: the asset file
/// when there is a file name, else the resource the block names as
/// `svg_uri`, cleaned, else nowhere.
pub open spec fn svg_source_of(svg_file: Seq<char>, block: Seq<char>) -> SvgSourceView {
    if svg_file.len() > 0 {
        SvgSourceView::File("assets/components/"@ + svg_file)
    } else {
        match json_string_at(block, "/svg_uri"@) {
            Some(uri) => SvgSourceView::Resource(trimmed(uri, uri_noise())),
            None => SvgSourceView::Nothing,
        }
    }
}

/// Where the drawing of a placed building comes from.
pub fn svg_source(svg_file: &str, block: &str) -> (r: SvgSource)
    ensures
        r@ == svg_source_of(svg_file@, block@),
{
    if !svg_file.is_empty() {
        SvgSource::File(concat("assets/components/", svg_file))
    } else {
        match json_str_at(block, "/svg_uri") {
            Some(uri) => SvgSource::Resource(clean_uri(uri.as_str())),
            None => SvgSource::Nothing,
        }
    }
}

// ---------------------------------------------------------------------------
// After a placement
// ---------------------------------------------------------------------------

/// The position in the layout of the building placed before the newest one,
/// when the layout (of `state_len` entries) has one.
pub fn previous_block_index(state_len: usize) -> (r: Option<usize>)
    ensures
        r == if state_len >= 2 {
            Some((state_len - 2) as usize)
        } else {
            None::<usize>
        },
{
    if state_len >= 2 {
        Some(state_len - 2)
    } else {
        None
    }
}

/// What follows the placement of a building on a layout that now has
/// `state_len` entries: the position of the building to route from, if any,
/// and whether the routes between earlier buildings are redrawn.
pub struct FollowUp {
    pub previous: Option<usize>,
    pub redraw: bool,
}

/// What follows a placement on a layout of `state_len` entries.
pub fn after_placement(state_len: usize) -> (f: FollowUp)
    ensures
        f.previous == if state_len >= 2 {
            Some((state_len - 2) as usize)
        } else {
            None::<usize>
        },
        f.redraw == (state_len >= 3),
{
    FollowUp { previous: previous_block_index(state_len), redraw: needs_background_redraw(state_len) }
}

/// Whether the routes between earlier buildings are redrawn after a
/// placement: when the layout has at least three entries.
pub fn needs_background_redraw(state_len: usize) -> (r: bool)
    ensures
        r == (state_len >= 3),
{
    state_len >= 3
}

/// The layout without its two newest entries: what a router must route around.
pub fn without_last_two<T>(layout: Vec<T>) -> (r: Vec<T>)
    ensures
        r@ == layout@.take(if layout@.len() >= 2 {
            layout@.len() - 2
        } else {
            0
        }),
{
    let mut layout = layout;
    let n = layout.len();
    let keep = if n >= 2 {
        n - 2
    } else {
        0
    };
    layout.truncate(keep);
    layout
}

/// The drawing command of a route through the points `polyline`
/// (`x,y x,y ...`): `M` before the first point and `L` before the others.
pub open spec fn route_path_text(polyline: Seq<char>) -> Seq<char> {
    "M "@ + replaced(polyline, " "@, " L "@)
}

/// The drawing command of the route through `polyline`.
pub fn route_path(polyline: &str) -> (r: String)
    ensures
        r@ == route_path_text(polyline@),
{
    proof {
        reveal_strlit(" ");
    }
    let body = replace_all(polyline, " ", " L ");
    concat("M ", body.as_str())
}

/// The name of the drawing of the route that leads to `item_name`.
pub fn route_to_name(item_name: &str) -> (r: String)
    ensures
        r@ == "Route to "@ + item_name@,
{
    concat("Route to ", item_name)
}

/// What a router's answer asks for.
pub enum RouterAction {
    /// Draw the route with this drawing command.
    Draw(String),
    /// Fetch the drawing of the route from this resource.
    Fetch(String),
    /// Nothing.
    Nothing,
}

/// A router's request as plain values.
pub enum RouterActionView {
    Draw(Seq<char>),
    Fetch(Seq<char>),
    Nothing,
}

impl View for RouterAction {
    type V = RouterActionView;

    open spec fn view(&self) -> RouterActionView {
        match self {
            RouterAction::Draw(d) => RouterActionView::Draw(d@),
            RouterAction::Fetch(u) => RouterActionView::Fetch(u@),
            RouterAction::Nothing => RouterActionView::Nothing,
        }
    }
}

/// What the JSON block `block` of a router's answer asks for: the route
/// through its `svg_polyline` when it has one, else the resource it names
/// as `svg_uri`, cleaned, else nothing.
pub open spec fn router_action_of(block: Seq<char>) -> RouterActionView {
    match json_string_at(block, "/svg_polyline"@) {
        Some(polyline) => RouterActionView::Draw(route_path_text(polyline)),
        None => match json_string_at(block, "/svg_uri"@) {
            Some(uri) => RouterActionView::Fetch(trimmed(uri, uri_noise())),
            None => RouterActionView::Nothing,
        },
    }
}

/// What a router's whole answer `reply` asks for: nothing without a JSON
/// block, else what its block asks for.
pub fn router_answer(reply: &str) -> (r: RouterAction)
    requires
        block_sliceable(reply@),
    ensures
        r@ == match answer_block_of(reply@) {
            None => RouterActionView::Nothing,
            Some(b) => router_action_of(b),
        },
{
    match answer_block(reply) {
        None => RouterAction::Nothing,
        Some(block) => router_action(block.as_str()),
    }
}

/// What the JSON block of a router's answer asks for.
pub fn router_action(block: &str) -> (r: RouterAction)
    ensures
        r@ == router_action_of(block@),
{
    match json_str_at(block, "/svg_polyline") {
        Some(polyline) => RouterAction::Draw(route_path(polyline.as_str())),
        None => match json_str_at(block, "/svg_uri") {
            Some(uri) => RouterAction::Fetch(clean_uri(uri.as_str())),
            None => RouterAction::Nothing,
        },
    }
}

} // verus!
