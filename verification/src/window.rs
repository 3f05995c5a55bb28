//! The window's whole state and its step on each event it receives: which
//! logs, agents, drawings and part types each event changes, with the
//! invariants that hold in every state the window reaches.
use vstd::prelude::*;
use crate::json::opt_chars;
use crate::canvas::{
    cleaned_svg, drawing_name,
    agent_index, agent_log_line, agent_stays, capped_push, classify_event, clear_routes,
    delete_route, distinct_ids, distinct_parts, event_kind, lemma_registered_distinct,
    lemma_registered_stable, not_named, not_route, producer_log_line, push_capped, receive_svg,
    registered, remove_agent, spawn_agent, Agent, EventKind, PlacedSvg, AGENT_LOG_CAP,
    PRODUCER_LOG_CAP, REASONING_LOG_CAP,
};

verus! {

/// The last `cap` entries of `h`, in order (all of them when there are fewer).
pub open spec fn last_n<T>(h: Seq<T>, cap: nat) -> Seq<T> {
    if h.len() <= cap {
        h
    } else {
        h.skip(h.len() - cap)
    }
}

/// The characters of each line of a log.
pub open spec fn lines(logs: Seq<String>) -> Seq<Seq<char>> {
    Seq::new(logs.len(), |i: int| logs[i]@)
}

/// A capped log that holds the last lines of its history holds, after a
/// line is added, the last lines of the history with that line.
pub proof fn lemma_capped_push_history(logs: Seq<String>, h: Seq<Seq<char>>, e: String, cap: nat)
    requires
        1 <= cap,
        lines(logs) == last_n(h, cap),
    ensures
        lines(capped_push(logs, e, cap)) == last_n(h.push(e@), cap),
{
    let n = capped_push(logs, e, cap);
    let h2 = h.push(e@);
    let want = last_n(h2, cap);
    assert(logs.len() == last_n(h, cap).len());
    if logs.len() + 1 > cap {
        assert(n.len() == logs.len());
        assert(want.len() == cap);
        assert forall|k: int| 0 <= k < n.len() implies lines(n)[k] == want[k] by {
            if k + 1 < logs.len() + 1 {
                if k + 1 < logs.len() {
                    assert(n[k] == logs[k + 1]);
                    assert(lines(logs)[k + 1] == last_n(h, cap)[k + 1]);
                } else {
                    assert(n[k] == e);
                }
            }
        }
        assert(lines(n) =~= want);
    } else {
        assert(lines(n) =~= want);
    }
}

/// After the agents with identifier `id` leave, exactly the others remain.
proof fn lemma_has_agent_after_remove<M>(agents: Seq<Agent<M>>, id: Seq<char>, x: Seq<char>)
    ensures
        has_agent(agents.filter(agent_stays::<M>(id)), x) <==> (has_agent(agents, x) && x != id),
        forall|k: int|
            0 <= k < agents.filter(agent_stays::<M>(id)).len() ==> agents.contains(
                #[trigger] agents.filter(agent_stays::<M>(id))[k],
            ),
{
    let keep = agent_stays::<M>(id);
    let f = agents.filter(keep);
    assert forall|k: int| 0 <= k < f.len() implies agents.contains(#[trigger] f[k]) by {
        assert(f.contains(f[k]));
        agents.lemma_filter_contains_rev(keep, f[k]);
    }
    if has_agent(f, x) {
        let i = choose|i: int| 0 <= i < f.len() && (#[trigger] f[i]).id@ == x;
        agents.lemma_filter_pred(keep, i);
        assert(f.contains(f[i]));
        agents.lemma_filter_contains_rev(keep, f[i]);
        let j = choose|j: int| 0 <= j < agents.len() && agents[j] == f[i];
        assert(agents[j].id@ == x);
    }
    if has_agent(agents, x) && x != id {
        let i = choose|i: int| 0 <= i < agents.len() && (#[trigger] agents[i]).id@ == x;
        agents.lemma_filter_contains(keep, i);
        let j = choose|j: int| 0 <= j < f.len() && f[j] == agents[i];
        assert(f[j].id@ == x);
    }
}

/// What an agent event asks the caller to do beyond the state change.
#[derive(Clone, Copy, Debug, PartialEq, Eq, Structural)]
pub enum AgentEffect {
    /// Nothing.
    Nothing,
    /// An agent appeared: its spawn is paid for.
    Spawned,
    /// The agent at this position heads for the event's target.
    Retarget(usize),
}

/// The state of the window: the three logs, the agents on the canvas, the
/// drawings and the part types, with the history of each log and the last
/// arrival or departure of each agent as ghost state.
pub struct CanvasState<M, P> {
    pub producer_logs: Vec<String>,
    pub logs: Vec<String>,
    pub reasoning_logs: Vec<String>,
    pub agents: Vec<Agent<M>>,
    pub svgs: Vec<PlacedSvg<P>>,
    pub part_types: Vec<String>,
    pub svg_count: u64,
    /// Every line the producer panel was given, in order.
    pub producer_history: Ghost<Seq<Seq<char>>>,
    /// Every line the live log was given, in order.
    pub log_history: Ghost<Seq<Seq<char>>>,
    /// Every line the reasoning stream was given, in order.
    pub reasoning_history: Ghost<Seq<Seq<char>>>,
    /// For each agent identifier with a `started`, `done` or `error` event:
    /// whether the latest of these was `started`.
    pub started: Ghost<Map<Seq<char>, bool>>,
}

/// Some agent in `agents` has the identifier `id`.
pub open spec fn has_agent<M>(agents: Seq<Agent<M>>, id: Seq<char>) -> bool {
    exists|i: int| 0 <= i < agents.len() && (#[trigger] agents[i]).id@ == id
}

/// In every state the window reaches, each log holds at most its cap of
/// lines, no agent is named `Producer`, and every drawing's part number
/// points at its name.
pub proof fn lemma_wf_bounds<M, P>(s: CanvasState<M, P>)
    requires
        s.wf(),
    ensures
        s.producer_logs@.len() <= PRODUCER_LOG_CAP,
        s.logs@.len() <= AGENT_LOG_CAP,
        s.reasoning_logs@.len() <= REASONING_LOG_CAP,
        forall|i: int| 0 <= i < s.agents@.len() ==> (#[trigger] s.agents@[i]).id@ != "Producer"@,
        forall|k: int|
            0 <= k < s.svgs@.len() ==> 1 <= (#[trigger] s.svgs@[k]).part_index
                <= s.part_types@.len(),
{
    assert(lines(s.producer_logs@).len() == s.producer_logs@.len());
    assert(lines(s.logs@).len() == s.logs@.len());
    assert(lines(s.reasoning_logs@).len() == s.reasoning_logs@.len());
}

impl<M, P> CanvasState<M, P> {
    /// The invariant of the window state: each log holds the last lines of
    /// its history in arrival order; agent identifiers are distinct, none is
    /// `Producer`, and an agent is on the canvas exactly when the latest
    /// `started`, `done` or `error` event of its identifier was `started`;
    /// part types are distinct and every drawing's part number points at its
    /// name.
    pub open spec fn wf(&self) -> bool {
        &&& lines(self.producer_logs@) == last_n(self.producer_history@, PRODUCER_LOG_CAP as nat)
        &&& lines(self.logs@) == last_n(self.log_history@, AGENT_LOG_CAP as nat)
        &&& lines(self.reasoning_logs@) == last_n(self.reasoning_history@, REASONING_LOG_CAP as nat)
        &&& distinct_ids(self.agents@)
        &&& forall|i: int|
            0 <= i < self.agents@.len() ==> (#[trigger] self.agents@[i]).id@ != "Producer"@
        &&& forall|id: Seq<char>|
            #![trigger self.started@.dom().contains(id)]
            has_agent(self.agents@, id) <==> (self.started@.dom().contains(id) && self.started@[id])
        &&& distinct_parts(self.part_types.deep_view())
        &&& forall|k: int|
            0 <= k < self.svgs@.len() ==> 1 <= (#[trigger] self.svgs@[k]).part_index
                <= self.part_types@.len() && self.part_types@[self.svgs@[k].part_index - 1]@
                == self.svgs@[k].item_name@
    }

    /// An empty window.
    pub fn new() -> (s: Self)
        ensures
            s.wf(),
            s.producer_logs@.len() == 0,
            s.logs@.len() == 0,
            s.reasoning_logs@.len() == 0,
            s.agents@.len() == 0,
            s.svgs@.len() == 0,
            s.part_types@.len() == 0,
            s.svg_count == 0,
    {
        let s = CanvasState {
            producer_logs: Vec::new(),
            logs: Vec::new(),
            reasoning_logs: Vec::new(),
            agents: Vec::new(),
            svgs: Vec::new(),
            part_types: Vec::new(),
            svg_count: 0,
            producer_history: Ghost(Seq::empty()),
            log_history: Ghost(Seq::empty()),
            reasoning_history: Ghost(Seq::empty()),
            started: Ghost(Map::empty()),
        };
        assert(lines(s.producer_logs@) =~= Seq::<Seq<char>>::empty());
        assert(lines(s.logs@) =~= Seq::<Seq<char>>::empty());
        assert(lines(s.reasoning_logs@) =~= Seq::<Seq<char>>::empty());
        assert(s.part_types.deep_view() =~= Seq::<Seq<char>>::empty());
        s
    }

    /// Whether the agent event of `agent_id` with status `status` would add
    /// an agent: it is a `started` event and no agent has that identifier.
    pub fn would_spawn(&self, agent_id: &str, status: &str) -> (r: bool)
        ensures
            r == (event_kind(agent_id@, status@) == EventKind::Started && !has_agent(
                self.agents@,
                agent_id@,
            )),
    {
        classify_event(agent_id, status) == EventKind::Started && agent_index(&self.agents, agent_id).is_none()
    }

    /// An agent event arrives. Producer events go to the producer panel;
    /// the others go to the live log, and a `started` event adds the agent
    /// (with the motion `spawn_motion`) unless it is there, `working` asks
    /// for it to be retargeted when the event has a target, and `done` or
    /// `error` removes it.
    pub fn on_agent_event(
        &mut self,
        agent_id: &str,
        status: &str,
        details: &str,
        spawn_motion: M,
        has_target: bool,
    ) -> (effect: AgentEffect)
        requires
            old(self).wf(),
            event_kind(agent_id@, status@) == EventKind::Started && !has_agent(
                old(self).agents@,
                agent_id@,
            ) ==> old(self).svg_count < u64::MAX,
        ensures
            final(self).wf(),
            final(self).reasoning_history@ == old(self).reasoning_history@,
            final(self).svgs@ == old(self).svgs@,
            final(self).part_types@ == old(self).part_types@,
            agent_id@ == "Producer"@ ==> {
                &&& final(self).producer_history@ == old(self).producer_history@.push(
                    "> "@ + status@ + ": "@ + details@,
                )
                &&& final(self).log_history@ == old(self).log_history@
                &&& final(self).agents@ == old(self).agents@
                &&& effect == AgentEffect::Nothing
            },
            event_kind(agent_id@, status@) == EventKind::Producer ==> {
                &&& final(self).producer_history@ == old(self).producer_history@.push(
                    "> "@ + status@ + ": "@ + details@,
                )
                &&& final(self).log_history@ == old(self).log_history@
                &&& final(self).agents@ == old(self).agents@
                &&& final(self).started@ == old(self).started@
                &&& final(self).svg_count == old(self).svg_count
                &&& effect == AgentEffect::Nothing
            },
            event_kind(agent_id@, status@) != EventKind::Producer ==> {
                &&& final(self).producer_history@ == old(self).producer_history@
                &&& final(self).log_history@ == old(self).log_history@.push(
                    "["@ + agent_id@ + "] "@ + status@ + ": "@ + details@,
                )
            },
            event_kind(agent_id@, status@) == EventKind::Started ==> {
                &&& final(self).started@ == old(self).started@.insert(agent_id@, true)
                &&& if has_agent(old(self).agents@, agent_id@) {
                    &&& final(self).agents@ == old(self).agents@
                    &&& final(self).svg_count == old(self).svg_count
                    &&& effect == AgentEffect::Nothing
                } else {
                    &&& final(self).agents@.len() == old(self).agents@.len() + 1
                    &&& final(self).agents@.take(old(self).agents@.len() as int) == old(
                        self,
                    ).agents@
                    &&& final(self).agents@.last().id@ == agent_id@
                    &&& final(self).agents@.last().role@ == agent_id@
                    &&& final(self).agents@.last().motion == spawn_motion
                    &&& final(self).svg_count == old(self).svg_count + 1
                    &&& effect == AgentEffect::Spawned
                }
            },
            event_kind(agent_id@, status@) == EventKind::Working ==> {
                &&& final(self).agents@ == old(self).agents@
                &&& final(self).started@ == old(self).started@
                &&& final(self).svg_count == old(self).svg_count
                &&& match effect {
                    AgentEffect::Retarget(i) => has_target && i < old(self).agents@.len()
                        && old(self).agents@[i as int].id@ == agent_id@ && forall|j: int|
                        0 <= j < i ==> (#[trigger] old(self).agents@[j]).id@ != agent_id@,
                    AgentEffect::Nothing => !has_target || !has_agent(old(self).agents@, agent_id@),
                    AgentEffect::Spawned => false,
                }
            },
            event_kind(agent_id@, status@) == EventKind::Finished ==> {
                &&& final(self).agents@ == old(self).agents@.filter(agent_stays::<M>(agent_id@))
                &&& final(self).started@ == old(self).started@.insert(agent_id@, false)
                &&& final(self).svg_count == old(self).svg_count
                &&& effect == AgentEffect::Nothing
            },
            event_kind(agent_id@, status@) == EventKind::Other ==> {
                &&& final(self).agents@ == old(self).agents@
                &&& final(self).started@ == old(self).started@
                &&& final(self).svg_count == old(self).svg_count
                &&& effect == AgentEffect::Nothing
            },
    {
        let kind = classify_event(agent_id, status);
        proof {
            crate::canvas::lemma_event_kind_law(agent_id@, status@);
            assert(self.part_types.deep_view() =~= old(self).part_types.deep_view());
        }
        if kind == EventKind::Producer {
            let line = producer_log_line(status, details);
            proof {
                lemma_capped_push_history(
                    self.producer_logs@,
                    self.producer_history@,
                    line,
                    PRODUCER_LOG_CAP as nat,
                );
            }
            let ghost l = line@;
            push_capped(&mut self.producer_logs, line, PRODUCER_LOG_CAP);
            self.producer_history = Ghost(self.producer_history@.push(l));
            return AgentEffect::Nothing;
        }
        let line = agent_log_line(agent_id, status, details);
        proof {
            lemma_capped_push_history(self.logs@, self.log_history@, line, AGENT_LOG_CAP as nat);
        }
        let ghost l = line@;
        push_capped(&mut self.logs, line, AGENT_LOG_CAP);
        self.log_history = Ghost(self.log_history@.push(l));
        let ghost before = self.agents@;
        let ghost st = self.started@;
        match kind {
            EventKind::Started => {
                let spawned = spawn_agent(&mut self.agents, agent_id, spawn_motion);
                self.started = Ghost(st.insert(agent_id@, true));
                proof {
                    assert(agent_id@ != "Producer"@);
                    if spawned {
                        assert forall|i: int| 0 <= i < self.agents@.len() implies (
                        #[trigger] self.agents@[i]).id@ != "Producer"@ by {
                            if i < before.len() {
                                assert(self.agents@[i] == self.agents@.take(before.len() as int)[i]);
                            }
                        }
                        assert forall|id: Seq<char>| #![trigger self.started@.dom().contains(id)]
                            has_agent(self.agents@, id) <==> (self.started@.dom().contains(id)
                                && self.started@[id]) by {
                            if id != agent_id@ {
                                if has_agent(self.agents@, id) {
                                    let i = choose|i: int| 0 <= i < self.agents@.len() && (
                                    #[trigger] self.agents@[i]).id@ == id;
                                    assert(self.agents@[i] == self.agents@.take(before.len() as int)[i]);
                                    assert(has_agent(before, id));
                                }
                                if has_agent(before, id) {
                                    let i = choose|i: int| 0 <= i < before.len() && (
                                    #[trigger] before[i]).id@ == id;
                                    assert(self.agents@.take(before.len() as int)[i] == before[i]);
                                    assert(self.agents@[i] == before[i]);
                                }
                                assert(st.dom().contains(id) == self.started@.dom().contains(id));
                            } else {
                                assert(self.agents@[self.agents@.len() - 1].id@ == id);
                            }
                        }
                        assert(!has_agent(before, agent_id@));
                    } else {
                        let i = choose|i: int| 0 <= i < before.len() && (
                        #[trigger] before[i]).id@ == agent_id@;
                        assert(has_agent(before, agent_id@));
                        assert forall|id: Seq<char>| #![trigger self.started@.dom().contains(id)]
                            has_agent(self.agents@, id) <==> (self.started@.dom().contains(id)
                                && self.started@[id]) by {
                            if id != agent_id@ {
                                assert(st.dom().contains(id) == self.started@.dom().contains(id));
                            }
                        }
                    }
                }
                if spawned {
                    self.svg_count = self.svg_count + 1;
                    AgentEffect::Spawned
                } else {
                    AgentEffect::Nothing
                }
            },
            EventKind::Working => {
                if has_target {
                    match agent_index(&self.agents, agent_id) {
                        Some(i) => AgentEffect::Retarget(i),
                        None => AgentEffect::Nothing,
                    }
                } else {
                    AgentEffect::Nothing
                }
            },
            EventKind::Finished => {
                let mut taken: Vec<Agent<M>> = Vec::new();
                core::mem::swap(&mut taken, &mut self.agents);
                self.agents = remove_agent(taken, agent_id);
                self.started = Ghost(st.insert(agent_id@, false));
                proof {
                    assert forall|id: Seq<char>| #![trigger self.started@.dom().contains(id)]
                        has_agent(self.agents@, id) <==> (self.started@.dom().contains(id)
                            && self.started@[id]) by {
                        lemma_has_agent_after_remove(before, agent_id@, id);
                        if id != agent_id@ {
                            assert(st.dom().contains(id) == self.started@.dom().contains(id));
                        }
                    }
                    lemma_has_agent_after_remove(before, agent_id@, agent_id@);
                    assert forall|i: int| 0 <= i < self.agents@.len() implies (
                    #[trigger] self.agents@[i]).id@ != "Producer"@ by {
                        assert(before.contains(self.agents@[i]));
                    }
                }
                AgentEffect::Nothing
            },
            _ => AgentEffect::Nothing,
        }
    }

    /// A drawing arrives: it is named, cleaned and numbered, and placed once
    /// at each of `placements`, in order; gives its part number.
    pub fn on_svg(&mut self, svg: &str, item_name: Option<String>, placements: Vec<P>) -> (idx: usize)
        requires
            old(self).wf(),
        ensures
            final(self).wf(),
            (final(self).part_types.deep_view(), idx as nat) == registered(
                old(self).part_types.deep_view(),
                drawing_name(opt_chars(item_name)),
            ),
            old(self).part_types.deep_view().is_prefix_of(final(self).part_types.deep_view()),
            final(self).svgs@.len() == old(self).svgs@.len() + placements@.len(),
            final(self).svgs@.take(old(self).svgs@.len() as int) == old(self).svgs@,
            forall|k: int|
                0 <= k < placements@.len() ==> {
                    let e = #[trigger] final(self).svgs@[old(self).svgs@.len() + k];
                    &&& e.placement == placements@[k]
                    &&& e.item_name@ == drawing_name(opt_chars(item_name))
                    &&& e.svg@ == cleaned_svg(svg@, drawing_name(opt_chars(item_name)))
                    &&& e.part_index == idx
                },
            final(self).producer_history@ == old(self).producer_history@,
            final(self).log_history@ == old(self).log_history@,
            final(self).reasoning_history@ == old(self).reasoning_history@,
            final(self).agents@ == old(self).agents@,
            final(self).started@ == old(self).started@,
            final(self).svg_count == old(self).svg_count,
    {
        let ghost parts0 = self.part_types.deep_view();
        let plan = receive_svg(&mut self.part_types, svg, item_name);
        proof {
            lemma_registered_stable(parts0, plan.item_name@);
            lemma_registered_distinct(parts0, plan.item_name@);
        }
        let mut added: Vec<PlacedSvg<P>> = Vec::new();
        let mut rest = placements;
        let n = rest.len();
        let mut k: usize = 0;
        assert(placements@.skip(0) =~= placements@);
        while k < n
            invariant
                n == placements@.len(),
                k <= n,
                rest@ == placements@.skip(k as int),
                added@.len() == k,
                forall|j: int|
                    0 <= j < k ==> {
                        let e = #[trigger] added@[j];
                        &&& e.placement == placements@[j]
                        &&& e.item_name@ == plan.item_name@
                        &&& e.svg@ == plan.svg@
                        &&& e.part_index == plan.part_index
                    },
            decreases n - k,
        {
            let p = rest.remove(0);
            assert(p == placements@[k as int]);
            assert(rest@ =~= placements@.skip(k + 1));
            added.push(
                PlacedSvg {
                    placement: p,
                    svg: plan.svg.clone(),
                    item_name: plan.item_name.clone(),
                    part_index: plan.part_index,
                },
            );
            k += 1;
        }
        let ghost svgs0 = self.svgs@;
        let ghost added0 = added@;
        self.svgs.append(&mut added);
        proof {
            assert(self.svgs@.take(svgs0.len() as int) =~= svgs0);
            let parts = self.part_types.deep_view();
            if exists|i: int| crate::canvas::is_first_slot(parts0, plan.item_name@, i) {
                assert(parts =~= parts0);
            } else {
                assert(parts =~= parts0.push(plan.item_name@));
            }
            assert(parts0.is_prefix_of(parts));
            assert forall|k: int| 0 <= k < self.svgs@.len() implies 1 <= (
            #[trigger] self.svgs@[k]).part_index <= self.part_types@.len()
                && self.part_types@[self.svgs@[k].part_index - 1]@ == self.svgs@[k].item_name@ by {
                let e = self.svgs@[k];
                if k < svgs0.len() {
                    assert(e == svgs0[k]);
                    assert(old(self).part_types@[e.part_index - 1]@ == parts0[e.part_index - 1]);
                    assert(parts[e.part_index - 1] == self.part_types@[e.part_index - 1]@);
                } else {
                    assert(e == added0[k - svgs0.len()]);
                    assert(parts[e.part_index - 1] == self.part_types@[e.part_index - 1]@);
                }
            }
        }
        plan.part_index
    }

    /// The drawings of routes are cleared.
    pub fn on_clear_routes(&mut self)
        requires
            old(self).wf(),
        ensures
            final(self).wf(),
            final(self).svgs@ == old(self).svgs@.filter(not_route::<P>()),
            final(self).part_types@ == old(self).part_types@,
            final(self).producer_history@ == old(self).producer_history@,
            final(self).log_history@ == old(self).log_history@,
            final(self).reasoning_history@ == old(self).reasoning_history@,
            final(self).agents@ == old(self).agents@,
            final(self).started@ == old(self).started@,
            final(self).svg_count == old(self).svg_count,
    {
        let ghost svgs0 = self.svgs@;
        let mut taken: Vec<PlacedSvg<P>> = Vec::new();
        core::mem::swap(&mut taken, &mut self.svgs);
        self.svgs = clear_routes(taken);
        proof {
            assert(self.part_types.deep_view() =~= old(self).part_types.deep_view());
            assert forall|k: int| 0 <= k < self.svgs@.len() implies 1 <= (
            #[trigger] self.svgs@[k]).part_index <= self.part_types@.len()
                && self.part_types@[self.svgs@[k].part_index - 1]@ == self.svgs@[k].item_name@ by {
                assert(self.svgs@.contains(self.svgs@[k]));
                svgs0.lemma_filter_contains_rev(not_route::<P>(), self.svgs@[k]);
            }
        }
    }

    /// The drawings named `route_name` are deleted.
    pub fn on_delete_route(&mut self, route_name: &str)
        requires
            old(self).wf(),
        ensures
            final(self).wf(),
            final(self).svgs@ == old(self).svgs@.filter(not_named::<P>(route_name@)),
            final(self).part_types@ == old(self).part_types@,
            final(self).producer_history@ == old(self).producer_history@,
            final(self).log_history@ == old(self).log_history@,
            final(self).reasoning_history@ == old(self).reasoning_history@,
            final(self).agents@ == old(self).agents@,
            final(self).started@ == old(self).started@,
            final(self).svg_count == old(self).svg_count,
    {
        let ghost svgs0 = self.svgs@;
        let mut taken: Vec<PlacedSvg<P>> = Vec::new();
        core::mem::swap(&mut taken, &mut self.svgs);
        self.svgs = delete_route(taken, route_name);
        proof {
            assert(self.part_types.deep_view() =~= old(self).part_types.deep_view());
            assert forall|k: int| 0 <= k < self.svgs@.len() implies 1 <= (
            #[trigger] self.svgs@[k]).part_index <= self.part_types@.len()
                && self.part_types@[self.svgs@[k].part_index - 1]@ == self.svgs@[k].item_name@ by {
                assert(self.svgs@.contains(self.svgs@[k]));
                svgs0.lemma_filter_contains_rev(not_named::<P>(route_name@), self.svgs@[k]);
            }
        }
    }

    /// A line arrives on the reasoning stream.
    pub fn on_reasoning(&mut self, line: String)
        requires
            old(self).wf(),
        ensures
            final(self).wf(),
            final(self).reasoning_history@ == old(self).reasoning_history@.push(line@),
            final(self).producer_logs@ == old(self).producer_logs@,
            final(self).logs@ == old(self).logs@,
            final(self).agents@ == old(self).agents@,
            final(self).svgs@ == old(self).svgs@,
            final(self).part_types@ == old(self).part_types@,
            final(self).svg_count == old(self).svg_count,
    {
        proof {
            lemma_capped_push_history(
                self.reasoning_logs@,
                self.reasoning_history@,
                line,
                REASONING_LOG_CAP as nat,
            );
        }
        let ghost l = line@;
        push_capped(&mut self.reasoning_logs, line, REASONING_LOG_CAP);
        self.reasoning_history = Ghost(self.reasoning_history@.push(l));
        assert(self.part_types.deep_view() =~= old(self).part_types.deep_view());
    }
}

} // verus!
