//! What an agent's prompt hook reports when the model calls a tool and when
//! the tool answers.
use vstd::prelude::*;
use crate::models::{agent_event, AgentEvent};
use crate::text::{concat, contains_seq, str_contains, str_eq};

verus! {

/// The hook that narrates one agent's tool use.
#[derive(Clone)]
pub struct DemoHook {
    pub prefix: String,
    pub agent_id: String,
}

/// One report: the console line and the event for the user interface.
pub struct Emission {
    pub line: String,
    pub event: AgentEvent,
}

/// A report as plain values.
pub struct EmissionView {
    pub line: Seq<char>,
    pub agent_id: Seq<char>,
    pub status: Seq<char>,
    pub details: Seq<char>,
}

impl View for Emission {
    type V = EmissionView;

    open spec fn view(&self) -> EmissionView {
        EmissionView {
            line: self.line@,
            agent_id: self.event.agent_id@,
            status: self.event.status@,
            details: self.event.details@,
        }
    }
}

/// What a hook does when a tool answers: at most one line for the reasoning
/// stream, reported first, and at most one report.
pub struct ToolResultReaction {
    pub reasoning: Option<String>,
    pub emission: Option<Emission>,
}

/// A tool-answer reaction as plain values.
pub struct ReactionView {
    pub reasoning: Option<Seq<char>>,
    pub emission: Option<EmissionView>,
}

impl View for ToolResultReaction {
    type V = ReactionView;

    open spec fn view(&self) -> ReactionView {
        ReactionView {
            reasoning: match self.reasoning {
                Some(r) => Some(r@),
                None => None,
            },
            emission: match self.emission {
                Some(e) => Some(e@),
                None => None,
            },
        }
    }
}

/// The console line of a report: `[agent] status: details`.
pub open spec fn event_line(agent: Seq<char>, status: Seq<char>, details: Seq<char>) -> Seq<char> {
    "["@ + agent + "] "@ + status + ": "@ + details
}

/// The line for the reasoning stream: `[agent] details`.
pub open spec fn reasoning_line(agent: Seq<char>, details: Seq<char>) -> Seq<char> {
    "["@ + agent + "] "@ + details
}

/// The report of `agent` with the given status and details.
pub open spec fn emission_of(agent: Seq<char>, status: Seq<char>, details: Seq<char>) -> EmissionView {
    EmissionView { line: event_line(agent, status, details), agent_id: agent, status, details }
}

/// What the hook says when the model calls the tool `tool`.
pub open spec fn tool_call_details(tool: Seq<char>) -> Seq<char> {
    if tool == "neo_util_svg_generator"@ {
        "Generating SVG outline..."@
    } else if tool == "neo_util_svg_validator"@ {
        "Running deterministic geometric validation..."@
    } else if tool == "neonia_sys_memory_lesson"@ {
        "Writing Architectural Lesson to Swarm Memory..."@
    } else if tool == "neonia_sys_memory_search"@ {
        "Searching Global Hive-Mind for geometric patterns..."@
    } else {
        "Executing "@ + tool
    }
}

/// The reasoning line and the report details (both without the agent) that
/// the answer `result` of the tool `tool` calls for.
pub open spec fn tool_result_notes(tool: Seq<char>, result: Seq<char>) -> (Option<Seq<char>>, Option<Seq<char>>) {
    if tool == "neo_util_svg_layout_validator"@ {
        if contains_seq(result, "\"is_valid\":false"@) {
            (
                Some("[Reflection] \u{26a0}\u{fe0f} Collision detected! Adjusting coordinates..."@),
                Some("\u{26a0}\u{fe0f} Collision detected! Recalculating coordinates..."@),
            )
        } else if contains_seq(result, "\"is_valid\":true"@) {
            (
                Some("[Action] \u{2728} Valid placement found. Locking coordinates."@),
                Some("\u{2728} Space found! Coordinates locked."@),
            )
        } else {
            (None, None)
        }
    } else if tool == "neo_util_pathfinder"@ {
        (Some("[Action] \u{1f50c} Routing optimal path..."@), Some("\u{1f50c} Path routed."@))
    } else if tool == "neonia_sys_memory_lesson"@ {
        (None, Some("\u{1f310} Lesson propagated to all agents."@))
    } else {
        (None, None)
    }
}

impl DemoHook {
    /// The reaction of this hook to the answer `result` of the tool `tool`.
    pub open spec fn tool_result_view(self, tool: Seq<char>, result: Seq<char>) -> ReactionView {
        let (reasoning, details) = tool_result_notes(tool, result);
        ReactionView {
            reasoning: match reasoning {
                Some(r) => Some(reasoning_line(self.agent_id@, r)),
                None => None,
            },
            emission: match details {
                Some(d) => Some(emission_of(self.agent_id@, "tool_result"@, d)),
                None => None,
            },
        }
    }

    /// The report of this agent with the given status and details.
    pub fn emit(&self, status: &str, details: &str) -> (e: Emission)
        ensures
            e@ == emission_of(self.agent_id@, status@, details@),
    {
        let mut line = String::from_str("[");
        line.append(self.agent_id.as_str());
        line.append("] ");
        line.append(status);
        line.append(": ");
        line.append(details);
        Emission { line, event: agent_event(self.agent_id.as_str(), status, details) }
    }

    /// The line that this agent adds to the reasoning stream.
    pub fn emit_reasoning(&self, details: &str) -> (m: String)
        ensures
            m@ == reasoning_line(self.agent_id@, details@),
    {
        let mut m = String::from_str("[");
        m.append(self.agent_id.as_str());
        m.append("] ");
        m.append(details);
        m
    }

    /// The report when the model calls the tool `tool_name`.
    pub fn on_tool_call(&self, tool_name: &str) -> (e: Emission)
        ensures
            e@ == emission_of(self.agent_id@, "tool_call"@, tool_call_details(tool_name@)),
    {
        if str_eq(tool_name, "neo_util_svg_generator") {
            self.emit("tool_call", "Generating SVG outline...")
        } else if str_eq(tool_name, "neo_util_svg_validator") {
            self.emit("tool_call", "Running deterministic geometric validation...")
        } else if str_eq(tool_name, "neonia_sys_memory_lesson") {
            self.emit("tool_call", "Writing Architectural Lesson to Swarm Memory...")
        } else if str_eq(tool_name, "neonia_sys_memory_search") {
            self.emit("tool_call", "Searching Global Hive-Mind for geometric patterns...")
        } else {
            let details = concat("Executing ", tool_name);
            self.emit("tool_call", details.as_str())
        }
    }

    /// The reaction when the tool `tool_name` answers `result`.
    pub fn on_tool_result(&self, tool_name: &str, result: &str) -> (r: ToolResultReaction)
        ensures
            r@ == self.tool_result_view(tool_name@, result@),
    {
        if str_eq(tool_name, "neo_util_svg_layout_validator") {
            if str_contains(result, "\"is_valid\":false") {
                ToolResultReaction {
                    reasoning: Some(
                        self.emit_reasoning(
                            "[Reflection] \u{26a0}\u{fe0f} Collision detected! Adjusting coordinates...",
                        ),
                    ),
                    emission: Some(
                        self.emit(
                            "tool_result",
                            "\u{26a0}\u{fe0f} Collision detected! Recalculating coordinates...",
                        ),
                    ),
                }
            } else if str_contains(result, "\"is_valid\":true") {
                ToolResultReaction {
                    reasoning: Some(
                        self.emit_reasoning(
                            "[Action] \u{2728} Valid placement found. Locking coordinates.",
                        ),
                    ),
                    emission: Some(
                        self.emit("tool_result", "\u{2728} Space found! Coordinates locked."),
                    ),
                }
            } else {
                ToolResultReaction { reasoning: None, emission: None }
            }
        } else if str_eq(tool_name, "neo_util_pathfinder") {
            ToolResultReaction {
                reasoning: Some(self.emit_reasoning("[Action] \u{1f50c} Routing optimal path...")),
                emission: Some(self.emit("tool_result", "\u{1f50c} Path routed.")),
            }
        } else if str_eq(tool_name, "neonia_sys_memory_lesson") {
            ToolResultReaction {
                reasoning: None,
                emission: Some(self.emit("tool_result", "\u{1f310} Lesson propagated to all agents.")),
            }
        } else {
            ToolResultReaction { reasoning: None, emission: None }
        }
    }
}

} // verus!
