//! The decisions of a swarm of agents that lays out a factory: which
//! buildings the producer orders, how a popped item is read and handed to a
//! worker, what the agents are told and what their answers ask for, how
//! routes are redrawn, and how the window keeps its logs, agents and
//! drawings from event to event. Network and window I/O stand outside. Every function here
//! carries a contract that Verus proves, but for four trusted wrappers whose
//! contracts Verus takes as given: `json::json_str_at` and
//! `json::json_is_valid` (`serde_json`), `ids::random_uuid_v4` (`uuid`) and
//! `text::push_char` (`String::push`).
pub mod text;
pub mod json;
pub mod models;
pub mod ids;
pub mod hooks;
pub mod producer;
pub mod queue;
pub mod templates;
pub mod consumer;
pub mod routes;
pub mod canvas;
pub mod swarm;
pub mod window;
