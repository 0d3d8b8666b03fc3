//! Per-user conversation history for a chat agent: an append-only store of
//! message logs, the prompt built from a log, and the decisions of one turn.

pub mod chat_history;
pub mod context;
pub mod rig_agent;
