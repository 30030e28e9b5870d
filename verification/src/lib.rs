//! Verified core of the gent node-graph workbench: configuration merging,
//! LLM request planning and response interpretation, retrieval result
//! shaping, query translation (multi-query, step-back, RAG-fusion), the
//! ReAct loop decisions, graph editing rules and the inspector tab model.
use vstd::prelude::*;

pub mod commands;
pub mod config;
pub mod engine;
pub mod graph;
pub mod inspector;
pub mod strings;
pub mod llm;
pub mod nodes;
pub mod palette;
pub mod properties;
pub mod query_translation;
pub mod rag;
pub mod react;
pub mod selection;
pub mod shortcuts;

verus! {

} // verus!
