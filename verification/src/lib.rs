//! Verified core of the LivePaper research assistant: text handling,
//! knowledge extraction, retrieval context, gap detection, expert routing
//! and the chat decision flow.

pub mod text;
pub mod numeral;
pub mod json;
pub mod models;
pub mod extraction;
pub mod pdf;
pub mod email;
pub mod retrieval;
pub mod graph;
pub mod router;
pub mod gap;
pub mod chat;
pub mod errors;
pub mod requests;
pub mod langfuse;
pub mod auth;
pub mod config;
pub mod tools;
pub mod ingestion;
pub mod responses;
