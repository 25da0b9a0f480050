//! Verified core of a NotebookLM client: RPC payload builders, defensive
//! parsers for Google's positional JSON arrays, error classification and
//! polling decisions.

pub mod json;
pub mod text;
pub mod rpc;
pub mod errors;
pub mod requests;
pub mod parser;
pub mod outside;
pub mod artifact_poller;
pub mod research_poller;
pub mod source_poller;
pub mod conversation_cache;
pub mod update_checker;
pub mod client;
pub mod auth_helper;
pub mod payloads;
pub mod auth_browser;
pub mod browser_headers;
pub mod response_chunks;
pub mod replies;
pub mod retry;
