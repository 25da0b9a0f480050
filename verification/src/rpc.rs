//! Payload builders and response types of the batchexecute RPC endpoints.

pub mod artifacts;
pub mod notebooks;
pub mod notes;
pub mod sources;
