//! Endpoint ids of the notebook lifecycle and sharing RPCs.

use vstd::prelude::*;

verus! {

/// Deletes a notebook.
pub const DELETE_NOTEBOOK: &'static str = "WWINqb";
/// Renames a notebook (the same id also sets its view level).
pub const RENAME_NOTEBOOK: &'static str = "s0tc2d";
/// Fetches a notebook's details.
pub const GET_NOTEBOOK: &'static str = "rLM1Ne";
/// Fetches the generated summary and suggested topics.
pub const SUMMARIZE: &'static str = "VfAZjd";
/// Fetches the sharing configuration.
pub const GET_SHARE_STATUS: &'static str = "JFMDGd";
/// Sets visibility, adds or removes a user.
pub const SHARE_NOTEBOOK: &'static str = "QDyure";

} // verus!
