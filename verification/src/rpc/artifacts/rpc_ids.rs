//! Endpoint ids of the artifact RPCs.

use vstd::prelude::*;

verus! {

/// Generates any artifact type except a mind map.
pub const CREATE_ARTIFACT: &'static str = "R7cb6c";
/// Lists the artifacts of a notebook.
pub const LIST_ARTIFACTS: &'static str = "gArtLc";
/// Deletes an artifact.
pub const DELETE_ARTIFACT: &'static str = "V5N4be";
/// Renames an artifact.
pub const RENAME_ARTIFACT: &'static str = "rc3d8d";
/// Exports an artifact to Google Docs or Sheets.
pub const EXPORT_ARTIFACT: &'static str = "Krh3pd";
/// Shares an artifact publicly.
pub const SHARE_ARTIFACT: &'static str = "RGP97b";
/// Fetches the interactive HTML of a quiz or flashcards.
pub const GET_INTERACTIVE_HTML: &'static str = "v9rmvd";
/// Revises one slide with a prompt.
pub const REVISE_SLIDE: &'static str = "KmcKPe";
/// Generates a mind map (an endpoint of its own).
pub const GENERATE_MIND_MAP: &'static str = "yyryJe";
/// Persists a mind map as a note, after `GENERATE_MIND_MAP`.
pub const CREATE_NOTE: &'static str = "CYK0Xb";
/// Lists notes and mind maps.
pub const GET_NOTES_AND_MIND_MAPS: &'static str = "cFji9";
/// Fetches suggested report formats.
pub const GET_SUGGESTED_REPORTS: &'static str = "ciyUvf";

} // verus!
