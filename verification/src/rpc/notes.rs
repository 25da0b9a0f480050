//! Notes, chat turns and deep research results.

use vstd::prelude::*;
use crate::parser::opt_text;

verus! {

/// A note of a notebook.
#[derive(Debug, Clone)]
pub struct Note {
    pub id: String,
    pub title: String,
    pub content: String,
}

/// One turn of a conversation; `role` is `user` or `assistant`.
#[derive(Debug, Clone)]
pub struct ChatTurn {
    pub role: String,
    pub text: String,
}

/// A source found by a research task.
#[derive(Debug, Clone)]
pub struct ResearchSource {
    pub url: Option<String>,
    pub title: Option<String>,
    pub description: Option<String>,
    pub result_type: u32,
}

/// A research source as plain values: url, title, description, result type.
pub type SourceModel = (Option<Seq<char>>, Option<Seq<char>>, Option<Seq<char>>, u32);

impl ResearchSource {
    pub open spec fn model(&self) -> SourceModel {
        (opt_text(self.url), opt_text(self.title), opt_text(self.description), self.result_type)
    }
}

/// The models of a list of research sources.
pub open spec fn source_models(v: Seq<ResearchSource>) -> Seq<SourceModel> {
    v.map_values(|s: ResearchSource| s.model())
}

/// Status of a deep research task.
#[derive(Debug, Clone)]
pub struct ResearchStatus {
    pub status_code: u32,
    pub sources: Vec<ResearchSource>,
    pub report: Option<String>,
    pub is_complete: bool,
    pub query: Option<String>,
}

} // verus!
