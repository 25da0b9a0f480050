//! Notebook lifecycle and sharing: access codes, and readers of the
//! details, sharing and summary responses.

use vstd::prelude::*;
use crate::json::{
    JsonModel, JsonValue, models_of, seq_at, then_at, then_text, then_arr, then_int, then_bool,
    get_in, str_in, arr_in, int_in, bool_in, item, group_json,
};
use crate::parser::{str_at, byte_len, opt_text, get_uuid_at, get_string_at, narrow};
use crate::text::{owned, push_str, i64_to_string, signed_decimal};

pub mod rpc_ids;

verus! {

/// Public access level of a notebook.
#[derive(Debug, Clone, Copy, PartialEq, Eq, Structural)]
pub enum ShareAccess {
    /// Only users it is shared with.
    Restricted,
    /// Anyone with the link.
    AnyoneWithLink,
}

impl ShareAccess {
    pub open spec fn spec_code(self) -> i32 {
        match self {
            ShareAccess::Restricted => 0,
            ShareAccess::AnyoneWithLink => 1,
        }
    }

    pub open spec fn spec_from_code(code: i32) -> Option<ShareAccess> {
        if code == 0 {
            Some(ShareAccess::Restricted)
        } else if code == 1 {
            Some(ShareAccess::AnyoneWithLink)
        } else {
            None
        }
    }

    pub open spec fn label(self) -> Seq<char> {
        match self {
            ShareAccess::Restricted => "RESTRICTED"@,
            ShareAccess::AnyoneWithLink => "ANYONE_WITH_LINK"@,
        }
    }

    pub fn code(self) -> (r: i32)
        ensures
            r == self.spec_code(),
    {
        match self {
            ShareAccess::Restricted => 0,
            ShareAccess::AnyoneWithLink => 1,
        }
    }

    pub fn from_code(code: i32) -> (r: Option<ShareAccess>)
        ensures
            r == Self::spec_from_code(code),
    {
        match code {
            0 => Some(ShareAccess::Restricted),
            1 => Some(ShareAccess::AnyoneWithLink),
            _ => None,
        }
    }

    pub fn to_string(&self) -> (r: String)
        ensures
            r@ == self.label(),
    {
        match self {
            ShareAccess::Restricted => owned("RESTRICTED"),
            ShareAccess::AnyoneWithLink => owned("ANYONE_WITH_LINK"),
        }
    }
}

/// Access codes round-trip through `from_code`.
pub proof fn law_share_access_roundtrip(a: ShareAccess, code: i32)
    ensures
        ShareAccess::spec_from_code(a.spec_code()) == Some(a),
        ShareAccess::spec_from_code(code) matches Some(b) ==> b.spec_code() == code,
{
}

/// Permission of a user a notebook is shared with.
#[derive(Debug, Clone, Copy, PartialEq, Eq, Structural)]
pub enum SharePermission {
    Owner,
    Editor,
    Viewer,
}

impl SharePermission {
    pub open spec fn spec_from_code(code: i32) -> Option<SharePermission> {
        if code == 1 {
            Some(SharePermission::Owner)
        } else if code == 2 {
            Some(SharePermission::Editor)
        } else if code == 3 {
            Some(SharePermission::Viewer)
        } else {
            None
        }
    }

    pub open spec fn label(self) -> Seq<char> {
        match self {
            SharePermission::Owner => "OWNER"@,
            SharePermission::Editor => "EDITOR"@,
            SharePermission::Viewer => "VIEWER"@,
        }
    }

    pub fn from_code(code: i32) -> (r: Option<SharePermission>)
        ensures
            r == Self::spec_from_code(code),
    {
        match code {
            1 => Some(SharePermission::Owner),
            2 => Some(SharePermission::Editor),
            3 => Some(SharePermission::Viewer),
            _ => None,
        }
    }

    pub fn to_string(&self) -> (r: String)
        ensures
            r@ == self.label(),
    {
        match self {
            SharePermission::Owner => owned("OWNER"),
            SharePermission::Editor => owned("EDITOR"),
            SharePermission::Viewer => owned("VIEWER"),
        }
    }
}

/// A user a notebook is shared with.
#[derive(Debug, Clone)]
pub struct SharedUser {
    pub email: String,
    pub permission: SharePermission,
    pub display_name: Option<String>,
    pub avatar_url: Option<String>,
}

/// A shared user as plain values.
pub type UserModel = (Seq<char>, SharePermission, Option<Seq<char>>, Option<Seq<char>>);

impl SharedUser {
    pub open spec fn model(&self) -> UserModel {
        (self.email@, self.permission, opt_text(self.display_name), opt_text(self.avatar_url))
    }
}

/// Sharing configuration of a notebook.
#[derive(Debug, Clone)]
pub struct ShareStatus {
    pub notebook_id: String,
    pub is_public: bool,
    pub access: ShareAccess,
    pub shared_users: Vec<SharedUser>,
    pub share_url: Option<String>,
}

/// The public address of a notebook.
pub open spec fn share_url_of(notebook_id: Seq<char>) -> Seq<char> {
    "https://notebooklm.google.com/notebook/"@ + notebook_id
}

impl ShareStatus {
    /// Private, restricted, shared with no one.
    pub fn default_private(notebook_id: &str) -> (r: ShareStatus)
        ensures
            r.notebook_id@ == notebook_id@,
            !r.is_public,
            r.access == ShareAccess::Restricted,
            r.shared_users@.len() == 0,
            r.share_url is None,
    {
        ShareStatus {
            notebook_id: owned(notebook_id),
            is_public: false,
            access: ShareAccess::Restricted,
            shared_users: Vec::new(),
            share_url: None,
        }
    }

    /// `https://notebooklm.google.com/notebook/{notebook_id}`
    pub fn build_share_url(notebook_id: &str) -> (r: String)
        ensures
            r@ == share_url_of(notebook_id@),
    {
        let mut out = owned("https://notebooklm.google.com/notebook/");
        push_str(&mut out, notebook_id);
        out
    }
}

/// A suggested question and the prompt that asks it.
#[derive(Debug, Clone)]
pub struct SuggestedTopic {
    pub question: String,
    pub prompt: String,
}

/// Generated summary of a notebook with suggested topics.
#[derive(Debug, Clone)]
pub struct NotebookSummary {
    pub summary: String,
    pub suggested_topics: Vec<SuggestedTopic>,
}

/// Details of a notebook read from `GET_NOTEBOOK`.
pub struct NotebookDetails {
    pub id: String,
    pub title: String,
    pub sources_count: usize,
    pub is_owner: bool,
    pub created_at: Option<String>,
}

/// The details as plain values: id, title, number of sources, ownership,
/// creation time.
pub type DetailsModel = (Seq<char>, Seq<char>, nat, bool, Option<Seq<char>>);

impl NotebookDetails {
    pub open spec fn model(&self) -> DetailsModel {
        (self.id@, self.title@, self.sources_count as nat, self.is_owner, opt_text(self.created_at))
    }
}

/// What `parse_notebook_details` reads from `[[title, sources, id, _, _,
/// metadata, ..]]`: the 36-byte id, the title (empty when absent), the
/// number of sources, ownership (`metadata[1]` is true for shared notebooks;
/// owned when absent) and the creation time `metadata[5][0][0]` in decimal.
pub open spec fn details_of(m: JsonModel) -> Option<DetailsModel> {
    match then_arr(m.at(0)) {
        Some(nb) => match str_at(nb, 2) {
            Some(id) => if byte_len(id) != 36 || id.len() == 0 {
                None
            } else {
                Some(
                    (
                        id,
                        match str_at(nb, 0) {
                            Some(t) => t,
                            None => Seq::empty(),
                        },
                        match then_arr(seq_at(nb, 1)) {
                            Some(s) => s.len(),
                            None => 0,
                        },
                        match then_bool(then_at(seq_at(nb, 5), 1)) {
                            Some(b) => !b,
                            None => true,
                        },
                        match then_int(then_at(then_at(then_at(seq_at(nb, 5), 5), 0), 0)) {
                            Some(ts) => Some(signed_decimal(ts as int)),
                            None => None,
                        },
                    ),
                )
            },
            None => None,
        },
        None => None,
    }
}

/// Reads a notebook's details from the inner JSON of `GET_NOTEBOOK`.
pub fn parse_notebook_details(inner: &JsonValue) -> (r: Option<NotebookDetails>)
    ensures
        match r {
            Some(d) => details_of(inner@) == Some(d.model()),
            None => details_of(inner@) is None,
        },
{
    broadcast use group_json;

    let nb = match arr_in(inner.get(0)) {
        Some(a) => a,
        None => return None,
    };
    let id = match get_uuid_at(nb.as_slice(), 2) {
        Some(s) => s,
        None => return None,
    };
    if id.as_str().is_empty() {
        return None;
    }
    let title = match get_string_at(nb.as_slice(), 0) {
        Some(t) => t,
        None => String::new(),
    };
    let sources_count = match arr_in(item(nb, 1)) {
        Some(s) => s.len(),
        None => 0,
    };
    let is_owner = match bool_in(get_in(item(nb, 5), 1)) {
        Some(b) => !b,
        None => true,
    };
    let created_at = match int_in(get_in(get_in(get_in(item(nb, 5), 5), 0), 0)) {
        Some(ts) => Some(i64_to_string(ts)),
        None => None,
    };
    let d = NotebookDetails { id, title, sources_count, is_owner, created_at };
    proof {
        crate::json::lemma_models_of(nb@);
        crate::text::lemma_empty_literal();
    }
    Some(d)
}

/// One user entry `[email, permission, _, [name, avatar]]`: nothing when it
/// is not an array, is empty, or has no non-empty email; the permission is
/// `Viewer` when absent or unknown.
pub open spec fn user_of(entry: JsonModel) -> Option<UserModel> {
    match entry {
        JsonModel::Array(e) => if e.len() == 0 {
            None
        } else {
            match e[0].text() {
                Some(email) => if email.len() == 0 {
                    None
                } else {
                    Some(
                        (
                            email,
                            match narrow(then_int(seq_at(e, 1))) {
                                Some(c) => match SharePermission::spec_from_code(c) {
                                    Some(p) => p,
                                    None => SharePermission::Viewer,
                                },
                                None => SharePermission::Viewer,
                            },
                            then_text(then_at(seq_at(e, 3), 0)),
                            then_text(then_at(seq_at(e, 3), 1)),
                        ),
                    )
                },
                None => None,
            }
        },
        _ => None,
    }
}

/// The users read from the entries, in order, skipping unreadable entries.
pub open spec fn users_of(entries: Seq<JsonModel>) -> Seq<UserModel>
    decreases entries.len(),
{
    if entries.len() == 0 {
        Seq::empty()
    } else {
        match user_of(entries.last()) {
            Some(u) => users_of(entries.drop_last()).push(u),
            None => users_of(entries.drop_last()),
        }
    }
}

/// The models of a list of users.
pub open spec fn user_models(v: Seq<SharedUser>) -> Seq<UserModel> {
    v.map_values(|u: SharedUser| u.model())
}

/// What `parse_share_status` reads from `[[[users]], [is_public], ..]`: the
/// users at `[0][0]` (none when absent) and whether the notebook is public
/// (`[1][0]`, false when absent); a response that is no array reads as
/// private with no users.
pub open spec fn share_status_ok(r: ShareStatus, m: JsonModel, notebook_id: Seq<char>) -> bool {
    let public = match m {
        JsonModel::Array(a) => then_bool(then_at(seq_at(a, 1), 0)) == Some(true),
        _ => false,
    };
    &&& r.notebook_id@ == notebook_id
    &&& r.is_public == public
    &&& r.access == (if public {
        ShareAccess::AnyoneWithLink
    } else {
        ShareAccess::Restricted
    })
    &&& opt_text(r.share_url) == (if public {
        Some(share_url_of(notebook_id))
    } else {
        None
    })
    &&& user_models(r.shared_users@) == match m {
        JsonModel::Array(a) => match then_arr(then_at(seq_at(a, 0), 0)) {
            Some(entries) => users_of(entries),
            None => Seq::empty(),
        },
        _ => Seq::empty(),
    }
}

/// Reads one user entry.
fn read_user(entry: &JsonValue) -> (r: Option<SharedUser>)
    ensures
        match r {
            Some(u) => user_of(entry@) == Some(u.model()),
            None => user_of(entry@) is None,
        },
{
    broadcast use group_json;

    let e = match entry.as_array() {
        Some(e) => e,
        None => return None,
    };
    if e.len() == 0 {
        return None;
    }
    proof {
        crate::json::lemma_models_of(e@);
    }
    let email = match e[0].as_str() {
        Some(s) => s,
        None => return None,
    };
    if email.as_str().is_empty() {
        return None;
    }
    let permission = match int_in(item(e, 1)) {
        Some(c) => match SharePermission::from_code(c as i32) {
            Some(p) => p,
            None => SharePermission::Viewer,
        },
        None => SharePermission::Viewer,
    };
    let display_name = match str_in(get_in(item(e, 3), 0)) {
        Some(s) => Some(s.clone()),
        None => None,
    };
    let avatar_url = match str_in(get_in(item(e, 3), 1)) {
        Some(s) => Some(s.clone()),
        None => None,
    };
    Some(SharedUser { email: email.clone(), permission, display_name, avatar_url })
}

/// Reads the sharing configuration from the inner JSON of
/// `GET_SHARE_STATUS`; missing parts read as private and unshared.
pub fn parse_share_status(inner: &JsonValue, notebook_id: &str) -> (r: ShareStatus)
    ensures
        share_status_ok(r, inner@, notebook_id@),
{
    broadcast use group_json;

    let arr = match inner.as_array() {
        Some(a) => a,
        None => {
            let d = ShareStatus::default_private(notebook_id);
            assert(user_models(d.shared_users@) =~= Seq::<UserModel>::empty());
            return d;
        },
    };
    let mut users: Vec<SharedUser> = Vec::new();
    assert(user_models(users@) =~= Seq::<UserModel>::empty());
    match arr_in(get_in(item(arr, 0), 0)) {
        Some(entries) => {
            proof {
                crate::json::lemma_models_of(entries@);
            }
            let ghost em = models_of(entries@);
            assert(em.take(0) =~= Seq::<JsonModel>::empty());
            let mut i: usize = 0;
            while i < entries.len()
                invariant
                    i <= entries@.len(),
                    em == models_of(entries@),
                    em.len() == entries@.len(),
                    forall|k: int| 0 <= k < entries@.len() ==> #[trigger] em[k] == entries@[k]@,
                    user_models(users@) == users_of(em.take(i as int)),
                decreases entries@.len() - i,
            {
                assert(em.take(i + 1).drop_last() =~= em.take(i as int));
                assert(em.take(i + 1).last() == em[i as int]);
                let ghost before = users@;
                match read_user(&entries[i]) {
                    Some(u) => {
                        users.push(u);
                        assert(user_models(users@) =~= user_models(before).push(users@.last().model()));
                    },
                    None => {},
                }
                i = i + 1;
            }
            assert(em.take(i as int) =~= em);
        },
        None => {},
    }
    let is_public = match bool_in(get_in(item(arr, 1), 0)) {
        Some(b) => b,
        None => false,
    };
    let access = if is_public {
        ShareAccess::AnyoneWithLink
    } else {
        ShareAccess::Restricted
    };
    let share_url = if is_public {
        Some(ShareStatus::build_share_url(notebook_id))
    } else {
        None
    };
    ShareStatus { notebook_id: owned(notebook_id), is_public, access, shared_users: users, share_url }
}

/// A topic entry `[question, prompt]`: nothing when either is not a string,
/// or both are empty.
pub open spec fn topic_of(entry: JsonModel) -> Option<(Seq<char>, Seq<char>)> {
    match (then_text(entry.at(0)), then_text(entry.at(1))) {
        (Some(q), Some(p)) => if q.len() == 0 && p.len() == 0 {
            None
        } else {
            Some((q, p))
        },
        _ => None,
    }
}

/// The topics read from the entries, in order.
pub open spec fn topics_of(entries: Seq<JsonModel>) -> Seq<(Seq<char>, Seq<char>)>
    decreases entries.len(),
{
    if entries.len() == 0 {
        Seq::empty()
    } else {
        match topic_of(entries.last()) {
            Some(t) => topics_of(entries.drop_last()).push(t),
            None => topics_of(entries.drop_last()),
        }
    }
}

pub open spec fn topic_models(v: Seq<SuggestedTopic>) -> Seq<(Seq<char>, Seq<char>)> {
    v.map_values(|t: SuggestedTopic| (t.question@, t.prompt@))
}

/// What `parse_summary` reads from `[[[summary], [topics..], ..]]`: the
/// summary at `[0][0][0]` (empty when absent) and the topics at `[0][1]`.
pub open spec fn summary_ok(r: NotebookSummary, m: JsonModel) -> bool {
    &&& r.summary@ == match then_text(then_at(then_at(m.at(0), 0), 0)) {
        Some(s) => s,
        None => Seq::empty(),
    }
    &&& topic_models(r.suggested_topics@) == match then_arr(then_at(m.at(0), 1)) {
        Some(entries) => topics_of(entries),
        None => Seq::empty(),
    }
}

/// Reads the summary and suggested topics from the inner JSON of
/// `SUMMARIZE`; missing parts read as empty.
pub fn parse_summary(inner: &JsonValue) -> (r: NotebookSummary)
    ensures
        summary_ok(r, inner@),
{
    broadcast use group_json;

    let summary = match str_in(get_in(get_in(inner.get(0), 0), 0)) {
        Some(s) => s.clone(),
        None => String::new(),
    };
    let mut topics: Vec<SuggestedTopic> = Vec::new();
    assert(topic_models(topics@) =~= Seq::<(Seq<char>, Seq<char>)>::empty());
    match arr_in(get_in(inner.get(0), 1)) {
        Some(entries) => {
            proof {
                crate::json::lemma_models_of(entries@);
            }
            let ghost em = models_of(entries@);
            assert(em.take(0) =~= Seq::<JsonModel>::empty());
            let mut i: usize = 0;
            while i < entries.len()
                invariant
                    i <= entries@.len(),
                    em == models_of(entries@),
                    em.len() == entries@.len(),
                    forall|k: int| 0 <= k < entries@.len() ==> #[trigger] em[k] == entries@[k]@,
                    topic_models(topics@) == topics_of(em.take(i as int)),
                decreases entries@.len() - i,
            {
                assert(em.take(i + 1).drop_last() =~= em.take(i as int));
                assert(em.take(i + 1).last() == em[i as int]);
                let ghost before = topics@;
                let e = &entries[i];
                match (str_in(e.get(0)), str_in(e.get(1))) {
                    (Some(q), Some(p)) => {
                        if !(q.as_str().is_empty() && p.as_str().is_empty()) {
                            topics.push(SuggestedTopic { question: q.clone(), prompt: p.clone() });
                            assert(topic_models(topics@) =~= topic_models(before).push((q@, p@)));
                        }
                    },
                    _ => {},
                }
                i = i + 1;
            }
            assert(em.take(i as int) =~= em);
        },
        None => {},
    }
    NotebookSummary { summary, suggested_topics: topics }
}

} // verus!
