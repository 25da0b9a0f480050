//! The request texts of the batchexecute endpoint: the `f.req` envelope,
//! the endpoint URL, and the payloads written as JSON text by hand.

use vstd::prelude::*;
use crate::text::{owned, push_str, push_char, chars_of};

verus! {

/// The text with every `"` written as `\"` (what `replace('"', "\\\"")` gives).
pub open spec fn escape_quotes(s: Seq<char>) -> Seq<char>
    decreases s.len(),
{
    if s.len() == 0 {
        Seq::empty()
    } else if s.last() == '"' {
        escape_quotes(s.drop_last()) + seq!['\\', '"']
    } else {
        escape_quotes(s.drop_last()).push(s.last())
    }
}

/// Appends `s` with its quotes escaped.
fn push_escaped(out: &mut String, s: &str)
    ensures
        final(out)@ == old(out)@ + escape_quotes(s@),
{
    let cs = chars_of(s);
    let ghost start = out@;
    let mut i: usize = 0;
    assert(cs@.take(0) =~= Seq::<char>::empty());
    assert(out@ =~= start + escape_quotes(cs@.take(0)));
    while i < cs.len()
        invariant
            i <= cs@.len(),
            cs@ == s@,
            out@ == start + escape_quotes(cs@.take(i as int)),
        decreases cs@.len() - i,
    {
        assert(cs@.take(i + 1).drop_last() =~= cs@.take(i as int));
        assert(cs@.take(i + 1).last() == cs@[i as int]);
        if cs[i] == '"' {
            push_char(out, '\\');
            push_char(out, '"');
        } else {
            push_char(out, cs[i]);
        }
        i = i + 1;
        assert(out@ =~= start + escape_quotes(cs@.take(i as int)));
    }
    assert(cs@.take(i as int) =~= cs@);
}

/// `[[["{rpc_id}","{payload with quotes escaped}",null,"generic"]]]`, the
/// `f.req` field of a batchexecute request.
pub open spec fn request_envelope(rpc_id: Seq<char>, payload: Seq<char>) -> Seq<char> {
    "[[[\""@ + rpc_id + "\",\""@ + escape_quotes(payload) + "\",null,\"generic\"]]]"@
}

/// The characters held by the body of a JSON string (the text between its
/// quotes), read left to right, for bodies that use only the escapes `\"`
/// and `\\`: a bare `"` (which would end the string), a control character,
/// or any other backslash makes it no such body.
pub open spec fn json_string_body(e: Seq<char>) -> Option<Seq<char>>
    decreases e.len(),
{
    if e.len() == 0 {
        Some(Seq::empty())
    } else if e[0] == '"' || (e[0] as u32) < 0x20 {
        None
    } else if e[0] == '\\' {
        if e.len() >= 2 && (e[1] == '"' || e[1] == '\\') {
            match json_string_body(e.subrange(2, e.len() as int)) {
                Some(rest) => Some(seq![e[1]] + rest),
                None => None,
            }
        } else {
            None
        }
    } else {
        match json_string_body(e.drop_first()) {
            Some(rest) => Some(seq![e[0]] + rest),
            None => None,
        }
    }
}

proof fn lemma_escape_concat(a: Seq<char>, b: Seq<char>)
    ensures
        escape_quotes(a + b) == escape_quotes(a) + escape_quotes(b),
    decreases b.len(),
{
    if b.len() == 0 {
        assert(a + b =~= a);
        assert(escape_quotes(a) + escape_quotes(b) =~= escape_quotes(a));
    } else {
        lemma_escape_concat(a, b.drop_last());
        assert((a + b).drop_last() =~= a + b.drop_last());
        assert((a + b).last() == b.last());
        if b.last() == '"' {
            assert(escape_quotes(a) + escape_quotes(b) =~= escape_quotes(a) + escape_quotes(b.drop_last()) + seq!['\\', '"']);
        } else {
            assert(escape_quotes(a) + escape_quotes(b) =~= (escape_quotes(a) + escape_quotes(b.drop_last())).push(b.last()));
        }
    }
}

/// Reading back an escaped text gives the text, when it holds no backslash
/// and no control character.
proof fn lemma_escape_reads_back(p: Seq<char>)
    requires
        forall|i: int| 0 <= i < p.len() ==> #[trigger] p[i] != '\\' && (p[i] as u32) >= 0x20,
    ensures
        json_string_body(escape_quotes(p)) == Some(p),
    decreases p.len(),
{
    if p.len() > 0 {
        let first = seq![p[0]];
        let rest = p.drop_first();
        assert(p =~= first + rest);
        lemma_escape_concat(first, rest);
        assert(first.drop_last() =~= Seq::<char>::empty());
        assert(escape_quotes(Seq::<char>::empty()) =~= Seq::<char>::empty());
        assert forall|i: int| 0 <= i < rest.len() implies #[trigger] rest[i] != '\\' && (rest[i] as u32) >= 0x20 by {
            assert(rest[i] == p[i + 1]);
        }
        lemma_escape_reads_back(rest);
        let e = escape_quotes(p);
        if p[0] == '"' {
            assert(escape_quotes(first) =~= seq!['\\', '"']);
            assert(e =~= seq!['\\', '"'] + escape_quotes(rest));
            assert(e.subrange(2, e.len() as int) =~= escape_quotes(rest));
            assert(seq!['"'] + rest =~= p);
        } else {
            assert(escape_quotes(first) =~= seq![p[0]]);
            assert(e =~= seq![p[0]] + escape_quotes(rest));
            assert(e.drop_first() =~= escape_quotes(rest));
            assert(seq![p[0]] + rest =~= p);
        }
    }
}

/// The `f.req` envelope is JSON text whose call holds the payload as a
/// string: between `[[["{rpc_id}","` and `",null,"generic"]]]` stands a
/// string body that reads back as the payload exactly, for every payload
/// without backslashes or control characters (quotes included).
pub proof fn law_request_envelope_reads_back(rpc_id: Seq<char>, payload: Seq<char>)
    requires
        forall|i: int| 0 <= i < payload.len() ==> #[trigger] payload[i] != '\\' && (payload[i] as u32) >= 0x20,
    ensures
        exists|e: Seq<char>|
            #![trigger json_string_body(e)]
            request_envelope(rpc_id, payload) == "[[[\""@ + rpc_id + "\",\""@ + e + "\",null,\"generic\"]]]"@
                && json_string_body(e) == Some(payload),
{
    lemma_escape_reads_back(payload);
    let e = escape_quotes(payload);
    assert(json_string_body(e) == Some(payload));
}

pub fn batchexecute_request(rpc_id: &str, payload: &str) -> (r: String)
    ensures
        r@ == request_envelope(rpc_id@, payload@),
{
    let mut out = owned("[[[\"");
    push_str(&mut out, rpc_id);
    push_str(&mut out, "\",\"");
    push_escaped(&mut out, payload);
    push_str(&mut out, "\",null,\"generic\"]]]");
    out
}

/// The batchexecute URL for an endpoint; the session id, when there is one,
/// goes in `f.sid`.
pub open spec fn batchexecute_url_text(rpc_id: Seq<char>, sid: Seq<char>) -> Seq<char> {
    "https://notebooklm.google.com/_/LabsTailwindUi/data/batchexecute?rpcids="@ + rpc_id + "&rt=c"@ + (
    if sid.len() > 0 {
        "&source-path=/&f.sid="@ + sid
    } else {
        Seq::empty()
    })
}

pub fn batchexecute_url(rpc_id: &str, sid: &str) -> (r: String)
    ensures
        r@ == batchexecute_url_text(rpc_id@, sid@),
{
    let mut out = owned("https://notebooklm.google.com/_/LabsTailwindUi/data/batchexecute?rpcids=");
    push_str(&mut out, rpc_id);
    push_str(&mut out, "&rt=c");
    if !sid.is_empty() {
        push_str(&mut out, "&source-path=/&f.sid=");
        push_str(&mut out, sid);
    }
    out
}

/// `prefix`, `middle`, `suffix` in a row.
fn surround(prefix: &str, middle: &str, suffix: &str) -> (r: String)
    ensures
        r@ == prefix@ + middle@ + suffix@,
{
    let mut out = owned(prefix);
    push_str(&mut out, middle);
    push_str(&mut out, suffix);
    out
}

/// `prefix`, `middle` with quotes escaped, `suffix`.
fn surround_escaped(prefix: &str, middle: &str, suffix: &str) -> (r: String)
    ensures
        r@ == prefix@ + escape_quotes(middle@) + suffix@,
{
    let mut out = owned(prefix);
    push_escaped(&mut out, middle);
    push_str(&mut out, suffix);
    out
}

/// Payload of `CCqFvf` (create a notebook).
pub fn create_notebook_payload(title: &str) -> (r: String)
    ensures
        r@ == "[\""@ + escape_quotes(title@) + "\",null,null,[2],[1,null,null,null,null,null,null,null,null,null,[1]]]"@,
{
    surround_escaped("[\"", title, "\",null,null,[2],[1,null,null,null,null,null,null,null,null,null,[1]]]")
}

/// Payload of `WWINqb` (delete a notebook).
pub fn delete_notebook_payload(notebook_id: &str) -> (r: String)
    ensures
        r@ == "[[\""@ + notebook_id@ + "\"],[2]]"@,
{
    surround("[[\"", notebook_id, "\"],[2]]")
}

/// Payload of `izAoDd` for a text source.
pub fn add_text_source_payload(notebook_id: &str, title: &str, content: &str) -> (r: String)
    ensures
        r@ == "[[[null,[\""@ + escape_quotes(title@) + "\",\""@ + escape_quotes(content@)
            + "\"],null,2,null,null,null,null,null,null,1]],\""@ + notebook_id@
            + "\",[2],[1,null,null,null,null,null,null,null,null,null,[1]]]"@,
{
    let mut out = owned("[[[null,[\"");
    push_escaped(&mut out, title);
    push_str(&mut out, "\",\"");
    push_escaped(&mut out, content);
    push_str(&mut out, "\"],null,2,null,null,null,null,null,null,1]],\"");
    push_str(&mut out, notebook_id);
    push_str(&mut out, "\",[2],[1,null,null,null,null,null,null,null,null,null,[1]]]");
    out
}

/// Payload of `rLM1Ne` (a notebook with its sources).
pub fn get_notebook_payload(notebook_id: &str) -> (r: String)
    ensures
        r@ == "[\""@ + escape_quotes(notebook_id@) + "\", null, [2], null, 0]"@,
{
    surround_escaped("[\"", notebook_id, "\", null, [2], null, 0]")
}

/// Payload of `s0tc2d` (rename a notebook).
pub fn rename_notebook_payload(notebook_id: &str, new_title: &str) -> (r: String)
    ensures
        r@ == "[\""@ + notebook_id@ + "\", [[null, null, null, [null, \""@ + escape_quotes(new_title@)
            + "\"]]]]"@,
{
    let mut out = owned("[\"");
    push_str(&mut out, notebook_id);
    push_str(&mut out, "\", [[null, null, null, [null, \"");
    push_escaped(&mut out, new_title);
    push_str(&mut out, "\"]]]]");
    out
}

/// Payload of `VfAZjd` and `JFMDGd` (summary, sharing status).
pub fn notebook_and_two_payload(notebook_id: &str) -> (r: String)
    ensures
        r@ == "[\""@ + notebook_id@ + "\", [2]]"@,
{
    surround("[\"", notebook_id, "\", [2]]")
}

/// Payload of `QDyure` making a notebook public (access 1) or private (0).
pub fn set_sharing_payload(notebook_id: &str, public: bool) -> (r: String)
    ensures
        r@ == "[[[\""@ + notebook_id@ + (if public {
            "\", null, [1], [1 , \"\"]]], 1, null, [2]]"@
        } else {
            "\", null, [0], [0 , \"\"]]], 1, null, [2]]"@
        }),
{
    if public {
        surround("[[[\"", notebook_id, "\", null, [1], [1 , \"\"]]], 1, null, [2]]")
    } else {
        surround("[[[\"", notebook_id, "\", null, [0], [0 , \"\"]]], 1, null, [2]]")
    }
}

/// An escaped quote: a backslash and a quote.
pub open spec fn escaped_quote() -> Seq<char> {
    seq!['\\', '"']
}

/// Payload of `gArtLc` (artifacts of a notebook, suggestions left out).
pub fn list_artifacts_payload(notebook_id: &str) -> (r: String)
    ensures
        r@ == "[[2],\""@ + notebook_id@ + "\",\"NOT artifact.status = "@ + escaped_quote()
            + "ARTIFACT_STATUS_SUGGESTED"@ + escaped_quote() + "\"]"@,
{
    let mut out = surround("[[2],\"", notebook_id, "\",\"NOT artifact.status = ");
    push_char(&mut out, '\\');
    push_char(&mut out, '"');
    push_str(&mut out, "ARTIFACT_STATUS_SUGGESTED");
    push_char(&mut out, '\\');
    push_char(&mut out, '"');
    push_str(&mut out, "\"]");
    assert(out@ =~= "[[2],\""@ + notebook_id@ + "\",\"NOT artifact.status = "@ + escaped_quote()
        + "ARTIFACT_STATUS_SUGGESTED"@ + escaped_quote() + "\"]"@);
    out
}

/// Payload of `V5N4be` (delete an artifact).
pub fn delete_artifact_payload(artifact_id: &str) -> (r: String)
    ensures
        r@ == "[[2],\""@ + artifact_id@ + "\"]"@,
{
    surround("[[2],\"", artifact_id, "\"]")
}

/// A payload holding one id: `["{id}"]` (interactive page, notes).
pub fn single_id_payload(id: &str) -> (r: String)
    ensures
        r@ == "[\""@ + id@ + "\"]"@,
{
    surround("[\"", id, "\"]")
}

} // verus!
