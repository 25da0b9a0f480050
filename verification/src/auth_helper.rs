//! Reading the CSRF token (`SNlM0e`) and the session id (`FdrFJe`) out of
//! the NotebookLM page. The page is fetched by the caller.

use vstd::prelude::*;
use crate::outside::{regex_capture, regex_group};
use crate::text::{owned, seq_contains, str_contains};

verus! {

/// The CSRF token in a page: the value of `"SNlM0e":"..."`, else of the
/// looser `SNlM0e = '...'` forms.
pub open spec fn csrf_of(html: Seq<char>) -> Result<Seq<char>, Seq<char>> {
    match regex_group("\"SNlM0e\"\\s*:\\s*\"([^\"]+)\""@, html, 1) {
        Some(t) => if t.len() == 0 {
            Err("Token CSRF vacío"@)
        } else {
            Ok(t)
        },
        None => match regex_group("SNlM0e[\"']?\\s*[:=]\\s*[\"']([^\"']+)[\"']"@, html, 1) {
            Some(t) => Ok(t),
            None => Err("No se encontró token CSRF (SNlM0e) en el HTML"@),
        },
    }
}

/// The session id in a page: the value of `"FdrFJe":"..."`.
pub open spec fn session_id_of(html: Seq<char>) -> Result<Seq<char>, Seq<char>> {
    match regex_group("\"FdrFJe\"\\s*:\\s*\"([^\"]+)\""@, html, 1) {
        Some(t) => if t.len() == 0 {
            Err("Session ID vacío"@)
        } else {
            Ok(t)
        },
        None => Err("No se encontró session ID (FdrFJe) en el HTML"@),
    }
}

/// The characters of a string result.
pub open spec fn res_text(r: Result<String, String>) -> Result<Seq<char>, Seq<char>> {
    match r {
        Ok(s) => Ok(s@),
        Err(e) => Err(e@),
    }
}

/// Extracts the CSRF token from the NotebookLM page.
pub fn extract_csrf_from_html(html: &str) -> (r: Result<String, String>)
    ensures
        res_text(r) == csrf_of(html@),
{
    match regex_capture("\"SNlM0e\"\\s*:\\s*\"([^\"]+)\"", html, 1) {
        Some(t) => {
            if t.as_str().is_empty() {
                return Err(owned("Token CSRF vacío"));
            }
            return Ok(t);
        },
        None => {},
    }
    match regex_capture("SNlM0e[\"']?\\s*[:=]\\s*[\"']([^\"']+)[\"']", html, 1) {
        Some(t) => Ok(t),
        None => Err(owned("No se encontró token CSRF (SNlM0e) en el HTML")),
    }
}

/// Extracts the session id (sent as `f.sid`) from the NotebookLM page.
pub fn extract_session_id_from_html(html: &str) -> (r: Result<String, String>)
    ensures
        res_text(r) == session_id_of(html@),
{
    match regex_capture("\"FdrFJe\"\\s*:\\s*\"([^\"]+)\"", html, 1) {
        Some(t) => {
            if t.as_str().is_empty() {
                Err(owned("Session ID vacío"))
            } else {
                Ok(t)
            }
        },
        None => Err(owned("No se encontró session ID (FdrFJe) en el HTML")),
    }
}

/// Both tokens of a page: the CSRF token's error when it is missing; an
/// empty error when only the session id is missing (its reason is not
/// passed on).
pub open spec fn tokens_of(html: Seq<char>) -> Result<(Seq<char>, Seq<char>), Seq<char>> {
    match csrf_of(html) {
        Err(m) => Err(m),
        Ok(c) => match session_id_of(html) {
            Ok(sid) => Ok((c, sid)),
            Err(_) => Err(Seq::empty()),
        },
    }
}

/// Reads both tokens of the NotebookLM page, as `tokens_of` says.
pub fn tokens_from_html(html: &str) -> (r: Result<(String, String), String>)
    ensures
        match (r, tokens_of(html@)) {
            (Ok((c, s)), Ok((tc, ts))) => c@ == tc && s@ == ts,
            (Err(e), Err(m)) => e@ == m,
            _ => false,
        },
{
    let csrf = extract_csrf_from_html(html)?;
    let sid = match extract_session_id_from_html(html) {
        Ok(s) => s,
        Err(_) => return Err(String::new()),
    };
    Ok((csrf, sid))
}

/// Whether the answer to a page request shows a live session: neither 401
/// nor 403, and no redirect to `accounts.google.com`.
pub open spec fn session_live(status: u16, location: Option<Seq<char>>) -> bool {
    status != 401 && status != 403 && !(location matches Some(l) && seq_contains(l, "accounts.google.com"@))
}

/// Decides from the status and `Location` header of the answer to a page
/// request whether the session is still valid.
pub fn session_valid(status: u16, location: Option<&str>) -> (r: bool)
    ensures
        r == session_live(status, match location {
            Some(l) => Some(l@),
            None => None,
        }),
{
    if status == 401 || status == 403 {
        return false;
    }
    match location {
        Some(l) => !str_contains(l, "accounts.google.com"),
        None => true,
    }
}

} // verus!
