//! Credentials taken from a browser login: which cookies make a session,
//! how they are put together, and what a login attempt or a keyring read
//! leaves the caller with. Driving the browser and the keyring is the
//! caller's part.

use vstd::prelude::*;
use crate::text::{owned, push_str, str_eq};

verus! {

/// The cookie that shows that a Google login finished.
pub const PSID_COOKIE: &'static str = "__Secure-1PSID";

/// The cookie that goes with `PSID_COOKIE`.
pub const PSIDTS_COOKIE: &'static str = "__Secure-1PSIDTS";

/// What a login leaves: the cookie header and a CSRF token (empty until it
/// is read from the NotebookLM page).
#[derive(Debug, Clone)]
pub struct BrowserCredentials {
    pub cookie: String,
    pub csrf: String,
}

/// How a browser login ended.
#[derive(Debug)]
pub enum AuthResult {
    /// The login went through and these credentials were read.
    Success(BrowserCredentials),
    /// No browser could be used; another way of logging in is needed.
    FallbackRequired(String),
    /// The login was tried and failed.
    Failed(String),
}

/// Whether a browser can be started and whether credentials are stored.
#[derive(Debug, Clone, Copy)]
pub struct AuthStatus {
    pub chrome_available: bool,
    pub has_stored_credentials: bool,
}

/// The views of cookies given as (name, value) pairs.
pub open spec fn cookie_views(cookies: Seq<(String, String)>) -> Seq<(Seq<char>, Seq<char>)> {
    cookies.map_values(|c: (String, String)| (c.0@, c.1@))
}

/// The value of the last cookie called `name`, if any.
pub open spec fn last_cookie(cookies: Seq<(Seq<char>, Seq<char>)>, name: Seq<char>) -> Option<Seq<char>>
    decreases cookies.len(),
{
    if cookies.len() == 0 {
        None
    } else if cookies.last().0 == name {
        Some(cookies.last().1)
    } else {
        last_cookie(cookies.drop_last(), name)
    }
}

/// Whether some cookie is called `name`.
pub open spec fn has_cookie(names: Seq<Seq<char>>, name: Seq<char>) -> bool {
    exists|i: int| 0 <= i < names.len() && #[trigger] names[i] == name
}

/// Whether the login is done: one of the cookies is `__Secure-1PSID`.
pub fn has_session_cookie(names: &Vec<String>) -> (r: bool)
    ensures
        r == has_cookie(names@.map_values(|s: String| s@), PSID_COOKIE@),
{
    let ghost views = names@.map_values(|s: String| s@);
    let mut i: usize = 0;
    while i < names.len()
        invariant
            i <= names@.len(),
            views == names@.map_values(|s: String| s@),
            forall|k: int| 0 <= k < i ==> views[k] != PSID_COOKIE@,
        decreases names@.len() - i,
    {
        if str_eq(names[i].as_str(), PSID_COOKIE) {
            assert(views[i as int] == PSID_COOKIE@);
            return true;
        }
        i = i + 1;
    }
    false
}

/// The cookie header sent with each request.
pub open spec fn cookie_header(psid: Seq<char>, psidts: Seq<char>) -> Seq<char> {
    PSID_COOKIE@ + "="@ + psid + "; "@ + PSIDTS_COOKIE@ + "="@ + psidts
}

/// The error given when a login left one of the two cookies out.
pub const MISSING_COOKIES: &'static str = "Required cookies (__Secure-1PSID, __Secure-1PSIDTS) not found";

/// Builds the credentials from the cookies the browser holds after a login:
/// the last `__Secure-1PSID` and the last `__Secure-1PSIDTS`, joined as a
/// cookie header, with an empty CSRF token; an error when either is missing.
pub fn credentials_from_cookies(cookies: &Vec<(String, String)>) -> (r: Result<BrowserCredentials, String>)
    ensures
        match (last_cookie(cookie_views(cookies@), PSID_COOKIE@), last_cookie(cookie_views(cookies@), PSIDTS_COOKIE@)) {
            (Some(a), Some(b)) => r matches Ok(c) && c.cookie@ == cookie_header(a, b) && c.csrf@
                == Seq::<char>::empty(),
            _ => r matches Err(e) && e@ == MISSING_COOKIES@,
        },
{
    let ghost views = cookie_views(cookies@);
    let mut psid: Option<String> = None;
    let mut psidts: Option<String> = None;
    let mut i: usize = 0;
    while i < cookies.len()
        invariant
            i <= cookies@.len(),
            views == cookie_views(cookies@),
            views.len() == cookies@.len(),
            match psid {
                Some(s) => last_cookie(views.take(i as int), PSID_COOKIE@) == Some(s@),
                None => last_cookie(views.take(i as int), PSID_COOKIE@) is None,
            },
            match psidts {
                Some(s) => last_cookie(views.take(i as int), PSIDTS_COOKIE@) == Some(s@),
                None => last_cookie(views.take(i as int), PSIDTS_COOKIE@) is None,
            },
        decreases cookies@.len() - i,
    {
        let ghost t = views.take(i + 1);
        assert(t.drop_last() =~= views.take(i as int));
        assert(t.last() == views[i as int]);
        assert(views[i as int] == (cookies@[i as int].0@, cookies@[i as int].1@));
        proof {
            reveal_strlit("__Secure-1PSID");
            reveal_strlit("__Secure-1PSIDTS");
            assert(PSID_COOKIE@.len() != PSIDTS_COOKIE@.len());
        }
        if str_eq(cookies[i].0.as_str(), PSID_COOKIE) {
            psid = Some(owned(cookies[i].1.as_str()));
        } else if str_eq(cookies[i].0.as_str(), PSIDTS_COOKIE) {
            psidts = Some(owned(cookies[i].1.as_str()));
        }
        i = i + 1;
    }
    assert(views.take(i as int) =~= views);
    match (psid, psidts) {
        (Some(a), Some(b)) => {
            let mut cookie = String::new();
            push_str(&mut cookie, PSID_COOKIE);
            push_str(&mut cookie, "=");
            push_str(&mut cookie, a.as_str());
            push_str(&mut cookie, "; ");
            push_str(&mut cookie, PSIDTS_COOKIE);
            push_str(&mut cookie, "=");
            push_str(&mut cookie, b.as_str());
            Ok(BrowserCredentials { cookie, csrf: String::new() })
        },
        _ => Err(owned(MISSING_COOKIES)),
    }
}

/// What a login attempt gives the caller: the credentials on success,
/// nothing when a fallback is needed or the login failed.
pub fn credentials_of(result: AuthResult) -> (r: Option<BrowserCredentials>)
    ensures
        match result {
            AuthResult::Success(c) => r == Some(c),
            _ => r is None,
        },
{
    match result {
        AuthResult::Success(c) => Some(c),
        AuthResult::FallbackRequired(_) => None,
        AuthResult::Failed(_) => None,
    }
}

/// What storing credentials reports, given what the keyring answered. The
/// keyring is the only store, so its failure is the failure to store:
/// nothing else keeps the credentials.
pub fn store_credentials(keyring_answer: Result<(), String>) -> (r: Result<(), String>)
    ensures
        r == keyring_answer,
{
    match keyring_answer {
        Ok(done) => Ok(done),
        Err(e) => Err(e),
    }
}

/// The stored session as (cookie, csrf), given what reading the keyring
/// gave: the pair on success, nothing otherwise.
pub fn load_credentials(loaded: Result<BrowserCredentials, String>) -> (r: Option<(String, String)>)
    ensures
        match loaded {
            Ok(c) => r matches Some((a, b)) && a == c.cookie && b == c.csrf,
            Err(_) => r is None,
        },
{
    match loaded {
        Ok(c) => Some((c.cookie, c.csrf)),
        Err(_) => None,
    }
}

} // verus!
