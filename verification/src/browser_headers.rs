//! The Chrome-like headers sent with batchexecute requests, so that the
//! requests look like those of a browser on the same site. Cookie and
//! Content-Type are the caller's to add.

use vstd::prelude::*;
use crate::text::owned;

verus! {

pub const USER_AGENT: &'static str = "Mozilla/5.0 (Windows NT 10.0; Win64; x64) AppleWebKit/537.36 (KHTML, like Gecko) Chrome/136.0.0.0 Safari/537.36";

pub const SEC_CH_UA: &'static str = "\"Chromium\";v=\"136\", \"Google Chrome\";v=\"136\", \"Not?A_Brand\";v=\"99\"";

pub const ORIGIN: &'static str = "https://notebooklm.google.com";

pub const REFERER: &'static str = "https://notebooklm.google.com/";

/// The views of (name, value) pairs.
pub open spec fn header_views(h: Seq<(String, String)>) -> Seq<(Seq<char>, Seq<char>)> {
    h.map_values(|p: (String, String)| (p.0@, p.1@))
}

/// The headers, by lower-case name, in the order they are added.
pub open spec fn chrome_headers() -> Seq<(Seq<char>, Seq<char>)> {
    seq![
        ("user-agent"@, USER_AGENT@),
        ("sec-fetch-dest"@, "empty"@),
        ("sec-fetch-mode"@, "cors"@),
        ("sec-fetch-site"@, "same-origin"@),
        ("sec-ch-ua"@, SEC_CH_UA@),
        ("sec-ch-ua-mobile"@, "?0"@),
        ("sec-ch-ua-platform"@, "\"Windows\""@),
        ("origin"@, ORIGIN@),
        ("referer"@, REFERER@),
        ("accept"@, "*/*"@),
        ("accept-language"@, "en-US,en;q=0.9"@),
    ]
}

fn add_header(h: &mut Vec<(String, String)>, name: &str, value: &str)
    ensures
        header_views(final(h)@) == header_views(old(h)@).push((name@, value@)),
{
    let ghost before = h@;
    h.push((owned(name), owned(value)));
    assert(header_views(h@) =~= header_views(before).push((name@, value@)));
}

/// The Chrome-like headers as (name, value) pairs, names in lower case.
pub fn browser_headers() -> (r: Vec<(String, String)>)
    ensures
        header_views(r@) == chrome_headers(),
{
    let mut h: Vec<(String, String)> = Vec::new();
    add_header(&mut h, "user-agent", USER_AGENT);
    add_header(&mut h, "sec-fetch-dest", "empty");
    add_header(&mut h, "sec-fetch-mode", "cors");
    add_header(&mut h, "sec-fetch-site", "same-origin");
    add_header(&mut h, "sec-ch-ua", SEC_CH_UA);
    add_header(&mut h, "sec-ch-ua-mobile", "?0");
    add_header(&mut h, "sec-ch-ua-platform", "\"Windows\"");
    add_header(&mut h, "origin", ORIGIN);
    add_header(&mut h, "referer", REFERER);
    add_header(&mut h, "accept", "*/*");
    add_header(&mut h, "accept-language", "en-US,en;q=0.9");
    assert(header_views(h@) =~= chrome_headers());
    h
}

} // verus!
