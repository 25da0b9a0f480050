use notebooklm_mcp::browser_headers::browser_headers;

/// The value of a header, by name.
fn get<'a>(headers: &'a [(String, String)], name: &str) -> Option<&'a str> {
    headers.iter().find(|(n, _)| n == name).map(|(_, v)| v.as_str())
}

#[test]
fn test_browser_headers_has_user_agent() {
    let headers = browser_headers();
    let ua = get(&headers, "user-agent").unwrap();
    assert!(ua.contains("Chrome/"), "UA must contain Chrome/");
    assert!(ua.contains("Mozilla/5.0"), "UA must contain Mozilla/5.0");
}

#[test]
fn test_browser_headers_has_sec_fetch() {
    let headers = browser_headers();
    assert_eq!(get(&headers, "sec-fetch-dest").unwrap(), "empty");
    assert_eq!(get(&headers, "sec-fetch-mode").unwrap(), "cors");
    assert_eq!(get(&headers, "sec-fetch-site").unwrap(), "same-origin");
}

#[test]
fn test_browser_headers_has_origin_referer() {
    let headers = browser_headers();
    assert_eq!(
        get(&headers, "origin").unwrap(),
        "https://notebooklm.google.com"
    );
    assert_eq!(
        get(&headers, "referer").unwrap(),
        "https://notebooklm.google.com/"
    );
}

#[test]
fn test_browser_headers_no_cookie_or_content_type() {
    let headers = browser_headers();
    assert!(
        get(&headers, "cookie").is_none(),
        "browser_headers() must NOT include Cookie — caller adds it"
    );
    assert!(
        get(&headers, "content-type").is_none(),
        "browser_headers() must NOT include Content-Type — caller adds it"
    );
}

#[test]
fn test_browser_headers_has_sec_ch_ua() {
    let headers = browser_headers();
    let ch_ua = get(&headers, "sec-ch-ua").unwrap();
    assert!(ch_ua.contains("Google Chrome"));
    assert_eq!(get(&headers, "sec-ch-ua-mobile").unwrap(), "?0");
    assert_eq!(get(&headers, "sec-ch-ua-platform").unwrap(), "\"Windows\"");
}

#[test]
fn test_browser_headers_has_accept() {
    let headers = browser_headers();
    assert_eq!(get(&headers, "accept").unwrap(), "*/*");
    let lang = get(&headers, "accept-language").unwrap();
    assert!(lang.contains("en-US"));
}

