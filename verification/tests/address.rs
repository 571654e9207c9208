use chartr_browser::address::{
    has_no_scheme_like_colon, is_allowed_navigation, is_http_url, is_ip_like, is_local_host,
    looks_like_host, permitted_url, resolve_input, validate_http,
};

fn chars(s: &str) -> Vec<char> {
    s.chars().collect()
}

#[test]
fn address_input_distinguishes_urls_local_hosts_and_searches() {
    assert_eq!(
        resolve_input("example.com/a").unwrap().as_str(),
        "https://example.com/a"
    );
    assert_eq!(
        resolve_input("localhost:3000").unwrap().as_str(),
        "http://localhost:3000/"
    );
    assert_eq!(
        resolve_input("127.0.0.1:8080").unwrap().as_str(),
        "http://127.0.0.1:8080/"
    );
    assert_eq!(
        resolve_input("[::1]:8080").unwrap().as_str(),
        "http://[::1]:8080/"
    );
    assert_eq!(
        resolve_input("example.com:8443/path").unwrap().as_str(),
        "https://example.com:8443/path"
    );
    assert_eq!(
        resolve_input("localhost.example/path").unwrap().as_str(),
        "https://localhost.example/path"
    );
    let search = resolve_input("small browser").unwrap();
    assert_eq!(search.host_str(), Some("duckduckgo.com"));
    let parsed = url::Url::parse(search.as_str()).unwrap();
    assert_eq!(
        parsed.query_pairs().find(|(key, _)| key == "q").unwrap().1,
        "small browser"
    );
}

#[test]
fn non_web_schemes_are_rejected() {
    for input in ["file:///tmp/secret", "mailto:user@example.com", "tel:123"] {
        assert!(resolve_input(input).is_err(), "{input}");
    }
}

#[test]
fn page_navigation_cannot_open_local_files_or_privileged_schemes() {
    for url in [
        "https://example.org",
        "http://localhost:1234/",
        "data:text/html,hello",
        "blob:https://example.org/id",
        "about:blank",
        "about:srcdoc",
    ] {
        assert!(permitted_url(url), "{url}");
    }
    for url in [
        "file:///etc/passwd",
        "javascript:alert(1)",
        "chrome://settings",
        "devtools://devtools",
        "about:config",
        "mailto:a@example.org",
        "not a URL",
    ] {
        assert!(!permitted_url(url), "{url}");
    }
}

#[test]
fn empty_and_blank_input_asks_for_an_address() {
    assert_eq!(
        resolve_input("").unwrap_err(),
        "Enter a URL or search query."
    );
    assert_eq!(
        resolve_input(" \t\n ").unwrap_err(),
        "Enter a URL or search query."
    );
}

#[test]
fn surrounding_white_space_is_ignored() {
    assert_eq!(
        resolve_input("  https://example.com/x \n").unwrap().as_str(),
        "https://example.com/x"
    );
    assert_eq!(
        resolve_input("\u{3000}example.org\u{a0}").unwrap().as_str(),
        "https://example.org/"
    );
}

#[test]
fn explicit_web_addresses_are_parsed_as_they_are() {
    let url = resolve_input("HTTP://Example.COM/Path?q=1#f").unwrap();
    assert_eq!(url.as_str(), "http://example.com/Path?q=1#f");
    assert_eq!(url.scheme(), "http");
    assert_eq!(url.host_str(), Some("example.com"));
}

#[test]
fn unparsable_addresses_are_invalid() {
    assert_eq!(
        resolve_input("http://").unwrap_err(),
        "That URL is not valid."
    );
    assert_eq!(
        resolve_input("localhost:99999").unwrap_err(),
        "That URL is not valid."
    );
    assert_eq!(
        resolve_input("a b://c").unwrap_err(),
        "That URL is not valid."
    );
}

#[test]
fn hostless_web_urls_and_other_schemes_are_refused() {
    assert_eq!(
        resolve_input("ftp://example.com/").unwrap_err(),
        "Browser supports only HTTP and HTTPS addresses."
    );
    assert_eq!(
        resolve_input("data:text/plain,hi").unwrap_err(),
        "Browser supports only HTTP and HTTPS addresses."
    );
}

#[test]
fn local_hosts_use_plain_http() {
    assert_eq!(
        resolve_input("LOCALHOST").unwrap().as_str(),
        "http://localhost/"
    );
    assert_eq!(
        resolve_input("localhost/app?x#y").unwrap().as_str(),
        "http://localhost/app?x#y"
    );
    assert_eq!(
        resolve_input("10.0.0.1").unwrap().as_str(),
        "http://10.0.0.1/"
    );
}

#[test]
fn searches_carry_the_typed_text() {
    let search = resolve_input("what is rust").unwrap();
    assert_eq!(
        search.as_str(),
        "https://duckduckgo.com/?q=what+is+rust"
    );
    assert_eq!(search.scheme(), "https");
}

#[test]
fn host_recognition() {
    assert!(is_local_host(&chars("localhost")));
    assert!(is_local_host(&chars("LocalHost:80/path")));
    assert!(!is_local_host(&chars("localhost.example")));
    assert!(!is_local_host(&chars("localhostx")));
    assert!(is_local_host(&chars("[::1]")));
    assert!(is_local_host(&chars("192.168.1.1:8080")));
    assert!(!is_local_host(&chars("192.168.1:8080")));
    assert!(is_ip_like(&chars("::1")));
    assert!(is_ip_like(&chars("[fe80::1]:443")));
    assert!(!is_ip_like(&chars("[nope]")));
    assert!(!is_ip_like(&chars("1.2.3.4:70000")));
    assert!(is_ip_like(&chars("10.0.255.1:80")));
    assert!(is_ip_like(&chars("192.168.0.1")));
    assert!(!is_ip_like(&chars("example.com")));
    assert!(!is_ip_like(&chars("1.2.3")));
    assert!(!is_local_host(&chars("example.com")));
    assert!(is_ip_like(&chars("0.0.0.0:1")));
    assert!(!is_ip_like(&chars("10.0.256.1:80")));
    assert!(!is_ip_like(&chars("010.0.0.1:80")));
    assert!(!is_ip_like(&chars("1.2.3.4.5:80")));
    assert!(!is_ip_like(&chars("1..3.4:80")));
    assert!(!is_ip_like(&chars("+1.2.3.4:80")));
    assert!(looks_like_host(&chars("example.com")));
    assert!(!looks_like_host(&chars("exa mple.com")));
    assert!(!looks_like_host(&chars("example")));
    assert!(has_no_scheme_like_colon(&chars("example.com:8443/x")));
    assert!(has_no_scheme_like_colon(&chars("example.com/a:b")));
    assert!(!has_no_scheme_like_colon(&chars("mailto:user@example.com")));
    assert!(has_no_scheme_like_colon(&chars("host:+80")));
    assert!(!has_no_scheme_like_colon(&chars("host:-80")));
}

#[test]
fn web_url_checks() {
    assert!(is_http_url("https://example.org/"));
    assert!(is_http_url("http://localhost:1234/"));
    assert!(!is_http_url("ftp://example.org/"));
    assert!(!is_http_url("example.org"));
    assert!(is_allowed_navigation("about:blank"));
    assert!(is_allowed_navigation("https://example.org"));
    assert!(!is_allowed_navigation("about:srcdoc"));
    assert!(!is_allowed_navigation("file:///etc/passwd"));
    let url = resolve_input("https://example.org/a").unwrap();
    assert_eq!(validate_http(url.clone()).unwrap(), url);
}
