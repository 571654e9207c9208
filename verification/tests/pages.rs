use base64::Engine as _;
use chartr_browser::pages::{
    display_title, escape_html, hash_space, html_url, local_page, saved_url, state_path,
    LocalPage, LOCAL_HTML,
};

fn theme_json(font: &str) -> String {
    let mut theme = serde_json::Map::new();
    for (key, value) in [
        ("page", "#000"),
        ("field", "#000"),
        ("border", "#000"),
        ("focus", "#000"),
        ("text", "#fff"),
        ("muted", "#888"),
        ("uiFontSize", font),
    ] {
        theme.insert(key.to_owned(), serde_json::Value::String(value.to_owned()));
    }
    serde_json::to_string(&serde_json::Value::Object(theme)).unwrap()
}

#[test]
fn document_titles_are_normalized_for_tabs() {
    assert_eq!(display_title("  Example\n  Page  "), "Example Page");
    assert_eq!(display_title(" \n\t "), "Browser");
}

#[test]
fn instance_state_is_namespaced_by_space_and_instance() {
    let root = "/data";
    assert_ne!(
        state_path(root, "folder:a", 7),
        state_path(root, "folder:b", 7)
    );
    assert_ne!(
        state_path(root, "folder:a", 7),
        state_path(root, "folder:a", 8)
    );
}

#[test]
fn local_pages_follow_the_host_interface_font_size() {
    let theme = theme_json("18px");
    assert!(local_page(&theme, LocalPage::Start).contains(r#""uiFontSize":"18px""#));
}

#[test]
fn local_pages_round_trip_without_interpreting_url_delimiters() {
    let html = "<!doctype html><p>雪 & # ? %</p>";
    let url = html_url(html);
    let encoded = url
        .strip_prefix("data:text/html;charset=utf-8;base64,")
        .unwrap();
    assert_eq!(
        base64::engine::general_purpose::STANDARD
            .decode(encoded)
            .unwrap(),
        html.as_bytes()
    );
}

#[test]
fn html_urls_hold_the_base64_of_the_page() {
    assert_eq!(html_url("hi"), "data:text/html;charset=utf-8;base64,aGk=");
    assert_eq!(html_url(""), "data:text/html;charset=utf-8;base64,");
    assert_eq!(html_url("a"), "data:text/html;charset=utf-8;base64,YQ==");
    assert_eq!(html_url("abc"), "data:text/html;charset=utf-8;base64,YWJj");
    assert_eq!(html_url("abcd?"), "data:text/html;charset=utf-8;base64,YWJjZD8=");
    assert_eq!(html_url("\u{3fff}>"), "data:text/html;charset=utf-8;base64,47+/Pg==");
}

#[test]
fn html_urls_hold_no_url_delimiters() {
    let url = html_url("<p>#?%&雪</p>");
    let encoded = url
        .strip_prefix("data:text/html;charset=utf-8;base64,")
        .unwrap();
    assert!(encoded
        .chars()
        .all(|c| c.is_ascii_alphanumeric() || c == '+' || c == '/' || c == '='));
}

#[test]
fn titles_match_split_whitespace_and_join() {
    for title in [
        "",
        "a",
        "  a  b  ",
        "\u{2003}Wide\u{3000}space\u{85}",
        "tab\tand\nnewline",
        "x\u{200b}y",
    ] {
        let expected = title.split_whitespace().collect::<Vec<_>>().join(" ");
        let expected = if expected.is_empty() { "Browser".to_owned() } else { expected };
        assert_eq!(display_title(title), expected, "{title:?}");
    }
    let once = display_title("  a \t b ");
    assert_eq!(display_title(&once), once);
}

#[test]
fn state_files_live_under_instances() {
    let hash = hash_space("folder:a");
    assert_eq!(
        state_path("/data", "folder:a", 7),
        format!("/data/instances/{hash:016x}-7.url")
    );
    assert_eq!(
        state_path("/data/", "s", 0),
        format!("/data/instances/{:016x}-0.url", hash_space("s"))
    );
    assert_eq!(
        state_path("", "s", u64::MAX),
        format!("instances/{:016x}-18446744073709551615.url", hash_space("s"))
    );
    let expected = std::path::Path::new("/x/y").join("instances").join(format!(
        "{:016x}-42.url",
        hash_space("é")
    ));
    assert_eq!(state_path("/x/y", "é", 42), expected.to_str().unwrap());
}

#[test]
fn space_hash_is_fnv1a_of_the_utf8_bytes() {
    assert_eq!(hash_space(""), 0xcbf29ce484222325);
    assert_eq!(hash_space("a"), 0xaf63dc4c8601ec8c);
    let mut hash = 0xcbf29ce484222325_u64;
    for byte in "folder:ü".as_bytes() {
        hash ^= u64::from(*byte);
        hash = hash.wrapping_mul(0x100000001b3);
    }
    assert_eq!(hash_space("folder:ü"), hash);
}

#[test]
fn html_special_characters_are_escaped() {
    assert_eq!(
        escape_html(r#"<a href="x">'Tom' & Jerry</a>"#),
        "&lt;a href=&quot;x&quot;&gt;&#39;Tom&#39; &amp; Jerry&lt;/a&gt;"
    );
    assert_eq!(escape_html("plain text"), "plain text");
    assert_eq!(escape_html("&amp;"), "&amp;amp;");
}

#[test]
fn error_pages_escape_message_and_retry() {
    let theme = theme_json("14px");
    let page = local_page(
        &theme,
        LocalPage::Error {
            message: "<b>bad</b>",
            retry: "https://x/?a='1'",
        },
    );
    assert!(page.contains(
        "<p>&lt;b&gt;bad&lt;/b&gt;</p><button id='retry' data-address='https://x/?a=&#39;1&#39;'>Retry</button>"
    ));
    assert!(!page.contains("__BODY__"));
    assert!(!page.contains("__THEME__"));
    let expected = LOCAL_HTML
        .replace("__THEME__", &theme)
        .replace("__BODY__", "<div class='globe'>🌏</div><h1>Browse the web</h1><p>Enter a URL or search above");
    assert_eq!(local_page(&theme, LocalPage::Start), expected);
}

#[test]
fn replacement_matches_str_replace() {
    let theme = "{\"a\":\"__BODY__\"}";
    let expected = LOCAL_HTML.replace("__THEME__", theme).replace("__BODY__", "<div class='globe'>🌏</div><h1>Browse the web</h1><p>Enter a URL or search above");
    assert_eq!(local_page(theme, LocalPage::Start), expected);
}

#[test]
fn saved_addresses_must_be_web_addresses() {
    assert_eq!(
        saved_url("  https://example.org/page\n"),
        Some("https://example.org/page".to_owned())
    );
    assert_eq!(saved_url("file:///etc/passwd"), None);
    assert_eq!(saved_url(""), None);
}
