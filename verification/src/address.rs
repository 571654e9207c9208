//! Interpretation of what the user types into the address field, and the
//! URL rules that decide which pages a pane may show.
use vstd::prelude::*;
use crate::text::{
    authority_of, authority_part, before_char, chars_of, contains_char, contains_chars,
    contains_text, copy_range, find_last, has_prefix, is_u16_text, is_whitespace,
    last_index_of, lower_equals, owned, parses_as_u16, prefix_before, same_text,
    spec_is_whitespace, starts_with, string_of, trim, trimmed, ascii_lowercase, all_digits,
    decimal_value, occurs_at,
};

verus! {

/// A parsed URL as the pane uses it: its serialization, its scheme and its
/// host, if it has one.
pub type UrlParts = (Seq<char>, Seq<char>, Option<Seq<char>>);

/// What `url::Url::parse` gives for `input`: the serialization, scheme and
/// host of the URL, or `None` when `input` is not an absolute URL.
pub uninterp spec fn url_parse(input: Seq<char>) -> Option<UrlParts>;

/// What `url::Url::parse_with_params(base, &[(key, value)])` gives: the URL
/// with the pair added to its query, or the text of the parse error.
pub uninterp spec fn url_parse_with_query(
    base: Seq<char>,
    key: Seq<char>,
    value: Seq<char>,
) -> Result<UrlParts, Seq<char>>;

/// Whether `core::net::IpAddr` parses `s` (an IPv4 or IPv6 address).
pub uninterp spec fn ip_addr_parses(s: Seq<char>) -> bool;

/// One octet of an IPv4 address in dot-decimal notation: decimal digits with
/// no leading zero (a leading zero would mean octal), worth at most 255.
pub open spec fn is_octet(g: Seq<char>) -> bool {
    &&& g.len() > 0
    &&& all_digits(g)
    &&& (g.len() == 1 || g[0] != '0')
    &&& decimal_value(g) <= 255
}

/// Whether `s` is an IPv4 address in dot-decimal notation: four octets
/// separated by `.`.
pub open spec fn is_dotted_quad(s: Seq<char>) -> bool {
    exists|a: Seq<char>, b: Seq<char>, c: Seq<char>, d: Seq<char>|
        #![trigger is_octet(a), is_octet(b), is_octet(c), is_octet(d)]
        is_octet(a) && is_octet(b) && is_octet(c) && is_octet(d) && s == a + seq!['.'] + b
            + seq!['.'] + c + seq!['.'] + d
}

/// An absolute URL.
#[derive(Debug, Clone, PartialEq, Eq)]
pub struct WebUrl {
    serialization: String,
    scheme: String,
    host: Option<String>,
}

pub open spec fn option_view(o: Option<String>) -> Option<Seq<char>> {
    match o {
        Some(s) => Some(s@),
        None => None,
    }
}

impl WebUrl {
    /// The serialization, scheme and host of this URL.
    pub closed spec fn parts(&self) -> UrlParts {
        (self.serialization@, self.scheme@, option_view(self.host))
    }

    /// The serialization of this URL.
    pub fn as_str(&self) -> (r: &str)
        ensures
            r@ == self.parts().0,
    {
        self.serialization.as_str()
    }

    /// The scheme of this URL, in lower case.
    pub fn scheme(&self) -> (r: &str)
        ensures
            r@ == self.parts().1,
    {
        self.scheme.as_str()
    }

    /// The host of this URL, if it has one.
    pub fn host_str(&self) -> (r: Option<&str>)
        ensures
            match r {
                Some(h) => self.parts().2 == Some(h@),
                None => self.parts().2 is None,
            },
    {
        match &self.host {
            Some(h) => Some(h.as_str()),
            None => None,
        }
    }
}

pub open spec fn parts_of(r: Option<WebUrl>) -> Option<UrlParts> {
    match r {
        Some(u) => Some(u.parts()),
        None => None,
    }
}

pub open spec fn result_parts(r: Result<WebUrl, String>) -> Result<UrlParts, Seq<char>> {
    match r {
        Ok(u) => Ok(u.parts()),
        Err(e) => Err(e@),
    }
}

/// Calls `url::Url::parse`; the parts of the result are `url_parse(input)`.
#[verifier::external_body]
fn parse_url(input: &str) -> (r: Option<WebUrl>)
    ensures
        parts_of(r) == url_parse(input@),
{
    match url::Url::parse(input) {
        Ok(u) => Some(
            WebUrl {
                serialization: u.as_str().to_owned(),
                scheme: u.scheme().to_owned(),
                host: u.host_str().map(str::to_owned),
            },
        ),
        Err(_) => None,
    }
}

/// Calls `url::Url::parse_with_params` with one pair. As its source shows, it
/// parses `base` with `Url::parse` and only extends the query, so it succeeds
/// exactly when `base` parses, and keeps the scheme and host of `base`.
#[verifier::external_body]
fn parse_with_query(base: &str, key: &str, value: &str) -> (r: Result<WebUrl, String>)
    ensures
        result_parts(r) == url_parse_with_query(base@, key@, value@),
        r is Ok <==> url_parse(base@) is Some,
        r matches Ok(u) ==> u.parts().1 == url_parse(base@).unwrap().1 && u.parts().2
            == url_parse(base@).unwrap().2,
{
    match url::Url::parse_with_params(base, &[(key, value)]) {
        Ok(u) => Ok(
            WebUrl {
                serialization: u.as_str().to_owned(),
                scheme: u.scheme().to_owned(),
                host: u.host_str().map(str::to_owned),
            },
        ),
        Err(e) => Err(e.to_string()),
    }
}

/// Calls `str::parse::<core::net::IpAddr>`; true when it succeeds. As its
/// documentation says, it reads an IPv4 address in dot-decimal notation or an
/// IPv6 address, whose segments are separated by `:`; so text without a `:`
/// parses exactly when it is an IPv4 address. The IPv6 syntax is left named.
#[verifier::external_body]
fn parses_as_ip_addr(s: &str) -> (r: bool)
    ensures
        r == ip_addr_parses(s@),
        !s@.contains(':') ==> r == is_dotted_quad(s@),
{
    s.parse::<core::net::IpAddr>().is_ok()
}

/// Calls `str::parse::<core::net::Ipv4Addr>`; as its documentation says, it
/// accepts exactly dot-decimal notation without octal (leading-zero) octets.
#[verifier::external_body]
fn parses_as_ipv4_addr(s: &str) -> (r: bool)
    ensures
        r == is_dotted_quad(s@),
{
    s.parse::<core::net::Ipv4Addr>().is_ok()
}

/// The schemes that the pane loads: `http` and `https`.
pub open spec fn is_web_scheme(scheme: Seq<char>) -> bool {
    scheme == "http"@ || scheme == "https"@
}

/// An HTTP or HTTPS URL with a host.
pub open spec fn is_web_url(u: UrlParts) -> bool {
    is_web_scheme(u.1) && u.2 is Some
}

pub open spec fn web_only(u: UrlParts) -> Result<UrlParts, Seq<char>> {
    if is_web_url(u) {
        Ok(u)
    } else {
        Err("Browser supports only HTTP and HTTPS addresses."@)
    }
}

fn scheme_is_web(scheme: &str) -> (r: bool)
    ensures
        r == is_web_scheme(scheme@),
{
    same_text(scheme, "http") || same_text(scheme, "https")
}

/// Keeps `url` when it is an HTTP or HTTPS URL with a host, and refuses it
/// otherwise.
pub fn validate_http(url: WebUrl) -> (r: Result<WebUrl, String>)
    ensures
        result_parts(r) == web_only(url.parts()),
{
    if scheme_is_web(url.scheme()) && url.host_str().is_some() {
        Ok(url)
    } else {
        Err(owned("Browser supports only HTTP and HTTPS addresses."))
    }
}

/// Whether `core::net::IpAddr` reads `s`: without a `:`, exactly an IPv4
/// address in dot-decimal notation; with one, as `ip_addr_parses` names it.
pub open spec fn is_ip_text(s: Seq<char>) -> bool {
    if s.contains(':') {
        ip_addr_parses(s)
    } else {
        is_dotted_quad(s)
    }
}

/// Whether `s` is an IP address, a bracketed IPv6 address (with anything
/// after the closing bracket), or an IPv4 address with a port.
pub open spec fn spec_is_ip_like(s: Seq<char>) -> bool {
    if s.len() > 0 && s[0] == '[' {
        is_ip_text(before_char(s.drop_first(), ']'))
    } else if is_ip_text(s) {
        true
    } else {
        let k = last_index_of(s, ':');
        k >= 0 && parses_as_u16(s.skip(k + 1)) && is_dotted_quad(s.take(k))
    }
}

/// Whether `input` looks like an IP address, with or without a port.
pub fn is_ip_like(input: &[char]) -> (r: bool)
    ensures
        r == spec_is_ip_like(input@),
{
    if input.len() > 0 && input[0] == '[' {
        let rest = copy_range(input, 1, input.len());
        assert(rest@ == input@.drop_first());
        let inside = prefix_before(rest.as_slice(), ']');
        let text = string_of(inside.as_slice());
        return parses_as_ip_addr(text.as_str());
    }
    let whole = string_of(input);
    if parses_as_ip_addr(whole.as_str()) {
        return true;
    }
    match find_last(input, ':') {
        Some(k) => {
            let port = copy_range(input, k + 1, input.len());
            assert(port@ == input@.skip(k + 1));
            let host = copy_range(input, 0, k);
            assert(host@ == input@.take(k as int));
            if !is_u16_text(port.as_slice()) {
                return false;
            }
            let host_text = string_of(host.as_slice());
            parses_as_ipv4_addr(host_text.as_str())
        },
        None => false,
    }
}

/// `localhost`.
pub open spec fn localhost_word() -> Seq<char> {
    seq!['l', 'o', 'c', 'a', 'l', 'h', 'o', 's', 't']
}

/// Whether the host part of `s` (before any `/`, `?` or `#`) is `localhost`,
/// in any ASCII case and with or without a port, or an IP address.
pub open spec fn spec_is_local_host(s: Seq<char>) -> bool {
    let host = authority_part(s);
    let lower = ascii_lowercase(host);
    ||| has_prefix(lower, localhost_word()) && (lower.len() == 9 || lower[9] == ':')
    ||| spec_is_ip_like(host)
}

fn names_localhost(host: &[char]) -> (r: bool)
    ensures
        r == {
            let lower = ascii_lowercase(host@);
            has_prefix(lower, localhost_word()) && (lower.len() == 9 || lower[9] == ':')
        },
{
    let word = ['l', 'o', 'c', 'a', 'l', 'h', 'o', 's', 't'];
    let ghost lower = ascii_lowercase(host@);
    assert(word@ == localhost_word());
    if host.len() < 9 {
        return false;
    }
    let mut i: usize = 0;
    while i < 9
        invariant
            9 <= host@.len(),
            lower == ascii_lowercase(host@),
            word@ == localhost_word(),
            i <= 9,
            forall|j: int| 0 <= j < i ==> lower[j] == word@[j],
        decreases 9 - i,
    {
        if !lower_equals(host[i], word[i]) {
            assert(lower[i as int] != localhost_word()[i as int]);
            assert(lower.take(9)[i as int] != localhost_word()[i as int]);
            return false;
        }
        i = i + 1;
    }
    assert(lower.take(9) =~= localhost_word());
    host.len() == 9 || lower_equals(host[9], ':')
}

/// Whether `input` names this machine: `localhost` (any ASCII case, optional
/// port) or an IP address, before any path, query or fragment.
pub fn is_local_host(input: &[char]) -> (r: bool)
    ensures
        r == spec_is_local_host(input@),
{
    let host = authority_of(input);
    names_localhost(host.as_slice()) || is_ip_like(host.as_slice())
}

/// Whether `s` contains a white-space character.
pub open spec fn has_whitespace(s: Seq<char>) -> bool {
    exists|i: int| 0 <= i < s.len() && spec_is_whitespace(s[i])
}

fn any_whitespace(s: &[char]) -> (r: bool)
    ensures
        r == has_whitespace(s@),
{
    let mut i: usize = 0;
    while i < s.len()
        invariant
            i <= s@.len(),
            forall|j: int| 0 <= j < i ==> !spec_is_whitespace(s@[j]),
        decreases s@.len() - i,
    {
        if is_whitespace(s[i]) {
            return true;
        }
        i = i + 1;
    }
    false
}

/// A host name without a scheme: no white space, and a dot or a local host.
pub open spec fn spec_looks_like_host(s: Seq<char>) -> bool {
    !has_whitespace(s) && (s.contains('.') || spec_is_local_host(s))
}

/// Whether `input` reads as a host name rather than a search.
pub fn looks_like_host(input: &[char]) -> (r: bool)
    ensures
        r == spec_looks_like_host(input@),
{
    !any_whitespace(input) && (contains_char(input, '.') || is_local_host(input))
}

/// Whether the host part of `s` has no colon, or its last colon is followed by
/// a port number (so `example.com:8443` is a host, `mailto:x` is a scheme).
pub open spec fn spec_has_no_scheme_like_colon(s: Seq<char>) -> bool {
    let a = authority_part(s);
    !a.contains(':') || parses_as_u16(a.skip(last_index_of(a, ':') + 1))
}

/// Whether a colon in the host part of `input` can only be a port separator.
pub fn has_no_scheme_like_colon(input: &[char]) -> (r: bool)
    ensures
        r == spec_has_no_scheme_like_colon(input@),
{
    let a = authority_of(input);
    match find_last(a.as_slice(), ':') {
        None => {
            assert(!a@.contains(':')) by {
                if a@.contains(':') {
                    let j = choose|j: int| 0 <= j < a@.len() && a@[j] == ':';
                    crate::text::lemma_last_where_finds(a@, crate::text::is_char(':'), j);
                }
            }
            true
        },
        Some(k) => {
            assert(a@[k as int] == ':');
            let aslice = a.as_slice();
            let n = aslice.len();
            assert(k < n);
            let port = copy_range(aslice, k + 1, n);
            assert(port@ == a@.skip(k + 1));
            is_u16_text(port.as_slice())
        },
    }
}

/// Whether `url` parses as an HTTP or HTTPS URL.
pub open spec fn spec_is_http_url(url: Seq<char>) -> bool {
    url_parse(url) matches Some(u) && is_web_scheme(u.1)
}

/// Whether `url` parses as an HTTP or HTTPS URL.
pub fn is_http_url(url: &str) -> (r: bool)
    ensures
        r == spec_is_http_url(url@),
{
    match parse_url(url) {
        Some(u) => scheme_is_web(u.scheme()),
        None => false,
    }
}

/// Navigation that the pane's own web view may follow: web pages, and the
/// blank page.
pub open spec fn spec_is_allowed_navigation(url: Seq<char>) -> bool {
    spec_is_http_url(url) || url == "about:blank"@
}

/// Whether the pane may follow a navigation to `url`.
pub fn is_allowed_navigation(url: &str) -> (r: bool)
    ensures
        r == spec_is_allowed_navigation(url@),
{
    is_http_url(url) || same_text(url, "about:blank")
}

/// Pages that the engine may open: web pages, `data:` and `blob:` URLs, and
/// the blank and `srcdoc` pages. Local files, scripts and privileged schemes
/// are refused.
pub open spec fn spec_permitted_url(url: Seq<char>) -> bool {
    url_parse(url) matches Some(u) && (u.1 == "https"@ || u.1 == "http"@ || u.1 == "data"@
        || u.1 == "blob"@ || u.0 == "about:blank"@ || u.0 == "about:srcdoc"@)
}

/// Whether the engine may open `url`.
pub fn permitted_url(url: &str) -> (r: bool)
    ensures
        r == spec_permitted_url(url@),
{
    match parse_url(url) {
        Some(u) => {
            let s = u.scheme();
            let text = u.as_str();
            same_text(s, "https") || same_text(s, "http") || same_text(s, "data") || same_text(
                s,
                "blob",
            ) || same_text(text, "about:blank") || same_text(text, "about:srcdoc")
        },
        None => false,
    }
}

/// The search page that receives queries that are not addresses.
pub open spec fn search_base() -> Seq<char> {
    "https://duckduckgo.com/"@
}

pub open spec fn parsed_web_only(p: Option<UrlParts>) -> Result<UrlParts, Seq<char>> {
    match p {
        Some(u) => web_only(u),
        None => Err("That URL is not valid."@),
    }
}

/// The page that the address field's text leads to.
///
/// The text is trimmed. Empty text is refused. Text that starts with
/// `http://` or `https://` is parsed as it is; a local host gets `http://`
/// and another host name gets `https://`. Other text that parses as a URL is
/// used as it is, text with `://` that does not parse is refused, and the rest
/// is a search. Every address but a search must be HTTP or HTTPS with a host.
pub open spec fn spec_resolve_input(input: Seq<char>) -> Result<UrlParts, Seq<char>> {
    let t = trim(input);
    if t.len() == 0 {
        Err("Enter a URL or search query."@)
    } else if has_prefix(t, "http://"@) || has_prefix(t, "https://"@) {
        parsed_web_only(url_parse(t))
    } else if spec_is_local_host(t) {
        parsed_web_only(url_parse("http://"@ + t))
    } else if spec_looks_like_host(t) && spec_has_no_scheme_like_colon(t) {
        parsed_web_only(url_parse("https://"@ + t))
    } else if url_parse(t) is Some {
        web_only(url_parse(t)->0)
    } else if contains_text(t, "://"@) {
        Err("That URL is not valid."@)
    } else {
        url_parse_with_query(search_base(), "q"@, t)
    }
}

/// Whether the text `://` occurs in `t`.
pub open spec fn has_scheme_separator(t: Seq<char>) -> bool {
    exists|i: int| 0 <= i && i + 3 <= t.len() && #[trigger] t.subrange(i, i + 3) == seq![':', '/', '/']
}

/// What is typed and is no address is searched for: when the trimmed text is
/// not empty, does not start with `http://` or `https://`, is neither a local
/// host nor a host name without a scheme-like colon, and does not parse as a
/// URL, then it is a search on the search page for exactly that text, unless
/// it holds `://`, which alone makes it an invalid URL. Colons elsewhere (as
/// in `john 3:16`) never refuse a search.
pub proof fn lemma_other_text_is_searched(input: Seq<char>)
    requires
        trim(input).len() > 0,
        !has_prefix(trim(input), seq!['h', 't', 't', 'p', ':', '/', '/']),
        !has_prefix(trim(input), seq!['h', 't', 't', 'p', 's', ':', '/', '/']),
        !spec_is_local_host(trim(input)),
        !(spec_looks_like_host(trim(input)) && spec_has_no_scheme_like_colon(trim(input))),
        url_parse(trim(input)) is None,
    ensures
        !has_scheme_separator(trim(input)) ==> spec_resolve_input(input) == url_parse_with_query(
            seq!['h', 't', 't', 'p', 's', ':', '/', '/', 'd', 'u', 'c', 'k', 'd', 'u', 'c', 'k',
                'g', 'o', '.', 'c', 'o', 'm', '/'],
            seq!['q'],
            trim(input),
        ),
        has_scheme_separator(trim(input)) ==> spec_resolve_input(input) == Err::<UrlParts, Seq<char>>(
            "That URL is not valid."@,
        ),
{
    reveal_strlit("http://");
    reveal_strlit("https://");
    reveal_strlit("://");
    reveal_strlit("https://duckduckgo.com/");
    reveal_strlit("q");
    let t = trim(input);
    assert("http://"@ =~= seq!['h', 't', 't', 'p', ':', '/', '/']);
    assert("https://"@ =~= seq!['h', 't', 't', 'p', 's', ':', '/', '/']);
    assert("://"@ =~= seq![':', '/', '/']);
    assert("q"@ =~= seq!['q']);
    assert(search_base() =~= seq!['h', 't', 't', 'p', 's', ':', '/', '/', 'd', 'u', 'c', 'k', 'd',
        'u', 'c', 'k', 'g', 'o', '.', 'c', 'o', 'm', '/']);
    if has_scheme_separator(t) {
        let i = choose|i: int| 0 <= i && i + 3 <= t.len() && #[trigger] t.subrange(i, i + 3) == seq![':', '/', '/'];
        assert(occurs_at(t, "://"@, i));
    } else {
        assert forall|i: int| !occurs_at(t, "://"@, i) by {
            if occurs_at(t, "://"@, i) {
                assert(t.subrange(i, i + 3) == seq![':', '/', '/']);
            }
        }
    }
}

/// Whether a parsed URL is one the pane opens: scheme `http` or `https`, and
/// a host.
pub open spec fn opens_as_web_page(u: UrlParts) -> bool {
    (u.1 == seq!['h', 't', 't', 'p'] || u.1 == seq!['h', 't', 't', 'p', 's']) && u.2 is Some
}

/// How typed text that is an address is opened. Empty text is refused.
/// Text that starts with `http://` or `https://` opens exactly what it parses
/// to; a local host (`localhost`, an IP address) opens over plain `http://`;
/// any other host name without a scheme-like colon opens over `https://`. In
/// each case the page opens when that parse gives a web page with a host, and
/// whatever opens is that parse.
pub proof fn lemma_typed_addresses_are_routed(input: Seq<char>)
    ensures
        trim(input).len() == 0 ==> spec_resolve_input(input) is Err,
        ({
            let t = trim(input);
            let http = seq!['h', 't', 't', 'p', ':', '/', '/'];
            let https = seq!['h', 't', 't', 'p', 's', ':', '/', '/'];
            let target = if has_prefix(t, http) || has_prefix(t, https) {
                t
            } else if spec_is_local_host(t) {
                http + t
            } else {
                https + t
            };
            let routed = has_prefix(t, http) || has_prefix(t, https) || spec_is_local_host(t)
                || (spec_looks_like_host(t) && spec_has_no_scheme_like_colon(t));
            t.len() > 0 && routed ==> {
                &&& (url_parse(target) matches Some(u) && opens_as_web_page(u))
                    <==> spec_resolve_input(input) is Ok
                &&& spec_resolve_input(input) matches Ok(u) ==> url_parse(target) == Some(u)
            }
        }),
{
    reveal_strlit("http://");
    reveal_strlit("https://");
    reveal_strlit("http");
    reveal_strlit("https");
    assert("http://"@ =~= seq!['h', 't', 't', 'p', ':', '/', '/']);
    assert("https://"@ =~= seq!['h', 't', 't', 'p', 's', ':', '/', '/']);
    assert("http"@ =~= seq!['h', 't', 't', 'p']);
    assert("https"@ =~= seq!['h', 't', 't', 'p', 's']);
}

/// Every page that parses as HTTP or HTTPS may be followed by the pane's web
/// view, plain `http` as well as `https`, and so may the blank page; nothing
/// else may. The engine permits every such web page too.
pub proof fn lemma_web_pages_are_allowed(url: Seq<char>)
    ensures
        spec_is_allowed_navigation(url) <==> ((url_parse(url) matches Some(p) && (p.1
            == seq!['h', 't', 't', 'p'] || p.1 == seq!['h', 't', 't', 'p', 's'])) || url
            == seq!['a', 'b', 'o', 'u', 't', ':', 'b', 'l', 'a', 'n', 'k']),
        (url_parse(url) matches Some(p) && (p.1 == seq!['h', 't', 't', 'p'] || p.1 == seq![
            'h',
            't',
            't',
            'p',
            's',
        ])) ==> spec_permitted_url(url),
{
    reveal_strlit("http");
    reveal_strlit("https");
    reveal_strlit("about:blank");
    assert("http"@ =~= seq!['h', 't', 't', 'p']);
    assert("https"@ =~= seq!['h', 't', 't', 'p', 's']);
    assert("about:blank"@ =~= seq!['a', 'b', 'o', 'u', 't', ':', 'b', 'l', 'a', 'n', 'k']);
}

fn parse_web(text: &str) -> (r: Result<WebUrl, String>)
    ensures
        result_parts(r) == parsed_web_only(url_parse(text@)),
{
    match parse_url(text) {
        Some(u) => validate_http(u),
        None => Err(owned("That URL is not valid.")),
    }
}

/// Turns what the user typed into the page to open: an address, or a search.
pub fn resolve_input(input: &str) -> (r: Result<WebUrl, String>)
    ensures
        result_parts(r) == spec_resolve_input(input@),
        // Whatever is typed, the pane only opens web pages: every address is
        // HTTP or HTTPS with a host, and a search stays on the search page's
        // scheme and host.
        r matches Ok(u) ==> is_web_url(u.parts()) || (u.parts().1 == url_parse(
            search_base(),
        ).unwrap().1 && u.parts().2 == url_parse(search_base()).unwrap().2),
{
    let all = chars_of(input);
    let t = trimmed(all.as_slice());
    let text = string_of(t.as_slice());
    if t.len() == 0 {
        return Err(owned("Enter a URL or search query."));
    }
    if starts_with(t.as_slice(), "http://") || starts_with(t.as_slice(), "https://") {
        return parse_web(text.as_str());
    }
    if is_local_host(t.as_slice()) {
        let mut full = owned("http://");
        full.push_str(text.as_str());
        return parse_web(full.as_str());
    }
    if looks_like_host(t.as_slice()) && has_no_scheme_like_colon(t.as_slice()) {
        let mut full = owned("https://");
        full.push_str(text.as_str());
        return parse_web(full.as_str());
    }
    if let Some(url) = parse_url(text.as_str()) {
        return validate_http(url);
    }
    let marker = chars_of("://");
    if contains_chars(t.as_slice(), marker.as_slice()) {
        return Err(owned("That URL is not valid."));
    }
    parse_with_query("https://duckduckgo.com/", "q", text.as_str())
}

} // verus!
