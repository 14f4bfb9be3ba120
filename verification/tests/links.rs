use rustle::error::Errors;
use rustle::links::{
    collect_links, get_links, is_letter, is_readable, normalize_url, normalize_with, UrlParts,
    LINK_ATTRIBUTE, LINK_ELEMENT, MAX_CHARS, MAX_START_TAGS, PARSE_STACK_BYTES,
};
use rustle::robots::{is_allowed_to_scrape, robots_url, USER_AGENT};
use rustle::spider::{Crawler, Response};

const ORIGIN: &str = "https://a.test";

#[test]
fn parse_reads_scheme_host_and_path() {
    let p = UrlParts::parse("https://Example.com/a/b?q=1#frag").unwrap();
    assert_eq!(p.scheme, "https");
    assert_eq!(p.host, Some("example.com".to_string()));
    assert_eq!(p.path, "/a/b");
    assert!(p.is_fetchable());
}

#[test]
fn parse_of_a_url_without_host() {
    let p = UrlParts::parse("mailto:x@a.test").unwrap();
    assert_eq!(p.scheme, "mailto");
    assert_eq!(p.host, None);
    assert_eq!(p.path, "x@a.test");
    assert!(!p.is_fetchable());
}

#[test]
fn parse_percent_encodes_the_path() {
    let p = UrlParts::parse("https://a.test/caf\u{e9} x").unwrap();
    assert_eq!(p.path, "/caf%C3%A9%20x");
}

#[test]
fn parse_rejects_what_is_not_absolute() {
    assert!(UrlParts::parse("/relative").is_none());
    assert!(UrlParts::parse("//host/path").is_none());
    assert!(UrlParts::parse("").is_none());
    assert!(UrlParts::parse("#top").is_none());
}

#[test]
fn only_http_and_https_are_fetchable() {
    assert!(UrlParts::parse("http://a.test/").unwrap().is_fetchable());
    assert!(UrlParts::parse("https://a.test/").unwrap().is_fetchable());
    assert!(!UrlParts::parse("ftp://a.test/").unwrap().is_fetchable());
    assert!(!UrlParts::parse("javascript:void(0)").unwrap().is_fetchable());
}

#[test]
fn normalize_keeps_an_absolute_url_with_a_host() {
    assert_eq!(normalize_url("https://b.test/x", ORIGIN), Some("https://b.test/x".to_string()));
    assert_eq!(normalize_url("ftp://b.test/x", ORIGIN), Some("ftp://b.test/x".to_string()));
}

#[test]
fn normalize_puts_https_before_two_slashes() {
    assert_eq!(normalize_url("//b.test/x", ORIGIN), Some("https://b.test/x".to_string()));
    assert_eq!(normalize_url("//", ORIGIN), Some("https://".to_string()));
}

#[test]
fn normalize_puts_the_origin_before_one_slash() {
    assert_eq!(normalize_url("/x", ORIGIN), Some("https://a.test/x".to_string()));
    assert_eq!(normalize_url("/", ORIGIN), Some("https://a.test/".to_string()));
    assert_eq!(normalize_url("/b", "https://a.test/"), Some("https://a.test//b".to_string()));
}

#[test]
fn normalize_rejects_everything_else() {
    assert_eq!(normalize_url("#top", ORIGIN), None);
    assert_eq!(normalize_url("mailto:x@a.test", ORIGIN), None);
    assert_eq!(normalize_url("javascript:void(0)", ORIGIN), None);
    assert_eq!(normalize_url("page.html", ORIGIN), None);
    assert_eq!(normalize_url("", ORIGIN), None);
}

#[test]
fn normalize_with_goes_by_the_given_parse() {
    let hosted = Some(UrlParts { scheme: "https".to_string(), host: Some("h".to_string()), path: "/".to_string() });
    let hostless = Some(UrlParts { scheme: "data".to_string(), host: None, path: "x".to_string() });
    assert_eq!(normalize_with("anything", ORIGIN, &hosted), Some("anything".to_string()));
    assert_eq!(normalize_with("/x", ORIGIN, &hosted), Some("/x".to_string()));
    assert_eq!(normalize_with("/x", ORIGIN, &hostless), Some("https://a.test/x".to_string()));
    assert_eq!(normalize_with("//x", ORIGIN, &None), Some("https://x".to_string()));
    assert_eq!(normalize_with("x", ORIGIN, &hostless), None);
    assert_eq!(normalize_with("x", ORIGIN, &None), None);
}

#[test]
fn get_links_reads_the_href_of_every_anchor() {
    let html = "<html><body><a href=\"/b\">x</a><p><a href='https://c.test/'>y</a></p>\
                <a name=\"n\">no href</a><link href=\"/style.css\"><img src=\"/i.png\"></body></html>";
    let links = get_links(html, ORIGIN).unwrap();
    assert_eq!(links.to_vec(), vec!["https://a.test/b", "https://c.test/"]);
}

#[test]
fn get_links_of_a_page_without_anchors_is_empty() {
    assert!(get_links("<html><p>nothing</p></html>", ORIGIN).unwrap().is_empty());
    assert!(get_links("", ORIGIN).unwrap().is_empty());
}

#[test]
fn absolute_and_relative_form_collapse_to_one_entry() {
    let html = "<a href=\"https://a.test/b\">1</a><a href=\"/b\">2</a><a href=\"/b\">3</a>";
    let links = get_links(html, ORIGIN).unwrap();
    assert_eq!(links.to_vec(), vec!["https://a.test/b"]);
}

#[test]
fn scheme_filter_keeps_only_the_relative_link() {
    let html = "<a href=\"mailto:x@a.test\">m</a><a href=\"javascript:void(0)\">j</a><a href=\"/ok\">k</a>";
    let links = get_links(html, ORIGIN).unwrap();
    assert_eq!(links.to_vec(), vec!["https://a.test/ok"]);
}

#[test]
fn collect_links_skips_anchors_without_href() {
    let hrefs = vec![None, Some("/a".to_string()), Some("nope".to_string()), None, Some("/a".to_string()), Some("//b.test".to_string())];
    assert_eq!(collect_links(&hrefs, ORIGIN).to_vec(), vec!["https://a.test/a", "https://b.test"]);
}

#[test]
fn robots_url_is_under_https() {
    assert_eq!(robots_url("a.test"), "https://a.test/robots.txt");
    assert_eq!(USER_AGENT, "Rustle");
}

#[test]
fn empty_robots_allows_everything() {
    assert!(is_allowed_to_scrape("", USER_AGENT, "/"));
    assert!(is_allowed_to_scrape("", USER_AGENT, "/private"));
}

#[test]
fn robots_disallow_for_the_agent_is_obeyed() {
    let robots = "User-agent: Rustle\nDisallow: /private";
    assert!(!is_allowed_to_scrape(robots, USER_AGENT, "/private"));
    assert!(!is_allowed_to_scrape(robots, USER_AGENT, "/private/page"));
    assert!(is_allowed_to_scrape(robots, USER_AGENT, "/public"));
    assert!(is_allowed_to_scrape(robots, USER_AGENT, "/"));
}

#[test]
fn robots_section_of_another_agent_is_ignored() {
    let robots = "User-agent: Other\nDisallow: /\n\nUser-agent: *\nDisallow: /tmp/\n";
    assert!(is_allowed_to_scrape(robots, USER_AGENT, "/page"));
    assert!(!is_allowed_to_scrape(robots, USER_AGENT, "/tmp/x"));
    assert!(!is_allowed_to_scrape(robots, "Other", "/page"));
}

#[test]
fn robots_disallow_all() {
    let robots = "User-agent: Rustle\nDisallow: /";
    assert!(!is_allowed_to_scrape(robots, USER_AGENT, "/"));
    assert!(!is_allowed_to_scrape(robots, USER_AGENT, "/anything"));
}

#[test]
fn body_is_taken_only_from_a_successful_response() {
    let ok = Response { success: true, body: Some("text".to_string()) };
    let not_found = Response { success: false, body: Some("missing".to_string()) };
    let undecodable = Response { success: true, body: None };
    assert_eq!(Crawler::get_robots(Some(ok)), Some("text".to_string()));
    assert_eq!(Crawler::get_robots(Some(not_found)), None);
    assert_eq!(Crawler::get_robots(Some(undecodable)), None);
    assert_eq!(Crawler::get_robots(None), None);
}

#[test]
fn page_is_taken_only_from_a_successful_response() {
    let ok = Response { success: true, body: Some("<p>".to_string()) };
    assert_eq!(Crawler::get_html(Some(ok)).unwrap(), "<p>");
    let not_found = Response { success: false, body: Some("<p>".to_string()) };
    match Crawler::get_html(Some(not_found)) {
        Err(Errors::NetworkError(m)) => assert_eq!(m, "the status is not a success"),
        other => panic!("unexpected: {:?}", other),
    }
    match Crawler::get_html(Some(Response { success: true, body: None })) {
        Err(Errors::EncodingError(m)) => assert_eq!(m, "the body is not valid UTF-8"),
        other => panic!("unexpected: {:?}", other),
    }
    match Crawler::get_html(None) {
        Err(Errors::NetworkError(m)) => assert_eq!(m, "the request failed"),
        other => panic!("unexpected: {:?}", other),
    }
}

#[test]
fn page_with_a_failed_status_is_a_network_error_whatever_its_body() {
    let r = Response { success: false, body: None };
    assert!(matches!(Crawler::get_html(Some(r)), Err(Errors::NetworkError(_))));
}

#[test]
fn links_are_read_from_a_elements_by_their_href() {
    assert_eq!(LINK_ELEMENT, "a");
    assert_eq!(LINK_ATTRIBUTE, "href");
    let html = "<area href=\"/area\"><a src=\"/src\" href=\"/href\">x</a><A HREF=\"/upper\">y</A>";
    assert_eq!(get_links(html, ORIGIN).unwrap().to_vec(), vec!["https://a.test/href", "https://a.test/upper"]);
}

#[test]
fn ordinary_documents_are_readable() {
    assert!(is_readable(""));
    assert!(is_readable("no tags at all"));
    assert!(is_readable(&"<br>".repeat(300)));
    assert!(is_readable(&"<p>x</p>".repeat(129)));
    assert!(is_readable(&"<".repeat(100_000)));
    assert!(is_readable(&"</p>".repeat(100_000)));
    assert!(is_readable(&"<!-- -->< b><1>".repeat(30_000)));
}

#[test]
fn document_is_readable_up_to_the_limit_of_start_tags() {
    assert_eq!(MAX_START_TAGS, 20_000);
    assert_eq!(MAX_CHARS, 0x3FFF_FFFF);
    assert_eq!(PARSE_STACK_BYTES, 256 * 1024 * 1024);
    assert!(is_readable(&"<a".repeat(20_000)));
    assert!(!is_readable(&"<a".repeat(20_001)));
    assert!(is_readable(&"<Z>".repeat(20_000)));
    assert!(!is_readable(&format!("{}<z", "<p>x</p>".repeat(20_000))));
    assert!(is_readable(&format!("{}<", "<p>x</p>".repeat(20_000))));
}

#[test]
fn letters_are_the_ascii_alphabet() {
    for c in ['a', 'z', 'A', 'Z', 'm', 'Q'] {
        assert!(is_letter(c));
    }
    for c in ['@', '[', '`', '{', '0', '/', '!', ' ', '\u{e9}', '<'] {
        assert!(!is_letter(c));
    }
}

#[test]
fn document_with_too_many_start_tags_is_a_parse_error() {
    let html = format!("<a href=\"/x\">x</a>{}", "<br>".repeat(20_000));
    match get_links(&html, ORIGIN) {
        Err(Errors::ParseError(m)) => assert_eq!(m, "the page is too large to be read"),
        other => panic!("unexpected: {:?}", other),
    }
}

#[test]
fn large_flat_document_is_read() {
    let mut html = String::new();
    for i in 0..3_000 {
        html.push_str(&format!("<p><a href=\"/p{}\">x</a><br></p>", i));
    }
    let links = get_links(&html, ORIGIN).unwrap();
    assert_eq!(links.len(), 3_000);
    assert_eq!(links.get(2_999), "https://a.test/p2999");
}

#[test]
fn nested_document_is_read() {
    let html = format!("{}<a href=\"/x\">x", "<div>".repeat(1_000));
    assert_eq!(get_links(&html, ORIGIN).unwrap().to_vec(), vec!["https://a.test/x"]);
    let html = format!("{}<a href=\"/y\">y", "<table><td>".repeat(127));
    assert_eq!(get_links(&html, ORIGIN).unwrap().to_vec(), vec!["https://a.test/y"]);
    let html = format!("{}<p><a href=\"/z\">z", "<b><i>".repeat(127));
    assert_eq!(get_links(&html, ORIGIN).unwrap().to_vec(), vec!["https://a.test/z"]);
}
