//! Reading URLs, normalising the links of a page against the origin, and
//! collecting them into a set.

use crate::error::Errors;
use crate::text::chars_of;
use crate::url_set::UrlSet;
use vstd::prelude::*;
use vstd::string::StringExecFns;
use vstd::utf8::is_ascii_chars;

verus! {

/// The parts of an absolute URL that the crawler reads.
#[derive(Debug)]
pub struct UrlParts {
    /// The scheme, without the colon.
    pub scheme: String,
    /// The host, if the URL has one.
    pub host: Option<String>,
    /// The path, percent-encoded.
    pub path: String,
}

/// The parts of an absolute URL as plain values.
pub struct UrlPartsView {
    pub scheme: Seq<char>,
    pub host: Option<Seq<char>>,
    pub path: Seq<char>,
}

impl View for UrlParts {
    type V = UrlPartsView;

    open spec fn view(&self) -> UrlPartsView {
        UrlPartsView {
            scheme: self.scheme@,
            host: match self.host {
                Some(h) => Some(h@),
                None => None,
            },
            path: self.path@,
        }
    }
}

/// The view of parts that may be absent.
pub open spec fn parts_view(parts: Option<UrlParts>) -> Option<UrlPartsView> {
    match parts {
        Some(p) => Some(p@),
        None => None,
    }
}

/// What parsing `text` as an absolute URL gives: its scheme, its host if it
/// has one, and its path; or `None` where `text` is no absolute URL.
pub uninterp spec fn parsed_url(text: Seq<char>) -> Option<(Seq<char>, Option<Seq<char>>, Seq<char>)>;

/// The parts of `text` read as an absolute URL.
pub open spec fn url_parts(text: Seq<char>) -> Option<UrlPartsView> {
    match parsed_url(text) {
        Some(p) => Some(UrlPartsView { scheme: p.0, host: p.1, path: p.2 }),
        None => None,
    }
}

/// Trusted: `url::Url::parse`, and on its result `Url::scheme`,
/// `Url::host_str` and `Url::path`. A text that does not parse as an
/// absolute URL gives `None`; otherwise the three parts are a function of
/// the text alone, and the path is a percent-encoded ASCII string.
#[verifier::external_body]
pub(crate) fn parse_url(text: &str) -> (r: Option<UrlParts>)
    ensures
        match r {
            Some(p) => parsed_url(text@) == Some((p@.scheme, p@.host, p@.path)),
            None => parsed_url(text@).is_none(),
        },
        r matches Some(p) ==> is_ascii_chars(p.path@),
{
    match url::Url::parse(text) {
        Ok(u) => Some(
            UrlParts {
                scheme: u.scheme().to_string(),
                host: u.host_str().map(|h| h.to_string()),
                path: u.path().to_string(),
            },
        ),
        Err(_) => None,
    }
}

/// The name of the element that holds a link.
pub const LINK_ELEMENT: &'static str = "a";

/// The name of the attribute that holds a link's target.
pub const LINK_ATTRIBUTE: &'static str = "href";

/// The most start tags that a document may hold and still be read.
pub const MAX_START_TAGS: usize = 20_000;

/// The most characters that a document may hold and still be read.
pub const MAX_CHARS: usize = 0x3FFF_FFFF;

/// The stack, in bytes, that a thread needs to read every readable
/// document: room for sixty thousand levels of nesting, at four kilobytes
/// a level.
pub const PARSE_STACK_BYTES: usize = 268_435_456;

/// Whether `c` is a letter of the ASCII alphabet.
pub open spec fn is_ascii_letter(c: char) -> bool {
    let n = c as u32;
    0x41 <= n <= 0x5A || 0x61 <= n <= 0x7A
}

/// The number of start tags that `html` can hold: the places where a `<`
/// stands before an ASCII letter.
pub open spec fn start_tags(html: Seq<char>) -> nat
    decreases html.len(),
{
    if html.len() < 2 {
        0
    } else if html[html.len() - 2] == '<' && is_ascii_letter(html.last()) {
        start_tags(html.drop_last()) + 1
    } else {
        start_tags(html.drop_last())
    }
}

/// Whether the document `html` can be read: it holds at most `MAX_CHARS`
/// characters and at most `MAX_START_TAGS` start tags.
pub open spec fn readable(html: Seq<char>) -> bool {
    html.len() <= MAX_CHARS && start_tags(html) <= MAX_START_TAGS
}

/// What is said of a page that cannot be read.
pub open spec fn unreadable_message() -> Seq<char> {
    "Parse error: "@ + "the page is too large to be read"@
}

/// For each element named `element` of the document `html`, in document
/// order, the value of its attribute `attr` if it has one.
pub uninterp spec fn element_attrs(html: Seq<char>, element: Seq<char>, attr: Seq<char>) -> Seq<
    Option<Seq<char>>,
>;

/// For each `a` element of the document `html`, in document order, the
/// value of its `href` attribute if it has one.
pub open spec fn anchor_hrefs(html: Seq<char>) -> Seq<Option<Seq<char>>> {
    element_attrs(html, LINK_ELEMENT@, LINK_ATTRIBUTE@)
}

/// The views of a sequence of optional strings, element by element.
pub open spec fn href_views(v: Seq<Option<String>>) -> Seq<Option<Seq<char>>> {
    v.map_values(
        |h: Option<String>|
            match h {
                Some(s) => Some(s@),
                None => None,
            },
    )
}

/// Trusted: `select::document::Document::from` on the text, `Document::find`
/// with the predicate `Name` of the element, and `Node::attr` for the
/// attribute on each node found. The list is a function of the three texts
/// alone.
///
/// The `requires` keeps out the texts on which the call does not return.
/// `Document::from` copies the text into a buffer that holds at most
/// `u32::MAX` bytes, which `MAX_CHARS` characters of four bytes each do
/// not exceed. It then walks the parsed tree by a function that calls
/// itself once for each level of nesting, and the parser sets no bound on
/// the nesting. An element is opened only by a start tag, which begins at
/// a `<` before a letter; the parser adds `html`, `head` and `body` of its
/// own, for a table cell its row and its table body, and for a stray end
/// tag one element that it closes at once. A readable text therefore nests
/// at most three levels for each start tag and four more, for which a
/// thread with `PARSE_STACK_BYTES` of stack has room.
#[verifier::external_body]
pub(crate) fn find_attrs(html: &str, element: &str, attr: &str) -> (r: Vec<Option<String>>)
    requires
        readable(html@),
    ensures
        href_views(r@) == element_attrs(html@, element@, attr@),
{
    select::document::Document::from(html).find(select::predicate::Name(element)).map(
        |n| n.attr(attr).map(|v| v.to_string()),
    ).collect()
}

/// Whether `c` is a letter of the ASCII alphabet.
pub fn is_letter(c: char) -> (b: bool)
    ensures
        b == is_ascii_letter(c),
{
    let n: u32 = c as u32;
    (0x41 <= n && n <= 0x5A) || (0x61 <= n && n <= 0x7A)
}

/// Whether the document `html` can be read.
pub fn is_readable(html: &str) -> (b: bool)
    ensures
        b == readable(html@),
{
    let chars = chars_of(html);
    if chars.len() > MAX_CHARS {
        return false;
    }
    let mut count: usize = 0;
    let mut i: usize = 0;
    assert(chars@.take(0) =~= Seq::<char>::empty());
    while i < chars.len()
        invariant
            i <= chars.len(),
            count <= i,
            count == start_tags(chars@.take(i as int)),
        decreases chars.len() - i,
    {
        assert(chars@.take(i as int + 1).drop_last() =~= chars@.take(i as int));
        if i > 0 && chars[i - 1] == '<' && is_letter(chars[i]) {
            count += 1;
        }
        i += 1;
    }
    assert(chars@.take(i as int) =~= chars@);
    count <= MAX_START_TAGS
}

impl UrlParts {
    /// Whether the scheme is one that can be fetched: `http` or `https`.
    pub open spec fn fetchable_spec(parts: UrlPartsView) -> bool {
        parts.scheme == "http"@ || parts.scheme == "https"@
    }

    /// Reads `text` as an absolute URL.
    pub fn parse(text: &str) -> (r: Option<UrlParts>)
        ensures
            parts_view(r) == url_parts(text@),
            r matches Some(p) ==> is_ascii_chars(p.path@),
    {
        parse_url(text)
    }

    /// Whether the scheme is `http` or `https`.
    pub fn is_fetchable(&self) -> (b: bool)
        ensures
            b == UrlParts::fetchable_spec(self@),
    {
        let http = String::from_str("http");
        let https = String::from_str("https");
        self.scheme == http || self.scheme == https
    }
}

/// The absolute form of the link `url` found on a page of the crawl from
/// `origin`, given what parsing `url` gave. A link that parses with a host
/// stands as it is; one that starts with `//` gets `https:` in front; one
/// that starts with `/` gets the origin in front; any other has none.
pub open spec fn normalized(
    url: Seq<char>,
    origin: Seq<char>,
    parsed: Option<UrlPartsView>,
) -> Option<Seq<char>> {
    if parsed.is_some() && parsed.unwrap().host.is_some() {
        Some(url)
    } else if url.len() >= 2 && url[0] == '/' && url[1] == '/' {
        Some("https:"@ + url)
    } else if url.len() >= 1 && url[0] == '/' {
        Some(origin + url)
    } else {
        None
    }
}

/// The view of a string that may be absent.
pub open spec fn text_view(s: Option<String>) -> Option<Seq<char>> {
    match s {
        Some(t) => Some(t@),
        None => None,
    }
}

/// Normalises the link `url` against `origin`, given what parsing `url`
/// gave.
pub fn normalize_with(url: &str, origin: &str, parsed: &Option<UrlParts>) -> (r: Option<String>)
    ensures
        text_view(r) == normalized(url@, origin@, parts_view(*parsed)),
{
    let absolute = match parsed {
        Some(p) => p.host.is_some(),
        None => false,
    };
    if absolute {
        return Some(String::from_str(url));
    }
    let chars = chars_of(url);
    if chars.len() >= 2 && chars[0] == '/' && chars[1] == '/' {
        Some(String::from_str("https:").concat(url))
    } else if chars.len() >= 1 && chars[0] == '/' {
        Some(String::from_str(origin).concat(url))
    } else {
        None
    }
}

/// Normalises the link `url` against `origin`.
pub fn normalize_url(url: &str, origin: &str) -> (r: Option<String>)
    ensures
        text_view(r) == normalized(url@, origin@, url_parts(url@)),
{
    let parsed = parse_url(url);
    normalize_with(url, origin, &parsed)
}

/// The absolute form of what an `a` element gave as its `href`, if it gave
/// one and it has an absolute form.
pub open spec fn normal_form(href: Option<Seq<char>>, origin: Seq<char>) -> Option<Seq<char>> {
    match href {
        Some(url) => normalized(url, origin, url_parts(url)),
        None => None,
    }
}

/// The absolute forms of the given `href` values, each listed once, at the
/// place of its first occurrence.
pub open spec fn link_list(hrefs: Seq<Option<Seq<char>>>, origin: Seq<char>) -> Seq<Seq<char>>
    decreases hrefs.len(),
{
    if hrefs.len() == 0 {
        Seq::empty()
    } else {
        let before = link_list(hrefs.drop_last(), origin);
        match normal_form(hrefs.last(), origin) {
            Some(u) => if before.contains(u) {
                before
            } else {
                before.push(u)
            },
            None => before,
        }
    }
}

/// Collects the absolute forms of the given `href` values into a set.
pub fn collect_links(hrefs: &Vec<Option<String>>, origin: &str) -> (links: UrlSet)
    ensures
        links.wf(),
        links.items() == link_list(href_views(hrefs@), origin@),
{
    let mut links = UrlSet::new();
    let mut i: usize = 0;
    let ghost all = href_views(hrefs@);
    assert(all.take(0) =~= Seq::<Option<Seq<char>>>::empty());
    while i < hrefs.len()
        invariant
            i <= hrefs.len(),
            all == href_views(hrefs@),
            links.wf(),
            links.items() == link_list(all.take(i as int), origin@),
        decreases hrefs.len() - i,
    {
        assert(all.take(i as int + 1).drop_last() =~= all.take(i as int));
        assert(all.take(i as int + 1).last() == all[i as int]);
        match &hrefs[i] {
            Some(url) => {
                match normalize_url(url.as_str(), origin) {
                    Some(link) => {
                        links.insert(link);
                    },
                    None => {},
                }
            },
            None => {},
        }
        i += 1;
    }
    assert(all.take(i as int) =~= all);
    links
}

/// The set of absolute links found in the `a` elements of the document
/// `html`, for a crawl from `origin`. A document that cannot be read gives
/// a parse error. Reading a deeply nested document takes stack: call this
/// on a thread with `PARSE_STACK_BYTES` of it.
pub fn get_links(html: &str, origin: &str) -> (links: Result<UrlSet, Errors>)
    ensures
        match links {
            Ok(found) => readable(html@) && found.wf() && found.items() == link_list(
                anchor_hrefs(html@),
                origin@,
            ),
            Err(e) => !readable(html@) && e is ParseError && e.message_spec()
                == unreadable_message(),
        },
{
    if is_readable(html) {
        let hrefs = find_attrs(html, LINK_ELEMENT, LINK_ATTRIBUTE);
        Ok(collect_links(&hrefs, origin))
    } else {
        Err(Errors::ParseError(String::from_str("the page is too large to be read")))
    }
}

/// Every link collected from a page is the absolute form of one of its
/// `href` values: that value itself where it parses as a URL with a host,
/// or `https:` before a value that starts with `//`, or the origin before a
/// value that starts with `/`.
pub proof fn lemma_links_are_normal_forms(
    hrefs: Seq<Option<Seq<char>>>,
    origin: Seq<char>,
    link: Seq<char>,
)
    requires
        link_list(hrefs, origin).contains(link),
    ensures
        exists|i: int|
            0 <= i < hrefs.len() && (#[trigger] hrefs[i]).is_some() && {
                let url = hrefs[i].unwrap();
                ||| (link == url && url_parts(url).is_some() && url_parts(url).unwrap().host.is_some())
                ||| (link == "https:"@ + url && url.len() >= 2 && url[0] == '/' && url[1] == '/')
                ||| (link == origin + url && url.len() >= 1 && url[0] == '/')
            },
    decreases hrefs.len(),
{
    if hrefs.len() > 0 {
        let before = link_list(hrefs.drop_last(), origin);
        if before.contains(link) {
            lemma_links_are_normal_forms(hrefs.drop_last(), origin, link);
            let i = choose|i: int|
                0 <= i < hrefs.drop_last().len() && (#[trigger] hrefs.drop_last()[i]).is_some() && {
                    let url = hrefs.drop_last()[i].unwrap();
                    ||| (link == url && url_parts(url).is_some() && url_parts(
                        url,
                    ).unwrap().host.is_some())
                    ||| (link == "https:"@ + url && url.len() >= 2 && url[0] == '/' && url[1]
                        == '/')
                    ||| (link == origin + url && url.len() >= 1 && url[0] == '/')
                };
            assert(hrefs[i] == hrefs.drop_last()[i]);
        } else {
            let i = hrefs.len() - 1;
            assert(normal_form(hrefs[i], origin) == Some(link));
        }
    }
}

} // verus!
