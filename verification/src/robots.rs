//! The robots guard: where a host's policy is found, and what it says of a
//! path.

use vstd::prelude::*;
use vstd::string::StringExecFns;
use vstd::utf8::is_ascii_chars;

verus! {

/// The name under which the crawler looks for its section of a robots file.
pub const USER_AGENT: &'static str = "Rustle";

/// Whether the robots file `robots` lets the agent `agent` fetch `path`:
/// the section chosen for the agent, matched against the path.
pub uninterp spec fn robots_verdict(robots: Seq<char>, agent: Seq<char>, path: Seq<char>) -> bool;

/// Trusted: `robots_txt::Robots::from_str_lossy` on the file, then
/// `Robots::choose_section` for the agent, `SimpleMatcher::new` on that
/// section's rules and `SimpleMatcher::check_path` on the path. The answer
/// is a function of the three texts alone. Both matching steps cut the
/// agent and the path at byte offsets, which is sound for ASCII texts.
#[verifier::external_body]
pub(crate) fn check_robots(robots: &str, agent: &str, path: &str) -> (allowed: bool)
    requires
        is_ascii_chars(agent@),
        is_ascii_chars(path@),
    ensures
        allowed == robots_verdict(robots@, agent@, path@),
{
    let parsed = robots_txt::Robots::from_str_lossy(robots);
    robots_txt::matcher::SimpleMatcher::new(&parsed.choose_section(agent).rules).check_path(path)
}

/// Whether a host whose robots file is `robots` lets `agent` fetch `path`.
/// A host without a robots file, stored as the empty text, allows
/// everything.
pub open spec fn allowed(robots: Seq<char>, agent: Seq<char>, path: Seq<char>) -> bool {
    robots.len() == 0 || robots_verdict(robots, agent, path)
}

/// The address of the robots file of `host`.
pub open spec fn robots_url_spec(host: Seq<char>) -> Seq<char> {
    "https://"@ + host + "/robots.txt"@
}

/// The address of the robots file of `host`.
pub fn robots_url(host: &str) -> (url: String)
    ensures
        url@ == robots_url_spec(host@),
{
    String::from_str("https://").concat(host).concat("/robots.txt")
}

/// Decides whether the robots file `robots` lets `agent` fetch `path`.
pub fn is_allowed_to_scrape(robots: &str, agent: &str, path: &str) -> (b: bool)
    requires
        is_ascii_chars(agent@),
        is_ascii_chars(path@),
    ensures
        b == allowed(robots@, agent@, path@),
{
    if robots.unicode_len() == 0 {
        true
    } else {
        check_robots(robots, agent, path)
    }
}

/// The crawler's own agent name is ASCII.
pub proof fn lemma_user_agent_ascii()
    ensures
        is_ascii_chars(USER_AGENT@),
{
    reveal_strlit("Rustle");
}

} // verus!
