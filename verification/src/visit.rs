//! The pipeline that one URL goes through: the freshness and robots guard,
//! the fetch, the extraction of links and the write of its record. The
//! pipeline decides; whoever drives it reads, fetches and stores, and hands
//! back what came of it.

use crate::clock::Timestamp;
use crate::domain::{Domain, DomainRow, DomainRowView};
use crate::error::Errors;
use crate::links::{
    anchor_hrefs, get_links, link_list, parts_view, readable, text_view, unreadable_message,
    url_parts, UrlParts,
};
use crate::robots::{allowed, is_allowed_to_scrape, lemma_user_agent_ascii, robots_url, robots_url_spec, USER_AGENT};
use crate::site::{links_column, Site, SiteRow, SiteRowView};
use crate::spider::Crawler;
use crate::text::doubled;
use crate::url_set::UrlSet;
use vstd::prelude::*;
use vstd::string::StringExecFns;
use vstd::utf8::is_ascii_chars;

verus! {

/// Where a visit stands: what it last asked for.
#[derive(Clone, Copy, Debug, PartialEq, Eq, Structural)]
pub enum Stage {
    /// Nothing was asked yet.
    Start,
    /// The stored record of the URL.
    AwaitSite,
    /// The stored record of the URL's host.
    AwaitDomain,
    /// The robots file of the host.
    AwaitRobots,
    /// The write of the host's record.
    AwaitDomainWrite,
    /// The page itself.
    AwaitPage,
    /// The write of the page's record.
    AwaitSiteWrite,
    /// The visit is over.
    Finished,
}

/// What came of a visit that processed its URL: the URL and the links found
/// on its page.
#[derive(Debug)]
pub struct Outcome {
    pub url: String,
    pub links: UrlSet,
}

/// What a visit asks of its driver.
#[derive(Debug)]
pub enum Request {
    /// Look up the site record stored under this key.
    ReadSite(String),
    /// Look up the domain record stored under this key.
    ReadDomain(String),
    /// Fetch the robots file at this address.
    FetchRobots(String),
    /// Store this domain record.
    WriteDomain(DomainRow),
    /// Fetch the page at this address.
    FetchPage(String),
    /// Store this site record.
    WriteSite(SiteRow),
    /// Nothing more: the visit is over, with this outcome if the URL was
    /// processed.
    Finish(Option<Outcome>),
    /// Nothing more: the visit is over, and the URL is dropped for this
    /// error.
    Fail(Errors),
}

/// What the driver hands back.
#[derive(Debug)]
pub enum Reply {
    /// The visit may begin.
    Begin,
    /// The row found for a site key, if any.
    SiteRow(Option<SiteRow>),
    /// The row found for a domain key, if any.
    DomainRow(Option<DomainRow>),
    /// The text of what was fetched, or `None` where the fetch failed.
    Body(Option<String>),
    /// The record was stored.
    Stored,
    /// The store could not do what was asked.
    Failed,
}

/// An outcome as plain values.
pub struct OutcomeView {
    pub url: Seq<char>,
    pub links: Seq<Seq<char>>,
}

/// A request as plain values.
pub enum RequestView {
    ReadSite(Seq<char>),
    ReadDomain(Seq<char>),
    FetchRobots(Seq<char>),
    WriteDomain(DomainRowView),
    FetchPage(Seq<char>),
    WriteSite(SiteRowView),
    Finish(Option<OutcomeView>),
    /// The text of the error.
    Fail(Seq<char>),
}

/// A reply as plain values.
pub enum ReplyView {
    Begin,
    SiteRow(Option<SiteRowView>),
    DomainRow(Option<DomainRowView>),
    Body(Option<Seq<char>>),
    Stored,
    Failed,
}

impl View for Outcome {
    type V = OutcomeView;

    open spec fn view(&self) -> OutcomeView {
        OutcomeView { url: self.url@, links: self.links.items() }
    }
}

/// The view of an outcome that may be absent.
pub open spec fn outcome_view(o: Option<Outcome>) -> Option<OutcomeView> {
    match o {
        Some(o) => Some(o@),
        None => None,
    }
}

impl View for Request {
    type V = RequestView;

    open spec fn view(&self) -> RequestView {
        match self {
            Request::ReadSite(k) => RequestView::ReadSite(k@),
            Request::ReadDomain(k) => RequestView::ReadDomain(k@),
            Request::FetchRobots(u) => RequestView::FetchRobots(u@),
            Request::WriteDomain(row) => RequestView::WriteDomain(row@),
            Request::FetchPage(u) => RequestView::FetchPage(u@),
            Request::WriteSite(row) => RequestView::WriteSite(row@),
            Request::Finish(o) => RequestView::Finish(outcome_view(*o)),
            Request::Fail(e) => RequestView::Fail(e.message_spec()),
        }
    }
}

impl View for Reply {
    type V = ReplyView;

    open spec fn view(&self) -> ReplyView {
        match self {
            Reply::Begin => ReplyView::Begin,
            Reply::SiteRow(row) => ReplyView::SiteRow(
                match row {
                    Some(r) => Some(r@),
                    None => None,
                },
            ),
            Reply::DomainRow(row) => ReplyView::DomainRow(
                match row {
                    Some(r) => Some(r@),
                    None => None,
                },
            ),
            Reply::Body(body) => ReplyView::Body(text_view(*body)),
            Reply::Stored => ReplyView::Stored,
            Reply::Failed => ReplyView::Failed,
        }
    }
}

/// The pipeline of one URL.
#[derive(Debug)]
pub struct Visit {
    url: String,
    origin: String,
    agent: String,
    seed: bool,
    stage: Stage,
    fresh: bool,
    parts: Option<UrlParts>,
    robots: String,
    links: UrlSet,
}

/// The state of a visit as plain values.
pub struct VisitView {
    /// The URL being visited.
    pub url: Seq<char>,
    /// The origin of the crawl.
    pub origin: Seq<char>,
    /// The name under which the crawler reads robots files.
    pub agent: Seq<char>,
    /// Whether this is the visit of the origin itself, which no guard holds
    /// back and which fetches the robots file of its host afterwards.
    pub seed: bool,
    pub stage: Stage,
    /// Whether the stored record of the URL was found to be less than a
    /// day old.
    pub fresh: bool,
    /// The robots file of the host, once known.
    pub robots: Seq<char>,
    /// The links found on the page, once fetched.
    pub links: Seq<Seq<char>>,
}

impl View for Visit {
    type V = VisitView;

    closed spec fn view(&self) -> VisitView {
        VisitView {
            url: self.url@,
            origin: self.origin@,
            agent: self.agent@,
            seed: self.seed,
            stage: self.stage,
            fresh: self.fresh,
            robots: self.robots@,
            links: self.links.items(),
        }
    }
}

/// The host of `url`, if it parses and has one.
pub open spec fn host_of(url: Seq<char>) -> Option<Seq<char>> {
    match url_parts(url) {
        Some(p) => p.host,
        None => None,
    }
}

/// The path of `url`, if it parses.
pub open spec fn path_of(url: Seq<char>) -> Seq<char> {
    match url_parts(url) {
        Some(p) => p.path,
        None => Seq::empty(),
    }
}

/// Whether `url` can be fetched: it parses and its scheme is `http` or
/// `https`.
pub open spec fn can_fetch(url: Seq<char>) -> bool {
    match url_parts(url) {
        Some(p) => UrlParts::fetchable_spec(p),
        None => false,
    }
}

/// Whether a stored site row holds a record that is less than a day old at
/// `now`. A row that does not decode counts as absent.
pub open spec fn fresh(row: Option<SiteRowView>, now: Timestamp) -> bool {
    match row {
        Some(r) => match Site::of_row(r) {
            Some(site) => site.crawl_time.within_a_day_of(now),
            None => false,
        },
        None => false,
    }
}

/// The robots file that a stored domain row holds, if the row is there and
/// decodes.
pub open spec fn stored_robots(row: Option<DomainRowView>) -> Option<Seq<char>> {
    match row {
        Some(r) => match Domain::of_row(r) {
            Some(d) => Some(d.robots),
            None => None,
        },
        None => None,
    }
}

impl VisitView {
    /// What holds of every state a visit reaches: while it waits on the
    /// host's record or robots file the URL has a host, and while it waits
    /// on the page or on the write of its record the URL can be fetched.
    pub open spec fn inv(self) -> bool {
        &&& (self.stage == Stage::AwaitDomain || self.stage == Stage::AwaitRobots || self.stage
            == Stage::AwaitDomainWrite) ==> host_of(self.url).is_some()
        &&& (self.stage == Stage::AwaitPage || self.stage == Stage::AwaitSiteWrite) ==> can_fetch(
            self.url,
        )
    }

    /// The state at the start of a visit.
    pub open spec fn initial(
        url: Seq<char>,
        origin: Seq<char>,
        seed: bool,
        agent: Seq<char>,
    ) -> VisitView {
        VisitView {
            url,
            origin,
            agent,
            seed,
            stage: Stage::Start,
            fresh: false,
            robots: Seq::empty(),
            links: Seq::empty(),
        }
    }

    /// The visit ends with `outcome`.
    pub open spec fn finish(self, outcome: Option<OutcomeView>) -> (VisitView, RequestView) {
        (VisitView { stage: Stage::Finished, ..self }, RequestView::Finish(outcome))
    }

    /// The visit ends with an error, and its URL is dropped.
    pub open spec fn fail(self, message: Seq<char>) -> (VisitView, RequestView) {
        (VisitView { stage: Stage::Finished, ..self }, RequestView::Fail(message))
    }

    /// The outcome of a visit that fetched nothing: for the origin none,
    /// for any other URL the URL with no links.
    pub open spec fn nothing_fetched(self) -> Option<OutcomeView> {
        if self.seed {
            None
        } else {
            Some(OutcomeView { url: self.url, links: Seq::empty() })
        }
    }

    /// The visit turns to the page: it asks for it if the URL can be
    /// fetched, and ends otherwise.
    pub open spec fn to_fetch(self) -> (VisitView, RequestView) {
        if can_fetch(self.url) {
            (VisitView { stage: Stage::AwaitPage, ..self }, RequestView::FetchPage(self.url))
        } else {
            self.finish(self.nothing_fetched())
        }
    }

    /// The guard, once the robots file of the host is known: the URL is
    /// dropped where its record is fresh and the robots file disallows its
    /// path; in every other case the visit turns to the page.
    pub open spec fn guard(self) -> (VisitView, RequestView) {
        if self.fresh && !allowed(self.robots, self.agent, path_of(self.url)) {
            self.finish(None)
        } else {
            self.to_fetch()
        }
    }

    /// What follows once the host's robots file is known and stored: the
    /// visit of the origin ends with its links, any other goes to the guard.
    pub open spec fn after_domain(self) -> (VisitView, RequestView) {
        if self.seed {
            self.finish(Some(OutcomeView { url: self.url, links: self.links }))
        } else {
            self.guard()
        }
    }

    /// The state after `reply` arrives at time `now`, and what the visit
    /// asks for next.
    pub open spec fn next(self, reply: ReplyView, now: Timestamp) -> (VisitView, RequestView) {
        match (self.stage, reply) {
            (Stage::Start, ReplyView::Begin) => if self.seed {
                self.to_fetch()
            } else {
                (
                    VisitView { stage: Stage::AwaitSite, ..self },
                    RequestView::ReadSite(doubled(self.url)),
                )
            },
            (Stage::AwaitSite, ReplyView::SiteRow(row)) => {
                let known = VisitView { fresh: fresh(row, now), ..self };
                if host_of(self.url).is_some() {
                    (
                        VisitView { stage: Stage::AwaitDomain, ..known },
                        RequestView::ReadDomain(doubled(host_of(self.url).unwrap())),
                    )
                } else {
                    known.to_fetch()
                }
            },
            (Stage::AwaitDomain, ReplyView::DomainRow(row)) => match stored_robots(row) {
                Some(robots) => VisitView { robots, ..self }.guard(),
                None => (
                    VisitView { stage: Stage::AwaitRobots, ..self },
                    RequestView::FetchRobots(robots_url_spec(host_of(self.url).unwrap())),
                ),
            },
            (Stage::AwaitRobots, ReplyView::Body(body)) => {
                let robots = match body {
                    Some(text) => text,
                    None => Seq::empty(),
                };
                let known = VisitView { robots, ..self };
                match now.stored_text_spec() {
                    Some(time) => (
                        VisitView { stage: Stage::AwaitDomainWrite, ..known },
                        RequestView::WriteDomain(
                            DomainRowView {
                                domain: doubled(host_of(self.url).unwrap()),
                                crawl_time: time,
                                robots: doubled(robots),
                            },
                        ),
                    ),
                    None => known.after_domain(),
                }
            },
            (Stage::AwaitDomainWrite, ReplyView::Stored) => self.after_domain(),
            (Stage::AwaitPage, ReplyView::Body(None)) => self.finish(self.nothing_fetched()),
            (Stage::AwaitPage, ReplyView::Body(Some(html))) => if !readable(html) {
                self.fail(unreadable_message())
            } else {
                let links = link_list(anchor_hrefs(html), self.origin);
                match now.stored_text_spec() {
                    Some(time) => (
                        VisitView { stage: Stage::AwaitSiteWrite, links, ..self },
                        RequestView::WriteSite(
                            SiteRowView {
                                url: doubled(self.url),
                                crawl_time: time,
                                links_to: links_column(links),
                            },
                        ),
                    ),
                    None => self.finish(None),
                }
            },
            (Stage::AwaitSiteWrite, ReplyView::Stored) => if self.seed && host_of(
                self.url,
            ).is_some() {
                (
                    VisitView { stage: Stage::AwaitRobots, ..self },
                    RequestView::FetchRobots(robots_url_spec(host_of(self.url).unwrap())),
                )
            } else {
                self.finish(Some(OutcomeView { url: self.url, links: self.links }))
            },
            _ => self.finish(None),
        }
    }

    /// Every step keeps the invariant, and the start has it.
    pub proof fn lemma_inv(self, reply: ReplyView, now: Timestamp)
        requires
            self.inv(),
        ensures
            self.next(reply, now).0.inv(),
            self.next(reply, now).0.url == self.url,
            self.next(reply, now).0.origin == self.origin,
            self.next(reply, now).0.seed == self.seed,
            self.next(reply, now).0.agent == self.agent,
            VisitView::initial(self.url, self.origin, self.seed, self.agent).inv(),
    {
    }

    /// A record is written only for a URL whose scheme is `http` or
    /// `https`, under that URL's key, and with the links of the page that
    /// was just fetched; a page is fetched only at such a URL.
    pub proof fn lemma_writes_only_fetchable(self, reply: ReplyView, now: Timestamp)
        requires
            self.inv(),
        ensures
            self.next(reply, now).1 matches RequestView::WriteSite(row) ==> {
                &&& can_fetch(self.url)
                &&& row.url == doubled(self.url)
                &&& reply matches ReplyView::Body(Some(html)) && readable(html) && row.links_to
                    == links_column(link_list(anchor_hrefs(html), self.origin))
            },
            self.next(reply, now).1 matches RequestView::FetchPage(url) ==> can_fetch(self.url)
                && url == self.url,
    {
    }

    /// Whether the visit has asked for its page.
    pub open spec fn past_fetch(self) -> bool {
        ||| self.stage == Stage::AwaitPage
        ||| self.stage == Stage::AwaitSiteWrite
        ||| self.stage == Stage::Finished
        ||| (self.seed && (self.stage == Stage::AwaitRobots || self.stage
            == Stage::AwaitDomainWrite))
    }

    /// A visit asks for its page at most once: a step that asks for the
    /// page leaves the visit past its fetch, and a visit past its fetch
    /// stays so and never asks for the page again.
    pub proof fn lemma_one_fetch(self, reply: ReplyView, now: Timestamp)
        ensures
            self.next(reply, now).1 is FetchPage ==> self.next(reply, now).0.past_fetch(),
            self.past_fetch() ==> self.next(reply, now).0.past_fetch() && !(self.next(
                reply,
                now,
            ).1 is FetchPage),
            !VisitView::initial(self.url, self.origin, self.seed, self.agent).past_fetch(),
    {
    }

    /// For every URL with a host, whether its stored record is fresh or
    /// not, the record of the host is asked for before the page is
    /// fetched.
    pub proof fn lemma_host_record_is_asked_for(self, row: Option<SiteRowView>, now: Timestamp)
        requires
            self.inv(),
            self.stage == Stage::AwaitSite,
            host_of(self.url).is_some(),
        ensures
            self.next(ReplyView::SiteRow(row), now).1 == RequestView::ReadDomain(
                doubled(host_of(self.url).unwrap()),
            ),
            self.next(ReplyView::SiteRow(row), now).0.fresh == fresh(row, now),
    {
    }

    /// A host that the store does not know gets its record: its robots
    /// file is fetched, and whatever comes back, the body or none, is
    /// written as the record of the host, with an empty robots text where
    /// none came.
    pub proof fn lemma_unknown_host_gets_record(
        self,
        row: Option<DomainRowView>,
        body: Option<Seq<char>>,
        now: Timestamp,
    )
        requires
            self.inv(),
            self.stage == Stage::AwaitDomain,
            stored_robots(row).is_none(),
            now.storable(),
        ensures
            self.next(ReplyView::DomainRow(row), now).1 == RequestView::FetchRobots(
                robots_url_spec(host_of(self.url).unwrap()),
            ),
            self.next(ReplyView::DomainRow(row), now).0.next(ReplyView::Body(body), now).1
                == RequestView::WriteDomain(
                DomainRowView {
                    domain: doubled(host_of(self.url).unwrap()),
                    crawl_time: now.text().unwrap(),
                    robots: doubled(
                        match body {
                            Some(text) => text,
                            None => Seq::empty(),
                        },
                    ),
                },
            ),
    {
    }

    /// A host whose robots file cannot be had still gets its record, with an
    /// empty robots text, and such a text allows every path to every
    /// agent.
    pub proof fn lemma_missing_robots(self, now: Timestamp, path: Seq<char>)
        requires
            self.inv(),
            self.stage == Stage::AwaitRobots,
            now.storable(),
        ensures
            self.next(ReplyView::Body(None), now).1 == RequestView::WriteDomain(
                DomainRowView {
                    domain: doubled(host_of(self.url).unwrap()),
                    crawl_time: now.text().unwrap(),
                    robots: Seq::empty(),
                },
            ),
            self.next(ReplyView::Body(None), now).0.robots == Seq::<char>::empty(),
            allowed(Seq::empty(), self.agent, path),
    {
    }

    /// Once the robots file of the host is known, a URL other than the
    /// origin is dropped if and only if its record is fresh and the file
    /// disallows its path; in every other case the page is fetched if its
    /// URL can be.
    pub proof fn lemma_robots_decide(self, row: Option<DomainRowView>, now: Timestamp)
        requires
            self.inv(),
            self.stage == Stage::AwaitDomain,
            !self.seed,
            stored_robots(row).is_some(),
        ensures
            self.next(ReplyView::DomainRow(row), now).1 == RequestView::Finish(None) <==> (
            self.fresh && !allowed(stored_robots(row).unwrap(), self.agent, path_of(self.url))),
            !(self.fresh && !allowed(stored_robots(row).unwrap(), self.agent, path_of(self.url)))
                && can_fetch(self.url) ==> self.next(ReplyView::DomainRow(row), now).1
                == RequestView::FetchPage(self.url),
    {
    }
}

impl Visit {
    /// Whether the visit is sound: what it keeps of its URL is what the URL
    /// parses to, its links are a set, and its state has the invariant.
    pub closed spec fn wf(&self) -> bool {
        &&& parts_view(self.parts) == url_parts(self.url@)
        &&& self.parts matches Some(p) ==> is_ascii_chars(p.path@)
        &&& is_ascii_chars(self.agent@)
        &&& self.links.wf()
        &&& self@.inv()
    }

    /// A sound visit has the invariant of its state.
    pub proof fn lemma_wf_inv(&self)
        requires
            self.wf(),
        ensures
            self@.inv(),
    {
    }

    /// A visit of `url` in a crawl from `origin`, under the crawler's own
    /// agent name; `seed` says whether it is the visit of the origin itself.
    pub fn new(url: String, origin: String, seed: bool) -> (v: Visit)
        ensures
            v.wf(),
            v@ == VisitView::initial(url@, origin@, seed, USER_AGENT@),
            v@.inv(),
    {
        proof {
            lemma_user_agent_ascii();
        }
        Visit::make(url, origin, seed, String::from_str(USER_AGENT))
    }

    /// A visit of `url` in a crawl from `origin`, reading robots files under
    /// the name `agent`. An agent name that is not ASCII gives a
    /// configuration error.
    pub fn with_agent(url: String, origin: String, seed: bool, agent: String) -> (r: Result<
        Visit,
        Errors,
    >)
        ensures
            match r {
                Ok(v) => is_ascii_chars(agent@) && v.wf() && v@.inv() && v@ == VisitView::initial(
                    url@,
                    origin@,
                    seed,
                    agent@,
                ),
                Err(Errors::ConfigError(_)) => !is_ascii_chars(agent@),
                Err(_) => false,
            },
    {
        if agent.as_str().is_ascii() {
            Ok(Visit::make(url, origin, seed, agent))
        } else {
            Err(Errors::ConfigError(String::from_str("the agent name is not ASCII")))
        }
    }

    pub(crate) fn make(url: String, origin: String, seed: bool, agent: String) -> (v: Visit)
        requires
            is_ascii_chars(agent@),
        ensures
            v.wf(),
            v@ == VisitView::initial(url@, origin@, seed, agent@),
            v@.inv(),
    {
        let parts = UrlParts::parse(url.as_str());
        Visit {
            url,
            origin,
            agent,
            seed,
            stage: Stage::Start,
            fresh: false,
            parts,
            robots: String::new(),
            links: UrlSet::new(),
        }
    }

    /// Whether the visit is over.
    pub fn is_finished(&self) -> (b: bool)
        ensures
            b == (self@.stage == Stage::Finished),
    {
        self.stage == Stage::Finished
    }

    fn finish(&mut self, outcome: Option<Outcome>) -> (r: Request)
        requires
            old(self).wf(),
        ensures
            final(self).wf(),
            (final(self)@, r@) == old(self)@.finish(outcome_view(outcome)),
    {
        self.stage = Stage::Finished;
        Request::Finish(outcome)
    }

    fn nothing_fetched(&self) -> (o: Option<Outcome>)
        ensures
            outcome_view(o) == self@.nothing_fetched(),
    {
        if self.seed {
            None
        } else {
            Some(Outcome { url: self.url.clone(), links: UrlSet::new() })
        }
    }

    fn processed(&self) -> (o: Option<Outcome>)
        ensures
            outcome_view(o) == Some(OutcomeView { url: self@.url, links: self@.links }),
    {
        Some(Outcome { url: self.url.clone(), links: self.links.clone() })
    }

    fn to_fetch(&mut self) -> (r: Request)
        requires
            old(self).wf(),
        ensures
            final(self).wf(),
            (final(self)@, r@) == old(self)@.to_fetch(),
    {
        let fetchable = match &self.parts {
            Some(p) => p.is_fetchable(),
            None => false,
        };
        if fetchable {
            self.stage = Stage::AwaitPage;
            Request::FetchPage(self.url.clone())
        } else {
            let outcome = self.nothing_fetched();
            self.finish(outcome)
        }
    }

    fn guard(&mut self) -> (r: Request)
        requires
            old(self).wf(),
        ensures
            final(self).wf(),
            (final(self)@, r@) == old(self)@.guard(),
    {
        let permitted = match &self.parts {
            Some(p) => is_allowed_to_scrape(
                self.robots.as_str(),
                self.agent.as_str(),
                p.path.as_str(),
            ),
            None => {
                let none = String::new();
                is_allowed_to_scrape(self.robots.as_str(), self.agent.as_str(), none.as_str())
            },
        };
        if self.fresh && !permitted {
            self.finish(None)
        } else {
            self.to_fetch()
        }
    }

    fn after_domain(&mut self) -> (r: Request)
        requires
            old(self).wf(),
        ensures
            final(self).wf(),
            (final(self)@, r@) == old(self)@.after_domain(),
    {
        if self.seed {
            let outcome = self.processed();
            self.finish(outcome)
        } else {
            self.guard()
        }
    }

    fn host(&self) -> (h: String)
        requires
            self.wf(),
            host_of(self@.url).is_some(),
        ensures
            h@ == host_of(self@.url).unwrap(),
    {
        match &self.parts {
            Some(p) => match &p.host {
                Some(h) => h.clone(),
                None => String::new(),
            },
            None => String::new(),
        }
    }

    fn has_host(&self) -> (b: bool)
        requires
            self.wf(),
        ensures
            b == host_of(self@.url).is_some(),
    {
        match &self.parts {
            Some(p) => p.host.is_some(),
            None => false,
        }
    }

    /// Takes the reply to the last request, which arrived at time `now`,
    /// and says what to do next. The reply that brings a page has the page
    /// read: take it on a thread with `PARSE_STACK_BYTES` of stack.
    pub fn step_at(&mut self, reply: Reply, now: &Timestamp) -> (r: Request)
        requires
            old(self).wf(),
        ensures
            final(self).wf(),
            final(self)@.inv(),
            (final(self)@, r@) == old(self)@.next(reply@, *now),
    {
        match (self.stage, reply) {
            (Stage::Start, Reply::Begin) => {
                if self.seed {
                    self.to_fetch()
                } else {
                    self.stage = Stage::AwaitSite;
                    Request::ReadSite(Site::key(self.url.as_str()))
                }
            },
            (Stage::AwaitSite, Reply::SiteRow(row)) => {
                self.fresh = match Site::read_into(row) {
                    Ok(site) => Crawler::should_skip_cached_url(&site, now),
                    Err(_) => false,
                };
                if self.has_host() {
                    let host = self.host();
                    self.stage = Stage::AwaitDomain;
                    Request::ReadDomain(Domain::key(host.as_str()))
                } else {
                    self.to_fetch()
                }
            },
            (Stage::AwaitDomain, Reply::DomainRow(row)) => {
                match Domain::read_into(row) {
                    Ok(Some(domain)) => {
                        self.robots = domain.robots;
                        self.guard()
                    },
                    _ => {
                        let host = self.host();
                        self.stage = Stage::AwaitRobots;
                        Request::FetchRobots(robots_url(host.as_str()))
                    },
                }
            },
            (Stage::AwaitRobots, Reply::Body(body)) => {
                let robots = match body {
                    Some(text) => text,
                    None => String::new(),
                };
                let record = Domain {
                    domain: self.host(),
                    crawl_time: *now,
                    robots: robots.clone(),
                };
                self.robots = robots;
                match record.write_into() {
                    Ok(row) => {
                        self.stage = Stage::AwaitDomainWrite;
                        Request::WriteDomain(row)
                    },
                    Err(_) => self.after_domain(),
                }
            },
            (Stage::AwaitDomainWrite, Reply::Stored) => self.after_domain(),
            (Stage::AwaitPage, Reply::Body(None)) => {
                let outcome = self.nothing_fetched();
                self.finish(outcome)
            },
            (Stage::AwaitPage, Reply::Body(Some(html))) => {
                match get_links(html.as_str(), self.origin.as_str()) {
                    Err(e) => {
                        self.stage = Stage::Finished;
                        Request::Fail(e)
                    },
                    Ok(links) => {
                        let record = Site {
                            url: self.url.clone(),
                            crawl_time: *now,
                            links_to: links,
                        };
                        match record.write_into() {
                            Ok(row) => {
                                self.links = record.links_to;
                                self.stage = Stage::AwaitSiteWrite;
                                Request::WriteSite(row)
                            },
                            Err(_) => self.finish(None),
                        }
                    },
                }
            },
            (Stage::AwaitSiteWrite, Reply::Stored) => {
                if self.seed && self.has_host() {
                    let host = self.host();
                    self.stage = Stage::AwaitRobots;
                    Request::FetchRobots(robots_url(host.as_str()))
                } else {
                    let outcome = self.processed();
                    self.finish(outcome)
                }
            },
            _ => self.finish(None),
        }
    }
}

} // verus!
