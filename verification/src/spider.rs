//! The crawl itself: the visited set and the frontier from level to level.
//! The crawler decides what happens next; whoever drives it prepares the
//! store, runs the visits of a level, and reports back.

use crate::clock::Timestamp;
use crate::error::Errors;
use crate::links::text_view;
use crate::robots::{lemma_user_agent_ascii, USER_AGENT};
use crate::site::Site;
use crate::url_set::UrlSet;
use crate::visit::{outcome_view, Outcome, OutcomeView, Visit, VisitView};
use vstd::prelude::*;
use vstd::string::StringExecFns;
use vstd::utf8::is_ascii_chars;

verus! {

/// What came back from the network for one request.
#[derive(Debug)]
pub struct Response {
    /// Whether the status was a success.
    pub success: bool,
    /// The body as text, or `None` where it could not be read as UTF-8.
    pub body: Option<String>,
}

/// Where a run stands.
#[derive(Clone, Copy, Debug, PartialEq, Eq, Structural)]
pub enum Phase {
    /// Nothing has happened yet.
    Init,
    /// The store is being prepared.
    Setup,
    /// The origin is being visited.
    Seed,
    /// A level of the frontier is being visited.
    Iterate,
    /// The counts are being reported.
    Summarize,
    /// The run is over.
    Done,
}

/// What the driver reports.
#[derive(Debug)]
pub enum Event {
    /// The run may start.
    Start,
    /// The store is ready.
    Ready,
    /// The visit of the origin ended with this outcome.
    Seeded(Option<Outcome>),
    /// The visits of the frontier ended with these outcomes.
    Visited(Vec<Option<Outcome>>),
    /// The counts were reported.
    Summarized,
}

/// What the crawler asks of its driver.
#[derive(Debug)]
pub enum Action {
    /// Create the tables of the store.
    Setup,
    /// Run the visit of the origin.
    Seed,
    /// Run a visit of each of these URLs.
    Visit(UrlSet),
    /// Report how many site and domain records the store holds.
    Summarize,
    /// Stop.
    Finish,
}

/// An event as plain values.
pub enum EventView {
    Start,
    Ready,
    Seeded(Option<OutcomeView>),
    Visited(Seq<Option<OutcomeView>>),
    Summarized,
}

/// An action as plain values.
pub enum ActionView {
    Setup,
    Seed,
    Visit(Set<Seq<char>>),
    Summarize,
    Finish,
}

/// The views of a sequence of outcomes, element by element.
pub open spec fn outcome_views(v: Seq<Option<Outcome>>) -> Seq<Option<OutcomeView>> {
    v.map_values(|o: Option<Outcome>| outcome_view(o))
}

impl View for Event {
    type V = EventView;

    open spec fn view(&self) -> EventView {
        match self {
            Event::Start => EventView::Start,
            Event::Ready => EventView::Ready,
            Event::Seeded(o) => EventView::Seeded(outcome_view(*o)),
            Event::Visited(v) => EventView::Visited(outcome_views(v@)),
            Event::Summarized => EventView::Summarized,
        }
    }
}

impl View for Action {
    type V = ActionView;

    open spec fn view(&self) -> ActionView {
        match self {
            Action::Setup => ActionView::Setup,
            Action::Seed => ActionView::Seed,
            Action::Visit(urls) => ActionView::Visit(urls@),
            Action::Summarize => ActionView::Summarize,
            Action::Finish => ActionView::Finish,
        }
    }
}

/// The URLs that the given outcomes report as processed.
pub open spec fn processed(outcomes: Seq<Option<OutcomeView>>) -> Set<Seq<char>>
    decreases outcomes.len(),
{
    if outcomes.len() == 0 {
        Set::empty()
    } else {
        let before = processed(outcomes.drop_last());
        match outcomes.last() {
            Some(o) => before.insert(o.url),
            None => before,
        }
    }
}

/// The URLs that the pages of the given outcomes link to.
pub open spec fn linked(outcomes: Seq<Option<OutcomeView>>) -> Set<Seq<char>>
    decreases outcomes.len(),
{
    if outcomes.len() == 0 {
        Set::empty()
    } else {
        let before = linked(outcomes.drop_last());
        match outcomes.last() {
            Some(o) => before.union(o.links.to_set()),
            None => before,
        }
    }
}

/// No more URLs are processed than outcomes are reported.
pub proof fn lemma_processed_len(outcomes: Seq<Option<OutcomeView>>)
    ensures
        processed(outcomes).finite(),
        processed(outcomes).len() <= outcomes.len(),
    decreases outcomes.len(),
{
    if outcomes.len() > 0 {
        lemma_processed_len(outcomes.drop_last());
    }
}

/// The outcomes of a level may be put together in any grouping and in any
/// order: what two lists of outcomes processed and linked to, taken
/// together, is what their concatenation did, whichever comes first.
pub proof fn lemma_outcomes_concat(a: Seq<Option<OutcomeView>>, b: Seq<Option<OutcomeView>>)
    ensures
        processed(a + b) == processed(a).union(processed(b)),
        linked(a + b) == linked(a).union(linked(b)),
        processed(a + b) == processed(b + a),
        linked(a + b) == linked(b + a),
    decreases b.len(),
{
    lemma_outcomes_union(a, b);
    lemma_outcomes_union(b, a);
    assert(processed(a).union(processed(b)) =~= processed(b).union(processed(a)));
    assert(linked(a).union(linked(b)) =~= linked(b).union(linked(a)));
}

proof fn lemma_outcomes_union(a: Seq<Option<OutcomeView>>, b: Seq<Option<OutcomeView>>)
    ensures
        processed(a + b) == processed(a).union(processed(b)),
        linked(a + b) == linked(a).union(linked(b)),
    decreases b.len(),
{
    if b.len() == 0 {
        assert(a + b =~= a);
        assert(processed(a).union(processed(b)) =~= processed(a));
        assert(linked(a).union(linked(b)) =~= linked(a));
    } else {
        lemma_outcomes_union(a, b.drop_last());
        assert((a + b).drop_last() =~= a + b.drop_last());
        assert((a + b).last() == b.last());
        assert(processed(a + b) =~= processed(a).union(processed(b)));
        assert(linked(a + b) =~= linked(a).union(linked(b)));
    }
}

/// `f` to the power `k`.
pub open spec fn power(f: nat, k: nat) -> nat
    decreases k,
{
    if k == 0 {
        1
    } else {
        f * power(f, (k - 1) as nat)
    }
}

/// The sum of the powers of `f` from the power zero to the power `d`.
pub open spec fn power_sum(f: nat, d: nat) -> nat
    decreases d,
{
    if d == 0 {
        1
    } else {
        power_sum(f, (d - 1) as nat) + power(f, d)
    }
}

/// The sum of the powers of `f` below the power `d`: `1 + f + ... +
/// f^(d-1)`, and zero for `d` zero.
pub open spec fn geometric(f: nat, d: nat) -> nat
    decreases d,
{
    if d == 0 {
        0
    } else {
        geometric(f, (d - 1) as nat) + power(f, (d - 1) as nat)
    }
}

/// The number of visits that the levels report: one for each outcome.
pub open spec fn visit_count(levels: Seq<Seq<Option<OutcomeView>>>) -> nat
    decreases levels.len(),
{
    if levels.len() == 0 {
        0
    } else {
        visit_count(levels.drop_last()) + levels.last().len()
    }
}

/// Whether every page among `outcomes` links to at most `f` URLs.
pub open spec fn fan_out_within(outcomes: Seq<Option<OutcomeView>>, f: nat) -> bool {
    forall|i: int|
        0 <= i < outcomes.len() ==> match #[trigger] outcomes[i] {
            Some(o) => o.links.len() <= f,
            None => true,
        }
}

/// Pages with at most `f` links each link to at most `f` URLs for each
/// outcome.
pub proof fn lemma_linked_len(outcomes: Seq<Option<OutcomeView>>, f: nat)
    requires
        fan_out_within(outcomes, f),
    ensures
        linked(outcomes).finite(),
        linked(outcomes).len() <= f * outcomes.len(),
    decreases outcomes.len(),
{
    if outcomes.len() > 0 {
        let init = outcomes.drop_last();
        assert(fan_out_within(init, f)) by {
            assert forall|i: int| 0 <= i < init.len() implies match #[trigger] init[i] {
                Some(o) => o.links.len() <= f,
                None => true,
            } by {
                assert(init[i] == outcomes[i]);
            }
        }
        lemma_linked_len(init, f);
        assert(outcomes.last() == outcomes[outcomes.len() - 1]);
        match outcomes.last() {
            Some(o) => {
                o.links.lemma_cardinality_of_set();
                vstd::seq_lib::seq_to_set_is_finite(o.links);
                vstd::set_lib::lemma_len_union(linked(init), o.links.to_set());
            },
            None => {},
        }
        assert(f * outcomes.len() == f * init.len() + f) by (nonlinear_arith)
            requires
                outcomes.len() == init.len() + 1,
        ;
    } else {
        assert(f * outcomes.len() == 0) by (nonlinear_arith)
            requires
                outcomes.len() == 0,
        ;
    }
}

/// A crawl from one origin to a given depth.
#[derive(Debug)]
pub struct Crawler {
    origin_url: String,
    recursion_depth: u64,
    user_agent: String,
    phase: Phase,
    depth: u64,
    visited: UrlSet,
    frontier: UrlSet,
}

/// The state of a crawl as plain values.
pub struct CrawlerView {
    /// The URL the crawl starts from.
    pub origin: Seq<char>,
    /// How many levels are visited at most.
    pub limit: int,
    pub phase: Phase,
    /// How many levels have been visited.
    pub depth: int,
    /// The URLs processed so far in this run.
    pub visited: Set<Seq<char>>,
    /// The URLs to visit at the next level.
    pub frontier: Set<Seq<char>>,
}

impl View for Crawler {
    type V = CrawlerView;

    closed spec fn view(&self) -> CrawlerView {
        CrawlerView {
            origin: self.origin_url@,
            limit: self.recursion_depth as int,
            phase: self.phase,
            depth: self.depth as int,
            visited: self.visited@,
            frontier: self.frontier@,
        }
    }
}

impl CrawlerView {
    /// What holds of every state a run reaches: the depth lies within the
    /// limit, no URL of the frontier was visited before, and while a level
    /// is being visited the limit is not yet reached, the frontier is not
    /// empty and the origin counts as visited.
    pub open spec fn inv(self) -> bool {
        &&& 0 <= self.depth <= self.limit
        &&& self.visited.finite()
        &&& self.frontier.disjoint(self.visited)
        &&& self.phase == Phase::Iterate ==> {
            &&& self.depth < self.limit
            &&& self.frontier != Set::<Seq<char>>::empty()
            &&& self.visited.contains(self.origin)
        }
    }

    /// The state before a run.
    pub open spec fn initial(origin: Seq<char>, limit: int) -> CrawlerView {
        CrawlerView {
            origin,
            limit,
            phase: Phase::Init,
            depth: 0,
            visited: Set::empty(),
            frontier: Set::empty(),
        }
    }

    /// The run is over.
    pub open spec fn stop(self) -> (CrawlerView, ActionView) {
        (CrawlerView { phase: Phase::Done, ..self }, ActionView::Finish)
    }

    /// The next level is visited if the limit is not reached and the
    /// frontier is not empty; else the run turns to its summary.
    pub open spec fn proceed(self) -> (CrawlerView, ActionView) {
        if self.depth < self.limit && self.frontier != Set::<Seq<char>>::empty() {
            (CrawlerView { phase: Phase::Iterate, ..self }, ActionView::Visit(self.frontier))
        } else {
            (CrawlerView { phase: Phase::Summarize, ..self }, ActionView::Summarize)
        }
    }

    /// The state after the origin was visited and linked to `links`: the
    /// origin is visited, and the frontier is what it links to but itself.
    pub open spec fn seeded(self, links: Set<Seq<char>>) -> CrawlerView {
        let visited = Set::<Seq<char>>::empty().insert(self.origin);
        CrawlerView { visited, frontier: links.difference(visited), depth: 0, ..self }
    }

    /// The state after a level ended with `outcomes`: what was processed
    /// joins the visited set, and the new frontier is what the processed
    /// pages link to and no visit has processed.
    pub open spec fn merged(self, outcomes: Seq<Option<OutcomeView>>) -> CrawlerView {
        let visited = self.visited.union(processed(outcomes));
        CrawlerView {
            visited,
            frontier: linked(outcomes).difference(visited),
            depth: self.depth + 1,
            ..self
        }
    }

    /// The state after `event`, and what the crawler asks for next.
    pub open spec fn next(self, event: EventView) -> (CrawlerView, ActionView) {
        match (self.phase, event) {
            (Phase::Init, EventView::Start) => (
                CrawlerView { phase: Phase::Setup, ..self },
                ActionView::Setup,
            ),
            (Phase::Setup, EventView::Ready) => (
                CrawlerView { phase: Phase::Seed, ..self },
                ActionView::Seed,
            ),
            (Phase::Seed, EventView::Seeded(Some(o))) => self.seeded(o.links.to_set()).proceed(),
            (Phase::Iterate, EventView::Visited(outcomes)) => self.merged(outcomes).proceed(),
            (Phase::Summarize, EventView::Summarized) => self.stop(),
            _ => self.stop(),
        }
    }

    /// Every step keeps the invariant, and the start has it.
    pub proof fn lemma_inv(self, event: EventView)
        requires
            self.inv(),
        ensures
            self.next(event).0.inv(),
            self.next(event).0.origin == self.origin,
            self.next(event).0.limit == self.limit,
            self.limit >= 0 ==> CrawlerView::initial(self.origin, self.limit).inv(),
    {
        match (self.phase, event) {
            (Phase::Iterate, EventView::Visited(outcomes)) => {
                lemma_processed_len(outcomes);
            },
            _ => {},
        }
    }

    /// A level adds at most one URL to the visited set for each outcome
    /// reported, and takes none away.
    pub proof fn lemma_level_bound(self, outcomes: Seq<Option<OutcomeView>>)
        requires
            self.inv(),
        ensures
            self.merged(outcomes).visited.finite(),
            self.visited.subset_of(self.merged(outcomes).visited),
            self.merged(outcomes).visited.len() <= self.visited.len() + outcomes.len(),
    {
        lemma_processed_len(outcomes);
        vstd::set_lib::lemma_len_union(self.visited, processed(outcomes));
    }

    /// A run that visits the origin alone has visited one URL; a run that
    /// goes one level further, with at most one outcome for each link of
    /// the origin, has visited at most one URL more for each of those links.
    pub proof fn lemma_shallow_bound(self, origin: OutcomeView, outcomes: Seq<Option<OutcomeView>>)
        requires
            self.phase == Phase::Seed,
            outcomes.len() <= origin.links.len(),
        ensures
            self.next(EventView::Seeded(Some(origin))).0.visited.len() == 1,
            self.next(EventView::Seeded(Some(origin))).0.frontier.len() <= origin.links.len(),
            self.next(EventView::Seeded(Some(origin))).0.merged(outcomes).visited.len() <= 1
                + origin.links.len(),
    {
        let seeded = self.seeded(origin.links.to_set());
        assert(self.next(EventView::Seeded(Some(origin))).0.visited == seeded.visited);
        assert(self.next(EventView::Seeded(Some(origin))).0.frontier == seeded.frontier);
        origin.links.lemma_cardinality_of_set();
        vstd::seq_lib::seq_to_set_is_finite(origin.links);
        vstd::set_lib::lemma_len_difference(origin.links.to_set(), seeded.visited);
        lemma_processed_len(outcomes);
        vstd::set_lib::lemma_len_union(seeded.visited, processed(outcomes));
    }

    /// The state after the levels of `levels`, each a list of outcomes,
    /// have been merged in turn.
    pub open spec fn after_levels(self, levels: Seq<Seq<Option<OutcomeView>>>) -> CrawlerView
        decreases levels.len(),
    {
        if levels.len() == 0 {
            self
        } else {
            self.after_levels(levels.drop_last()).merged(levels.last())
        }
    }

    /// Whether `levels` is what the visits of the frontiers can report:
    /// for each level at most one outcome for each URL of the frontier, each
    /// from a page with at most `f` links.
    pub open spec fn levels_within(self, levels: Seq<Seq<Option<OutcomeView>>>, f: nat) -> bool
        decreases levels.len(),
    {
        levels.len() > 0 ==> {
            &&& self.levels_within(levels.drop_last(), f)
            &&& levels.last().len() <= self.after_levels(levels.drop_last()).frontier.len()
            &&& fan_out_within(levels.last(), f)
        }
    }

    /// Where no page links to more than `f` URLs, a run that has visited
    /// the origin and `d` levels has visited at most
    /// `1 + f + f^2 + ... + f^d` URLs, and its frontier then holds at most
    /// `f^(d+1)`.
    pub proof fn lemma_run_bound(self, levels: Seq<Seq<Option<OutcomeView>>>, f: nat)
        requires
            self.visited.finite(),
            self.frontier.finite(),
            self.visited.len() <= 1,
            self.frontier.len() <= f,
            self.levels_within(levels, f),
        ensures
            self.after_levels(levels).visited.finite(),
            self.after_levels(levels).frontier.finite(),
            self.after_levels(levels).visited.len() <= power_sum(f, levels.len()),
            self.after_levels(levels).frontier.len() <= power(f, levels.len() + 1),
        decreases levels.len(),
    {
        if levels.len() == 0 {
            assert(power(f, 1) == f) by {
                assert(power(f, 0) == 1);
                assert(f * 1 == f) by (nonlinear_arith);
            }
        } else {
            let d = (levels.len() - 1) as nat;
            let before = self.after_levels(levels.drop_last());
            let outcomes = levels.last();
            self.lemma_run_bound(levels.drop_last(), f);
            let after = before.merged(outcomes);
            lemma_processed_len(outcomes);
            vstd::set_lib::lemma_len_union(before.visited, processed(outcomes));
            lemma_linked_len(outcomes, f);
            vstd::set_lib::lemma_len_difference(linked(outcomes), after.visited);
            assert(f * outcomes.len() <= f * power(f, d + 1)) by (nonlinear_arith)
                requires
                    outcomes.len() <= power(f, d + 1),
            ;
            assert(power(f, d + 2) == f * power(f, d + 1));
            assert(power_sum(f, d + 1) == power_sum(f, d) + power(f, d + 1));
        }
    }

    /// Where the frontier holds at most `n` URLs and no page links to more
    /// than `f`, the `d` levels that follow make at most
    /// `n * (1 + f + ... + f^(d-1))` visits, none where `d` or `n` is zero,
    /// and add at most one URL to the visited set for each visit. As a visit
    /// asks for its page at most once, that also bounds the page requests.
    pub proof fn lemma_visits_bound(self, levels: Seq<Seq<Option<OutcomeView>>>, n: nat, f: nat)
        requires
            self.visited.finite(),
            self.frontier.finite(),
            self.frontier.len() <= n,
            self.levels_within(levels, f),
        ensures
            self.after_levels(levels).visited.finite(),
            self.after_levels(levels).frontier.finite(),
            self.after_levels(levels).frontier.len() <= n * power(f, levels.len()),
            visit_count(levels) <= n * geometric(f, levels.len()),
            self.after_levels(levels).visited.len() <= self.visited.len() + visit_count(levels),
            levels.len() == 0 || n == 0 ==> visit_count(levels) == 0,
        decreases levels.len(),
    {
        if levels.len() == 0 {
            assert(n * power(f, 0) == n) by (nonlinear_arith)
                requires
                    power(f, 0) == 1,
            ;
            assert(n * geometric(f, 0) == 0) by (nonlinear_arith)
                requires
                    geometric(f, 0) == 0,
            ;
        } else {
            let d = (levels.len() - 1) as nat;
            let before = self.after_levels(levels.drop_last());
            let outcomes = levels.last();
            self.lemma_visits_bound(levels.drop_last(), n, f);
            let after = before.merged(outcomes);
            lemma_processed_len(outcomes);
            vstd::set_lib::lemma_len_union(before.visited, processed(outcomes));
            lemma_linked_len(outcomes, f);
            vstd::set_lib::lemma_len_difference(linked(outcomes), after.visited);
            let p = power(f, d);
            let g = geometric(f, d);
            assert(power(f, d + 1) == f * p);
            assert(geometric(f, d + 1) == g + p);
            assert(f * outcomes.len() <= n * (f * p)) by (nonlinear_arith)
                requires
                    outcomes.len() <= n * p,
            ;
            assert(visit_count(levels.drop_last()) + outcomes.len() <= n * (g + p))
                by (nonlinear_arith)
                requires
                    visit_count(levels.drop_last()) <= n * g,
                    outcomes.len() <= n * p,
            ;
            assert(n == 0 ==> n * (g + p) == 0) by (nonlinear_arith);
        }
    }

    /// With a depth limit of zero, or an origin that links to nothing but
    /// itself, no level is visited: after the origin the run turns to its
    /// summary, with the origin as the one visited URL.
    pub proof fn lemma_seed_only(self, outcome: OutcomeView)
        requires
            self.phase == Phase::Seed,
            self.limit == 0 || outcome.links.to_set().subset_of(
                Set::<Seq<char>>::empty().insert(self.origin),
            ),
        ensures
            self.next(EventView::Seeded(Some(outcome))).1 == ActionView::Summarize,
            self.next(EventView::Seeded(Some(outcome))).0.visited == Set::<Seq<char>>::empty().insert(
                self.origin,
            ),
    {
        let s = self.seeded(outcome.links.to_set());
        if self.limit != 0 {
            assert(s.frontier =~= Set::<Seq<char>>::empty());
        }
    }
}

impl Crawler {
    /// Whether the crawler is sound: its sets are sets, its agent name is
    /// ASCII, and its state has the invariant.
    pub closed spec fn wf(&self) -> bool {
        &&& self.visited.wf()
        &&& self.frontier.wf()
        &&& is_ascii_chars(self.user_agent@)
        &&& self@.inv()
    }

    /// The name under which the crawler reads robots files.
    pub closed spec fn agent(&self) -> Seq<char> {
        self.user_agent@
    }

    /// A sound crawler has the invariant of its state.
    pub proof fn lemma_wf_inv(&self)
        requires
            self.wf(),
        ensures
            self@.inv(),
    {
    }

    /// A crawl from `origin_url` that visits at most `recursion_depth`
    /// levels beyond it, under the crawler's own agent name.
    pub fn new(origin_url: String, recursion_depth: u64) -> (c: Crawler)
        ensures
            c.wf(),
            c@.inv(),
            c@ == CrawlerView::initial(origin_url@, recursion_depth as int),
            c.agent() == USER_AGENT@,
    {
        proof {
            lemma_user_agent_ascii();
        }
        Crawler {
            origin_url,
            recursion_depth,
            user_agent: String::from_str(USER_AGENT),
            phase: Phase::Init,
            depth: 0,
            visited: UrlSet::new(),
            frontier: UrlSet::new(),
        }
    }

    /// A crawl from `origin_url` that visits at most `recursion_depth`
    /// levels beyond it and reads robots files under the name `agent`. An
    /// agent name that is not ASCII gives a configuration error.
    pub fn with_user_agent(origin_url: String, recursion_depth: u64, agent: String) -> (r: Result<
        Crawler,
        Errors,
    >)
        ensures
            match r {
                Ok(c) => is_ascii_chars(agent@) && c.wf() && c@.inv() && c@ == CrawlerView::initial(
                    origin_url@,
                    recursion_depth as int,
                ) && c.agent() == agent@,
                Err(Errors::ConfigError(_)) => !is_ascii_chars(agent@),
                Err(_) => false,
            },
    {
        if agent.as_str().is_ascii() {
            Ok(
                Crawler {
                    origin_url,
                    recursion_depth,
                    user_agent: agent,
                    phase: Phase::Init,
                    depth: 0,
                    visited: UrlSet::new(),
                    frontier: UrlSet::new(),
                },
            )
        } else {
            Err(Errors::ConfigError(String::from_str("the agent name is not ASCII")))
        }
    }

    /// Whether the run is over.
    pub fn is_done(&self) -> (b: bool)
        ensures
            b == (self@.phase == Phase::Done),
    {
        self.phase == Phase::Done
    }

    /// The visit of the origin.
    pub fn seed(&self) -> (v: Visit)
        requires
            self.wf(),
        ensures
            v.wf(),
            v@.inv(),
            v@ == VisitView::initial(self@.origin, self@.origin, true, self.agent()),
    {
        Visit::make(
            self.origin_url.clone(),
            self.origin_url.clone(),
            true,
            self.user_agent.clone(),
        )
    }

    /// The visit of a URL of the frontier.
    pub fn visit(&self, url: &String) -> (v: Visit)
        requires
            self.wf(),
        ensures
            v.wf(),
            v@.inv(),
            v@ == VisitView::initial(url@, self@.origin, false, self.agent()),
    {
        Visit::make(url.clone(), self.origin_url.clone(), false, self.user_agent.clone())
    }

    /// Whether a stored record makes its URL a candidate for skipping: there
    /// is one, and it is less than a day old at `now`.
    pub fn should_skip_cached_url(site: &Option<Site>, now: &Timestamp) -> (skip: bool)
        ensures
            skip == match site {
                Some(s) => s.crawl_time.within_a_day_of(*now),
                None => false,
            },
    {
        match site {
            Some(s) => s.crawl_time.is_within_a_day_of(now),
            None => false,
        }
    }

    /// The text that a fetch yielded, if it yielded one.
    pub open spec fn body_of(response: Option<Response>) -> Option<Seq<char>> {
        match response {
            Some(r) => if r.success {
                text_view(r.body)
            } else {
                None
            },
            None => None,
        }
    }

    /// The robots file that a fetch yielded: the body of a response with a
    /// success status that reads as text, and nothing in any other case.
    pub fn get_robots(response: Option<Response>) -> (robots: Option<String>)
        ensures
            text_view(robots) == Crawler::body_of(response),
    {
        match response {
            Some(r) => if r.success {
                r.body
            } else {
                None
            },
            None => None,
        }
    }

    /// The page that a fetch yielded: the body of a response with a success
    /// status that reads as text. A request without a response and a
    /// status that is no success give a network error; a body that is not
    /// valid UTF-8 gives an encoding error.
    pub fn get_html(response: Option<Response>) -> (html: Result<String, Errors>)
        ensures
            match html {
                Ok(body) => Crawler::body_of(response) == Some(body@),
                Err(Errors::NetworkError(_)) => response.is_none() || !response.unwrap().success,
                Err(Errors::EncodingError(_)) => response.is_some() && response.unwrap().success
                    && response.unwrap().body.is_none(),
                Err(_) => false,
            },
    {
        match response {
            None => Err(Errors::NetworkError(String::from_str("the request failed"))),
            Some(r) => if !r.success {
                Err(Errors::NetworkError(String::from_str("the status is not a success")))
            } else {
                match r.body {
                    Some(body) => Ok(body),
                    None => Err(
                        Errors::EncodingError(String::from_str("the body is not valid UTF-8")),
                    ),
                }
            },
        }
    }

    fn stop(&mut self) -> (a: Action)
        requires
            old(self).wf(),
        ensures
            final(self).wf(),
            final(self).agent() == old(self).agent(),
            (final(self)@, a@) == old(self)@.stop(),
    {
        self.phase = Phase::Done;
        Action::Finish
    }

    fn proceed(&mut self) -> (a: Action)
        requires
            old(self).visited.wf(),
            old(self).frontier.wf(),
            0 <= old(self)@.depth <= old(self)@.limit,
            old(self)@.visited.finite(),
            old(self)@.frontier.disjoint(old(self)@.visited),
            old(self)@.visited.contains(old(self)@.origin),
            is_ascii_chars(old(self).agent()),
        ensures
            final(self).wf(),
            final(self).agent() == old(self).agent(),
            (final(self)@, a@) == old(self)@.proceed(),
    {
        if self.depth < self.recursion_depth && !self.frontier.is_empty() {
            self.phase = Phase::Iterate;
            Action::Visit(self.frontier.clone())
        } else {
            self.phase = Phase::Summarize;
            Action::Summarize
        }
    }

    fn merge(&mut self, outcomes: &Vec<Option<Outcome>>)
        requires
            old(self).wf(),
            old(self)@.phase == Phase::Iterate,
        ensures
            final(self).visited.wf(),
            final(self).frontier.wf(),
            final(self)@ == old(self)@.merged(outcome_views(outcomes@)),
            final(self)@.visited.finite(),
            final(self).agent() == old(self).agent(),
    {
        let ghost all = outcome_views(outcomes@);
        let ghost before = self.visited@;
        let mut found = UrlSet::new();
        let mut i: usize = 0;
        assert(all.take(0) =~= Seq::<Option<OutcomeView>>::empty());
        assert(self.visited@ =~= before.union(processed(all.take(0))));
        while i < outcomes.len()
            invariant
                i <= outcomes.len(),
                all == outcome_views(outcomes@),
                self.visited.wf(),
                found.wf(),
                self.visited@ == before.union(processed(all.take(i as int))),
                found@ == linked(all.take(i as int)),
                self.origin_url == old(self).origin_url,
                self.user_agent == old(self).user_agent,
                self.recursion_depth == old(self).recursion_depth,
                self.depth == old(self).depth,
                self.phase == old(self).phase,
            decreases outcomes.len() - i,
        {
            assert(all.take(i as int + 1).drop_last() =~= all.take(i as int));
            assert(all.take(i as int + 1).last() == all[i as int]);
            match &outcomes[i] {
                Some(o) => {
                    self.visited.insert(o.url.clone());
                    found.extend(&o.links);
                    assert(self.visited@ =~= before.union(processed(all.take(i as int + 1))));
                },
                None => {},
            }
            i += 1;
        }
        proof {
            assert(all.take(i as int) =~= all);
            lemma_processed_len(all);
        }
        self.frontier = found.difference(&self.visited);
        self.depth = self.depth + 1;
    }

    /// Takes what the driver reports and says what to do next.
    pub fn crawl(&mut self, event: Event) -> (a: Action)
        requires
            old(self).wf(),
        ensures
            final(self).wf(),
            final(self)@.inv(),
            final(self).agent() == old(self).agent(),
            (final(self)@, a@) == old(self)@.next(event@),
    {
        match (self.phase, event) {
            (Phase::Init, Event::Start) => {
                self.phase = Phase::Setup;
                Action::Setup
            },
            (Phase::Setup, Event::Ready) => {
                self.phase = Phase::Seed;
                Action::Seed
            },
            (Phase::Seed, Event::Seeded(Some(o))) => {
                let mut visited = UrlSet::new();
                visited.insert(self.origin_url.clone());
                self.frontier = o.links.difference(&visited);
                self.visited = visited;
                self.depth = 0;
                self.proceed()
            },
            (Phase::Iterate, Event::Visited(outcomes)) => {
                self.merge(&outcomes);
                self.proceed()
            },
            (Phase::Summarize, Event::Summarized) => self.stop(),
            _ => self.stop(),
        }
    }
}

} // verus!
