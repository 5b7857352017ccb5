//! The crawler: its builder, and the crawl it runs. A crawl is driven from
//! outside: it hands out URLs to fetch, takes in what comes back, and says
//! when to stop. What it does is laid down in [`crate::traversal`].
use crate::clock::NANOS_PER_SECOND;
use crate::parser::{assume_html, AllPages, Page, PageView};
use crate::robots::{compiled, describe, permitted};
use crate::site_url::{href_set, lemma_href_set_push, Url, UrlView};
use crate::traversal::{
    discovered, lemma_after_wf, lemma_start_wf, Rules, StepView, TraversalView,
};
use texting_robots::Robot;
use vstd::hash_set::StringHashSet;
use vstd::prelude::*;
use vstd::string::StringSliceAdditionalSpecFns;

verus! {

/// An error from the visitor. All recoverable errors have been handled by the
/// time it is raised; it only reports to the caller.
#[derive(Debug)]
pub struct VisitorError(pub String);

/// A robots file that could not be compiled, with the reason.
#[derive(Debug)]
pub struct RobotsError(pub String);

/// Contents of a page.
#[derive(Debug)]
pub struct PageContent {
    pub url: Url,
    pub status_code: u16,
    pub content: String,
    pub content_type: Option<Vec<u8>>,
}

/// The mathematical record of a [`PageContent`].
pub struct PageContentView {
    pub url: UrlView,
    pub status_code: u16,
    pub content: Seq<char>,
    pub content_type: Option<Seq<u8>>,
}

impl DeepView for PageContent {
    type V = PageContentView;

    open spec fn deep_view(&self) -> PageContentView {
        PageContentView {
            url: self.url@,
            status_code: self.status_code,
            content: self.content@,
            content_type: self.content_type.deep_view(),
        }
    }
}

/// Web crawler: given a starting URL, it visits each URL it finds on the same
/// domain. It is made by a [`CrawlerBuilder`]; it decides, and leaves the
/// fetching to its driver.
pub struct Crawler {
    robot: Option<Robot>,
    max_time: Option<u64>,
    max_pages: Option<u64>,
}

impl View for Crawler {
    type V = Rules;

    closed spec fn view(&self) -> Rules {
        Rules {
            policy: match self.robot {
                Some(robot) => Some(permitted(robot)),
                None => None,
            },
            max_time: self.max_time,
            max_pages: self.max_pages,
        }
    }
}

/// A crawl under way: what has been handed out for fetching, and the pages
/// that have come back.
pub struct Traversal {
    crawler: Crawler,
    started_at: u128,
    visited: StringHashSet,
    pages: Vec<Page>,
    stopped: bool,
    scheduled: Ghost<Seq<UrlView>>,
}

impl View for Traversal {
    type V = TraversalView;

    closed spec fn view(&self) -> TraversalView {
        TraversalView {
            rules: self.crawler@,
            started_at: self.started_at as int,
            visited: self.visited@,
            scheduled: self.scheduled@,
            pages: self.pages.deep_view(),
            stopped: self.stopped,
        }
    }
}

/// What a crawl asks of its driver after an event.
#[derive(Debug)]
pub enum Step {
    /// Go on, and fetch these URLs as well.
    Fetch(Vec<Url>),
    /// Cancel what is in flight and finish.
    Stop,
}

impl DeepView for Step {
    type V = StepView;

    open spec fn deep_view(&self) -> StepView {
        match self {
            Step::Fetch(urls) => StepView::Fetch(urls.deep_view()),
            Step::Stop => StepView::Stop,
        }
    }
}

impl Crawler {
    /// Checks whether the crawler can visit a URL. Where no robots file was
    /// given, any URL that is taken to lead to HTML can be visited.
    pub fn can_visit(&self, url: &Url) -> (b: bool)
        ensures
            b == self@.may_fetch(url@),
    {
        assume_html(url) && match &self.robot {
            Some(robot) => robot.allowed(url.as_str()),
            None => true,
        }
    }

    /// Whether a limit is reached once `recorded` pages are in, `now` being
    /// the time and `started_at` the time at which the crawl began.
    fn limit_reached(&self, recorded: u128, started_at: u128, now: u128) -> (b: bool)
        ensures
            b == self@.limit_reached(recorded as int, now - started_at),
    {
        let pages_reached = match self.max_pages {
            Some(m) => recorded >= m as u128,
            None => false,
        };
        let time_reached = match self.max_time {
            Some(t) => now >= started_at && now - started_at > (t as u128) * NANOS_PER_SECOND,
            None => false,
        };
        pages_reached || time_reached
    }

    /// Starts crawling from `seed` at the time `now`, in nanoseconds on a
    /// clock of the caller's choosing. Returns the crawl and the URLs to fetch
    /// first: the seed, or nothing where the seed may not be fetched.
    pub fn begin(self, seed: Url, now: u128) -> (r: (Traversal, Vec<Url>))
        ensures
            r.0@ == TraversalView::start(self@, seed@, now as int),
            r.1.deep_view() == r.0@.scheduled,
            r.0@.wf(),
    {
        let mut visited = StringHashSet::new();
        let mut first: Vec<Url> = Vec::new();
        if self.can_visit(&seed) {
            visited.insert(seed.as_str().to_owned());
            first.push(seed);
        }
        proof {
            lemma_start_wf(self@, seed@, now as int);
            assert(first.deep_view() =~= TraversalView::start(self@, seed@, now as int).scheduled);
        }
        let traversal = Traversal {
            crawler: self,
            started_at: now,
            visited,
            pages: Vec::new(),
            stopped: false,
            scheduled: Ghost(first.deep_view()),
        };
        assert(traversal.pages.deep_view() =~= Seq::<PageView>::empty());
        (traversal, first)
    }
}

/// The outcome of a fetch as the crawl's model sees it: the page's record, or
/// `None` for a failure.
pub open spec fn outcome_view(outcome: Result<Page, VisitorError>) -> Option<PageView> {
    match outcome {
        Ok(page) => Some(page.deep_view()),
        Err(_) => None,
    }
}

impl Traversal {
    /// Takes up the links of a page: marks as visited, and returns, those that
    /// the crawl may fetch and has not handed out before.
    fn expand(&mut self, links: &Vec<Url>) -> (fresh: Vec<Url>)
        ensures
            fresh.deep_view() == discovered(old(self)@.rules, old(self)@.visited, links.deep_view()),
            final(self)@ == (TraversalView {
                visited: old(self)@.visited.union(href_set(fresh.deep_view())),
                scheduled: old(self)@.scheduled + fresh.deep_view(),
                ..old(self)@
            }),
    {
        let ghost rules = self@.rules;
        let ghost seen = self@.visited;
        let ghost all = links.deep_view();
        let mut fresh: Vec<Url> = Vec::new();
        let mut i: usize = 0;
        while i < links.len()
            invariant
                i <= links.len(),
                all == links.deep_view(),
                fresh.deep_view() == discovered(rules, seen, all.take(i as int)),
                self.visited@ == seen.union(href_set(fresh.deep_view())),
                self.crawler == old(self).crawler,
                self.started_at == old(self).started_at,
                self.pages == old(self).pages,
                self.stopped == old(self).stopped,
                self.scheduled == old(self).scheduled,
                rules == old(self)@.rules,
                seen == old(self)@.visited,
            decreases links.len() - i,
        {
            let link = &links[i];
            let ghost earlier = fresh.deep_view();
            assert(all.take(i as int + 1).drop_last() =~= all.take(i as int));
            if self.crawler.can_visit(link) {
                if !self.visited.contains(link.as_str()) {
                    self.visited.insert(link.as_str().to_owned());
                    fresh.push(link.clone());
                    proof {
                        assert(fresh.deep_view() =~= earlier.push(link@));
                        lemma_href_set_push(earlier, link@);
                    }
                }
            }
            i += 1;
        }
        assert(all.take(i as int) =~= all);
        self.scheduled = Ghost(self.scheduled@ + fresh.deep_view());
        fresh
    }

    /// Records what came back from a fetch at the time `now`, on the clock
    /// that the crawl was begun with, and says how to go on. A page is kept,
    /// and its links are taken up unless a limit is reached with it; a failure
    /// changes nothing. Once the crawl has stopped, whatever still comes in is
    /// discarded.
    pub fn record(&mut self, outcome: Result<Page, VisitorError>, now: u128) -> (step: Step)
        ensures
            final(self)@ == old(self)@.after(outcome_view(outcome), now as int),
            step.deep_view() == old(self)@.answer(outcome_view(outcome), now as int),
            old(self)@.wf() ==> final(self)@.wf(),
    {
        proof {
            if self@.wf() {
                lemma_after_wf(self@, outcome_view(outcome), now as int);
            }
        }
        if self.stopped {
            return Step::Stop;
        }
        let page = match outcome {
            Ok(page) => page,
            Err(_) => {
                let nothing: Vec<Url> = Vec::new();
                assert(nothing.deep_view() =~= Seq::<UrlView>::empty());
                return Step::Fetch(nothing);
            },
        };
        let ghost before = self.pages.deep_view();
        let recorded: u128 = self.pages.len() as u128 + 1;
        if self.crawler.limit_reached(recorded, self.started_at, now) {
            self.pages.push(page);
            self.stopped = true;
            assert(self.pages.deep_view() =~= before.push(page.deep_view()));
            return Step::Stop;
        }
        let fresh = self.expand(&page.links);
        self.pages.push(page);
        assert(self.pages.deep_view() =~= before.push(page.deep_view()));
        Step::Fetch(fresh)
    }

    /// Whether a limit has ended the crawl.
    pub fn is_stopped(&self) -> (b: bool)
        ensures
            b == self@.stopped,
    {
        self.stopped
    }

    /// Ends the crawl and returns all pages recorded, in the order in which
    /// they came in: with a page limit of at least one, no more pages than
    /// the limit.
    pub fn finish(self) -> (all: AllPages)
        ensures
            all.0.deep_view() == self@.pages,
            self@.wf() && self@.rules.max_pages is Some && self@.rules.max_pages->0 >= 1
                ==> all.0.len() <= self@.rules.max_pages->0,
    {
        AllPages(self.pages)
    }
}

/// Builder for [`Crawler`].
pub struct CrawlerBuilder {
    robot: Option<Robot>,
    max_time: Option<u64>,
    max_pages: Option<u64>,
}

impl View for CrawlerBuilder {
    type V = Rules;

    closed spec fn view(&self) -> Rules {
        Rules {
            policy: match self.robot {
                Some(robot) => Some(permitted(robot)),
                None => None,
            },
            max_time: self.max_time,
            max_pages: self.max_pages,
        }
    }
}

impl CrawlerBuilder {
    /// Creates a new builder: no robots file, no limits.
    pub fn new() -> (builder: Self)
        ensures
            builder@ == (Rules { policy: None, max_time: None, max_pages: None }),
    {
        Self { robot: None, max_time: None, max_pages: None }
    }

    /// Provides a robots file for the crawler, which will not visit pages that
    /// the file denies to `crawler_agent`. Fails where the file cannot be
    /// compiled.
    pub fn with_robot(self, robot_txt: &str, crawler_agent: &str) -> (r: Result<Self, RobotsError>)
        ensures
            match r {
                Ok(builder) => {
                    &&& compiled(crawler_agent@, robot_txt.spec_bytes()) is Some
                    &&& builder@ == (Rules {
                        policy: compiled(crawler_agent@, robot_txt.spec_bytes()),
                        ..self@
                    })
                },
                Err(_) => compiled(crawler_agent@, robot_txt.spec_bytes()) is None,
            },
    {
        match Robot::new(crawler_agent, robot_txt.as_bytes()) {
            Ok(robot) => Ok(
                Self { robot: Some(robot), max_time: self.max_time, max_pages: self.max_pages },
            ),
            Err(error) => Err(RobotsError(describe(&error))),
        }
    }

    /// Sets the maximum time the crawler will run for, in seconds.
    pub fn with_max_time(self, max_time: u64) -> (builder: Self)
        ensures
            builder@ == (Rules { max_time: Some(max_time), ..self@ }),
    {
        Self { robot: self.robot, max_time: Some(max_time), max_pages: self.max_pages }
    }

    /// Sets the maximum number of pages the crawler will visit.
    pub fn with_max_pages(self, max_pages: u64) -> (builder: Self)
        ensures
            builder@ == (Rules { max_pages: Some(max_pages), ..self@ }),
    {
        Self { robot: self.robot, max_time: self.max_time, max_pages: Some(max_pages) }
    }

    /// Builds the crawler.
    pub fn build(self) -> (crawler: Crawler)
        ensures
            crawler@ == self@,
    {
        Crawler { robot: self.robot, max_time: self.max_time, max_pages: self.max_pages }
    }
}

} // verus!
