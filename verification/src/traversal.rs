//! A crawl as a state machine: its states, how it moves from one to the next
//! when a fetch comes back, and what holds of every state it reaches.
use crate::clock::NANOS_PER_SECOND;
use crate::parser::{assumes_html, PageView};
use crate::site_url::{distinct, href_set, lemma_href_set_add, UrlView};
use vstd::prelude::*;

verus! {

/// What a crawl is configured with: the URLs that the robots file allows
/// (`None` where no robots file was given), and the two limits.
pub struct Rules {
    pub policy: Option<Set<Seq<char>>>,
    /// Seconds after which the crawl stops.
    pub max_time: Option<u64>,
    /// Number of pages after which the crawl stops.
    pub max_pages: Option<u64>,
}

impl Rules {
    /// Whether the crawl may fetch `url`: its path is taken to lead to HTML,
    /// and the robots file, if there is one, allows it.
    pub open spec fn may_fetch(self, url: UrlView) -> bool {
        &&& assumes_html(url.path)
        &&& match self.policy {
            Some(allowed) => allowed.contains(url.href),
            None => true,
        }
    }

    /// Whether a limit is reached once `recorded` pages are in and `elapsed`
    /// nanoseconds have gone by since the start.
    pub open spec fn limit_reached(self, recorded: int, elapsed: int) -> bool {
        ||| (self.max_pages matches Some(m) && recorded >= m)
        ||| (self.max_time matches Some(t) && elapsed > t * NANOS_PER_SECOND)
    }
}

/// The links among `links` that a crawl takes up, in their order: those that
/// it may fetch and that are neither in `seen` nor taken up already.
pub open spec fn discovered(rules: Rules, seen: Set<Seq<char>>, links: Seq<UrlView>) -> Seq<
    UrlView,
>
    decreases links.len(),
{
    if links.len() == 0 {
        Seq::empty()
    } else {
        let earlier = discovered(rules, seen, links.drop_last());
        let link = links.last();
        if rules.may_fetch(link) && !seen.contains(link.href) && !href_set(earlier).contains(
            link.href,
        ) {
            earlier.push(link)
        } else {
            earlier
        }
    }
}

/// The state of a crawl.
pub struct TraversalView {
    pub rules: Rules,
    /// When the crawl began, in nanoseconds on the caller's clock.
    pub started_at: int,
    /// The serializations of the URLs handed out so far.
    pub visited: Set<Seq<char>>,
    /// The URLs handed out for fetching so far, in order.
    pub scheduled: Seq<UrlView>,
    /// The pages recorded so far, in the order in which they came in.
    pub pages: Seq<PageView>,
    /// Whether a limit has ended the crawl.
    pub stopped: bool,
}

/// What the crawl asks of its driver after an event.
pub enum StepView {
    /// Go on, and fetch these URLs as well.
    Fetch(Seq<UrlView>),
    /// Cancel what is in flight and finish.
    Stop,
}

impl TraversalView {
    /// The state in which a crawl from `seed` begins.
    pub open spec fn start(rules: Rules, seed: UrlView, now: int) -> TraversalView {
        TraversalView {
            rules,
            started_at: now,
            visited: if rules.may_fetch(seed) {
                set![seed.href]
            } else {
                Set::empty()
            },
            scheduled: if rules.may_fetch(seed) {
                seq![seed]
            } else {
                Seq::empty()
            },
            pages: Seq::empty(),
            stopped: false,
        }
    }

    /// Whether recording one more page at `now` ends the crawl.
    pub open spec fn ends_at(self, now: int) -> bool {
        self.rules.limit_reached(self.pages.len() as int + 1, now - self.started_at)
    }

    /// The state after a fetch has come back at `now`: with a page, or with
    /// `None` where it failed.
    pub open spec fn after(self, outcome: Option<PageView>, now: int) -> TraversalView {
        match outcome {
            Some(page) if !self.stopped => {
                if self.ends_at(now) {
                    TraversalView { pages: self.pages.push(page), stopped: true, ..self }
                } else {
                    let fresh = discovered(self.rules, self.visited, page.links);
                    TraversalView {
                        pages: self.pages.push(page),
                        visited: self.visited.union(href_set(fresh)),
                        scheduled: self.scheduled + fresh,
                        ..self
                    }
                }
            },
            _ => self,
        }
    }

    /// What the crawl asks of its driver after that event.
    pub open spec fn answer(self, outcome: Option<PageView>, now: int) -> StepView {
        if self.stopped {
            StepView::Stop
        } else {
            match outcome {
                Some(page) => {
                    if self.ends_at(now) {
                        StepView::Stop
                    } else {
                        StepView::Fetch(discovered(self.rules, self.visited, page.links))
                    }
                },
                None => StepView::Fetch(Seq::empty()),
            }
        }
    }

    /// The number of recorded pages whose links have been taken up: all of
    /// them, but for the page on which a limit ended the crawl.
    pub open spec fn expanded(self) -> int {
        if self.stopped {
            self.pages.len() - 1
        } else {
            self.pages.len() as int
        }
    }

    /// No URL is handed out for fetching twice.
    pub open spec fn never_twice(self) -> bool {
        distinct(self.scheduled)
    }

    /// The visited set holds the URLs handed out, and no others.
    pub open spec fn tracks_schedule(self) -> bool {
        self.visited == href_set(self.scheduled)
    }

    /// Every URL handed out is one that the crawl may fetch: in particular
    /// none that the robots file disallows.
    pub open spec fn obeys_rules(self) -> bool {
        forall|i: int|
            0 <= i < self.scheduled.len() ==> self.rules.may_fetch(#[trigger] self.scheduled[i])
    }

    /// Every link of a page whose links have been taken up was either handed
    /// out for fetching, or is one that the crawl may not fetch.
    pub open spec fn follows_links(self) -> bool {
        forall|p: int, l: int|
            0 <= p < self.expanded() && 0 <= l < self.pages[p].links.len() && self.rules.may_fetch(
                #[trigger] self.pages[p].links[l],
            ) ==> self.visited.contains(self.pages[p].links[l].href)
    }

    /// With a page limit of `m` no more than `m` pages are recorded (one page
    /// where `m` is 0: the limit is looked at after a page has come in), and
    /// the crawl has stopped once it holds that many.
    pub open spec fn within_page_limit(self) -> bool {
        self.rules.max_pages matches Some(m) ==> {
            &&& self.pages.len() <= m || self.pages.len() <= 1
            &&& (self.pages.len() >= m && self.pages.len() >= 1 ==> self.stopped)
        }
    }

    /// What holds of every state that a crawl reaches.
    pub open spec fn wf(self) -> bool {
        &&& self.never_twice()
        &&& self.tracks_schedule()
        &&& self.obeys_rules()
        &&& self.follows_links()
        &&& self.within_page_limit()
    }
}

/// Every link taken up is one of `links` that the crawl may fetch and that was
/// not seen before, and none is taken up twice.
pub proof fn lemma_discovered_are_new(rules: Rules, seen: Set<Seq<char>>, links: Seq<UrlView>)
    ensures
        forall|k: int|
            0 <= k < discovered(rules, seen, links).len() ==> {
                let link = #[trigger] discovered(rules, seen, links)[k];
                rules.may_fetch(link) && !seen.contains(link.href) && links.contains(link)
            },
        distinct(discovered(rules, seen, links)),
    decreases links.len(),
{
    if links.len() > 0 {
        let shorter = links.drop_last();
        lemma_discovered_are_new(rules, seen, shorter);
        let earlier = discovered(rules, seen, shorter);
        let all = discovered(rules, seen, links);
        assert forall|k: int| 0 <= k < all.len() implies {
            let link = #[trigger] all[k];
            rules.may_fetch(link) && !seen.contains(link.href) && links.contains(link)
        } by {
            if k < earlier.len() {
                let link = earlier[k];
                assert(shorter.contains(link));
                let at = choose|at: int| 0 <= at < shorter.len() && shorter[at] == link;
                assert(links[at] == link);
            } else {
                assert(links[links.len() - 1] == all[k]);
            }
        }
        assert(distinct(all)) by {
            assert forall|i: int, j: int| 0 <= i < j < all.len() implies (#[trigger] all[i]).href
                != (#[trigger] all[j]).href by {
                if j >= earlier.len() {
                    assert(earlier[i].href == all[i].href);
                }
            }
        }
    }
}

/// Every one of `links` that the crawl may fetch is, once the links are taken
/// up, among the URLs seen.
pub proof fn lemma_discovered_cover(rules: Rules, seen: Set<Seq<char>>, links: Seq<UrlView>)
    ensures
        forall|l: int|
            0 <= l < links.len() && rules.may_fetch(#[trigger] links[l]) ==> seen.union(
                href_set(discovered(rules, seen, links)),
            ).contains(links[l].href),
    decreases links.len(),
{
    if links.len() > 0 {
        let shorter = links.drop_last();
        lemma_discovered_cover(rules, seen, shorter);
        let earlier = discovered(rules, seen, shorter);
        let all = discovered(rules, seen, links);
        assert forall|l: int| 0 <= l < links.len() && rules.may_fetch(#[trigger] links[l]) implies
            seen.union(href_set(all)).contains(links[l].href) by {
            let h = links[l].href;
            if l < shorter.len() {
                assert(shorter[l] == links[l]);
                if !seen.contains(h) {
                    let k = choose|k: int| 0 <= k < earlier.len() && #[trigger] earlier[k].href == h;
                    assert(all[k].href == h);
                }
            } else if !seen.contains(h) {
                if href_set(earlier).contains(h) {
                    let k = choose|k: int| 0 <= k < earlier.len() && #[trigger] earlier[k].href == h;
                    assert(all[k].href == h);
                } else {
                    assert(all[all.len() - 1].href == h);
                }
            }
        }
    }
}

/// A crawl begins in a state of which [`TraversalView::wf`] holds.
pub proof fn lemma_start_wf(rules: Rules, seed: UrlView, now: int)
    ensures
        TraversalView::start(rules, seed, now).wf(),
{
    let s = TraversalView::start(rules, seed, now);
    if rules.may_fetch(seed) {
        assert(s.scheduled[0].href == seed.href);
    }
    assert(s.visited =~= href_set(s.scheduled));
}

/// Whatever comes back from a fetch, and whenever: [`TraversalView::wf`] holds
/// of the state after it, where it held before.
pub proof fn lemma_after_wf(s: TraversalView, outcome: Option<PageView>, now: int)
    requires
        s.wf(),
    ensures
        s.after(outcome, now).wf(),
{
    let t = s.after(outcome, now);
    if let Some(page) = outcome {
        if !s.stopped && !s.ends_at(now) {
            let fresh = discovered(s.rules, s.visited, page.links);
            lemma_discovered_are_new(s.rules, s.visited, page.links);
            lemma_discovered_cover(s.rules, s.visited, page.links);
            lemma_href_set_add(s.scheduled, fresh);
        }
    }
}

/// What comes back to a crawl: a page, or `None` for a fetch that failed,
/// and the time at which it came.
pub struct Event {
    pub outcome: Option<PageView>,
    pub at: int,
}

impl TraversalView {
    /// The state after `events` have come in, one after the other.
    pub open spec fn after_all(self, events: Seq<Event>) -> TraversalView
        decreases events.len(),
    {
        if events.len() == 0 {
            self
        } else {
            self.after_all(events.drop_last()).after(events.last().outcome, events.last().at)
        }
    }
}

/// [`TraversalView::wf`] holds of every state that a crawl reaches: wherever it
/// starts, whatever comes back, in whatever order and at whatever time.
pub proof fn lemma_every_state_wf(rules: Rules, seed: UrlView, began: int, events: Seq<Event>)
    ensures
        TraversalView::start(rules, seed, began).after_all(events).wf(),
    decreases events.len(),
{
    let start = TraversalView::start(rules, seed, began);
    if events.len() == 0 {
        lemma_start_wf(rules, seed, began);
    } else {
        lemma_every_state_wf(rules, seed, began, events.drop_last());
        lemma_after_wf(start.after_all(events.drop_last()), events.last().outcome, events.last().at);
    }
}

/// Nothing is ever lost: whatever comes back, what has been visited stays
/// visited, what has been handed out stays handed out, and the pages recorded
/// stay where they are.
pub proof fn lemma_only_grows(s: TraversalView, outcome: Option<PageView>, now: int)
    ensures
        s.visited.subset_of(s.after(outcome, now).visited),
        s.scheduled.is_prefix_of(s.after(outcome, now).scheduled),
        s.pages.is_prefix_of(s.after(outcome, now).pages),
        s.stopped ==> s.after(outcome, now) == s,
{
}

/// Uniqueness: no URL is handed out for fetching twice, so no more than one
/// fetch is ever made for it.
pub proof fn lemma_fetched_once(s: TraversalView, i: int, j: int)
    requires
        s.wf(),
        0 <= i < s.scheduled.len(),
        0 <= j < s.scheduled.len(),
        s.scheduled[i].href == s.scheduled[j].href,
    ensures
        i == j,
{
}

/// Closure: every link of a recorded page was handed out for fetching, unless
/// it is a link that the crawl may not fetch. The one page left out is the one
/// on which a limit ended the crawl: its links are never taken up.
pub proof fn lemma_links_followed(s: TraversalView, p: int, l: int)
    requires
        s.wf(),
        0 <= p < s.expanded(),
        0 <= l < s.pages[p].links.len(),
    ensures
        s.visited.contains(s.pages[p].links[l].href) || !s.rules.may_fetch(s.pages[p].links[l]),
{
}

/// Closure, at the end of a crawl that no limit has ended and in which every
/// fetch has come back with the page that it was made for: every link of every
/// page is the address of a page in the result, unless it is a link that the
/// crawl may not fetch.
pub proof fn lemma_closure(s: TraversalView, p: int, l: int)
    requires
        s.wf(),
        !s.stopped,
        forall|h: Seq<char>| #[trigger]
            s.visited.contains(h) ==> exists|q: int|
                0 <= q < s.pages.len() && (#[trigger] s.pages[q]).url.href == h,
        0 <= p < s.pages.len(),
        0 <= l < s.pages[p].links.len(),
    ensures
        !s.rules.may_fetch(s.pages[p].links[l]) || exists|q: int|
            0 <= q < s.pages.len() && (#[trigger] s.pages[q]).url.href == s.pages[p].links[l].href,
{
    lemma_links_followed(s, p, l);
}

/// Robots obedience: a URL that the robots file disallows is never handed out
/// for fetching.
pub proof fn lemma_fetched_are_allowed(s: TraversalView, i: int)
    requires
        s.wf(),
        0 <= i < s.scheduled.len(),
    ensures
        s.rules.may_fetch(s.scheduled[i]),
        s.rules.policy matches Some(allowed) ==> allowed.contains(s.scheduled[i].href),
{
}

/// Robots obedience, for the pages: no page that came back from a fetch for
/// its own address is one that the robots file disallows.
pub proof fn lemma_no_disallowed_page(s: TraversalView, p: int)
    requires
        s.wf(),
        0 <= p < s.pages.len(),
        s.visited.contains(s.pages[p].url.href),
    ensures
        s.rules.policy matches Some(allowed) ==> allowed.contains(s.pages[p].url.href),
{
    let h = s.pages[p].url.href;
    let k = choose|k: int| 0 <= k < s.scheduled.len() && #[trigger] s.scheduled[k].href == h;
    lemma_fetched_are_allowed(s, k);
}

/// Limits: with a page limit of at least one, a crawl never holds more pages
/// than the limit. (With a limit of none it holds one page at most: the limit
/// is looked at after a page has come in.)
pub proof fn lemma_page_limit(s: TraversalView)
    requires
        s.wf(),
        s.rules.max_pages is Some,
    ensures
        s.pages.len() <= s.rules.max_pages->0 || s.pages.len() <= 1,
        s.rules.max_pages->0 >= 1 ==> s.pages.len() <= s.rules.max_pages->0,
{
}

/// Limits: the first page that comes in later than the time limit allows ends
/// the crawl, and so does the page that fills the page limit.
pub proof fn lemma_limits_end_the_crawl(s: TraversalView, page: PageView, now: int)
    requires
        !s.stopped,
        s.ends_at(now),
    ensures
        s.after(Some(page), now).stopped,
        s.answer(Some(page), now) == StepView::Stop,
        s.after(Some(page), now).pages == s.pages.push(page),
{
}

} // verus!
