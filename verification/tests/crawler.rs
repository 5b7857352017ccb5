use spider_crab::crawler::{
    Crawler, CrawlerBuilder, PageContent, Step, Traversal, VisitorError,
};
use spider_crab::parser::{parse_links, AllPages, Page};
use spider_crab::site_url::Url;
use std::collections::{HashMap, HashSet, VecDeque};

const SECOND: u128 = 1_000_000_000;

/// A mock url visitor that returns a page based on the URL, and counts how
/// many times each URL has been visited.
struct MockUrlVisitor {
    visited: HashMap<String, u32>,
}

impl MockUrlVisitor {
    fn new() -> Self {
        Self { visited: HashMap::new() }
    }

    fn visit(&mut self, url: Url) -> Result<PageContent, VisitorError> {
        *self.visited.entry(url.as_str().to_string()).or_insert(0) += 1;
        let content_type = Some(b"text/html".to_vec());
        let (content, status_code) = match url.as_str() {
            "https://monzo.com/" => (r#"<a href="/about"></a> <a href="/cost"></a>"#, 200),
            "https://monzo.com/about" => (r#"<a href="/about"></a> <a href="/cost"></a>"#, 202),
            "https://monzo.com/cost" => (r#"<a href="/cost-inner"></a>"#, 200),
            "https://monzo.com/cost-inner" => (r#"<p></p>"#, 200),
            _ => panic!("Unexpected URL: {}", url.as_str()),
        };
        Ok(PageContent { content: content.into(), status_code, url, content_type })
    }

    fn visited_urls_once(&self) -> bool {
        self.visited.iter().all(|(_, &count)| count == 1)
    }

    fn visited_urls(&self) -> HashSet<String> {
        self.visited.keys().cloned().collect()
    }
}

/// Drives a crawl to its end, one fetch at a time, oldest first.
fn crawl(crawler: Crawler, visitor: &mut MockUrlVisitor, url: Url) -> AllPages {
    let (mut traversal, first) = crawler.begin(url, 0);
    let mut queue: VecDeque<Url> = first.into();
    while let Some(next) = queue.pop_front() {
        let outcome = visitor.visit(next).map(|content| parse_links(&content));
        match traversal.record(outcome, 0) {
            Step::Fetch(more) => queue.extend(more),
            Step::Stop => break,
        }
    }
    traversal.finish()
}

fn urls_of(pages: &AllPages) -> HashSet<String> {
    pages.0.iter().map(|page| page.url.as_str().to_string()).collect()
}

fn names_of(urls: &[&str]) -> HashSet<String> {
    urls.iter().map(|url| url.to_string()).collect()
}

fn url(text: &str) -> Url {
    Url::parse(text).expect("Failed to parse URL.")
}

fn page(at: &str, links: &[&str]) -> Page {
    Page { url: url(at), status_code: 200, links: links.iter().map(|link| url(link)).collect() }
}

fn fetched(step: Step) -> Vec<String> {
    match step {
        Step::Fetch(urls) => urls.iter().map(|u| u.as_str().to_string()).collect(),
        Step::Stop => panic!("the crawl stopped"),
    }
}

fn begin(crawler: Crawler, seed: &str, now: u128) -> (Traversal, Vec<String>) {
    let (traversal, first) = crawler.begin(url(seed), now);
    (traversal, first.iter().map(|u| u.as_str().to_string()).collect())
}

#[test]
fn test_visitor() {
    // Expect the crawler to visit these URLs
    let expected_urls = names_of(&[
        "https://monzo.com/",
        "https://monzo.com/about",
        "https://monzo.com/cost",
        "https://monzo.com/cost-inner",
    ]);

    // Given: We crawl the (mock) Monzo website
    let mut mock_visitor = MockUrlVisitor::new();
    let crawler = CrawlerBuilder::new().build();

    let root_url = url("https://monzo.com");

    // When we crawl starting at the root URL
    let visited_pages = crawl(crawler, &mut mock_visitor, root_url);

    // Then: The crawler reports that it visited the expected URLs
    assert_eq!(urls_of(&visited_pages), expected_urls);

    // And: The mock page visitor reports that it visited the expected URLs
    assert_eq!(mock_visitor.visited_urls(), expected_urls);

    // And: The mock visitor reports that it visited each URL exactly once
    assert!(mock_visitor.visited_urls_once());

    println!("Visited pages:\n\n{:?}", visited_pages);
}

#[test]
fn test_visitor_with_robots() {
    // Expect the crawler to visit these URLs
    let expected_urls = names_of(&[
        "https://monzo.com/",
        "https://monzo.com/about",
        "https://monzo.com/cost",
        // "https://monzo.com/cost-inner",
    ]);

    let robots_txt = r"User-Agent: *
Disallow: /cost-inner";

    // Given: We crawl the (mock) Monzo website
    let mut mock_visitor = MockUrlVisitor::new();
    let crawler = CrawlerBuilder::new()
        .with_robot(robots_txt, "test-agent")
        .expect("Could not parse robots.txt")
        .build();
    let root_url = url("https://monzo.com");

    // When we crawl starting at the root URL
    let visited_pages = crawl(crawler, &mut mock_visitor, root_url);

    // Then: The crawler reports that it visited the expected URLs
    assert_eq!(urls_of(&visited_pages), expected_urls);

    // And: The mock page visitor reports that it visited the expected URLs
    assert_eq!(mock_visitor.visited_urls(), expected_urls);

    // And: The mock visitor reports that it visited each URL exactly once
    assert!(mock_visitor.visited_urls_once());

    println!("Visited pages\n{:?}", visited_pages.0);
}

#[test]
fn mock_root_links_to_about_and_cost() {
    let mut visitor = MockUrlVisitor::new();
    let page = parse_links(&visitor.visit(url("https://monzo.com/")).unwrap());
    assert_eq!(page.status_code, 200);
    let links: Vec<&str> = page.links.iter().map(|link| link.as_str()).collect();
    assert_eq!(links, vec!["https://monzo.com/about", "https://monzo.com/cost"]);
}

#[test]
fn mock_about_links_to_itself_and_cost() {
    let mut visitor = MockUrlVisitor::new();
    let page = parse_links(&visitor.visit(url("https://monzo.com/about")).unwrap());
    assert_eq!(page.status_code, 202);
    let links: Vec<&str> = page.links.iter().map(|link| link.as_str()).collect();
    assert_eq!(links, vec!["https://monzo.com/about", "https://monzo.com/cost"]);
}

#[test]
fn mock_cost_links_to_cost_inner() {
    let mut visitor = MockUrlVisitor::new();
    let page = parse_links(&visitor.visit(url("https://monzo.com/cost")).unwrap());
    let links: Vec<&str> = page.links.iter().map(|link| link.as_str()).collect();
    assert_eq!(links, vec!["https://monzo.com/cost-inner"]);
}

#[test]
fn mock_cost_inner_links_nowhere() {
    let mut visitor = MockUrlVisitor::new();
    let page = parse_links(&visitor.visit(url("https://monzo.com/cost-inner")).unwrap());
    assert!(page.links.is_empty());
}

#[test]
fn pages_come_in_completion_order() {
    let crawler = CrawlerBuilder::new().build();
    let (mut traversal, first) = begin(crawler, "https://monzo.com/", 0);
    assert_eq!(first, vec!["https://monzo.com/"]);
    let root = page("https://monzo.com/", &["https://monzo.com/a", "https://monzo.com/b"]);
    assert_eq!(
        fetched(traversal.record(Ok(root), 1)),
        vec!["https://monzo.com/a", "https://monzo.com/b"]
    );
    // b finishes before a
    let b = page("https://monzo.com/b", &["https://monzo.com/a", "https://monzo.com/c"]);
    assert_eq!(fetched(traversal.record(Ok(b), 2)), vec!["https://monzo.com/c"]);
    let a = page("https://monzo.com/a", &["https://monzo.com/", "https://monzo.com/b"]);
    assert!(fetched(traversal.record(Ok(a), 3)).is_empty());
    let pages = traversal.finish();
    let order: Vec<&str> = pages.0.iter().map(|p| p.url.as_str()).collect();
    assert_eq!(order, vec!["https://monzo.com/", "https://monzo.com/b", "https://monzo.com/a"]);
}

#[test]
fn each_url_is_handed_out_once() {
    let crawler = CrawlerBuilder::new().build();
    let (mut traversal, first) = begin(crawler, "https://monzo.com/", 0);
    let mut handed_out = first;
    let root = page(
        "https://monzo.com/",
        &["https://monzo.com/a", "https://monzo.com/a", "https://monzo.com/", "https://monzo.com/b"],
    );
    handed_out.extend(fetched(traversal.record(Ok(root), 0)));
    let a = page("https://monzo.com/a", &["https://monzo.com/b", "https://monzo.com/c"]);
    handed_out.extend(fetched(traversal.record(Ok(a.clone()), 0)));
    // the same page reported again hands out nothing new
    handed_out.extend(fetched(traversal.record(Ok(a), 0)));
    assert_eq!(
        handed_out,
        vec![
            "https://monzo.com/",
            "https://monzo.com/a",
            "https://monzo.com/b",
            "https://monzo.com/c"
        ]
    );
    let unique: HashSet<&String> = handed_out.iter().collect();
    assert_eq!(unique.len(), handed_out.len());
}

#[test]
fn failed_fetch_changes_nothing() {
    let crawler = CrawlerBuilder::new().with_max_pages(1).build();
    let (mut traversal, _) = begin(crawler, "https://monzo.com/", 0);
    let step = traversal.record(Err(VisitorError("connection reset".to_string())), 5);
    assert!(fetched(step).is_empty());
    assert!(!traversal.is_stopped());
    let step = traversal.record(Ok(page("https://monzo.com/", &["https://monzo.com/a"])), 6);
    assert!(matches!(step, Step::Stop));
    assert_eq!(traversal.finish().0.len(), 1);
}

#[test]
fn seed_that_may_not_be_fetched_gives_empty_crawl() {
    let crawler = CrawlerBuilder::new().build();
    let (traversal, first) = begin(crawler, "https://monzo.com/brochure.pdf", 0);
    assert!(first.is_empty());
    assert!(traversal.finish().0.is_empty());

    let crawler = CrawlerBuilder::new()
        .with_robot("User-Agent: *\nDisallow: /", "test-agent")
        .unwrap()
        .build();
    let (traversal, first) = begin(crawler, "https://monzo.com/", 0);
    assert!(first.is_empty());
    assert!(traversal.finish().0.is_empty());
}

#[test]
fn links_that_are_not_html_are_not_fetched() {
    let crawler = CrawlerBuilder::new().build();
    let (mut traversal, _) = begin(crawler, "https://monzo.com/", 0);
    let root = page(
        "https://monzo.com/",
        &[
            "https://monzo.com/terms.pdf",
            "https://monzo.com/logo.png",
            "https://monzo.com/help.html",
            "https://monzo.com/blog",
        ],
    );
    assert_eq!(
        fetched(traversal.record(Ok(root), 0)),
        vec!["https://monzo.com/help.html", "https://monzo.com/blog"]
    );
}

#[test]
fn can_visit_without_robots() {
    let crawler = CrawlerBuilder::new().build();
    assert!(crawler.can_visit(&url("https://monzo.com/cost-inner")));
    assert!(crawler.can_visit(&url("https://monzo.com/index.html")));
    assert!(!crawler.can_visit(&url("https://monzo.com/home.pdf")));
}

#[test]
fn can_visit_with_robots() {
    let crawler = CrawlerBuilder::new()
        .with_robot("User-Agent: *\nDisallow: /cost-inner", "test-agent")
        .unwrap()
        .build();
    assert!(!crawler.can_visit(&url("https://monzo.com/cost-inner")));
    assert!(!crawler.can_visit(&url("https://monzo.com/cost-inner/deeper")));
    assert!(crawler.can_visit(&url("https://monzo.com/cost")));
    assert!(!crawler.can_visit(&url("https://monzo.com/cost.pdf")));
}

#[test]
fn robots_rules_are_those_of_the_agent() {
    let robots_txt = "User-Agent: test-agent\nDisallow: /private\n\nUser-Agent: *\nDisallow: /";
    let named = CrawlerBuilder::new().with_robot(robots_txt, "Test-Agent").unwrap().build();
    assert!(named.can_visit(&url("https://monzo.com/public")));
    assert!(!named.can_visit(&url("https://monzo.com/private")));
    let other = CrawlerBuilder::new().with_robot(robots_txt, "other").unwrap().build();
    assert!(!other.can_visit(&url("https://monzo.com/public")));
}

#[test]
fn robots_file_that_does_not_compile_is_refused() {
    let rule = format!("User-Agent: *\nDisallow: /{}$", "a*b".repeat(20_000));
    let refused = CrawlerBuilder::new().with_robot(&rule, "test-agent");
    match refused {
        Err(error) => assert!(!error.0.is_empty()),
        Ok(_) => panic!("the robots file was accepted"),
    }
}

#[test]
fn empty_robots_file_allows_everything() {
    let crawler = CrawlerBuilder::new().with_robot("", "test-agent").unwrap().build();
    assert!(crawler.can_visit(&url("https://monzo.com/anything")));
}

#[test]
fn page_cap_on_a_deep_chain() {
    // a deep chain /p0 -> /p1 -> ... -> /p100
    let crawler = CrawlerBuilder::new().with_max_pages(10).build();
    let (mut traversal, first) = begin(crawler, "https://monzo.com/p0", 0);
    let mut queue: VecDeque<String> = first.into();
    let mut visits = 0;
    while let Some(next) = queue.pop_front() {
        visits += 1;
        let n: u32 = next.trim_start_matches("https://monzo.com/p").parse().unwrap();
        let links: Vec<String> =
            if n < 100 { vec![format!("https://monzo.com/p{}", n + 1)] } else { vec![] };
        let links: Vec<&str> = links.iter().map(|l| l.as_str()).collect();
        match traversal.record(Ok(page(&next, &links)), 0) {
            Step::Fetch(more) => queue.extend(more.iter().map(|u| u.as_str().to_string())),
            Step::Stop => break,
        }
    }
    assert!(traversal.is_stopped());
    assert_eq!(visits, 10);
    assert_eq!(traversal.finish().0.len(), 10);
}

#[test]
fn page_cap_of_one() {
    let crawler = CrawlerBuilder::new().with_max_pages(1).build();
    let (mut traversal, _) = begin(crawler, "https://monzo.com/", 0);
    let step = traversal.record(Ok(page("https://monzo.com/", &["https://monzo.com/a"])), 0);
    assert!(matches!(step, Step::Stop));
    assert_eq!(traversal.finish().0.len(), 1);
}

#[test]
fn page_cap_of_zero_stops_after_first_page() {
    let crawler = CrawlerBuilder::new().with_max_pages(0).build();
    let (mut traversal, first) = begin(crawler, "https://monzo.com/", 0);
    assert_eq!(first.len(), 1);
    let step = traversal.record(Ok(page("https://monzo.com/", &["https://monzo.com/a"])), 0);
    assert!(matches!(step, Step::Stop));
    assert_eq!(traversal.finish().0.len(), 1);
}

#[test]
fn what_comes_in_after_the_stop_is_discarded() {
    let crawler = CrawlerBuilder::new().with_max_pages(2).build();
    let (mut traversal, _) = begin(crawler, "https://monzo.com/", 0);
    let root = page("https://monzo.com/", &["https://monzo.com/a", "https://monzo.com/b"]);
    assert_eq!(fetched(traversal.record(Ok(root), 0)).len(), 2);
    let a = page("https://monzo.com/a", &["https://monzo.com/c"]);
    assert!(matches!(traversal.record(Ok(a), 0), Step::Stop));
    assert!(traversal.is_stopped());
    let b = page("https://monzo.com/b", &["https://monzo.com/d"]);
    assert!(matches!(traversal.record(Ok(b), 0), Step::Stop));
    let failure = Err(VisitorError("late".to_string()));
    assert!(matches!(traversal.record(failure, 0), Step::Stop));
    let pages = traversal.finish();
    let order: Vec<&str> = pages.0.iter().map(|p| p.url.as_str()).collect();
    assert_eq!(order, vec!["https://monzo.com/", "https://monzo.com/a"]);
}

#[test]
fn time_limit_stops_after_it_has_passed() {
    let crawler = CrawlerBuilder::new().with_max_time(2).build();
    let start = 10 * SECOND;
    let (mut traversal, _) = begin(crawler, "https://monzo.com/", start);
    let root = page("https://monzo.com/", &["https://monzo.com/a", "https://monzo.com/b"]);
    assert_eq!(fetched(traversal.record(Ok(root), start + SECOND)).len(), 2);
    // exactly at the limit the crawl goes on
    let a = page("https://monzo.com/a", &["https://monzo.com/c"]);
    assert_eq!(fetched(traversal.record(Ok(a), start + 2 * SECOND)), vec!["https://monzo.com/c"]);
    assert!(!traversal.is_stopped());
    // one nanosecond later it stops, and keeps the page
    let b = page("https://monzo.com/b", &["https://monzo.com/d"]);
    assert!(matches!(traversal.record(Ok(b), start + 2 * SECOND + 1), Step::Stop));
    assert!(traversal.is_stopped());
    assert_eq!(traversal.finish().0.len(), 3);
}

#[test]
fn clock_that_ran_backwards_does_not_stop_the_crawl() {
    let crawler = CrawlerBuilder::new().with_max_time(0).build();
    let (mut traversal, _) = begin(crawler, "https://monzo.com/", 10 * SECOND);
    let root = page("https://monzo.com/", &[]);
    assert!(fetched(traversal.record(Ok(root.clone()), 9 * SECOND)).is_empty());
    assert!(fetched(traversal.record(Ok(root.clone()), 10 * SECOND)).is_empty());
    assert!(matches!(traversal.record(Ok(root), 10 * SECOND + 1), Step::Stop));
}

#[test]
fn largest_time_limit_does_not_overflow() {
    let crawler = CrawlerBuilder::new().with_max_time(u64::MAX).build();
    let (mut traversal, _) = begin(crawler, "https://monzo.com/", 0);
    let root = page("https://monzo.com/", &[]);
    let at_limit = (u64::MAX as u128) * SECOND;
    assert!(fetched(traversal.record(Ok(root.clone()), at_limit)).is_empty());
    assert!(matches!(traversal.record(Ok(root), at_limit + 1), Step::Stop));
}

#[test]
fn links_of_recorded_pages_are_followed_or_refused() {
    let mut visitor = MockUrlVisitor::new();
    let crawler = CrawlerBuilder::new()
        .with_robot("User-Agent: *\nDisallow: /cost-inner", "test-agent")
        .unwrap()
        .build();
    let pages = crawl(crawler, &mut visitor, url("https://monzo.com"));
    let gate = CrawlerBuilder::new()
        .with_robot("User-Agent: *\nDisallow: /cost-inner", "test-agent")
        .unwrap()
        .build();
    let visited = urls_of(&pages);
    for page in pages.0.iter() {
        assert!(gate.can_visit(&page.url));
        for link in page.links.iter() {
            assert!(visited.contains(link.as_str()) || !gate.can_visit(link));
        }
    }
}

#[test]
fn listing_shows_pages_and_links() {
    let pages = AllPages(vec![
        page("https://monzo.com/", &["https://monzo.com/about", "https://monzo.com/cost"]),
        page("https://monzo.com/about", &[]),
        page("https://monzo.com/cost", &["https://monzo.com/cost-inner"]),
    ]);
    assert_eq!(
        pages.listing(false),
        "https://monzo.com/\n  --> https://monzo.com/about\n  --> https://monzo.com/cost\n\
         https://monzo.com/about\n\
         https://monzo.com/cost\n  --> https://monzo.com/cost-inner\n"
    );
}

#[test]
fn listing_can_hide_links() {
    let pages = AllPages(vec![
        page("https://monzo.com/", &["https://monzo.com/about", "https://monzo.com/cost"]),
        page("https://monzo.com/about", &[]),
    ]);
    assert_eq!(pages.listing(true), "https://monzo.com/\nhttps://monzo.com/about\n");
}

#[test]
fn listing_of_nothing_is_empty() {
    assert_eq!(AllPages(Vec::new()).listing(false), "");
    assert_eq!(AllPages(Vec::new()).listing(true), "");
}

/// A small deterministic generator of numbers, for the test below.
struct Numbers(u64);

impl Numbers {
    fn next(&mut self, below: u64) -> u64 {
        self.0 = self.0.wrapping_mul(6364136223846793005).wrapping_add(1442695040888963407);
        (self.0 >> 33) % below
    }
}

#[test]
fn invariants_hold_on_generated_sites() {
    let robots_txt = "User-Agent: *\nDisallow: /p1\nDisallow: /p7";
    for seed in 0..20u64 {
        let mut numbers = Numbers(seed);
        let size = 30;
        let name = |n: u64| match n % 5 {
            0 => format!("https://monzo.com/p{}.pdf", n),
            _ => format!("https://monzo.com/p{}", n),
        };
        let site: Vec<Vec<String>> = (0..size)
            .map(|_| {
                let links = numbers.next(6);
                (0..links).map(|_| name(numbers.next(size))).collect()
            })
            .collect();
        let gate = CrawlerBuilder::new().with_robot(robots_txt, "test-agent").unwrap().build();
        let crawler = CrawlerBuilder::new().with_robot(robots_txt, "test-agent").unwrap().build();

        let (mut traversal, first) = begin(crawler, &name(2), 0);
        let mut handed_out: Vec<String> = first.clone();
        let mut in_flight: Vec<String> = first;
        let mut expanded: Vec<Page> = Vec::new();
        while !in_flight.is_empty() {
            // fetches come back in any order, and some of them fail
            let next = in_flight.swap_remove(numbers.next(in_flight.len() as u64) as usize);
            let n: usize = next.trim_start_matches("https://monzo.com/p").parse().unwrap();
            let outcome = if numbers.next(10) == 0 {
                Err(VisitorError("no answer".to_string()))
            } else {
                let links: Vec<&str> = site[n].iter().map(|l| l.as_str()).collect();
                let fetched_page = page(&next, &links);
                expanded.push(fetched_page.clone());
                Ok(fetched_page)
            };
            let more = fetched(traversal.record(outcome, 0));
            handed_out.extend(more.iter().cloned());
            in_flight.extend(more);
        }

        // no URL was handed out twice
        let unique: HashSet<&String> = handed_out.iter().collect();
        assert_eq!(unique.len(), handed_out.len());
        // every URL handed out is one that may be fetched
        for url_text in handed_out.iter() {
            assert!(gate.can_visit(&url(url_text)));
            assert!(!url_text.ends_with(".pdf"));
            assert!(!url_text.starts_with("https://monzo.com/p1"));
            assert!(!url_text.starts_with("https://monzo.com/p7"));
        }
        // every link of every page was handed out, or may not be fetched
        for fetched_page in expanded.iter() {
            for link in fetched_page.links.iter() {
                assert!(unique.contains(&link.as_str().to_string()) || !gate.can_visit(link));
            }
        }
        // the pages are those that came back, in that order
        let pages = traversal.finish();
        let came_back: Vec<&str> = expanded.iter().map(|p| p.url.as_str()).collect();
        let recorded: Vec<&str> = pages.0.iter().map(|p| p.url.as_str()).collect();
        assert_eq!(recorded, came_back);
    }
}
