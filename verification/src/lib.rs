//! spider_crab is a library for crawling websites.
//!
//! Given a starting URL, a crawl finds every page of the same domain that can
//! be reached from it: [`parse_links`] extracts the links of a page, a
//! [`Crawler`] decides which of them to fetch, and
//! [`RetryTooManyRequestsMiddleware`] decides how long to leave a server alone
//! that asks for it. The library decides and computes; fetching, waiting and
//! telling the time are left to the program around it.
pub mod client_middleware;
pub mod clock;
pub mod crawler;
pub mod html;
pub mod parser;
pub mod robots;
pub mod site_url;
pub mod text;
pub mod traversal;
pub use client_middleware::{MaxConcurrentMiddleware, RetryTooManyRequestsMiddleware};
pub use crawler::{Crawler, CrawlerBuilder, PageContent, Step, Traversal, VisitorError};
pub use parser::{parse_links, AllPages, Page};
pub use site_url::Url;
