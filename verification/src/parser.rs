//! Pages, and the extraction of their links.
use crate::crawler::{PageContent, PageContentView};
use crate::html::{select_attributes, selected_attributes};
use crate::site_url::{
    defragmented, distinct, href_set, is_web_scheme, joined, lemma_href_set_push, parsed,
    same_domain, without_fragments, Url, UrlView,
};
use crate::text::{begins_with, chars_of, ends_with, has_char, starts_with_char};
use vstd::hash_set::StringHashSet;
use vstd::prelude::*;
use vstd::string::StringExecFns;

verus! {

/// The record of one visit: the page's address, the status it answered with,
/// and the links found on it, none of them twice.
#[derive(Debug)]
pub struct Page {
    pub url: Url,
    pub status_code: u16,
    pub links: Vec<Url>,
}

/// The mathematical record of a [`Page`].
pub struct PageView {
    pub url: UrlView,
    pub status_code: u16,
    pub links: Seq<UrlView>,
}

impl DeepView for Page {
    type V = PageView;

    open spec fn deep_view(&self) -> PageView {
        PageView {
            url: self.url@,
            status_code: self.status_code,
            links: self.links.deep_view(),
        }
    }
}

impl Clone for Page {
    fn clone(&self) -> (copy: Page)
        ensures
            copy.deep_view() == self.deep_view(),
    {
        let mut links: Vec<Url> = Vec::new();
        let mut i: usize = 0;
        while i < self.links.len()
            invariant
                i <= self.links.len(),
                links.deep_view() == self.links.deep_view().take(i as int),
            decreases self.links.len() - i,
        {
            let ghost earlier = links.deep_view();
            let link = self.links[i].clone();
            links.push(link);
            assert(links.deep_view() =~= earlier.push(link@));
            i += 1;
        }
        assert(links.deep_view() =~= self.links.deep_view());
        Page { url: self.url.clone(), status_code: self.status_code, links }
    }
}

/// A collection of all pages visited by a crawl, in the order in which their
/// visits finished.
#[derive(Debug)]
pub struct AllPages(pub Vec<Page>);

/// The lines that list `links`: for each, an arrow and the link.
pub open spec fn link_lines(links: Seq<UrlView>) -> Seq<char>
    decreases links.len(),
{
    if links.len() == 0 {
        Seq::empty()
    } else {
        link_lines(links.drop_last()) + "  --> "@ + links.last().href + "\n"@
    }
}

/// The lines that list `pages`: for each page a line with its address and,
/// unless `hide_links` is set, a line for each of its links.
pub open spec fn page_lines(pages: Seq<PageView>, hide_links: bool) -> Seq<char>
    decreases pages.len(),
{
    if pages.len() == 0 {
        Seq::empty()
    } else {
        page_lines(pages.drop_last(), hide_links) + pages.last().url.href + "\n"@ + (
        if hide_links {
            Seq::empty()
        } else {
            link_lines(pages.last().links)
        })
    }
}

impl AllPages {
    /// Lists the pages, one to a line, in the order in which they were
    /// visited, and unless `hide_links` is set, under each page the links
    /// found on it.
    pub fn listing(&self, hide_links: bool) -> (text: String)
        ensures
            text@ == page_lines(self.0.deep_view(), hide_links),
    {
        let ghost pages = self.0.deep_view();
        let mut text = String::new();
        let mut p: usize = 0;
        while p < self.0.len()
            invariant
                p <= self.0.len(),
                pages == self.0.deep_view(),
                text@ == page_lines(pages.take(p as int), hide_links),
            decreases self.0.len() - p,
        {
            let page = &self.0[p];
            let ghost links = page.links.deep_view();
            assert(pages.take(p as int + 1).drop_last() =~= pages.take(p as int));
            text.append(page.url.as_str());
            text.append("\n");
            let ghost head = text@;
            if !hide_links {
                let mut l: usize = 0;
                while l < page.links.len()
                    invariant
                        l <= page.links.len(),
                        links == page.links.deep_view(),
                        text@ == head + link_lines(links.take(l as int)),
                    decreases page.links.len() - l,
                {
                    assert(links.take(l as int + 1).drop_last() =~= links.take(l as int));
                    text.append("  --> ");
                    text.append(page.links[l].as_str());
                    text.append("\n");
                    l += 1;
                }
                assert(links.take(l as int) =~= links);
            }
            p += 1;
        }
        assert(pages.take(p as int) =~= pages);
        text
    }
}

/// The URL that the reference `href`, found on the page at `page`, points to:
/// one that begins with `/` is joined to the page's URL, any other is read as
/// an absolute URL. `None` where it cannot be resolved.
pub open spec fn resolved(page: UrlView, href: Seq<char>) -> Option<UrlView> {
    if begins_with(href, '/') {
        joined(page.href, href)
    } else {
        parsed(href)
    }
}

/// Whether a link from the page at `page` to `url` is one to keep: `url` is
/// an address of the web, under the very domain name of the page. A host that
/// is no domain name, on either side, keeps nothing.
pub open spec fn stays_on_site(page: UrlView, url: UrlView) -> bool {
    is_web_scheme(url.scheme) && same_domain(url, page)
}

/// The link that an anchor on the page at `page` stands for, `href` being its
/// `href` attribute, if it has one: the URL that the reference points to,
/// without its fragment. `None` where the anchor has no reference, where the
/// reference begins with `#` or cannot be resolved, and where the URL leaves
/// the site.
pub open spec fn link_of(page: UrlView, href: Option<Seq<char>>) -> Option<UrlView> {
    match href {
        Some(reference) if !begins_with(reference, '#') => match resolved(page, reference) {
            Some(url) if stays_on_site(page, url) => defragmented(url.href),
            _ => None,
        },
        _ => None,
    }
}

/// The links that the anchors of a page stand for, each once: in the order of
/// the anchors, a link being left out where an earlier one has its
/// serialization.
pub open spec fn links_of(page: UrlView, anchors: Seq<Option<Seq<char>>>) -> Seq<UrlView>
    decreases anchors.len(),
{
    if anchors.len() == 0 {
        Seq::empty()
    } else {
        let earlier = links_of(page, anchors.drop_last());
        match link_of(page, anchors.last()) {
            Some(link) if !href_set(earlier).contains(link.href) => earlier.push(link),
            _ => earlier,
        }
    }
}

/// The record of a visit that brought back `content`: where the page is,
/// the status, and the links that the `a` elements of the document stand for.
pub open spec fn extracted(content: PageContentView) -> PageView {
    PageView {
        url: content.url,
        status_code: content.status_code,
        links: match selected_attributes(content.content, "a"@, "href"@) {
            Some(anchors) => links_of(content.url, anchors),
            None => Seq::empty(),
        },
    }
}

/// The links of a page are a set. No two of them have the same serialization;
/// each is the link that one of the anchors stands for; and for each anchor
/// that stands for a link, a link with that serialization is among them.
pub proof fn lemma_links_are_a_set(page: UrlView, anchors: Seq<Option<Seq<char>>>)
    ensures
        distinct(links_of(page, anchors)),
        forall|k: int|
            0 <= k < links_of(page, anchors).len() ==> exists|a: int|
                0 <= a < anchors.len() && link_of(page, #[trigger] anchors[a]) == Some(
                    #[trigger] links_of(page, anchors)[k],
                ),
        forall|a: int|
            0 <= a < anchors.len() && link_of(page, #[trigger] anchors[a]) is Some ==> href_set(
                links_of(page, anchors),
            ).contains(link_of(page, anchors[a])->0.href),
    decreases anchors.len(),
{
    if anchors.len() > 0 {
        let shorter = anchors.drop_last();
        lemma_links_are_a_set(page, shorter);
        let earlier = links_of(page, shorter);
        let all = links_of(page, anchors);
        let last = anchors.len() - 1;
        assert(distinct(all)) by {
            assert forall|i: int, j: int| 0 <= i < j < all.len() implies (#[trigger] all[i]).href
                != (#[trigger] all[j]).href by {
                if j >= earlier.len() {
                    assert(earlier[i].href == all[i].href);
                }
            }
        }
        assert forall|k: int| 0 <= k < all.len() implies exists|a: int|
            0 <= a < anchors.len() && link_of(page, #[trigger] anchors[a]) == Some(
                #[trigger] all[k],
            ) by {
            if k < earlier.len() {
                let a = choose|a: int|
                    0 <= a < shorter.len() && link_of(page, #[trigger] shorter[a]) == Some(
                        earlier[k],
                    );
                assert(anchors[a] == shorter[a]);
            } else {
                assert(link_of(page, anchors[last]) == Some(all[k]));
            }
        }
        assert forall|a: int|
            0 <= a < anchors.len() && link_of(page, #[trigger] anchors[a]) is Some implies href_set(
            all,
        ).contains(link_of(page, anchors[a])->0.href) by {
            let h = link_of(page, anchors[a])->0.href;
            if a < last {
                assert(shorter[a] == anchors[a]);
                let k = choose|k: int| 0 <= k < earlier.len() && #[trigger] earlier[k].href == h;
                assert(all[k].href == h);
            } else if href_set(earlier).contains(h) {
                let k = choose|k: int| 0 <= k < earlier.len() && #[trigger] earlier[k].href == h;
                assert(all[k].href == h);
            } else {
                assert(all[all.len() - 1].href == h);
            }
        }
    }
}

/// Extraction is repeatable: what is extracted depends on nothing but the
/// page's address and its body, so the same body under the same address gives
/// the same links, however often it is asked for.
pub proof fn lemma_extraction_repeats(first: PageContentView, second: PageContentView)
    requires
        first.url == second.url,
        first.content == second.content,
    ensures
        extracted(first).links == extracted(second).links,
        extracted(first).url == extracted(second).url,
{
}

/// Whether exactly one of `urls` has the serialization `href`.
pub open spec fn occurs_once(urls: Seq<UrlView>, href: Seq<char>) -> bool {
    exists|k: int|
        {
            &&& 0 <= k < urls.len()
            &&& (#[trigger] urls[k]).href == href
            &&& forall|j: int| 0 <= j < urls.len() && j != k ==> (#[trigger] urls[j]).href != href
        }
}

/// Anchors that stand for the same link leave one link between them, however
/// many they are. So it is with references that differ in their fragment
/// alone: their URLs, once the fragment is dropped, are one.
pub proof fn lemma_same_link_once(
    page: UrlView,
    anchors: Seq<Option<Seq<char>>>,
    first: int,
    second: int,
)
    requires
        0 <= first < anchors.len(),
        0 <= second < anchors.len(),
        link_of(page, anchors[first]) is Some,
        link_of(page, anchors[first]) == link_of(page, anchors[second]),
    ensures
        occurs_once(links_of(page, anchors), link_of(page, anchors[first])->0.href),
        occurs_once(links_of(page, anchors), link_of(page, anchors[second])->0.href),
{
    lemma_links_are_a_set(page, anchors);
    let all = links_of(page, anchors);
    let h = link_of(page, anchors[first])->0.href;
    assert(href_set(all).contains(h));
    let k = choose|k: int| 0 <= k < all.len() && #[trigger] all[k].href == h;
    assert forall|j: int| 0 <= j < all.len() && j != k implies (#[trigger] all[j]).href != h by {
        if j < k {
            assert(all[j].href != all[k].href);
        } else {
            assert(all[k].href != all[j].href);
        }
    }
    assert(all[k].href == h);
}

/// The link that an anchor on the page at `page` stands for; see [`link_of`].
pub fn link_from(page: &Url, href: &str) -> (link: Option<Url>)
    ensures
        link.deep_view() == link_of(page@, Some(href@)),
        link matches Some(url) ==> url@.fragment is None,
{
    if starts_with_char(href, '#') {
        return None;
    }
    let target = if starts_with_char(href, '/') {
        page.join(href)
    } else {
        Url::parse(href)
    };
    match target {
        Some(url) => {
            if url.is_web() && url.same_domain(page) {
                url.without_fragment()
            } else {
                None
            }
        },
        None => None,
    }
}

/// The links that anchors with the `href` attributes `anchors` stand for on
/// the page at `page`, each once; see [`links_of`].
pub fn collect_links(page: &Url, anchors: &Vec<Option<String>>) -> (links: Vec<Url>)
    ensures
        links.deep_view() == links_of(page@, anchors.deep_view()),
        distinct(links.deep_view()),
        without_fragments(links.deep_view()),
{
    proof {
        lemma_links_are_a_set(page@, anchors.deep_view());
    }
    let ghost all = anchors.deep_view();
    let mut links: Vec<Url> = Vec::new();
    let mut seen = StringHashSet::new();
    let mut i: usize = 0;
    while i < anchors.len()
        invariant
            i <= anchors.len(),
            all == anchors.deep_view(),
            links.deep_view() == links_of(page@, all.take(i as int)),
            seen@ == href_set(links.deep_view()),
            without_fragments(links.deep_view()),
        decreases anchors.len() - i,
    {
        let ghost earlier = links.deep_view();
        assert(all.take(i as int + 1).drop_last() =~= all.take(i as int));
        let link = match &anchors[i] {
            Some(href) => link_from(page, href.as_str()),
            None => None,
        };
        if let Some(link) = link {
            if !seen.contains(link.as_str()) {
                seen.insert(link.as_str().to_owned());
                links.push(link);
                proof {
                    assert(links.deep_view() =~= earlier.push(link@));
                    lemma_href_set_push(earlier, link@);
                }
            }
        }
        i += 1;
    }
    assert(all.take(i as int) =~= all);
    links
}

/// Gets all unique links that are from the same domain as the page.
/// Excludes any links that do not use the `http` or `https` scheme.
/// Fragments are not treated as unique links.
pub fn parse_links(page_content: &PageContent) -> (page: Page)
    ensures
        page.deep_view() == extracted(page_content.deep_view()),
        distinct(page.deep_view().links),
        without_fragments(page.deep_view().links),
{
    let links = match select_attributes(page_content.content.as_str(), "a", "href") {
        Some(anchors) => collect_links(&page_content.url, &anchors),
        None => {
            let none: Vec<Url> = Vec::new();
            assert(none.deep_view() =~= Seq::<UrlView>::empty());
            none
        },
    };
    Page { url: page_content.url.clone(), status_code: page_content.status_code, links }
}

/// The extension that marks a path as a page of HTML.
pub open spec fn html_suffix() -> Seq<char> {
    seq!['.', 'h', 't', 'm', 'l']
}

/// Whether a path is taken to lead to HTML: it holds no `.` at all, or what
/// follows its last `.` is `html`.
pub open spec fn assumes_html(path: Seq<char>) -> bool {
    !path.contains('.') || ends_with(path, html_suffix())
}

/// Whether `path` is taken to lead to HTML.
pub fn path_assumes_html(path: &str) -> (b: bool)
    ensures
        b == assumes_html(path@),
{
    let chars = chars_of(path);
    if !has_char(&chars, '.') {
        return true;
    }
    let n: usize = chars.len();
    if n < 5 {
        return false;
    }
    let b = chars[n - 5] == '.' && chars[n - 4] == 'h' && chars[n - 3] == 't' && chars[n - 2]
        == 'm' && chars[n - 1] == 'l';
    proof {
        if b {
            assert(path@.subrange(n - 5, n as int) =~= html_suffix());
        }
    }
    b
}

/// Whether the page behind `url` is taken to be HTML, judged by its path alone.
pub fn assume_html(url: &Url) -> (b: bool)
    ensures
        b == assumes_html(url@.path),
{
    path_assumes_html(url.path())
}

} // verus!
