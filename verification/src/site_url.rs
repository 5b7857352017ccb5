//! URLs, by way of `url`.
use crate::text::chars_of;
use vstd::prelude::*;

verus! {

/// An absolute URL, as the record of the parts that crawling reads.
#[derive(Debug)]
pub struct Url {
    href: String,
    scheme: String,
    domain: Option<String>,
    path: String,
    fragment: Option<String>,
}

/// The mathematical record of a [`Url`].
pub struct UrlView {
    /// The serialization of the whole URL.
    pub href: Seq<char>,
    /// The scheme, without the `:` that follows it.
    pub scheme: Seq<char>,
    /// The host, where it is a domain name.
    pub domain: Option<Seq<char>>,
    /// The path.
    pub path: Seq<char>,
    /// The fragment, without the `#` before it, if there is one.
    pub fragment: Option<Seq<char>>,
}

impl View for Url {
    type V = UrlView;

    closed spec fn view(&self) -> UrlView {
        UrlView {
            href: self.href@,
            scheme: self.scheme@,
            domain: match self.domain {
                Some(d) => Some(d@),
                None => None,
            },
            path: self.path@,
            fragment: match self.fragment {
                Some(f) => Some(f@),
                None => None,
            },
        }
    }
}

/// Whether `scheme` is `http` or `https`.
pub open spec fn is_web_scheme(scheme: Seq<char>) -> bool {
    scheme == seq!['h', 't', 't', 'p'] || scheme == seq!['h', 't', 't', 'p', 's']
}

/// Whether both URLs have a domain name for a host, and the same one.
pub open spec fn same_domain(a: UrlView, b: UrlView) -> bool {
    a.domain is Some && a.domain == b.domain
}

/// The serializations of `urls`, as a set.
pub open spec fn href_set(urls: Seq<UrlView>) -> Set<Seq<char>> {
    Set::new(|h: Seq<char>| exists|k: int| 0 <= k < urls.len() && #[trigger] urls[k].href == h)
}

/// The serializations of `urls` and of `url` after them are those of `urls`,
/// and that of `url`.
pub proof fn lemma_href_set_push(urls: Seq<UrlView>, url: UrlView)
    ensures
        href_set(urls.push(url)) == href_set(urls).insert(url.href),
{
    let longer = urls.push(url);
    assert forall|h: Seq<char>| href_set(longer).contains(h) <==> href_set(urls).insert(
        url.href,
    ).contains(h) by {
        if href_set(urls).contains(h) {
            let k = choose|k: int| 0 <= k < urls.len() && #[trigger] urls[k].href == h;
            assert(longer[k].href == h);
        }
        if h == url.href {
            assert(longer[urls.len() as int].href == h);
        }
        if href_set(longer).contains(h) {
            let k = choose|k: int| 0 <= k < longer.len() && #[trigger] longer[k].href == h;
            if k < urls.len() {
                assert(urls[k].href == h);
            }
        }
    }
    assert(href_set(longer) =~= href_set(urls).insert(url.href));
}

/// The serializations of two sequences of URLs laid end to end are those of
/// the one and those of the other.
pub proof fn lemma_href_set_add(first: Seq<UrlView>, second: Seq<UrlView>)
    ensures
        href_set(first + second) == href_set(first).union(href_set(second)),
{
    let both = first + second;
    assert forall|h: Seq<char>| href_set(both).contains(h) <==> href_set(first).union(
        href_set(second),
    ).contains(h) by {
        if href_set(first).contains(h) {
            let k = choose|k: int| 0 <= k < first.len() && #[trigger] first[k].href == h;
            assert(both[k].href == h);
        }
        if href_set(second).contains(h) {
            let k = choose|k: int| 0 <= k < second.len() && #[trigger] second[k].href == h;
            assert(both[first.len() + k].href == h);
        }
        if href_set(both).contains(h) {
            let k = choose|k: int| 0 <= k < both.len() && #[trigger] both[k].href == h;
            if k < first.len() {
                assert(first[k].href == h);
            } else {
                assert(second[k - first.len()].href == h);
            }
        }
    }
    assert(href_set(both) =~= href_set(first).union(href_set(second)));
}

/// Whether none of `urls` has a fragment.
pub open spec fn without_fragments(urls: Seq<UrlView>) -> bool {
    forall|i: int| 0 <= i < urls.len() ==> (#[trigger] urls[i]).fragment is None
}

/// Whether no two of `urls` have the same serialization.
pub open spec fn distinct(urls: Seq<UrlView>) -> bool {
    forall|i: int, j: int|
        0 <= i < j < urls.len() ==> (#[trigger] urls[i]).href != (#[trigger] urls[j]).href
}

/// What `url::Url::parse` makes of `input`: the record of the URL, or `None`
/// where it reports an error.
pub uninterp spec fn parsed(input: Seq<char>) -> Option<UrlView>;

/// What `url::Url::join` makes of `input` on the URL that `url::Url::parse`
/// reads from `base`; `None` where either reports an error.
pub uninterp spec fn joined(base: Seq<char>, input: Seq<char>) -> Option<UrlView>;

/// What is left of the URL that `url::Url::parse` reads from `href` after
/// `url::Url::set_fragment(None)`; `None` where `href` does not parse.
pub uninterp spec fn defragmented(href: Seq<char>) -> Option<UrlView>;

/// Calls `url::Url::parse` and copies out `as_str`, `scheme`, `domain`, `path`
/// and `fragment` of the URL it returns. The contract only names the outcome.
#[verifier::external_body]
fn parse_url(input: &str) -> (r: Option<Url>)
    ensures
        r.deep_view() == parsed(input@),
{
    let Ok(url) = url::Url::parse(input) else {
        return None;
    };
    Some(Url {
        href: url.as_str().to_owned(),
        scheme: url.scheme().to_owned(),
        domain: url.domain().map(str::to_owned),
        path: url.path().to_owned(),
        fragment: url.fragment().map(str::to_owned),
    })
}

/// Calls `url::Url::parse` on `base` and `url::Url::join` on the URL that
/// comes back, and copies out `as_str`, `scheme`, `domain`, `path` and
/// `fragment` of the result. The contract only names the outcome.
#[verifier::external_body]
fn join_url(base: &str, input: &str) -> (r: Option<Url>)
    ensures
        r.deep_view() == joined(base@, input@),
{
    let Ok(base) = url::Url::parse(base) else {
        return None;
    };
    let Ok(url) = base.join(input) else {
        return None;
    };
    Some(Url {
        href: url.as_str().to_owned(),
        scheme: url.scheme().to_owned(),
        domain: url.domain().map(str::to_owned),
        path: url.path().to_owned(),
        fragment: url.fragment().map(str::to_owned),
    })
}

/// Calls `url::Url::parse` on `href` and `url::Url::set_fragment(None)` on the
/// URL that comes back, and copies out `as_str`, `scheme`, `domain`, `path` and
/// `fragment` of what is left. The contract names the outcome, and claims one
/// thing of it: after `set_fragment(None)`, `fragment` gives `None`.
#[verifier::external_body]
fn defragment_url(href: &str) -> (r: Option<Url>)
    ensures
        r.deep_view() == defragmented(href@),
        r matches Some(url) ==> url@.fragment is None,
{
    let Ok(mut url) = url::Url::parse(href) else {
        return None;
    };
    url.set_fragment(None);
    Some(Url {
        href: url.as_str().to_owned(),
        scheme: url.scheme().to_owned(),
        domain: url.domain().map(str::to_owned),
        path: url.path().to_owned(),
        fragment: url.fragment().map(str::to_owned),
    })
}

impl Url {
    /// Parses an absolute URL.
    pub fn parse(input: &str) -> (r: Option<Url>)
        ensures
            r.deep_view() == parsed(input@),
    {
        parse_url(input)
    }

    /// Resolves `input` against this URL, as a browser resolves a reference
    /// found on the page at this URL.
    pub fn join(&self, input: &str) -> (r: Option<Url>)
        ensures
            r.deep_view() == joined(self@.href, input@),
    {
        join_url(self.href.as_str(), input)
    }

    /// This URL without its fragment.
    pub fn without_fragment(&self) -> (r: Option<Url>)
        ensures
            r.deep_view() == defragmented(self@.href),
            r matches Some(url) ==> url@.fragment is None,
    {
        defragment_url(self.href.as_str())
    }

    /// The serialization of this URL.
    pub fn as_str(&self) -> (s: &str)
        ensures
            s@ == self@.href,
    {
        self.href.as_str()
    }

    /// The scheme, without the `:` that follows it.
    pub fn scheme(&self) -> (s: &str)
        ensures
            s@ == self@.scheme,
    {
        self.scheme.as_str()
    }

    /// The host, where it is a domain name.
    pub fn domain(&self) -> (d: Option<&str>)
        ensures
            match d {
                Some(name) => self@.domain == Some(name@),
                None => self@.domain is None,
            },
    {
        match &self.domain {
            Some(name) => Some(name.as_str()),
            None => None,
        }
    }

    /// The path.
    pub fn path(&self) -> (s: &str)
        ensures
            s@ == self@.path,
    {
        self.path.as_str()
    }

    /// The fragment, without the `#` before it, if there is one.
    pub fn fragment(&self) -> (f: Option<&str>)
        ensures
            match f {
                Some(name) => self@.fragment == Some(name@),
                None => self@.fragment is None,
            },
    {
        match &self.fragment {
            Some(name) => Some(name.as_str()),
            None => None,
        }
    }

    /// Whether this is an address of the web: its scheme is `http` or `https`.
    pub fn is_web(&self) -> (b: bool)
        ensures
            b == is_web_scheme(self@.scheme),
    {
        let scheme = chars_of(self.scheme.as_str());
        let n: usize = scheme.len();
        let http = n >= 4 && scheme[0] == 'h' && scheme[1] == 't' && scheme[2] == 't' && scheme[3]
            == 'p';
        let b = http && (n == 4 || (n == 5 && scheme[4] == 's'));
        proof {
            if b {
                if n == 4 {
                    assert(self@.scheme =~= seq!['h', 't', 't', 'p']);
                } else {
                    assert(self@.scheme =~= seq!['h', 't', 't', 'p', 's']);
                }
            }
        }
        b
    }

    /// Whether both have a domain name for a host, and the same one.
    pub fn same_domain(&self, other: &Url) -> (b: bool)
        ensures
            b == same_domain(self@, other@),
    {
        match (&self.domain, &other.domain) {
            (Some(mine), Some(theirs)) => *mine == *theirs,
            _ => false,
        }
    }
}

impl Clone for Url {
    fn clone(&self) -> (copy: Url)
        ensures
            copy@ == self@,
    {
        Url {
            href: self.href.clone(),
            scheme: self.scheme.clone(),
            domain: match &self.domain {
                Some(name) => Some(name.clone()),
                None => None,
            },
            path: self.path.clone(),
            fragment: match &self.fragment {
                Some(name) => Some(name.clone()),
                None => None,
            },
        }
    }
}

/// URLs compare like their serializations: two with the same serialization
/// are equal, whatever else their records hold.
impl PartialEq for Url {
    fn eq(&self, other: &Self) -> (b: bool) {
        self.href == other.href
    }
}

impl Eq for Url {

}

impl vstd::std_specs::cmp::PartialEqSpecImpl for Url {
    open spec fn obeys_eq_spec() -> bool {
        true
    }

    open spec fn eq_spec(&self, other: &Self) -> bool {
        self@.href == other@.href
    }
}

impl DeepView for Url {
    type V = UrlView;

    open spec fn deep_view(&self) -> UrlView {
        self@
    }
}

} // verus!
