//! Absolute URLs as the crawler reads them, and the scope classifier.
//!
//! A [`Location`] holds what the crawl logic reads of a URL: its serialized
//! form, its domain and its path. Parsing, resolving a reference and replacing
//! a path are left to the `url` crate.

use vstd::prelude::*;
use crate::text::{char_vec, has_prefix};

verus! {

/// An absolute URL: its serialization, its domain (none for an IP host or
/// no host) and its path.
#[derive(Debug)]
pub struct Location {
    pub href: String,
    pub host: Option<String>,
    pub path: String,
}

/// The parts of an absolute URL that the crawl reads: its serialization,
/// its domain, and its path.
pub type UrlParts = (Seq<char>, Option<Seq<char>>, Seq<char>);

/// The view of an optional string.
pub open spec fn opt_view(o: Option<String>) -> Option<Seq<char>> {
    match o {
        Some(s) => Some(s@),
        None => None,
    }
}

impl View for Location {
    type V = UrlParts;

    open spec fn view(&self) -> Self::V {
        (self.href@, opt_view(self.host), self.path@)
    }
}

/// What `url` makes of an absolute URL text: serialization, domain and path;
/// none where the text does not parse.
pub uninterp spec fn parsed_url(text: Seq<char>) -> Option<(Seq<char>, Option<Seq<char>>, Seq<char>)>;

/// What `url` makes of `reference` resolved against the URL serialized as
/// `base`; none where either does not parse.
pub uninterp spec fn joined_url(base: Seq<char>, reference: Seq<char>) -> Option<(Seq<char>, Option<Seq<char>>, Seq<char>)>;

/// The URL serialized as `href` with its path replaced by `path`; none where
/// `href` does not parse.
pub uninterp spec fn url_with_path(href: Seq<char>, path: Seq<char>) -> Option<(Seq<char>, Option<Seq<char>>, Seq<char>)>;

/// The view of an optional location.
pub open spec fn opt_location(o: Option<Location>) -> Option<UrlParts> {
    match o {
        Some(l) => Some(l@),
        None => None,
    }
}

/// The views of a sequence of locations.
pub open spec fn location_views(v: Seq<Location>) -> Seq<UrlParts> {
    v.map_values(|l: Location| l@)
}

/// Viewing a sequence of locations commutes with pushing onto it.
pub proof fn lemma_location_views_push(v: Seq<Location>, l: Location)
    ensures
        location_views(v.push(l)) == location_views(v).push(l@),
{
    assert(location_views(v.push(l)) =~= location_views(v).push(l@));
}

/// Relies on `url::Url::parse`, read back through `as_str`, `domain` and `path`.
#[verifier::external_body]
fn parse_url(text: &str) -> (r: Option<Location>)
    ensures
        opt_location(r) == parsed_url(text@),
{
    let u = url::Url::parse(text).ok()?;
    Some(Location {
        href: u.as_str().to_string(),
        host: u.domain().map(|d| d.to_string()),
        path: u.path().to_string(),
    })
}

/// Relies on `url::Url::join` (on the base as `url::Url::parse` reads it):
/// resolves a reference the way a browser resolves an `href`.
#[verifier::external_body]
fn join_url(base: &Location, reference: &str) -> (r: Option<Location>)
    ensures
        opt_location(r) == joined_url(base.href@, reference@),
{
    let u = url::Url::parse(&base.href).ok()?.join(reference).ok()?;
    Some(Location {
        href: u.as_str().to_string(),
        host: u.domain().map(|d| d.to_string()),
        path: u.path().to_string(),
    })
}

/// Relies on `url::Url::set_path` (on the URL as `url::Url::parse` reads it).
#[verifier::external_body]
fn replace_path(loc: &Location, path: &str) -> (r: Option<Location>)
    ensures
        opt_location(r) == url_with_path(loc.href@, path@),
{
    let mut u = url::Url::parse(&loc.href).ok()?;
    u.set_path(path);
    Some(Location {
        href: u.as_str().to_string(),
        host: u.domain().map(|d| d.to_string()),
        path: u.path().to_string(),
    })
}

impl Location {
    /// Parses an absolute URL.
    pub fn parse(text: &str) -> (r: Option<Location>)
        ensures
            opt_location(r) == parsed_url(text@),
    {
        parse_url(text)
    }

    /// Resolves `reference` against this URL.
    pub fn join(&self, reference: &str) -> (r: Option<Location>)
        ensures
            opt_location(r) == joined_url(self.href@, reference@),
    {
        join_url(self, reference)
    }

    /// This URL with its path replaced by `path`.
    pub fn with_path(&self, path: &str) -> (r: Option<Location>)
        ensures
            opt_location(r) == url_with_path(self.href@, path@),
    {
        replace_path(self, path)
    }

    /// A copy of this location.
    pub fn duplicate(&self) -> (r: Location)
        ensures
            r@ == self@,
    {
        let host = match &self.host {
            Some(h) => Some(h.clone()),
            None => None,
        };
        Location { href: self.href.clone(), host, path: self.path.clone() }
    }
}

/// What a discovered link is to the crawl.
#[derive(Debug, Clone, Copy, PartialEq, Eq, Structural)]
pub enum LinkKind {
    /// Outside the crawl: another host, or a path outside the base path.
    Foreign,
    /// An in-scope PDF document.
    Pdf,
    /// An in-scope page.
    Page,
}

/// A link is in scope when it has the base's domain and its path starts
/// with the base's path.
pub open spec fn in_scope(link: UrlParts, base: UrlParts) -> bool {
    link.1 == base.1 && base.2.is_prefix_of(link.2)
}

/// `c` with ASCII capitals lowered.
pub open spec fn ascii_lower(c: char) -> char {
    if 'A' <= c <= 'Z' {
        ((c as u8) + 32) as char
    } else {
        c
    }
}

/// A path names a PDF when it ends in `.pdf`, letters in any case.
pub open spec fn pdf_path(path: Seq<char>) -> bool {
    let n = path.len();
    &&& n >= 4
    &&& path[n - 4] == '.'
    &&& ascii_lower(path[n - 3]) == 'p'
    &&& ascii_lower(path[n - 2]) == 'd'
    &&& ascii_lower(path[n - 1]) == 'f'
}

/// The classification of `link` relative to the crawl's `base`.
pub open spec fn kind_of(link: UrlParts, base: UrlParts) -> LinkKind {
    if !in_scope(link, base) {
        LinkKind::Foreign
    } else if pdf_path(link.2) {
        LinkKind::Pdf
    } else {
        LinkKind::Page
    }
}

fn lower_char(c: char) -> (r: char)
    ensures
        r == ascii_lower(c),
{
    if 'A' <= c && c <= 'Z' {
        ((c as u8) + 32) as char
    } else {
        c
    }
}

/// Whether `path` ends in `.pdf`, letters in any case.
pub fn is_pdf_path(path: &str) -> (r: bool)
    ensures
        r == pdf_path(path@),
{
    let v = char_vec(path);
    let n = v.len();
    if n < 4 {
        return false;
    }
    v[n - 4] == '.' && lower_char(v[n - 3]) == 'p' && lower_char(v[n - 2]) == 'd'
        && lower_char(v[n - 1]) == 'f'
}

fn same_host(a: &Option<String>, b: &Option<String>) -> (r: bool)
    ensures
        r == (opt_view(*a) == opt_view(*b)),
{
    match a {
        Some(x) => match b {
            Some(y) => x.eq(y),
            None => false,
        },
        None => b.is_none(),
    }
}

/// Whether `link` lies within the crawl rooted at `base`.
pub fn within_scope(link: &Location, base: &Location) -> (r: bool)
    ensures
        r == in_scope(link@, base@),
{
    if !same_host(&link.host, &base.host) {
        return false;
    }
    has_prefix(&char_vec(link.path.as_str()), &char_vec(base.path.as_str()))
}

/// Classifies `link` against the crawl's `base`: foreign, PDF or page.
pub fn classify(link: &Location, base: &Location) -> (r: LinkKind)
    ensures
        r == kind_of(link@, base@),
{
    if !within_scope(link, base) {
        LinkKind::Foreign
    } else if is_pdf_path(link.path.as_str()) {
        LinkKind::Pdf
    } else {
        LinkKind::Page
    }
}

} // verus!

verus! {

/// Classification is a function of the link and the base alone: the same
/// URLs always get the same decision.
pub proof fn lemma_classification_deterministic(
    link1: UrlParts,
    base1: UrlParts,
    link2: UrlParts,
    base2: UrlParts,
)
    requires
        link1 == link2,
        base1 == base2,
    ensures
        kind_of(link1, base1) == kind_of(link2, base2),
        in_scope(link1, base1) == in_scope(link2, base2),
{
}

} // verus!
