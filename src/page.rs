//! The Page Fetcher's logic: what a fetched page yields, links or an error.
//!
//! The request itself is made by the caller, which hands over a [`PageReply`].
//! Anchors are read from the HTML by `scraper`; everything after that, from
//! fragment stripping to the scope filter, is decided here.

use vstd::prelude::*;
use crate::location::{
    classify, in_scope, joined_url, kind_of, location_views, opt_location, LinkKind, Location,
    UrlParts,
};
use crate::text::{
    cat3, cat4, char_vec, find_char, first_index, single_line, text_views,
};

verus! {

/// The `href` values of the anchor elements of an HTML document, in
/// document order, as `scraper` reads them.
pub uninterp spec fn anchor_hrefs(html: Seq<char>) -> Seq<Seq<char>>;

/// Relies on `scraper::Html::parse_document` and a select of `a[href]`:
/// the `href` attribute of each anchor that has one, in document order.
#[verifier::external_body]
fn hrefs_in(html: &str) -> (r: Vec<String>)
    ensures
        text_views(r@) == anchor_hrefs(html@),
{
    let doc = scraper::Html::parse_document(html);
    let anchors = scraper::Selector::parse("a[href]").unwrap();
    doc.select(&anchors).filter_map(|e| e.value().attr("href")).map(|h| h.to_string()).collect()
}

/// An `href` without its fragment: everything before the first `#`.
pub open spec fn strip_fragment(href: Seq<char>) -> Seq<char> {
    href.take(first_index(href, '#'))
}

/// What one `href` found on `page` becomes: the resolved URL, kept only when
/// the href is not empty once its fragment is gone, resolves, lies within the
/// crawl rooted at `base` and is not the page itself.
pub open spec fn resolve_link(
    page: UrlParts,
    base: UrlParts,
    href: Seq<char>,
) -> Option<UrlParts> {
    let h = strip_fragment(href);
    if h.len() == 0 {
        None
    } else {
        match joined_url(page.0, h) {
            Some(full) => if in_scope(full, base) && full.0 != page.0 {
                Some(full)
            } else {
                None
            },
            None => None,
        }
    }
}

/// The links of kind `kind` that `hrefs`, found on `page`, yield, in order.
pub open spec fn found_links(
    page: UrlParts,
    base: UrlParts,
    hrefs: Seq<Seq<char>>,
    kind: LinkKind,
) -> Seq<UrlParts>
    decreases hrefs.len(),
{
    if hrefs.len() == 0 {
        Seq::empty()
    } else {
        let prev = found_links(page, base, hrefs.drop_last(), kind);
        match resolve_link(page, base, hrefs.last()) {
            Some(l) => if kind_of(l, base) == kind {
                prev.push(l)
            } else {
                prev
            },
            None => prev,
        }
    }
}

/// `href` without its fragment.
pub fn without_fragment(href: &str) -> (r: String)
    ensures
        r@ == strip_fragment(href@),
{
    let v = char_vec(href);
    let k = find_char(&v, '#');
    String::from_str(href.substring_char(0, k))
}

/// Whether a link found on `page`, once resolved to `full`, is kept: it lies
/// within the crawl rooted at `base` and is not `page` itself.
pub fn accept_link(page: &Location, base: &Location, full: &Location) -> (r: bool)
    ensures
        r == (in_scope(full@, base@) && full@.0 != page@.0),
{
    classify(full, base) != LinkKind::Foreign && !full.href.eq(&page.href)
}

/// Resolves one `href` found on `page`, as `resolve_link` says.
pub fn resolve_href(page: &Location, base: &Location, href: &str) -> (r: Option<Location>)
    ensures
        opt_location(r) == resolve_link(page@, base@, href@),
{
    let h = without_fragment(href);
    if h.unicode_len() == 0 {
        return None;
    }
    match page.join(h.as_str()) {
        Some(full) => {
            if accept_link(page, base, &full) {
                Some(full)
            } else {
                None
            }
        }
        None => None,
    }
}

/// Splits the hrefs found on `page` into in-scope page links and PDF links,
/// each in document order.
pub fn extract_links(page: &Location, base: &Location, hrefs: &Vec<String>) -> (r: (Vec<Location>, Vec<Location>))
    ensures
        location_views(r.0@) == found_links(page@, base@, text_views(hrefs@), LinkKind::Page),
        location_views(r.1@) == found_links(page@, base@, text_views(hrefs@), LinkKind::Pdf),
{
    let mut pages: Vec<Location> = Vec::new();
    let mut pdfs: Vec<Location> = Vec::new();
    let ghost all = text_views(hrefs@);
    let mut i: usize = 0;
    while i < hrefs.len()
        invariant
            all == text_views(hrefs@),
            i <= hrefs@.len(),
            location_views(pages@) == found_links(page@, base@, all.take(i as int), LinkKind::Page),
            location_views(pdfs@) == found_links(page@, base@, all.take(i as int), LinkKind::Pdf),
        decreases hrefs@.len() - i,
    {
        let ghost prefix = all.take(i as int + 1);
        assert(prefix.drop_last() =~= all.take(i as int));
        assert(prefix.last() == hrefs@[i as int]@);
        match resolve_href(page, base, hrefs[i].as_str()) {
            Some(link) => {
                let kind = classify(&link, base);
                if kind == LinkKind::Pdf {
                    pdfs.push(link);
                } else {
                    pages.push(link);
                }
            }
            None => {}
        }
        assert(location_views(pages@) =~= found_links(page@, base@, prefix, LinkKind::Page));
        assert(location_views(pdfs@) =~= found_links(page@, base@, prefix, LinkKind::Pdf));
        i = i + 1;
    }
    assert(all.take(hrefs@.len() as int) =~= all);
    (pages, pdfs)
}

} // verus!

verus! {

/// A 4xx or 5xx status.
pub open spec fn failure_status(status: u16) -> bool {
    400 <= status <= 599
}

/// Whether `status` is a 4xx or 5xx status.
pub fn is_failure_status(status: u16) -> (r: bool)
    ensures
        r == failure_status(status),
{
    400 <= status && status <= 599
}

/// What came back from a GET of a page.
pub enum PageReply {
    /// No response: DNS, connection or timeout failure, with its description.
    Unreachable { error: String },
    /// A response with `status`, whose display form (the code and its
    /// reason phrase, `404 Not Found`) is `status_text`; `body` is its text,
    /// or why it could not be decoded.
    Response { status: u16, status_text: String, body: Result<String, String> },
}

/// Outcome of fetching one page.
pub enum FetchResult {
    /// The page loaded: its in-scope page links and PDF links.
    Links { pages: Vec<Location>, pdfs: Vec<Location> },
    /// The page failed; `error` is the line for the error log.
    Failed { error: String },
}

/// A fetched page's outcome and the lines it writes to the event log.
pub struct PageCheck {
    pub result: FetchResult,
    pub log: Vec<String>,
}

/// Error line for a failing status: `<url> returned <status>`, the status
/// in its display form.
pub open spec fn returned_line(url: Seq<char>, status_text: Seq<char>) -> Seq<char> {
    url + " returned "@ + status_text
}

/// Error line for a transport failure: `<url> exception <error>`.
pub open spec fn exception_line(url: Seq<char>, error: Seq<char>) -> Seq<char> {
    url + " exception "@ + error
}

/// Log line for a transport failure: `ERROR exception: <url> - <error>`.
pub open spec fn exception_log(url: Seq<char>, error: Seq<char>) -> Seq<char> {
    "ERROR exception: "@ + url + " - "@ + error
}

/// Log line for a failing status: `ERROR <status>: <url>`.
pub open spec fn status_error_log(url: Seq<char>, status_text: Seq<char>) -> Seq<char> {
    "ERROR "@ + status_text + ": "@ + url
}

/// Log line for a good status: `OK <status>: <url>`.
pub open spec fn status_ok_log(url: Seq<char>, status_text: Seq<char>) -> Seq<char> {
    "OK "@ + status_text + ": "@ + url
}

/// Error line for a body that does not decode: `<url> text error <error>`.
pub open spec fn text_error_line(url: Seq<char>, error: Seq<char>) -> Seq<char> {
    url + " text error "@ + error
}

/// Log line for a body that does not decode: `ERROR text: <url> - <error>`.
pub open spec fn text_error_log(url: Seq<char>, error: Seq<char>) -> Seq<char> {
    "ERROR text: "@ + url + " - "@ + error
}

/// The error line that `reply` gives the page at `url`, if the page failed.
pub open spec fn reply_error(url: Seq<char>, reply: PageReply) -> Option<Seq<char>> {
    match reply {
        PageReply::Unreachable { error } => Some(exception_line(url, error@)),
        PageReply::Response { status, status_text, body } => {
            if failure_status(status) {
                Some(returned_line(url, status_text@))
            } else {
                match body {
                    Err(why) => Some(text_error_line(url, why@)),
                    Ok(_) => None,
                }
            }
        },
    }
}

/// The links of kind `kind` that `reply` yields for `page`: none where the
/// page failed.
pub open spec fn reply_links(
    page: UrlParts,
    base: UrlParts,
    reply: PageReply,
    kind: LinkKind,
) -> Seq<UrlParts> {
    match reply {
        PageReply::Response { status, status_text, body } => {
            if failure_status(status) {
                Seq::empty()
            } else {
                match body {
                    Ok(html) => found_links(page, base, anchor_hrefs(html@), kind),
                    Err(_) => Seq::empty(),
                }
            }
        },
        PageReply::Unreachable { .. } => Seq::empty(),
    }
}

/// The event log lines that `reply` gives the page at `url`.
pub open spec fn reply_log(url: Seq<char>, reply: PageReply) -> Seq<Seq<char>> {
    match reply {
        PageReply::Unreachable { error } => seq![exception_log(url, error@)],
        PageReply::Response { status, status_text, body } => {
            if failure_status(status) {
                seq![status_error_log(url, status_text@)]
            } else {
                match body {
                    Err(why) => seq![status_ok_log(url, status_text@), text_error_log(url, why@)],
                    Ok(_) => seq![status_ok_log(url, status_text@)],
                }
            }
        },
    }
}

/// What `check_page` owes for `reply` on `page`: the error where the page
/// failed, else its page and PDF links; and the log lines.
pub open spec fn page_check_spec(
    page: UrlParts,
    base: UrlParts,
    reply: PageReply,
    check: PageCheck,
) -> bool {
    &&& text_views(check.log@) == reply_log(page.0, reply)
    &&& match reply_error(page.0, reply) {
        Some(e) => check.result matches FetchResult::Failed { error } && error@ == e,
        None => check.result matches FetchResult::Links { pages, pdfs }
            && location_views(pages@) == reply_links(page, base, reply, LinkKind::Page)
            && location_views(pdfs@) == reply_links(page, base, reply, LinkKind::Pdf),
    }
}

/// Decides what a fetched page yields: on a transport failure, a failing
/// status or an undecodable body, an error; otherwise its in-scope links,
/// split into pages and PDFs.
pub fn check_page(page: &Location, base: &Location, reply: &PageReply) -> (r: PageCheck)
    ensures
        page_check_spec(page@, base@, *reply, r),
{
    let url = page.href.as_str();
    match reply {
        PageReply::Unreachable { error } => {
            let e = cat3(url, " exception ", error.as_str());
            let line = cat4("ERROR exception: ", url, " - ", error.as_str());
            PageCheck { result: FetchResult::Failed { error: e }, log: single_line(line) }
        }
        PageReply::Response { status, status_text, body } => {
            let code = status_text.as_str();
            if is_failure_status(*status) {
                let e = cat3(url, " returned ", code);
                let line = cat4("ERROR ", code, ": ", url);
                return PageCheck { result: FetchResult::Failed { error: e }, log: single_line(line) };
            }
            let ok_line = cat4("OK ", code, ": ", url);
            match body {
                Err(why) => {
                    let e = cat3(url, " text error ", why.as_str());
                    let line = cat4("ERROR text: ", url, " - ", why.as_str());
                    let mut log = single_line(ok_line);
                    log.push(line);
                    assert(text_views(log@) =~= seq![status_ok_log(page@.0, status_text@), text_error_log(page@.0, why@)]);
                    PageCheck { result: FetchResult::Failed { error: e }, log }
                }
                Ok(html) => {
                    let hrefs = hrefs_in(html.as_str());
                    let (pages, pdfs) = extract_links(page, base, &hrefs);
                    PageCheck { result: FetchResult::Links { pages, pdfs }, log: single_line(ok_line) }
                }
            }
        }
    }
}

/// Every link that `found_links` yields lies within the crawl rooted at
/// `base`, is not `page` itself, and has the kind asked for.
pub proof fn lemma_found_links_scoped(
    page: UrlParts,
    base: UrlParts,
    hrefs: Seq<Seq<char>>,
    kind: LinkKind,
)
    ensures
        forall|i: int| 0 <= i < found_links(page, base, hrefs, kind).len() ==> {
            let l = #[trigger] found_links(page, base, hrefs, kind)[i];
            &&& in_scope(l, base)
            &&& l.0 != page.0
            &&& kind_of(l, base) == kind
        },
    decreases hrefs.len(),
{
    if hrefs.len() > 0 {
        lemma_found_links_scoped(page, base, hrefs.drop_last(), kind);
    }
}

} // verus!
