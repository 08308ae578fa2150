//! The Frontier/Crawl Controller and the Reporter.
//!
//! A [`Crawler`] holds the state of one crawl run: a FIFO frontier, the URLs
//! already handed out for fetching, the error log and the PDF status log. It
//! decides; the caller performs each request and hands back what came back:
//!
//! 1. [`Crawler::next_page`] hands out the next page to fetch, or none when
//!    the frontier is drained;
//! 2. [`Crawler::visit_page`] takes that page's reply, queues its unvisited
//!    in-scope page links and returns its PDF links;
//! 3. [`Crawler::record_probe`] takes the reply of the trailing-slash probe;
//! 4. [`Crawler::record_pdf`] takes the outcome of each PDF's validation.
//!
//! A link is queued unless it was already visited; a URL queued twice is
//! dropped when it comes up again after its first visit.

use vstd::prelude::*;
use crate::location::{
    in_scope, kind_of, lemma_location_views_push, location_views, pdf_path, LinkKind, Location,
    UrlParts,
};
use crate::page::{
    anchor_hrefs, check_page, exception_line, exception_log, lemma_found_links_scoped,
    reply_error, reply_links, reply_log, returned_line, status_error_log, status_ok_log,
    FetchResult, PageReply,
};
use crate::pdf::{outcome_errors, outcome_lines, outcome_log, pdf_error_lines, pdf_log_lines, pdf_status_lines, PdfOutcome};
use crate::probe::{check_probe, probe_error, probe_log, StatusReply};
use crate::text::{cat4, has_text, lemma_text_views_push, text_views};

verus! {

/// The state of one crawl run.
pub struct Crawler {
    /// The crawl's root: links outside it are not followed.
    pub base: Location,
    /// Pages waiting to be fetched, oldest first.
    pub frontier: std::collections::VecDeque<Location>,
    /// The URLs handed out for fetching, in order: the visited set, kept as
    /// a list without duplicates (`wf`), since Verus can reason about `Vec`
    /// contents but not about lookups in a `HashSet` keyed by `String`.
    pub visited: Vec<String>,
    /// Every error recorded, in order.
    pub errors: Vec<String>,
    /// One or more lines per validated PDF, in order.
    pub pdf_status: Vec<String>,
}

/// The index of the first entry of `frontier` whose URL is not in `visited`,
/// or the length of `frontier` when there is none.
pub open spec fn first_fresh(frontier: Seq<UrlParts>, visited: Seq<Seq<char>>) -> int
    decreases frontier.len(),
{
    if frontier.len() == 0 {
        0
    } else if !visited.contains(frontier[0].0) {
        0
    } else {
        1 + first_fresh(frontier.drop_first(), visited)
    }
}

/// The links of `links` whose URL is not in `visited`, in order.
pub open spec fn unvisited(links: Seq<UrlParts>, visited: Seq<Seq<char>>) -> Seq<UrlParts>
    decreases links.len(),
{
    if links.len() == 0 {
        Seq::empty()
    } else {
        let prev = unvisited(links.drop_last(), visited);
        if visited.contains(links.last().0) {
            prev
        } else {
            prev.push(links.last())
        }
    }
}

/// A status at which a speculative seed counts as resolving: 2xx or 3xx.
pub open spec fn resolving_status(status: u16) -> bool {
    200 <= status <= 399
}

/// Log line for a speculative seed that is not there: `SKIP <status>: <url>`,
/// the status in its display form.
pub open spec fn skip_log(url: Seq<char>, status_text: Seq<char>) -> Seq<char> {
    "SKIP "@ + status_text + ": "@ + url
}

/// The first line of the report.
pub open spec fn report_header() -> Seq<char> {
    "--- PDF status ---"@
}

/// The report's verdict on a run without errors.
pub open spec fn success_line() -> Seq<char> {
    "Site check completed successfully"@
}

/// The report's verdict on a run with errors.
pub open spec fn failure_line() -> Seq<char> {
    "Site check completed with errors"@
}

/// The report of a run: the PDF status lines under a header, then the
/// verdict, followed on failure by every error.
pub open spec fn report_spec(pdf_status: Seq<Seq<char>>, errors: Seq<Seq<char>>) -> Seq<Seq<char>> {
    if errors.len() == 0 {
        seq![report_header()] + pdf_status + seq![success_line()]
    } else {
        seq![report_header()] + pdf_status + seq![failure_line()] + errors
    }
}

/// The exit status of a run with these errors: 0 iff there are none.
pub open spec fn exit_status(errors: Seq<Seq<char>>) -> u8 {
    if errors.len() == 0 {
        0
    } else {
        1
    }
}

/// `first_fresh` is the first position whose URL was not visited.
pub proof fn lemma_first_fresh(
    frontier: Seq<UrlParts>,
    visited: Seq<Seq<char>>,
    k: int,
)
    requires
        0 <= k <= frontier.len(),
        k == frontier.len() || !visited.contains(frontier[k].0),
        forall|j: int| 0 <= j < k ==> visited.contains(#[trigger] frontier[j].0),
    ensures
        first_fresh(frontier, visited) == k,
    decreases frontier.len(),
{
    if frontier.len() > 0 && k > 0 {
        assert(visited.contains(frontier[0].0));
        assert forall|j: int| 0 <= j < k - 1 implies visited.contains(#[trigger] frontier.drop_first()[j].0) by {
            assert(frontier.drop_first()[j] == frontier[j + 1]);
        }
        lemma_first_fresh(frontier.drop_first(), visited, k - 1);
    }
}

impl Crawler {
    /// The crawler's invariant: no URL was handed out twice.
    pub open spec fn wf(&self) -> bool {
        text_views(self.visited@).no_duplicates()
    }

    /// A crawl rooted at `base`, with `base` as its one seed.
    pub fn new(base: Location) -> (r: Crawler)
        ensures
            r.wf(),
            r.base@ == base@,
            location_views(r.frontier@) == seq![base@],
            r.visited@.len() == 0,
            r.errors@.len() == 0,
            r.pdf_status@.len() == 0,
    {
        let mut frontier = std::collections::VecDeque::new();
        frontier.push_back(base.duplicate());
        let r = Crawler { base, frontier, visited: Vec::new(), errors: Vec::new(), pdf_status: Vec::new() };
        assert(location_views(r.frontier@) =~= seq![r.base@]);
        assert(text_views(r.visited@) =~= Seq::<Seq<char>>::empty());
        r
    }

    /// Adds a seed to the back of the frontier, as a sitemap entry is.
    pub fn seed(&mut self, seed: Location)
        requires
            old(self).wf(),
        ensures
            final(self).wf(),
            final(self).base == old(self).base,
            final(self).visited == old(self).visited,
            final(self).errors == old(self).errors,
            final(self).pdf_status == old(self).pdf_status,
            location_views(final(self).frontier@) == location_views(old(self).frontier@).push(seed@),
    {
        let ghost before = self.frontier@;
        self.frontier.push_back(seed);
        proof {
            lemma_location_views_push(before, seed);
        }
    }

    /// Offers a speculative seed that was requested: it is queued when it
    /// resolves (2xx or 3xx), skipped on a 404, and an error otherwise.
    /// Returns the line for the event log.
    pub fn offer_seed(&mut self, seed: Location, reply: &StatusReply) -> (r: String)
        requires
            old(self).wf(),
        ensures
            final(self).wf(),
            final(self).base == old(self).base,
            final(self).visited == old(self).visited,
            final(self).pdf_status == old(self).pdf_status,
            match *reply {
                StatusReply::Unreachable { error } => {
                    &&& final(self).frontier@ == old(self).frontier@
                    &&& text_views(final(self).errors@) == text_views(old(self).errors@).push(exception_line(seed@.0, error@))
                    &&& r@ == exception_log(seed@.0, error@)
                },
                StatusReply::Answered { status, status_text } => if resolving_status(status) {
                    &&& location_views(final(self).frontier@) == location_views(old(self).frontier@).push(seed@)
                    &&& final(self).errors == old(self).errors
                    &&& r@ == status_ok_log(seed@.0, status_text@)
                } else if status == 404 {
                    &&& final(self).frontier@ == old(self).frontier@
                    &&& final(self).errors == old(self).errors
                    &&& r@ == skip_log(seed@.0, status_text@)
                } else {
                    &&& final(self).frontier@ == old(self).frontier@
                    &&& text_views(final(self).errors@) == text_views(old(self).errors@).push(returned_line(seed@.0, status_text@))
                    &&& r@ == status_error_log(seed@.0, status_text@)
                },
            },
    {
        match reply {
            StatusReply::Unreachable { error } => {
                let line = cat4("ERROR exception: ", seed.href.as_str(), " - ", error.as_str());
                let mut e = seed.href.clone();
                e.append(" exception ");
                e.append(error.as_str());
                self.errors.push(e);
                assert(text_views(self.errors@) =~= text_views(old(self).errors@).push(exception_line(seed@.0, error@)));
                line
            },
            StatusReply::Answered { status, status_text } => {
                let code = status_text.as_str();
                if 200 <= *status && *status <= 399 {
                    let line = cat4("OK ", code, ": ", seed.href.as_str());
                    self.frontier.push_back(seed);
                    assert(location_views(self.frontier@) =~= location_views(old(self).frontier@).push(seed@));
                    line
                } else if *status == 404 {
                    cat4("SKIP ", code, ": ", seed.href.as_str())
                } else {
                    let line = cat4("ERROR ", code, ": ", seed.href.as_str());
                    let mut e = seed.href.clone();
                    e.append(" returned ");
                    e.append(code);
                    self.errors.push(e);
                    assert(text_views(self.errors@) =~= text_views(old(self).errors@).push(returned_line(seed@.0, status_text@)));
                    line
                }
            },
        }
    }

    /// Hands out the next page to fetch: entries whose URL was already
    /// visited are dropped from the front of the frontier, and the first
    /// other one is taken off and marked visited. None once the frontier is
    /// drained.
    pub fn next_page(&mut self) -> (r: Option<Location>)
        requires
            old(self).wf(),
        ensures
            final(self).wf(),
            final(self).base == old(self).base,
            final(self).errors == old(self).errors,
            final(self).pdf_status == old(self).pdf_status,
            ({
                let f = location_views(old(self).frontier@);
                let k = first_fresh(f, text_views(old(self).visited@));
                match r {
                    Some(p) => {
                        &&& k < f.len()
                        &&& p@ == f[k]
                        &&& !text_views(old(self).visited@).contains(p@.0)
                        &&& text_views(final(self).visited@) == text_views(old(self).visited@).push(p@.0)
                        &&& final(self).frontier@ == old(self).frontier@.skip(k + 1)
                    },
                    None => {
                        &&& k == f.len()
                        &&& final(self).frontier@.len() == 0
                        &&& final(self).visited == old(self).visited
                    },
                }
            }),
    {
        let ghost start = self.frontier@;
        let ghost seen = text_views(self.visited@);
        let ghost mut dropped: int = 0;
        loop
            invariant
                self.wf(),
                self.base == old(self).base,
                self.errors == old(self).errors,
                self.pdf_status == old(self).pdf_status,
                self.visited == old(self).visited,
                start == old(self).frontier@,
                seen == text_views(old(self).visited@),
                0 <= dropped <= start.len(),
                self.frontier@ == start.skip(dropped),
                forall|j: int| 0 <= j < dropped ==> seen.contains(#[trigger] start[j]@.0),
            decreases self.frontier@.len(),
        {
            match self.frontier.pop_front() {
                None => {
                    proof {
                        lemma_first_fresh(location_views(start), seen, dropped);
                    }
                    return None;
                },
                Some(p) => {
                    assert(start[dropped] == p);
                    if has_text(&self.visited, &p.href) {
                        proof {
                            dropped = dropped + 1;
                        }
                        assert(self.frontier@ =~= start.skip(dropped));
                    } else {
                        proof {
                            lemma_first_fresh(location_views(start), seen, dropped);
                        }
                        self.visited.push(p.href.clone());
                        assert(text_views(self.visited@) =~= seen.push(p@.0));
                        assert(self.frontier@ =~= start.skip(dropped + 1));
                        return Some(p);
                    }
                },
            }
        }
    }
}

} // verus!

verus! {

/// What a visited page hands back: its PDF links, to validate now, and its
/// event log lines.
pub struct PageVisit {
    pub pdfs: Vec<Location>,
    pub log: Vec<String>,
}

impl Crawler {
    fn enqueue_unvisited(&mut self, links: &Vec<Location>)
        requires
            old(self).wf(),
        ensures
            final(self).wf(),
            final(self).base == old(self).base,
            final(self).visited == old(self).visited,
            final(self).errors == old(self).errors,
            final(self).pdf_status == old(self).pdf_status,
            location_views(final(self).frontier@) == location_views(old(self).frontier@) + unvisited(
                location_views(links@),
                text_views(old(self).visited@),
            ),
    {
        let ghost start = location_views(self.frontier@);
        let ghost seen = text_views(self.visited@);
        let ghost all = location_views(links@);
        let mut i: usize = 0;
        while i < links.len()
            invariant
                self.wf(),
                self.base == old(self).base,
                self.visited == old(self).visited,
                self.errors == old(self).errors,
                self.pdf_status == old(self).pdf_status,
                start == location_views(old(self).frontier@),
                seen == text_views(old(self).visited@),
                all == location_views(links@),
                i <= links@.len(),
                location_views(self.frontier@) == start + unvisited(all.take(i as int), seen),
            decreases links@.len() - i,
        {
            let ghost prefix = all.take(i as int + 1);
            assert(prefix.drop_last() =~= all.take(i as int));
            assert(prefix.last() == links@[i as int]@);
            if !has_text(&self.visited, &links[i].href) {
                let ghost before = self.frontier@;
                let link = links[i].duplicate();
                self.frontier.push_back(link);
                proof {
                    lemma_location_views_push(before, link);
                }
            }
            assert(location_views(self.frontier@) =~= start + unvisited(prefix, seen));
            i = i + 1;
        }
        assert(all.take(links@.len() as int) =~= all);
    }

    /// Takes the reply to the GET of `page`: records its error where it
    /// failed; otherwise queues its in-scope page links that were not
    /// visited yet, in document order, and hands back its PDF links.
    pub fn visit_page(&mut self, page: &Location, reply: &PageReply) -> (r: PageVisit)
        requires
            old(self).wf(),
        ensures
            final(self).wf(),
            final(self).base == old(self).base,
            final(self).visited == old(self).visited,
            final(self).pdf_status == old(self).pdf_status,
            text_views(r.log@) == reply_log(page@.0, *reply),
            match reply_error(page@.0, *reply) {
                Some(e) => text_views(final(self).errors@) == text_views(old(self).errors@).push(e),
                None => final(self).errors == old(self).errors,
            },
            location_views(final(self).frontier@) == location_views(old(self).frontier@) + unvisited(
                reply_links(page@, old(self).base@, *reply, LinkKind::Page),
                text_views(old(self).visited@),
            ),
            location_views(r.pdfs@) == reply_links(page@, old(self).base@, *reply, LinkKind::Pdf),
    {
        let check = check_page(page, &self.base, reply);
        match check.result {
            FetchResult::Failed { error } => {
                self.errors.push(error);
                assert(text_views(self.errors@) =~= text_views(old(self).errors@).push(error@));
                assert(location_views(self.frontier@) =~= location_views(old(self).frontier@) + unvisited(
                    Seq::empty(),
                    text_views(old(self).visited@),
                ));
                let pdfs: Vec<Location> = Vec::new();
                assert(location_views(pdfs@) =~= Seq::empty());
                PageVisit { pdfs, log: check.log }
            },
            FetchResult::Links { pages, pdfs } => {
                self.enqueue_unvisited(&pages);
                PageVisit { pdfs, log: check.log }
            },
        }
    }

    /// Takes the reply to the trailing-slash probe of a page, made at `alt`:
    /// records its error, if any. Nothing is queued. Returns the line for the
    /// event log.
    pub fn record_probe(&mut self, alt: &Location, reply: &StatusReply) -> (r: String)
        requires
            old(self).wf(),
        ensures
            final(self).wf(),
            final(self).base == old(self).base,
            final(self).frontier == old(self).frontier,
            final(self).visited == old(self).visited,
            final(self).pdf_status == old(self).pdf_status,
            r@ == probe_log(alt@.0, *reply),
            match probe_error(alt@.0, *reply) {
                Some(e) => text_views(final(self).errors@) == text_views(old(self).errors@).push(e),
                None => final(self).errors == old(self).errors,
            },
    {
        let check = check_probe(alt, reply);
        match check.error {
            Some(e) => {
                self.errors.push(e);
                assert(text_views(self.errors@) =~= text_views(old(self).errors@).push(e@));
            },
            None => {},
        }
        check.log
    }

    /// Takes the outcome of validating the PDF at `pdf`: appends its status
    /// lines to the PDF status log and, unless it is valid, to the error log.
    /// Returns the lines for the event log.
    pub fn record_pdf(&mut self, pdf: &Location, outcome: &PdfOutcome) -> (r: Vec<String>)
        requires
            old(self).wf(),
        ensures
            final(self).wf(),
            final(self).base == old(self).base,
            final(self).frontier == old(self).frontier,
            final(self).visited == old(self).visited,
            text_views(final(self).pdf_status@) == text_views(old(self).pdf_status@) + outcome_lines(pdf@.0, *outcome),
            text_views(final(self).errors@) == text_views(old(self).errors@) + outcome_errors(pdf@.0, *outcome),
            text_views(r@) == outcome_log(pdf@.0, *outcome),
    {
        let mut lines = pdf_status_lines(pdf, outcome);
        let mut errs = pdf_error_lines(pdf, outcome);
        let ghost l = lines@;
        let ghost e = errs@;
        self.pdf_status.append(&mut lines);
        self.errors.append(&mut errs);
        assert(text_views(self.pdf_status@) =~= text_views(old(self).pdf_status@) + text_views(l));
        assert(text_views(self.errors@) =~= text_views(old(self).errors@) + text_views(e));
        pdf_log_lines(pdf, outcome)
    }

    /// The process exit status of the run so far: 0 iff no error was
    /// recorded.
    pub fn exit_code(&self) -> (r: u8)
        ensures
            r == exit_status(text_views(self.errors@)),
    {
        if self.errors.len() == 0 {
            0
        } else {
            1
        }
    }

    /// The closing report: the PDF status lines under a header, then the
    /// verdict, followed on failure by every recorded error.
    pub fn report(&self) -> (r: Vec<String>)
        ensures
            text_views(r@) == report_spec(text_views(self.pdf_status@), text_views(self.errors@)),
    {
        let mut out: Vec<String> = Vec::new();
        out.push(String::from_str("--- PDF status ---"));
        let mut i: usize = 0;
        while i < self.pdf_status.len()
            invariant
                i <= self.pdf_status@.len(),
                text_views(out@) == seq![report_header()] + text_views(self.pdf_status@).take(i as int),
            decreases self.pdf_status@.len() - i,
        {
            let ghost before = out@;
            let line = self.pdf_status[i].clone();
            out.push(line);
            proof {
                lemma_text_views_push(before, line);
            }
            assert(text_views(out@) =~= seq![report_header()] + text_views(self.pdf_status@).take(i as int + 1));
            i = i + 1;
        }
        assert(text_views(self.pdf_status@).take(self.pdf_status@.len() as int) =~= text_views(self.pdf_status@));
        if self.errors.len() == 0 {
            out.push(String::from_str("Site check completed successfully"));
            assert(text_views(out@) =~= report_spec(text_views(self.pdf_status@), text_views(self.errors@)));
            return out;
        }
        out.push(String::from_str("Site check completed with errors"));
        let ghost head = text_views(out@);
        let mut j: usize = 0;
        while j < self.errors.len()
            invariant
                j <= self.errors@.len(),
                text_views(out@) == head + text_views(self.errors@).take(j as int),
            decreases self.errors@.len() - j,
        {
            let ghost before = out@;
            let line = self.errors[j].clone();
            out.push(line);
            proof {
                lemma_text_views_push(before, line);
            }
            assert(text_views(out@) =~= head + text_views(self.errors@).take(j as int + 1));
            j = j + 1;
        }
        assert(text_views(self.errors@).take(self.errors@.len() as int) =~= text_views(self.errors@));
        assert(text_views(out@) =~= report_spec(text_views(self.pdf_status@), text_views(self.errors@)));
        out
    }
}

} // verus!

verus! {

/// At most one fetch per URL: where `next_page` hands out a page, its URL
/// was not handed out before, and the URLs handed out stay free of
/// duplicates once it is added.
pub proof fn lemma_fetch_at_most_once(
    frontier: Seq<UrlParts>,
    visited: Seq<Seq<char>>,
)
    requires
        visited.no_duplicates(),
    ensures
        0 <= first_fresh(frontier, visited) <= frontier.len(),
        ({
            let k = first_fresh(frontier, visited);
            k < frontier.len() ==> {
                &&& !visited.contains(frontier[k].0)
                &&& visited.push(frontier[k].0).no_duplicates()
            }
        }),
    decreases frontier.len(),
{
    let k = first_fresh(frontier, visited);
    if frontier.len() > 0 && visited.contains(frontier[0].0) {
        lemma_fetch_at_most_once(frontier.drop_first(), visited);
        if k < frontier.len() {
            assert(frontier[k] == frontier.drop_first()[k - 1]);
        }
    }
    if k < frontier.len() {
        let u = frontier[k].0;
        assert(!visited.contains(u));
        let grown = visited.push(u);
        assert forall|i: int, j: int| 0 <= i < grown.len() && 0 <= j < grown.len() && i != j
            implies grown[i] != grown[j] by {
            if i == visited.len() {
                assert(grown[j] == visited[j]);
            } else if j == visited.len() {
                assert(grown[i] == visited[i]);
            } else {
                assert(grown[i] == visited[i] && grown[j] == visited[j]);
            }
        }
    }
}

/// Every link of `links` that `unvisited` keeps is one of `links` and was
/// not visited.
pub proof fn lemma_unvisited_subset(
    links: Seq<UrlParts>,
    visited: Seq<Seq<char>>,
)
    ensures
        forall|i: int| 0 <= i < unvisited(links, visited).len() ==> {
            &&& links.contains(#[trigger] unvisited(links, visited)[i])
            &&& !visited.contains(unvisited(links, visited)[i].0)
        },
    decreases links.len(),
{
    if links.len() > 0 {
        lemma_unvisited_subset(links.drop_last(), visited);
        let prev = unvisited(links.drop_last(), visited);
        assert forall|i: int| 0 <= i < prev.len() implies links.contains(#[trigger] prev[i]) by {
            let w = choose|w: int| 0 <= w < links.drop_last().len() && links.drop_last()[w] == prev[i];
            assert(links[w] == prev[i]);
        }
        assert(links[links.len() - 1] == links.last());
    }
}

/// Scope containment and self-link exclusion: every link that a page visit
/// queues, and every PDF link it hands back, shares the base's domain, has a
/// path under the base's path, and is not the visited page itself.
pub proof fn lemma_visit_stays_in_scope(
    page: UrlParts,
    base: UrlParts,
    reply: PageReply,
    visited: Seq<Seq<char>>,
)
    ensures
        forall|i: int| 0 <= i < unvisited(reply_links(page, base, reply, LinkKind::Page), visited).len() ==> {
            let l = #[trigger] unvisited(reply_links(page, base, reply, LinkKind::Page), visited)[i];
            &&& in_scope(l, base)
            &&& l.0 != page.0
            &&& !visited.contains(l.0)
        },
        forall|i: int| 0 <= i < reply_links(page, base, reply, LinkKind::Pdf).len() ==> {
            let l = #[trigger] reply_links(page, base, reply, LinkKind::Pdf)[i];
            &&& in_scope(l, base)
            &&& l.0 != page.0
            &&& pdf_path(l.2)
        },
{
    let pages = reply_links(page, base, reply, LinkKind::Page);
    let pdfs = reply_links(page, base, reply, LinkKind::Pdf);
    lemma_unvisited_subset(pages, visited);
    if let PageReply::Response { body, .. } = reply {
        if let Ok(html) = body {
            lemma_found_links_scoped(page, base, anchor_hrefs(html@), LinkKind::Page);
            lemma_found_links_scoped(page, base, anchor_hrefs(html@), LinkKind::Pdf);
        }
    }
    assert forall|i: int| 0 <= i < unvisited(pages, visited).len() implies {
        let l = #[trigger] unvisited(pages, visited)[i];
        &&& in_scope(l, base)
        &&& l.0 != page.0
        &&& !visited.contains(l.0)
    } by {
        let l = unvisited(pages, visited)[i];
        let w = choose|w: int| 0 <= w < pages.len() && pages[w] == l;
        assert(pages[w] == l);
    }
    assert forall|i: int| 0 <= i < pdfs.len() implies {
        let l = #[trigger] pdfs[i];
        &&& in_scope(l, base)
        &&& l.0 != page.0
        &&& pdf_path(l.2)
    } by {
        assert(kind_of(pdfs[i], base) == LinkKind::Pdf);
    }
}

/// The exit status is 0 exactly when the error log is empty; any recorded
/// error makes it 1.
pub proof fn lemma_exit_status(errors: Seq<Seq<char>>, more: Seq<Seq<char>>)
    ensures
        exit_status(errors) == 0 <==> errors.len() == 0,
        errors.len() > 0 ==> exit_status(errors) == 1,
        more.len() > 0 ==> exit_status(errors + more) == 1,
{
}

} // verus!

verus! {

/// A whole run fetches at most once per URL it can meet: every page that
/// `next_page` hands out is added to the visited list, which stays free of
/// duplicates (`wf`), so where every URL handed out lies in a finite set
/// `urls` (the seeds and the in-scope URLs reachable from them), the number
/// of fetches is at most the size of `urls`.
pub proof fn lemma_fetches_bounded(visited: Seq<Seq<char>>, urls: Set<Seq<char>>)
    requires
        visited.no_duplicates(),
        urls.finite(),
        forall|i: int| 0 <= i < visited.len() ==> urls.contains(#[trigger] visited[i]),
    ensures
        visited.len() <= urls.len(),
{
    visited.unique_seq_to_set();
    assert forall|u: Seq<char>| visited.to_set().contains(u) implies urls.contains(u) by {
        let i = choose|i: int| 0 <= i < visited.len() && visited[i] == u;
        assert(urls.contains(visited[i]));
    }
    vstd::set_lib::lemma_len_subset(visited.to_set(), urls);
}

} // verus!
