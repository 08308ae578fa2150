use cv_site::crawl::Crawler;
use reqwest::StatusCode;
use cv_site::location::{classify, is_pdf_path, LinkKind, Location};
use cv_site::page::{accept_link, check_page, extract_links, without_fragment, FetchResult, PageReply};
use cv_site::probe::{alternate_path, check_probe, probe_target, StatusReply};

fn loc(text: &str) -> Location {
    Location::parse(text).expect("absolute URL")
}

fn hrefs(items: &[&str]) -> Vec<String> {
    items.iter().map(|s| s.to_string()).collect()
}

fn status_text(status: u16) -> String {
    let reason = match status {
        200 => "OK",
        301 => "Moved Permanently",
        404 => "Not Found",
        500 => "Internal Server Error",
        _ => "",
    };
    format!("{} {}", status, reason)
}

fn page_reply(status: u16, html: &str) -> PageReply {
    PageReply::Response { status, status_text: status_text(status), body: Ok(html.to_string()) }
}

fn answered(status: u16) -> StatusReply {
    StatusReply::Answered { status, status_text: status_text(status) }
}

#[test]
fn parse_reads_domain_and_path() {
    let l = loc("https://example.com/CV/");
    assert_eq!(l.href, "https://example.com/CV/");
    assert_eq!(l.host.as_deref(), Some("example.com"));
    assert_eq!(l.path, "/CV/");
    assert!(Location::parse("not a url").is_none());
}

#[test]
fn join_resolves_relative_references() {
    let page = loc("https://example.com/CV/ru/");
    assert_eq!(page.join("about").unwrap().href, "https://example.com/CV/ru/about");
    assert_eq!(page.join("../doc.pdf").unwrap().path, "/CV/doc.pdf");
    assert_eq!(page.join("/x").unwrap().href, "https://example.com/x");
}

#[test]
fn classify_scope_and_type() {
    let base = loc("https://example.com/CV/");
    assert_eq!(classify(&loc("https://example.com/CV/about"), &base), LinkKind::Page);
    assert_eq!(classify(&loc("https://example.com/CV/a.PDF"), &base), LinkKind::Pdf);
    assert_eq!(classify(&loc("https://example.com/CV/a.pdf"), &base), LinkKind::Pdf);
    assert_eq!(classify(&loc("https://example.com/other/a.pdf"), &base), LinkKind::Foreign);
    assert_eq!(classify(&loc("https://other.com/CV/about"), &base), LinkKind::Foreign);
    assert!(is_pdf_path("/x.PdF"));
    assert!(!is_pdf_path("/x.pdfs"));
    assert!(!is_pdf_path("pdf"));
}

#[test]
fn classification_is_repeatable() {
    let base = loc("https://example.com/CV/");
    let link = loc("https://example.com/CV/Belyakov_en.pdf");
    let first = classify(&link, &base);
    for _ in 0..3 {
        assert_eq!(classify(&link, &base), first);
    }
}

#[test]
fn fragments_are_stripped() {
    assert_eq!(without_fragment("/CV/about#top"), "/CV/about");
    assert_eq!(without_fragment("#top"), "");
    assert_eq!(without_fragment("/CV/"), "/CV/");
}

#[test]
fn extraction_keeps_scope_and_drops_self_links() {
    let page = loc("https://example.com/CV/");
    let base = loc("https://example.com/CV/");
    let found = hrefs(&[
        "https://example.com/CV/",
        "/CV/about",
        "#top",
        "",
        "https://other.com/CV/x",
        "/elsewhere/",
        "/CV/doc.PDF#page=2",
        "/CV/#section",
        "http://[bad",
    ]);
    let (pages, pdfs) = extract_links(&page, &base, &found);
    let pages: Vec<&str> = pages.iter().map(|l| l.href.as_str()).collect();
    let pdfs: Vec<&str> = pdfs.iter().map(|l| l.href.as_str()).collect();
    assert_eq!(pages, vec!["https://example.com/CV/about"]);
    assert_eq!(pdfs, vec!["https://example.com/CV/doc.PDF"]);
}

#[test]
fn seed_page_queues_one_new_entry() {
    let base = loc("https://example.com/CV/");
    let mut crawler = Crawler::new(loc("https://example.com/CV/"));
    let page = crawler.next_page().expect("seed");
    assert_eq!(page.href, "https://example.com/CV/");
    let html = r#"<html><body><a href="https://example.com/CV/">Home</a><a href="/CV/about">About</a></body></html>"#;
    let visit = crawler.visit_page(&page, &page_reply(200, html));
    assert!(visit.pdfs.is_empty());
    assert_eq!(visit.log, vec!["OK 200 OK: https://example.com/CV/".to_string()]);
    let queued: Vec<&str> = crawler.frontier.iter().map(|l| l.href.as_str()).collect();
    assert_eq!(queued, vec!["https://example.com/CV/about"]);
    assert!(crawler.errors.is_empty());
    assert_eq!(crawler.exit_code(), 0);
    assert_eq!(base.href, crawler.base.href);
}

#[test]
fn check_page_reads_anchors_in_document_order() {
    let page = loc("https://example.com/CV/");
    let html = r#"<p><a href="b.pdf">B</a> <a name="x">no href</a> <a href="a">A</a> <a href="https://example.com/CV/c">C</a></p>"#;
    let check = check_page(&page, &page, &page_reply(200, html));
    match check.result {
        FetchResult::Links { pages, pdfs } => {
            let pages: Vec<&str> = pages.iter().map(|l| l.href.as_str()).collect();
            assert_eq!(pages, vec!["https://example.com/CV/a", "https://example.com/CV/c"]);
            assert_eq!(pdfs.len(), 1);
            assert_eq!(pdfs[0].href, "https://example.com/CV/b.pdf");
        }
        FetchResult::Failed { .. } => panic!("page should load"),
    }
}

#[test]
fn failing_pages_are_errors() {
    let page = loc("https://example.com/CV/gone");
    let check = check_page(&page, &page, &page_reply(404, "<a href='x'>x</a>"));
    match check.result {
        FetchResult::Failed { error } => assert_eq!(error, "https://example.com/CV/gone returned 404 Not Found"),
        FetchResult::Links { .. } => panic!("404 is a failure"),
    }
    assert_eq!(check.log, vec!["ERROR 404 Not Found: https://example.com/CV/gone".to_string()]);

    let check = check_page(&page, &page, &PageReply::Unreachable { error: "timed out".to_string() });
    match check.result {
        FetchResult::Failed { error } => assert_eq!(error, "https://example.com/CV/gone exception timed out"),
        FetchResult::Links { .. } => panic!("no response is a failure"),
    }
    assert_eq!(check.log, vec!["ERROR exception: https://example.com/CV/gone - timed out".to_string()]);

    let reply = PageReply::Response { status: 200, status_text: status_text(200), body: Err("invalid utf-8".to_string()) };
    let check = check_page(&page, &page, &reply);
    match check.result {
        FetchResult::Failed { error } => assert_eq!(error, "https://example.com/CV/gone text error invalid utf-8"),
        FetchResult::Links { .. } => panic!("undecodable body is a failure"),
    }
    assert_eq!(
        check.log,
        vec![
            "OK 200 OK: https://example.com/CV/gone".to_string(),
            "ERROR text: https://example.com/CV/gone - invalid utf-8".to_string(),
        ]
    );
}

#[test]
fn each_url_is_fetched_once() {
    let mut crawler = Crawler::new(loc("https://example.com/CV/"));
    let first = crawler.next_page().unwrap();
    let html = r#"<a href="a">A</a><a href="a">A again</a><a href="/CV/">home</a>"#;
    crawler.visit_page(&first, &page_reply(200, html));
    assert_eq!(crawler.frontier.len(), 2);
    let second = crawler.next_page().unwrap();
    assert_eq!(second.href, "https://example.com/CV/a");
    crawler.visit_page(&second, &page_reply(200, r#"<a href="/CV/">home</a>"#));
    assert!(crawler.next_page().is_none());
    assert_eq!(crawler.visited, vec!["https://example.com/CV/".to_string(), "https://example.com/CV/a".to_string()]);
    assert!(crawler.frontier.is_empty());
}

#[test]
fn probe_toggles_trailing_slash() {
    assert_eq!(alternate_path("/CV/about"), Some("/CV/about/".to_string()));
    assert_eq!(alternate_path("/CV/"), Some("/CV".to_string()));
    assert_eq!(alternate_path("/CV//"), Some("/CV".to_string()));
    assert_eq!(alternate_path("/"), None);
    assert_eq!(alternate_path("//"), None);
    let alt = probe_target(&loc("https://example.com/CV/about")).unwrap();
    assert_eq!(alt.href, "https://example.com/CV/about/");
    let alt = probe_target(&loc("https://example.com/CV/?q=1")).unwrap();
    assert_eq!(alt.href, "https://example.com/CV?q=1");
    assert!(probe_target(&loc("https://example.com/")).is_none());
}

#[test]
fn failed_probe_is_one_error_and_nothing_else() {
    let mut crawler = Crawler::new(loc("https://example.com/CV/about"));
    let page = crawler.next_page().unwrap();
    crawler.visit_page(&page, &page_reply(200, "<p>no links</p>"));
    let alt = probe_target(&page).unwrap();
    assert_eq!(alt.href, "https://example.com/CV/about/");
    let line = crawler.record_probe(&alt, &answered(404));
    assert_eq!(line, "ERROR 404 Not Found: https://example.com/CV/about/");
    assert_eq!(crawler.errors, vec!["https://example.com/CV/about/ returned 404 Not Found".to_string()]);
    assert_eq!(crawler.visited, vec!["https://example.com/CV/about".to_string()]);
    assert!(crawler.frontier.is_empty());
    assert_eq!(crawler.exit_code(), 1);
}

#[test]
fn probe_outcomes() {
    let alt = loc("https://example.com/CV/x/");
    let ok = check_probe(&alt, &answered(301));
    assert!(ok.error.is_none());
    assert_eq!(ok.log, "OK 301 Moved Permanently: https://example.com/CV/x/");
    let down = check_probe(&alt, &StatusReply::Unreachable { error: "dns".to_string() });
    assert_eq!(down.error.as_deref(), Some("https://example.com/CV/x/ exception dns"));
    assert_eq!(down.log, "ERROR exception: https://example.com/CV/x/ - dns");
}

#[test]
fn speculative_seeds() {
    let mut crawler = Crawler::new(loc("https://example.com/CV/"));
    let ru = loc("https://example.com/CV/ru/");
    assert_eq!(crawler.offer_seed(ru, &answered(200)), "OK 200 OK: https://example.com/CV/ru/");
    assert_eq!(crawler.frontier.len(), 2);
    let missing = loc("https://example.com/CV/de/");
    assert_eq!(crawler.offer_seed(missing, &answered(404)), "SKIP 404 Not Found: https://example.com/CV/de/");
    assert_eq!(crawler.frontier.len(), 2);
    assert!(crawler.errors.is_empty());
    let broken = loc("https://example.com/CV/fr/");
    assert_eq!(crawler.offer_seed(broken, &answered(500)), "ERROR 500 Internal Server Error: https://example.com/CV/fr/");
    assert_eq!(crawler.errors, vec!["https://example.com/CV/fr/ returned 500 Internal Server Error".to_string()]);
    assert_eq!(crawler.frontier.len(), 2);
}

#[test]
fn report_lists_status_then_verdict() {
    let crawler = Crawler::new(loc("https://example.com/CV/"));
    assert_eq!(
        crawler.report(),
        vec!["--- PDF status ---".to_string(), "Site check completed successfully".to_string()]
    );
    assert_eq!(crawler.exit_code(), 0);
}

#[test]
fn accept_link_needs_scope_and_another_url() {
    let page = loc("https://example.com/CV/about");
    let base = loc("https://example.com/CV/");
    assert!(accept_link(&page, &base, &loc("https://example.com/CV/")));
    assert!(!accept_link(&page, &base, &loc("https://example.com/CV/about")));
    assert!(!accept_link(&page, &base, &loc("https://example.com/blog/")));
    assert!(!accept_link(&page, &base, &loc("https://other.example/CV/")));
}

#[test]
fn status_lines_use_the_status_display() {
    let mut crawler = Crawler::new(loc("https://example.com/CV/about"));
    let page = crawler.next_page().unwrap();
    let alt = probe_target(&page).unwrap();
    let code = StatusCode::NOT_FOUND;
    let reply = StatusReply::Answered { status: code.as_u16(), status_text: code.to_string() };
    crawler.record_probe(&alt, &reply);
    assert_eq!(crawler.errors, vec!["https://example.com/CV/about/ returned 404 Not Found".to_string()]);
}
