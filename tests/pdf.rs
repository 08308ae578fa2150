use cv_site::crawl::Crawler;
use cv_site::location::Location;
use cv_site::pdf::{
    check_pdf_document, check_pdf_response, pdf_log_lines, pdf_status_lines, PdfConfig, PdfDocument,
    PdfOutcome, PdfReply, PdfStep,
};

fn loc(text: &str) -> Location {
    Location::parse(text).expect("absolute URL")
}

fn plain_config() -> PdfConfig {
    PdfConfig {
        max_bytes: Some(1_000_000),
        expected_pages: None,
        require_metadata: false,
        required_en: Vec::new(),
        required_ru: Vec::new(),
    }
}

fn content_config() -> PdfConfig {
    PdfConfig {
        max_bytes: Some(1_000_000),
        expected_pages: Some(1),
        require_metadata: true,
        required_en: vec!["Alexey Belyakov".to_string(), "Acme".to_string(), "Globex".to_string()],
        required_ru: vec!["Алексей Беляков".to_string()],
    }
}

fn pdf_body() -> Vec<u8> {
    b"%PDF-1.7\n1 0 obj << >> endobj\ntrailer << >>\n%%EOF\n".to_vec()
}

fn status_text(status: u16) -> String {
    let reason = match status {
        200 => "OK",
        404 => "Not Found",
        503 => "Service Unavailable",
        _ => "",
    };
    format!("{} {}", status, reason)
}

fn answered(status: u16, content_type: Option<&str>, body: Vec<u8>) -> PdfReply {
    PdfReply::Answered {
        status,
        status_text: status_text(status),
        content_type: content_type.map(|c| c.to_string()),
        body,
    }
}

fn finished(step: PdfStep) -> PdfOutcome {
    match step {
        PdfStep::Finished(outcome) => outcome,
        PdfStep::ReadDocument => panic!("validation should be over"),
    }
}

#[test]
fn html_instead_of_pdf_is_wrong_content_type() {
    let url = loc("https://example.com/CV/Belyakov_en.pdf");
    let outcome = finished(check_pdf_response(&plain_config(), &url, &answered(200, Some("text/html"), b"<html>".to_vec())));
    assert!(matches!(outcome, PdfOutcome::WrongContentType));
    let mut crawler = Crawler::new(loc("https://example.com/CV/"));
    let log = crawler.record_pdf(&url, &outcome);
    assert_eq!(crawler.pdf_status, vec!["ERROR not pdf: https://example.com/CV/Belyakov_en.pdf".to_string()]);
    assert_eq!(crawler.errors.len(), 1);
    assert_eq!(log, vec!["PDF ERROR not pdf: https://example.com/CV/Belyakov_en.pdf".to_string()]);
    assert_eq!(crawler.exit_code(), 1);
    assert_eq!(
        crawler.report(),
        vec![
            "--- PDF status ---".to_string(),
            "ERROR not pdf: https://example.com/CV/Belyakov_en.pdf".to_string(),
            "Site check completed with errors".to_string(),
            "ERROR not pdf: https://example.com/CV/Belyakov_en.pdf".to_string(),
        ]
    );
}

#[test]
fn content_type_failure_stops_before_structure() {
    let url = loc("https://example.com/CV/a.pdf");
    let outcome = finished(check_pdf_response(&plain_config(), &url, &answered(200, Some("text/plain"), b"junk".to_vec())));
    assert!(matches!(outcome, PdfOutcome::WrongContentType));
    let outcome = finished(check_pdf_response(&plain_config(), &url, &answered(200, None, b"junk".to_vec())));
    assert!(matches!(outcome, PdfOutcome::NoContentType));
}

#[test]
fn response_checks_in_order() {
    let url = loc("https://example.com/CV/a.pdf");
    let cfg = plain_config();
    let outcome = finished(check_pdf_response(&cfg, &url, &PdfReply::Unreachable { error: "refused".to_string() }));
    assert!(matches!(outcome, PdfOutcome::Unreachable { ref error } if error == "refused"));
    let outcome = finished(check_pdf_response(&cfg, &url, &answered(503, None, Vec::new())));
    assert!(matches!(outcome, PdfOutcome::BadStatus { status: 503, ref status_text } if status_text == "503 Service Unavailable"));
    assert_eq!(
        pdf_status_lines(&url, &outcome),
        vec!["ERROR 503 Service Unavailable: https://example.com/CV/a.pdf".to_string()]
    );
    let mut big = pdf_body();
    big.resize(1_000_001, b' ');
    let outcome = finished(check_pdf_response(&cfg, &url, &answered(200, Some("application/pdf"), big)));
    assert!(matches!(outcome, PdfOutcome::Oversized { size: 1_000_001, max: 1_000_000 }));
    let outcome = finished(check_pdf_response(&cfg, &url, &answered(200, Some("application/pdf"), b"%PDF-1.7 no end".to_vec())));
    assert!(matches!(outcome, PdfOutcome::Corrupt));
    let outcome = finished(check_pdf_response(&cfg, &url, &answered(200, Some("application/pdf; charset=binary"), pdf_body())));
    assert!(matches!(outcome, PdfOutcome::Valid));
    let step = check_pdf_response(&content_config(), &url, &answered(200, Some("application/pdf"), pdf_body()));
    assert!(matches!(step, PdfStep::ReadDocument));
}

#[test]
fn missing_company_is_named_alone() {
    let url = loc("https://example.com/CV/Belyakov_en.pdf");
    let doc = PdfDocument {
        pages: 1,
        title: Some("CV".to_string()),
        author: Some("Alexey Belyakov".to_string()),
        text: "Alexey Belyakov. Engineer at Acme.".to_string(),
    };
    let outcome = check_pdf_document(&content_config(), &url, &doc);
    match &outcome {
        PdfOutcome::MissingText { missing } => assert_eq!(missing, &vec!["Globex".to_string()]),
        _ => panic!("expected a missing text outcome"),
    }
    assert_eq!(
        pdf_status_lines(&url, &outcome),
        vec!["ERROR missing text 'Globex': https://example.com/CV/Belyakov_en.pdf".to_string()]
    );
    let mut crawler = Crawler::new(loc("https://example.com/CV/"));
    crawler.record_pdf(&url, &outcome);
    assert_eq!(crawler.errors.len(), 1);
    assert_eq!(crawler.frontier.len(), 1);
}

#[test]
fn document_checks() {
    let cfg = content_config();
    let en = loc("https://example.com/CV/Belyakov_en.pdf");
    let ru = loc("https://example.com/CV/Belyakov_ru.pdf");
    let good = PdfDocument {
        pages: 1,
        title: Some("CV".to_string()),
        author: Some("A".to_string()),
        text: "Alexey Belyakov, Acme, Globex".to_string(),
    };
    assert!(matches!(check_pdf_document(&cfg, &en, &good), PdfOutcome::Valid));
    let two_pages = PdfDocument { pages: 2, ..good };
    let outcome = check_pdf_document(&cfg, &en, &two_pages);
    assert!(matches!(outcome, PdfOutcome::WrongPageCount { actual: 2, expected: 1 }));
    assert_eq!(
        pdf_status_lines(&en, &outcome),
        vec!["ERROR page count 2 (expected 1): https://example.com/CV/Belyakov_en.pdf".to_string()]
    );
    let no_meta = PdfDocument { pages: 1, title: Some(String::new()), author: None, text: String::new() };
    let outcome = check_pdf_document(&cfg, &en, &no_meta);
    match &outcome {
        PdfOutcome::MissingMetadata { fields } => assert_eq!(fields, &vec!["Title".to_string(), "Author".to_string()]),
        _ => panic!("expected missing metadata"),
    }
    assert_eq!(pdf_status_lines(&en, &outcome).len(), 2);
    let russian = PdfDocument { pages: 1, title: Some("Резюме".to_string()), author: Some("А".to_string()), text: "Алексей Беляков".to_string() };
    assert!(matches!(check_pdf_document(&cfg, &ru, &russian), PdfOutcome::Valid));
    let outcome = check_pdf_document(&cfg, &en, &russian);
    match &outcome {
        PdfOutcome::MissingText { missing } => assert_eq!(missing.len(), 3),
        _ => panic!("expected missing text"),
    }
}

#[test]
fn outcome_lines() {
    let url = loc("https://example.com/CV/a.pdf");
    assert_eq!(pdf_status_lines(&url, &PdfOutcome::Valid), vec!["OK: https://example.com/CV/a.pdf".to_string()]);
    assert_eq!(pdf_log_lines(&url, &PdfOutcome::Valid), vec!["PDF OK: https://example.com/CV/a.pdf".to_string()]);
    assert_eq!(
        pdf_status_lines(&url, &PdfOutcome::BadStatus { status: 404, status_text: status_text(404) }),
        vec!["ERROR 404 Not Found: https://example.com/CV/a.pdf".to_string()]
    );
    assert_eq!(
        pdf_log_lines(&url, &PdfOutcome::NoContentType),
        vec!["PDF ERROR no content-type: https://example.com/CV/a.pdf".to_string()]
    );
    assert_eq!(
        pdf_status_lines(&url, &PdfOutcome::Unreachable { error: "reset".to_string() }),
        vec!["ERROR exception reset: https://example.com/CV/a.pdf".to_string()]
    );
    assert_eq!(
        pdf_log_lines(&url, &PdfOutcome::Unreachable { error: "reset".to_string() }),
        vec!["PDF ERROR exception: https://example.com/CV/a.pdf - reset".to_string()]
    );
    assert_eq!(
        pdf_status_lines(&url, &PdfOutcome::Oversized { size: 20, max: 10 }),
        vec!["ERROR too large (20 bytes, limit 10): https://example.com/CV/a.pdf".to_string()]
    );
    assert_eq!(
        pdf_status_lines(&url, &PdfOutcome::Corrupt),
        vec!["ERROR corrupt pdf: https://example.com/CV/a.pdf".to_string()]
    );
    let mut crawler = Crawler::new(loc("https://example.com/CV/"));
    crawler.record_pdf(&url, &PdfOutcome::Valid);
    assert_eq!(crawler.pdf_status, vec!["OK: https://example.com/CV/a.pdf".to_string()]);
    assert!(crawler.errors.is_empty());
    assert_eq!(crawler.exit_code(), 0);
}
