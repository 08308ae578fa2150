use cv_site::fixtures::required_companies;
use cv_site::location::Location;
use cv_site::months::inline_start_from;
use cv_site::sitemap::{sitemap_entries, sitemap_seeds};
use cv_site::InlineStartError;

#[test]
fn inline_start_from_english_entry() {
    assert_eq!(inline_start_from("* March 2024 – Present").unwrap(), (2024, 3));
    assert_eq!(inline_start_from("# CV\n\n  *  October   2019 — Present (5 years)\r\n").unwrap(), (2019, 10));
}

#[test]
fn inline_start_from_russian_entry() {
    assert_eq!(inline_start_from("* Март 2024 – Настоящее время").unwrap(), (2024, 3));
}

#[test]
fn inline_start_skips_lines_that_do_not_match() {
    let text = "* Smarch 2020 – Present\n* Lead – 2019\n- May 2018 – Present\n* July 2021 – Present\n";
    assert_eq!(inline_start_from(text).unwrap(), (2021, 7));
}

#[test]
fn inline_start_errors() {
    assert!(matches!(inline_start_from("* Not a valid entry"), Err(InlineStartError::Parse)));
    assert!(matches!(inline_start_from("* Smarch 2024 – Present"), Err(InlineStartError::Parse)));
    assert!(matches!(inline_start_from("* March 2024 - Present"), Err(InlineStartError::Parse)));
    assert!(matches!(inline_start_from(""), Err(InlineStartError::Parse)));
    assert!(matches!(inline_start_from("* March 20x4 – Present\n* May 2020 – Present"), Err(InlineStartError::Parse)));
    assert!(matches!(inline_start_from("* March 99999999999 – Present"), Err(InlineStartError::Parse)));
    assert_eq!(inline_start_from("* March -12 – Present").unwrap(), (-12, 3));
    assert_eq!(inline_start_from("* March +2024 – Present").unwrap(), (2024, 3));
}

#[test]
fn sitemap_lines_are_trimmed_and_filtered() {
    let text = "https://example.com/CV/\n\n  # comment\n  ru/  \r\n#https://example.com/x\nrust-developer/";
    assert_eq!(sitemap_entries(text), vec!["https://example.com/CV/", "ru/", "rust-developer/"]);
    assert!(sitemap_entries("").is_empty());
    assert!(sitemap_entries("\n \n# only comments\n").is_empty());
}

#[test]
fn sitemap_seeds_resolve_against_base() {
    let base = Location::parse("https://example.com/CV/").unwrap();
    let seeds = sitemap_seeds(&base, "https://example.com/CV/\nru/\nhttp://[bad\n");
    let hrefs: Vec<&str> = seeds.iter().map(|l| l.href.as_str()).collect();
    assert_eq!(hrefs, vec!["https://example.com/CV/", "https://example.com/CV/ru/"]);
}

#[test]
fn companies_come_from_role_headings() {
    let md = "# Alexey\n\n### Team Lead @ Acme Corp\ntext\n  ### CTO  @  Globex \n#### Note @ Nobody\n###NoSpace @ X\n### @ Missing role\n### Engineer @ Acme Corp\n### Lonely heading\n";
    assert_eq!(required_companies(md), vec!["Acme Corp".to_string(), "Globex".to_string()]);
    assert!(required_companies("").is_empty());
}
