//! The PDF Validator.
//!
//! Checks run in a fixed order and stop at the first failure: HTTP status,
//! Content-Type, size, structure (the file's framing: signature and
//! end-of-file marker), then, where configured, page count,
//! metadata and required text. The first five look at the response alone
//! ([`check_pdf_response`]); the last three need the document as a PDF
//! reader sees it ([`check_pdf_document`]), and are reached only when the
//! response passed.

use vstd::prelude::*;
use crate::location::Location;
use crate::page::{failure_status, is_failure_status};
use crate::text::{
    bytes_in, cat, cat3, cat4, char_vec, contains_bytes, contains_text, decimal, decimal_text,
    occurs_in, single_line, text_views,
};

verus! {

/// Thresholds and requirements of the validator. `None`, `false` or an empty
/// list leaves a check out.
pub struct PdfConfig {
    /// Largest accepted body, in bytes.
    pub max_bytes: Option<u64>,
    /// Number of pages each document must have.
    pub expected_pages: Option<u64>,
    /// Whether the document information must give a title and an author.
    pub require_metadata: bool,
    /// Strings that the text of an English document must contain.
    pub required_en: Vec<String>,
    /// Strings that the text of a Russian document must contain.
    pub required_ru: Vec<String>,
}

/// What came back from a GET of a PDF.
pub enum PdfReply {
    /// No response: DNS, connection or timeout failure, with its description.
    Unreachable { error: String },
    /// A response: its status and that status's display form (the code and
    /// its reason phrase, `404 Not Found`), its Content-Type header where it has a
    /// readable one, and its body.
    Answered { status: u16, status_text: String, content_type: Option<String>, body: Vec<u8> },
}

/// A PDF as a reader sees it: page count, document information and text.
pub struct PdfDocument {
    pub pages: u64,
    pub title: Option<String>,
    pub author: Option<String>,
    pub text: String,
}

/// The outcome of validating one PDF.
pub enum PdfOutcome {
    Valid,
    Unreachable { error: String },
    BadStatus { status: u16, status_text: String },
    NoContentType,
    WrongContentType,
    Oversized { size: u64, max: u64 },
    Corrupt,
    WrongPageCount { actual: u64, expected: u64 },
    MissingMetadata { fields: Vec<String> },
    MissingText { missing: Vec<String> },
}

/// Where validation stands once the response has been looked at.
pub enum PdfStep {
    /// Validation is over.
    Finished(PdfOutcome),
    /// The response passed; the configured document checks come next.
    ReadDocument,
}

/// `%PDF-`, the first bytes of every PDF file.
pub open spec fn pdf_signature() -> Seq<u8> {
    seq![0x25u8, 0x50u8, 0x44u8, 0x46u8, 0x2du8]
}

/// `%%EOF`, the marker that closes a PDF file.
pub open spec fn pdf_end_marker() -> Seq<u8> {
    seq![0x25u8, 0x25u8, 0x45u8, 0x4fu8, 0x46u8]
}

/// The structural check: the body starts with the PDF signature and holds
/// the end-of-file marker. This is the framing of a PDF file only; it does
/// not parse the objects, cross-reference table or trailer in between.
pub open spec fn framed_pdf(body: Seq<u8>) -> bool {
    pdf_signature().is_prefix_of(body) && bytes_in(body, pdf_end_marker())
}

/// A Content-Type header that names a PDF.
pub open spec fn pdf_content_type(ct: Seq<char>) -> bool {
    occurs_in(ct, "application/pdf"@)
}

/// A document is taken to be Russian when its path holds `_ru` or `/ru/`.
pub open spec fn russian_path(path: Seq<char>) -> bool {
    occurs_in(path, "_ru"@) || occurs_in(path, "/ru/"@)
}

/// The strings required of the document at `path`.
pub open spec fn required_for(config: PdfConfig, path: Seq<char>) -> Seq<Seq<char>> {
    if russian_path(path) {
        text_views(config.required_ru@)
    } else {
        text_views(config.required_en@)
    }
}

/// Whether any document check is configured for the document at `path`.
pub open spec fn document_checks(config: PdfConfig, path: Seq<char>) -> bool {
    config.expected_pages is Some || config.require_metadata || required_for(config, path).len() > 0
}

/// What `check_pdf_response` owes: the first failing check, in order, or
/// the next step.
pub open spec fn response_step(config: PdfConfig, path: Seq<char>, reply: PdfReply, step: PdfStep) -> bool {
    match reply {
        PdfReply::Unreachable { error } => step matches PdfStep::Finished(PdfOutcome::Unreachable { error: e }) && e@ == error@,
        PdfReply::Answered { status, status_text, content_type, body } => {
            if failure_status(status) {
                step matches PdfStep::Finished(PdfOutcome::BadStatus { status: s, status_text: t }) && s == status && t@ == status_text@
            } else if content_type is None {
                step matches PdfStep::Finished(PdfOutcome::NoContentType)
            } else if !pdf_content_type(content_type->0@) {
                step matches PdfStep::Finished(PdfOutcome::WrongContentType)
            } else if config.max_bytes is Some && body@.len() > config.max_bytes->0 {
                step matches PdfStep::Finished(PdfOutcome::Oversized { size, max })
                    && size == body@.len() && max == config.max_bytes->0
            } else if !framed_pdf(body@) {
                step matches PdfStep::Finished(PdfOutcome::Corrupt)
            } else if document_checks(config, path) {
                step is ReadDocument
            } else {
                step matches PdfStep::Finished(PdfOutcome::Valid)
            }
        },
    }
}

fn has_russian_path(path: &str) -> (r: bool)
    ensures
        r == russian_path(path@),
{
    let v = char_vec(path);
    contains_text(&v, &char_vec("_ru")) || contains_text(&v, &char_vec("/ru/"))
}

fn is_framed_pdf(body: &Vec<u8>) -> (r: bool)
    ensures
        r == framed_pdf(body@),
{
    let signature: Vec<u8> = vec![0x25u8, 0x50u8, 0x44u8, 0x46u8, 0x2du8];
    let marker: Vec<u8> = vec![0x25u8, 0x25u8, 0x45u8, 0x4fu8, 0x46u8];
    assert(signature@ =~= pdf_signature());
    assert(marker@ =~= pdf_end_marker());
    if body.len() < 5 {
        return false;
    }
    let mut i: usize = 0;
    while i < 5
        invariant
            body@.len() >= 5,
            signature@ == pdf_signature(),
            i <= 5,
            forall|j: int| 0 <= j < i ==> body@[j] == signature@[j],
        decreases 5 - i,
    {
        if body[i] != signature[i] {
            return false;
        }
        i = i + 1;
    }
    assert(signature@ =~= body@.subrange(0, 5));
    contains_bytes(body, &marker)
}

fn required_list<'a>(config: &'a PdfConfig, path: &str) -> (r: &'a Vec<String>)
    ensures
        text_views(r@) == required_for(*config, path@),
{
    if has_russian_path(path) {
        &config.required_ru
    } else {
        &config.required_en
    }
}

fn has_document_checks(config: &PdfConfig, path: &str) -> (r: bool)
    ensures
        r == document_checks(*config, path@),
{
    config.expected_pages.is_some() || config.require_metadata || required_list(config, path).len() > 0
}

/// Runs the checks that need only the response, in order: reachability,
/// status, Content-Type, size and structure. A failure ends validation
/// there; later checks never see the body. The structure check is the
/// framing check of `framed_pdf` (signature and end-of-file marker), not a
/// full parse of the document.
pub fn check_pdf_response(config: &PdfConfig, pdf: &Location, reply: &PdfReply) -> (r: PdfStep)
    ensures
        response_step(*config, pdf@.2, *reply, r),
{
    match reply {
        PdfReply::Unreachable { error } => PdfStep::Finished(PdfOutcome::Unreachable { error: error.clone() }),
        PdfReply::Answered { status, status_text, content_type, body } => {
            if is_failure_status(*status) {
                return PdfStep::Finished(PdfOutcome::BadStatus { status: *status, status_text: status_text.clone() });
            }
            let ct = match content_type {
                Some(ct) => ct,
                None => {
                    return PdfStep::Finished(PdfOutcome::NoContentType);
                },
            };
            if !contains_text(&char_vec(ct.as_str()), &char_vec("application/pdf")) {
                return PdfStep::Finished(PdfOutcome::WrongContentType);
            }
            match config.max_bytes {
                Some(max) => {
                    if body.len() as u64 > max {
                        return PdfStep::Finished(PdfOutcome::Oversized { size: body.len() as u64, max });
                    }
                },
                None => {},
            }
            if !is_framed_pdf(body) {
                return PdfStep::Finished(PdfOutcome::Corrupt);
            }
            if has_document_checks(config, pdf.path.as_str()) {
                PdfStep::ReadDocument
            } else {
                PdfStep::Finished(PdfOutcome::Valid)
            }
        },
    }
}

} // verus!

verus! {

/// A metadata entry that is there and not empty.
pub open spec fn present(entry: Option<String>) -> bool {
    entry is Some && entry->0@.len() > 0
}

/// The names of the document information entries that are missing or empty,
/// title first.
pub open spec fn missing_fields(doc: PdfDocument) -> Seq<Seq<char>> {
    (if present(doc.title) { Seq::empty() } else { seq!["Title"@] })
        + (if present(doc.author) { Seq::empty() } else { seq!["Author"@] })
}

/// The strings of `required` that `text` does not contain, in order.
pub open spec fn absent_texts(required: Seq<Seq<char>>, text: Seq<char>) -> Seq<Seq<char>>
    decreases required.len(),
{
    if required.len() == 0 {
        Seq::empty()
    } else {
        let prev = absent_texts(required.drop_last(), text);
        if occurs_in(text, required.last()) {
            prev
        } else {
            prev.push(required.last())
        }
    }
}

/// What `check_pdf_document` owes: the first failing document check, in
/// order page count, metadata, text; every missing field and every missing
/// string is named.
pub open spec fn document_outcome(config: PdfConfig, path: Seq<char>, doc: PdfDocument, outcome: PdfOutcome) -> bool {
    if config.expected_pages is Some && doc.pages != config.expected_pages->0 {
        outcome matches PdfOutcome::WrongPageCount { actual, expected }
            && actual == doc.pages && expected == config.expected_pages->0
    } else if config.require_metadata && missing_fields(doc).len() > 0 {
        outcome matches PdfOutcome::MissingMetadata { fields } && text_views(fields@) == missing_fields(doc)
    } else if absent_texts(required_for(config, path), doc.text@).len() > 0 {
        outcome matches PdfOutcome::MissingText { missing }
            && text_views(missing@) == absent_texts(required_for(config, path), doc.text@)
    } else {
        outcome is Valid
    }
}

fn is_present(entry: &Option<String>) -> (r: bool)
    ensures
        r == present(*entry),
{
    match entry {
        Some(s) => s.unicode_len() > 0,
        None => false,
    }
}

fn absent_from(required: &Vec<String>, text: &str) -> (r: Vec<String>)
    ensures
        text_views(r@) == absent_texts(text_views(required@), text@),
{
    let hay = char_vec(text);
    let ghost all = text_views(required@);
    let mut out: Vec<String> = Vec::new();
    let mut i: usize = 0;
    while i < required.len()
        invariant
            all == text_views(required@),
            hay@ == text@,
            i <= required@.len(),
            text_views(out@) == absent_texts(all.take(i as int), text@),
        decreases required@.len() - i,
    {
        let ghost prefix = all.take(i as int + 1);
        assert(prefix.drop_last() =~= all.take(i as int));
        assert(prefix.last() == required@[i as int]@);
        if !contains_text(&hay, &char_vec(required[i].as_str())) {
            out.push(required[i].clone());
        }
        assert(text_views(out@) =~= absent_texts(prefix, text@));
        i = i + 1;
    }
    assert(all.take(required@.len() as int) =~= all);
    out
}

/// Runs the document checks that `config` asks for, in order: page count,
/// metadata, required text.
pub fn check_pdf_document(config: &PdfConfig, pdf: &Location, doc: &PdfDocument) -> (r: PdfOutcome)
    ensures
        document_outcome(*config, pdf@.2, *doc, r),
{
    match config.expected_pages {
        Some(expected) => {
            if doc.pages != expected {
                return PdfOutcome::WrongPageCount { actual: doc.pages, expected };
            }
        },
        None => {},
    }
    if config.require_metadata {
        let mut fields: Vec<String> = Vec::new();
        if !is_present(&doc.title) {
            fields.push(String::from_str("Title"));
        }
        if !is_present(&doc.author) {
            fields.push(String::from_str("Author"));
        }
        assert(text_views(fields@) =~= missing_fields(*doc));
        if fields.len() > 0 {
            return PdfOutcome::MissingMetadata { fields };
        }
    }
    let missing = absent_from(required_list(config, pdf.path.as_str()), doc.text.as_str());
    if missing.len() > 0 {
        PdfOutcome::MissingText { missing }
    } else {
        PdfOutcome::Valid
    }
}

} // verus!

verus! {

/// Status line for a missing metadata entry.
pub open spec fn metadata_line(url: Seq<char>, field: Seq<char>) -> Seq<char> {
    "ERROR missing metadata "@ + field + (": "@ + url)
}

/// Status line for a missing required string.
pub open spec fn text_line(url: Seq<char>, missing: Seq<char>) -> Seq<char> {
    "ERROR missing text '"@ + missing + ("': "@ + url)
}

/// The PDF status lines of an outcome for the PDF at `url`: one `OK` line,
/// or one `ERROR` line per failure found.
pub open spec fn outcome_lines(url: Seq<char>, outcome: PdfOutcome) -> Seq<Seq<char>> {
    match outcome {
        PdfOutcome::Valid => seq!["OK: "@ + url],
        PdfOutcome::Unreachable { error } => seq!["ERROR exception "@ + error@ + ": "@ + url],
        PdfOutcome::BadStatus { status_text, .. } => seq!["ERROR "@ + status_text@ + ": "@ + url],
        PdfOutcome::NoContentType => seq!["ERROR no content-type: "@ + url],
        PdfOutcome::WrongContentType => seq!["ERROR not pdf: "@ + url],
        PdfOutcome::Oversized { size, max } => seq![
            "ERROR too large ("@ + decimal(size as nat) + " bytes, limit "@ + decimal(max as nat) + "): "@ + url,
        ],
        PdfOutcome::Corrupt => seq!["ERROR corrupt pdf: "@ + url],
        PdfOutcome::WrongPageCount { actual, expected } => seq![
            "ERROR page count "@ + decimal(actual as nat) + " (expected "@ + decimal(expected as nat) + "): "@ + url,
        ],
        PdfOutcome::MissingMetadata { fields } => text_views(fields@).map_values(|f: Seq<char>| metadata_line(url, f)),
        PdfOutcome::MissingText { missing } => text_views(missing@).map_values(|m: Seq<char>| text_line(url, m)),
    }
}

/// The error log lines of an outcome: none for a valid PDF, else its
/// status lines.
pub open spec fn outcome_errors(url: Seq<char>, outcome: PdfOutcome) -> Seq<Seq<char>> {
    if outcome is Valid {
        Seq::empty()
    } else {
        outcome_lines(url, outcome)
    }
}

/// The event log lines of an outcome: its status lines marked `PDF`, but
/// for a transport failure, which is logged with its description last.
pub open spec fn outcome_log(url: Seq<char>, outcome: PdfOutcome) -> Seq<Seq<char>> {
    match outcome {
        PdfOutcome::Unreachable { error } => seq!["PDF ERROR exception: "@ + url + " - "@ + error@],
        _ => outcome_lines(url, outcome).map_values(|l: Seq<char>| "PDF "@ + l),
    }
}

fn surround(prefix: &str, items: &Vec<String>, suffix: &str) -> (r: Vec<String>)
    ensures
        text_views(r@) == text_views(items@).map_values(|m: Seq<char>| prefix@ + m + suffix@),
{
    let mut out: Vec<String> = Vec::new();
    let mut i: usize = 0;
    while i < items.len()
        invariant
            i <= items@.len(),
            out@.len() == i,
            forall|k: int| 0 <= k < i ==> #[trigger] out@[k]@ == prefix@ + items@[k]@ + suffix@,
        decreases items@.len() - i,
    {
        out.push(cat3(prefix, items[i].as_str(), suffix));
        i = i + 1;
    }
    assert(text_views(out@) =~= text_views(items@).map_values(|m: Seq<char>| prefix@ + m + suffix@));
    out
}

/// The PDF status lines for `outcome` on the PDF at `pdf`.
pub fn pdf_status_lines(pdf: &Location, outcome: &PdfOutcome) -> (r: Vec<String>)
    ensures
        text_views(r@) == outcome_lines(pdf@.0, *outcome),
{
    let url = pdf.href.as_str();
    match outcome {
        PdfOutcome::Valid => single_line(cat("OK: ", url)),
        PdfOutcome::Unreachable { error } => {
            let mut s = cat3("ERROR exception ", error.as_str(), ": ");
            s.append(url);
            single_line(s)
        },
        PdfOutcome::BadStatus { status_text, .. } => single_line(cat4("ERROR ", status_text.as_str(), ": ", url)),
        PdfOutcome::NoContentType => single_line(cat("ERROR no content-type: ", url)),
        PdfOutcome::WrongContentType => single_line(cat("ERROR not pdf: ", url)),
        PdfOutcome::Oversized { size, max } => {
            let mut s = cat3("ERROR too large (", decimal_text(*size).as_str(), " bytes, limit ");
            s.append(decimal_text(*max).as_str());
            s.append("): ");
            s.append(url);
            single_line(s)
        },
        PdfOutcome::Corrupt => single_line(cat("ERROR corrupt pdf: ", url)),
        PdfOutcome::WrongPageCount { actual, expected } => {
            let mut s = cat3("ERROR page count ", decimal_text(*actual).as_str(), " (expected ");
            s.append(decimal_text(*expected).as_str());
            s.append("): ");
            s.append(url);
            single_line(s)
        },
        PdfOutcome::MissingMetadata { fields } => {
            let tail = cat(": ", url);
            surround("ERROR missing metadata ", fields, tail.as_str())
        },
        PdfOutcome::MissingText { missing } => {
            let tail = cat("': ", url);
            surround("ERROR missing text '", missing, tail.as_str())
        },
    }
}

/// The error log lines for `outcome` on the PDF at `pdf`.
pub fn pdf_error_lines(pdf: &Location, outcome: &PdfOutcome) -> (r: Vec<String>)
    ensures
        text_views(r@) == outcome_errors(pdf@.0, *outcome),
{
    if let PdfOutcome::Valid = outcome {
        let v: Vec<String> = Vec::new();
        assert(text_views(v@) =~= Seq::<Seq<char>>::empty());
        v
    } else {
        pdf_status_lines(pdf, outcome)
    }
}

/// The event log lines for `outcome` on the PDF at `pdf`.
pub fn pdf_log_lines(pdf: &Location, outcome: &PdfOutcome) -> (r: Vec<String>)
    ensures
        text_views(r@) == outcome_log(pdf@.0, *outcome),
{
    let url = pdf.href.as_str();
    if let PdfOutcome::Unreachable { error } = outcome {
        return single_line(cat4("PDF ERROR exception: ", url, " - ", error.as_str()));
    }
    let lines = pdf_status_lines(pdf, outcome);
    let r = surround("PDF ", &lines, "");
    proof {
        reveal_strlit("");
        assert forall|l: Seq<char>| #[trigger] ("PDF "@ + l + ""@) == "PDF "@ + l by {
            assert("PDF "@ + l + ""@ =~= "PDF "@ + l);
        }
        assert(text_views(r@) =~= outcome_lines(pdf@.0, *outcome).map_values(|l: Seq<char>| "PDF "@ + l));
    }
    r
}

} // verus!

verus! {

/// Checks run strictly in order: a PDF that fails the Content-Type check
/// (with a good status) ends there, whatever its body, so the size and
/// structure checks never see it; and validation reaches the document
/// checks only after status, Content-Type, size and structure all passed.
pub proof fn lemma_pdf_check_order(config: PdfConfig, path: Seq<char>, reply: PdfReply, step: PdfStep)
    requires
        response_step(config, path, reply, step),
    ensures
        (reply matches PdfReply::Answered { status, status_text, content_type, body }
            && !failure_status(status) && (content_type is None || !pdf_content_type(content_type->0@)))
            ==> (step matches PdfStep::Finished(PdfOutcome::NoContentType)
                || step matches PdfStep::Finished(PdfOutcome::WrongContentType)),
        step is ReadDocument ==> (reply matches PdfReply::Answered { status, status_text, content_type, body } && {
            &&& !failure_status(status)
            &&& content_type is Some && pdf_content_type(content_type->0@)
            &&& !(config.max_bytes is Some && body@.len() > config.max_bytes->0)
            &&& framed_pdf(body@)
            &&& document_checks(config, path)
        }),
        step matches PdfStep::Finished(PdfOutcome::Corrupt) ==> (reply matches PdfReply::Answered { status, status_text, content_type, body } && {
            &&& !failure_status(status)
            &&& content_type is Some && pdf_content_type(content_type->0@)
            &&& !framed_pdf(body@)
        }),
{
}

} // verus!

verus! {

/// Where `text` holds every string of `required`, none is absent.
pub proof fn lemma_none_absent(required: Seq<Seq<char>>, text: Seq<char>)
    requires
        forall|i: int| 0 <= i < required.len() ==> occurs_in(text, #[trigger] required[i]),
    ensures
        absent_texts(required, text) == Seq::<Seq<char>>::empty(),
    decreases required.len(),
{
    if required.len() > 0 {
        let p = required.drop_last();
        assert forall|i: int| 0 <= i < p.len() implies occurs_in(text, #[trigger] p[i]) by {
            assert(p[i] == required[i]);
        }
        lemma_none_absent(p, text);
        assert(occurs_in(text, required[required.len() - 1]));
    }
}

/// Where `text` holds every string of `required` but the one at `k`, that
/// one alone is absent.
pub proof fn lemma_one_absent(required: Seq<Seq<char>>, text: Seq<char>, k: int)
    requires
        0 <= k < required.len(),
        !occurs_in(text, required[k]),
        forall|i: int| 0 <= i < required.len() && i != k ==> occurs_in(text, #[trigger] required[i]),
    ensures
        absent_texts(required, text) == seq![required[k]],
    decreases required.len(),
{
    let p = required.drop_last();
    let last = required.len() - 1;
    if k == last {
        assert forall|i: int| 0 <= i < p.len() implies occurs_in(text, #[trigger] p[i]) by {
            assert(p[i] == required[i]);
        }
        lemma_none_absent(p, text);
        assert(Seq::<Seq<char>>::empty().push(required[k]) =~= seq![required[k]]);
    } else {
        assert forall|i: int| 0 <= i < p.len() && i != k implies occurs_in(text, #[trigger] p[i]) by {
            assert(p[i] == required[i]);
        }
        assert(p[k] == required[k]);
        lemma_one_absent(p, text, k);
        assert(occurs_in(text, required[last]));
    }
}

/// A document that has the page count and the metadata asked for, and whose
/// text holds every required string but one, `required_for(config,
/// path)[k]`, fails the content check with exactly one missing string,
/// that one, and gets exactly one status line, naming it.
pub proof fn lemma_one_missing_string(
    config: PdfConfig,
    path: Seq<char>,
    doc: PdfDocument,
    outcome: PdfOutcome,
    k: int,
    url: Seq<char>,
)
    requires
        document_outcome(config, path, doc, outcome),
        config.expected_pages is Some ==> doc.pages == config.expected_pages->0,
        config.require_metadata ==> present(doc.title) && present(doc.author),
        0 <= k < required_for(config, path).len(),
        !occurs_in(doc.text@, required_for(config, path)[k]),
        forall|i: int| 0 <= i < required_for(config, path).len() && i != k
            ==> occurs_in(doc.text@, #[trigger] required_for(config, path)[i]),
    ensures
        outcome matches PdfOutcome::MissingText { missing }
            && text_views(missing@) == seq![required_for(config, path)[k]],
        outcome_lines(url, outcome) == seq![text_line(url, required_for(config, path)[k])],
        outcome_errors(url, outcome) == seq![text_line(url, required_for(config, path)[k])],
{
    let req = required_for(config, path);
    lemma_one_absent(req, doc.text@, k);
    if config.require_metadata {
        assert(missing_fields(doc) =~= Seq::<Seq<char>>::empty());
    }
    if let PdfOutcome::MissingText { missing } = outcome {
        assert(text_views(missing@).map_values(|m: Seq<char>| text_line(url, m)) =~= seq![text_line(url, req[k])]);
    }
}

} // verus!
