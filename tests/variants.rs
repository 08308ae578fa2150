use cv_site::months::{capitalize_first, russian_month_name};
use cv_site::variants::{typst_file_name, typst_source_for, AnchorMatch, PdfVariant, VariantInfo};

fn anchor(variant: PdfVariant, label: &str) -> AnchorMatch {
    AnchorMatch {
        prefix: "Belyakov_en".to_string(),
        variant,
        attrs_before_href: String::new(),
        attrs_after_href: String::new(),
        wrap_prefix: None,
        wrap_suffix: None,
        trailing_break: None,
        label_text: label.to_string(),
        start: 0,
        end: 10,
    }
}

#[test]
fn variant_names() {
    assert_eq!(PdfVariant::from_str("light"), Some(PdfVariant::Light));
    assert_eq!(PdfVariant::from_str("dark"), Some(PdfVariant::Dark));
    assert_eq!(PdfVariant::from_str("Light"), None);
}

#[test]
fn variant_labels_fall_back() {
    let mut info = VariantInfo::new();
    assert!(!info.has_variant(PdfVariant::Light));
    assert_eq!(info.label_for(PdfVariant::Light), "Light PDF");
    assert_eq!(info.label_for(PdfVariant::Dark), "Dark PDF");
    assert_eq!(info.href_for("cv", PdfVariant::Dark), None);
    info.assign(anchor(PdfVariant::Dark, "Download (dark)"));
    assert!(info.has_variant(PdfVariant::Dark));
    assert!(!info.has_variant(PdfVariant::Light));
    assert_eq!(info.label_for(PdfVariant::Light), "Download (dark)");
    assert_eq!(info.href_for("cv", PdfVariant::Dark), Some("cv_dark.pdf".to_string()));
    assert_eq!(info.href_for("cv", PdfVariant::Light), None);
    info.assign(anchor(PdfVariant::Light, "Download"));
    assert_eq!(info.label_for(PdfVariant::Light), "Download");
    assert_eq!(info.label_for(PdfVariant::Dark), "Download (dark)");
    assert_eq!(info.href_for("cv", PdfVariant::Light), Some("cv_light.pdf".to_string()));
}

#[test]
fn typst_sources() {
    assert_eq!(typst_source_for("typst/en/Belyakov_en_light.pdf").unwrap(), "typst/en/Belyakov_en.typ");
    assert_eq!(typst_source_for("typst/ru/Belyakov_ru_dark.pdf").unwrap(), "typst/ru/Belyakov_ru_dark.typ");
    assert_eq!(typst_source_for("a.pdf").unwrap(), "a.typ");
    assert_eq!(typst_source_for("typst/en/notes.txt").unwrap_err(), "Unsupported PDF name: notes.txt");
    assert_eq!(typst_source_for("typst/..").unwrap_err(), "Invalid PDF file name: typst/..");
    assert_eq!(typst_file_name("x_light.pdf"), Some("x.typ".to_string()));
    assert_eq!(typst_file_name(".pdf"), Some(".typ".to_string()));
    assert_eq!(typst_file_name("x.PDF"), None);
}

#[test]
fn russian_month_names() {
    assert_eq!(russian_month_name(1), Some("январь"));
    assert_eq!(russian_month_name(3), Some("март"));
    assert_eq!(russian_month_name(12), Some("декабрь"));
    assert_eq!(russian_month_name(0), None);
    assert_eq!(russian_month_name(13), None);
}

#[test]
fn capitalize_first_letter() {
    assert_eq!(capitalize_first("март"), "Март");
    assert_eq!(capitalize_first("march 2024"), "March 2024");
    assert_eq!(capitalize_first(""), "");
    assert_eq!(capitalize_first("ßx"), "SSx");
}
