//! Light and dark variants of the downloadable CV, as the site generator
//! pairs the links to them.

use vstd::prelude::*;
use crate::location::opt_view;
use crate::text::{cat, char_vec, has_suffix, same_text};

verus! {

/// A colour variant of a generated PDF.
#[derive(Clone, Copy, Debug, PartialEq, Eq, Structural)]
pub enum PdfVariant {
    Light,
    Dark,
}

impl PdfVariant {
    /// Reads a variant name: "light" or "dark".
    pub fn from_str(value: &str) -> (r: Option<PdfVariant>)
        ensures
            r == (if value@ == "light"@ {
                Some(PdfVariant::Light)
            } else if value@ == "dark"@ {
                Some(PdfVariant::Dark)
            } else {
                None
            }),
    {
        if same_text(value, "light") {
            Some(PdfVariant::Light)
        } else if same_text(value, "dark") {
            Some(PdfVariant::Dark)
        } else {
            None
        }
    }
}

/// A link to one variant of a PDF found in the generated HTML: the file
/// prefix before `_light.pdf` or `_dark.pdf`, the markup around the `href`,
/// the link text, and where the match lies in the HTML (`start..end`).
pub struct AnchorMatch {
    pub prefix: String,
    pub variant: PdfVariant,
    pub attrs_before_href: String,
    pub attrs_after_href: String,
    pub wrap_prefix: Option<String>,
    pub wrap_suffix: Option<String>,
    pub trailing_break: Option<String>,
    pub label_text: String,
    pub start: usize,
    pub end: usize,
}

/// The links to the variants of one PDF, at most one per variant.
pub struct VariantInfo {
    pub light: Option<AnchorMatch>,
    pub dark: Option<AnchorMatch>,
}

/// The label of an optional link.
pub open spec fn label_of(a: Option<AnchorMatch>) -> Option<Seq<char>> {
    match a {
        Some(m) => Some(m.label_text@),
        None => None,
    }
}

impl VariantInfo {
    /// No links yet.
    pub fn new() -> (r: VariantInfo)
        ensures
            r.light is None,
            r.dark is None,
    {
        VariantInfo { light: None, dark: None }
    }

    /// Records `anchor` as the link to its variant, in place of any earlier
    /// one.
    pub fn assign(&mut self, anchor: AnchorMatch)
        ensures
            anchor.variant == PdfVariant::Light ==> final(self).light == Some(anchor) && final(self).dark == old(self).dark,
            anchor.variant == PdfVariant::Dark ==> final(self).dark == Some(anchor) && final(self).light == old(self).light,
    {
        match anchor.variant {
            PdfVariant::Light => self.light = Some(anchor),
            PdfVariant::Dark => self.dark = Some(anchor),
        }
    }

    /// Whether a link to `variant` was recorded.
    pub fn has_variant(&self, variant: PdfVariant) -> (r: bool)
        ensures
            r == match variant {
                PdfVariant::Light => self.light is Some,
                PdfVariant::Dark => self.dark is Some,
            },
    {
        match variant {
            PdfVariant::Light => self.light.is_some(),
            PdfVariant::Dark => self.dark.is_some(),
        }
    }

    /// The label for `variant`: its own link's text, else the other
    /// variant's, else "Light PDF" or "Dark PDF".
    pub fn label_for(&self, variant: PdfVariant) -> (r: String)
        ensures
            r@ == match variant {
                PdfVariant::Light => match label_of(self.light) {
                    Some(l) => l,
                    None => match label_of(self.dark) {
                        Some(l) => l,
                        None => "Light PDF"@,
                    },
                },
                PdfVariant::Dark => match label_of(self.dark) {
                    Some(l) => l,
                    None => match label_of(self.light) {
                        Some(l) => l,
                        None => "Dark PDF"@,
                    },
                },
            },
    {
        let (own, other) = match variant {
            PdfVariant::Light => (&self.light, &self.dark),
            PdfVariant::Dark => (&self.dark, &self.light),
        };
        match own {
            Some(a) => a.label_text.clone(),
            None => match other {
                Some(a) => a.label_text.clone(),
                None => match variant {
                    PdfVariant::Light => String::from_str("Light PDF"),
                    PdfVariant::Dark => String::from_str("Dark PDF"),
                },
            },
        }
    }

    /// The file of `variant` under `prefix`, where a link to it was
    /// recorded: `<prefix>_light.pdf` or `<prefix>_dark.pdf`.
    pub fn href_for(&self, prefix: &str, variant: PdfVariant) -> (r: Option<String>)
        ensures
            opt_view(r) == match variant {
                PdfVariant::Light => if self.light is Some { Some(prefix@ + "_light.pdf"@) } else { None },
                PdfVariant::Dark => if self.dark is Some { Some(prefix@ + "_dark.pdf"@) } else { None },
            },
    {
        match variant {
            PdfVariant::Light => if self.light.is_some() {
                Some(cat(prefix, "_light.pdf"))
            } else {
                None
            },
            PdfVariant::Dark => if self.dark.is_some() {
                Some(cat(prefix, "_dark.pdf"))
            } else {
                None
            },
        }
    }
}

} // verus!

verus! {

/// The final component of a path, as `Path::file_name` reads it, where it
/// has one that is valid UTF-8.
pub uninterp spec fn path_file_name(path: Seq<char>) -> Option<Seq<char>>;

/// A path with its final component replaced, as `Path::with_file_name`
/// builds it.
pub uninterp spec fn path_with_file_name(path: Seq<char>, name: Seq<char>) -> Seq<char>;

/// Relies on `std::path::Path::file_name` (read back with `OsStr::to_str`).
#[verifier::external_body]
fn file_name_of(path: &str) -> (r: Option<String>)
    ensures
        opt_view(r) == path_file_name(path@),
{
    std::path::Path::new(path).file_name().and_then(|n| n.to_str()).map(|n| n.to_string())
}

/// Relies on `std::path::Path::with_file_name`; the result is built from
/// UTF-8 parts and read back whole.
#[verifier::external_body]
fn with_file_name(path: &str, name: &str) -> (r: String)
    ensures
        r@ == path_with_file_name(path@, name@),
{
    std::path::Path::new(path).with_file_name(name).to_string_lossy().into_owned()
}

/// The Typst source file name for a PDF file name: `<p>.typ` for
/// `<p>_light.pdf`, else for `<p>.pdf`; none for any other name.
pub open spec fn typst_name(pdf_name: Seq<char>) -> Option<Seq<char>> {
    if "_light.pdf"@.is_suffix_of(pdf_name) {
        Some(pdf_name.take(pdf_name.len() - "_light.pdf"@.len()) + ".typ"@)
    } else if ".pdf"@.is_suffix_of(pdf_name) {
        Some(pdf_name.take(pdf_name.len() - ".pdf"@.len()) + ".typ"@)
    } else {
        None
    }
}

/// The Typst source file name for the PDF file name `name`, as
/// `typst_name` says.
pub fn typst_file_name(name: &str) -> (r: Option<String>)
    ensures
        opt_view(r) == typst_name(name@),
{
    let v = char_vec(name);
    let light = char_vec("_light.pdf");
    let plain = char_vec(".pdf");
    if has_suffix(&v, &light) {
        Some(cat(name.substring_char(0, v.len() - light.len()), ".typ"))
    } else if has_suffix(&v, &plain) {
        Some(cat(name.substring_char(0, v.len() - plain.len()), ".typ"))
    } else {
        None
    }
}

/// The Typst source of the PDF at `pdf`: the file beside it named as
/// `typst_name` says. An error names a path without a file name, or a file
/// name that is not a PDF's.
pub fn typst_source_for(pdf: &str) -> (r: Result<String, String>)
    ensures
        match path_file_name(pdf@) {
            None => r matches Err(m) && m@ == "Invalid PDF file name: "@ + pdf@,
            Some(name) => match typst_name(name) {
                Some(t) => r matches Ok(p) && p@ == path_with_file_name(pdf@, t),
                None => r matches Err(m) && m@ == "Unsupported PDF name: "@ + name,
            },
        },
{
    match file_name_of(pdf) {
        None => Err(cat("Invalid PDF file name: ", pdf)),
        Some(name) => match typst_file_name(name.as_str()) {
            Some(t) => Ok(with_file_name(pdf, t.as_str())),
            None => Err(cat("Unsupported PDF name: ", name.as_str())),
        },
    }
}

} // verus!
