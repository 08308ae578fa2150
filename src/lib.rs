//! Crawl-and-validate engine for a small static CV site, with the date and
//! duration helpers the site generator uses.
//!
//! The logic is verified against its contracts. Network and file access stay
//! with the caller, which hands the library plain values and acts on what it
//! returns; URL handling and HTML parsing are left to the `url` and `scraper`
//! crates, behind small trusted wrappers whose contracts name what they return.

pub mod text;
pub mod location;
pub mod page;
pub mod probe;
pub mod pdf;
pub mod crawl;
pub mod sitemap;
pub mod fixtures;
pub mod months;
pub mod duration;
pub mod variants;

pub use duration::{format_duration_en, format_duration_ru};
pub use months::{month_from_en, month_from_ru, InlineStartError};
