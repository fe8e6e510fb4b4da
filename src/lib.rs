//! Counting the page URLs listed by a sitemap or by the sitemaps of a sitemap index.
pub mod normalize;
pub mod report;
pub mod scan;
pub mod survey;
pub mod xml;

pub use normalize::clean_xml_content;
