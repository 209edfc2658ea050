//! Zeiver walks open directories: web pages that list the files of a
//! directory. This library holds what a walk decides, verified with Verus:
//! how links are cleaned, joined and told apart, how a page is recognized as
//! a kind of directory and which links it gives, how a walk goes from page to
//! page, and what the driver does with the files it finds.
//!
//! The library fetches nothing and writes nothing. Its owner fetches a page
//! and hands it over; the library says what to fetch next.

pub mod bindings;
pub mod driver;
pub mod file;
pub mod od;
pub mod parser;
pub mod patterns;
pub mod scraper;
pub mod text;
