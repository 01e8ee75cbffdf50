//! Verified extraction of place records from a map search-results feed.
//!
//! The library holds the parts with real design decisions: a pagination
//! driver that decides when the incrementally loading feed is exhausted or
//! stable, a record extractor that maps a captured markup tree into a fixed
//! schema by positional splitting and pattern matching, and the URL parsers
//! that recover an identifier and coordinates from marker URLs. Browser
//! I/O and floating-point conversion stay outside, handing plain values in
//! and out.

pub mod extract;
pub mod laws;
pub mod markup;
pub mod numbers;
pub mod pagination;
pub mod record;
pub mod text;
pub mod url_attr;
