//! A verified extraction-and-normalization pipeline for a paginated
//! product-listing crawl.
//!
//! The library owns the decision logic of the crawl: turning the raw text
//! fields of one product fragment into a strict record, expanding colour
//! variants, resolving free-form date expressions, deduplicating records
//! across pages, and deciding when pagination stops.  Fetching pages,
//! evaluating structural selectors and serializing the final collection are
//! outside collaborators and live with the caller.

pub mod chars;
pub mod text;
pub mod numbers;
pub mod dates;
pub mod record;
pub mod pipeline;
pub mod dedup;
pub mod crawl;
