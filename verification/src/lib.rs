//! Emission of rich compile-time error fragments.
//!
//! The library builds a structured error description (a headline message, an
//! optional inline label, ordered notes, and an optional pair of source-span
//! anchors) and renders it as a self-contained token fragment. Spliced into
//! expression position, the fragment declares an unsatisfiable capability
//! trait carrying the description in a `#[diagnostic::on_unimplemented]`
//! attribute and forces a resolution failure whose reported span is pinned by
//! the two anchor tokens.

pub mod error;
pub mod laws;
pub mod model;
pub mod stream;

pub use error::Error;
pub use model::SpanPair;

