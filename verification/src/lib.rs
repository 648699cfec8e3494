//! Typed XML serialization with pluggable per-field text adapters.
//!
//! Records are converted to and from an XML text form built from a tree of
//! elements with attributes.  Individual field kinds (clock durations, civil
//! timestamps, boolean flags) use fixed human-readable textual encodings
//! provided by the adapters under [`with`], and absent optional values are
//! uniformly rendered as the empty string.

pub mod default;
pub mod record;
pub mod text;
pub mod with;
pub mod xml;
