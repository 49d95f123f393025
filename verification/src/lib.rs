//! Export serialization engine for prospect records.
//!
//! A `Prospect` is a strongly-typed snapshot of one collected business
//! record.  The crate parses a loosely-typed field map into a `Prospect`
//! through a total coercion layer, and renders an ordered list of
//! prospects into two stable text formats: a fixed 17-column CSV table
//! and a JSON array of nested objects.  Both renderings are verified
//! against spec-level models of the exact output text.

pub mod decimal;
pub mod numtext;
pub mod csv_export;
pub mod geo;
pub mod json_export;
pub mod metadata;
pub mod record;
pub mod text;

pub use csv_export::{encode_csv, serialize_prospects_csv};
pub use decimal::{Dec, dec_parse};
pub use geo::fast_cache_key;
pub use json_export::{encode_json, serialize_prospects_json};
pub use metadata::{PageMetadata, extract_html_metadata};
pub use record::{FieldValue, LooseRecord, Prospect, Signals, parse_prospect};

