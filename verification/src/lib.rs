//! Builds the metadata documents that the Marinade Leader server hands out:
//! a fixed-shape JSON document for each index, together with the decimal
//! formatting and index parsing that the HTTP surface needs.

mod dec;
mod document;
mod json;
mod model;
mod parse;

pub use dec::decimal_string;
pub use dec::lemma_decimal_no_leading_zero;
pub use dec::push_decimal;
pub use document::lemma_document_text;
pub use document::metadata_document;
pub use document::metadata_for;
pub use json::metadata_to_json;
pub use parse::lemma_decimal_round_trip;
pub use parse::parse_index;

pub use model::Attribute;
pub use model::Creator;
pub use model::FileAttr;
pub use model::Metadata;
pub use model::Property;
pub use model::bool_is_false;
