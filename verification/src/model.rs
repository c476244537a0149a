//! The record types of a metadata document.
//!
//! A document describes one synthetic collectible item: a name, a symbol,
//! a description, an image URI, a list of display attributes and a
//! `Property` block with the served files and the creator royalty split.
//! Optional fields that are absent are left out of the serialized document
//! altogether; they are never emitted as `null`.

use vstd::prelude::*;

verus! {

/// One display attribute of a document: a trait name and its value.
#[derive(Debug, Clone)]
pub struct Attribute {
    pub trait_type: String,
    pub value: String,
}

/// One creator entry: a wallet address and its royalty share in percent.
#[derive(Debug, Clone)]
pub struct Creator {
    pub address: String,
    pub share: u16,
}

/// One served file: its URI, its MIME type, and whether a CDN serves it.
#[derive(Debug, Clone)]
pub struct FileAttr {
    pub uri: String,
    pub file_type: String,
    pub cdn: bool,
}

/// The `properties` block of a document.
#[derive(Debug, Clone)]
pub struct Property {
    pub files: Vec<FileAttr>,
    pub creators: Option<Vec<Creator>>,
    pub category: Option<String>,
}

/// A whole metadata document.
#[derive(Debug, Clone)]
pub struct Metadata {
    pub name: String,
    pub symbol: Option<String>,
    pub description: String,
    pub image: String,
    pub animation_url: Option<String>,
    pub external_url: Option<String>,
    pub attributes: Vec<Attribute>,
    pub properties: Property,
}

/// True exactly when the flag is unset; a `cdn` flag that is false is left
/// out of the serialized document.
pub fn bool_is_false(value: &bool) -> (r: bool)
    ensures
        r == !*value,
{
    !value
}

} // verus!
