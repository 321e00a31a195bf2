//! A file carver: given a raw byte image, recover embedded files of known
//! formats (BMP, WAV, PNG, JPEG) by locating magic-byte signatures with a
//! multi-pattern matcher and walking each format's grammar from the match
//! offset to delimit the payload.
//!
//! The crate is organised as the carver's pipeline is:
//! byte cursor and parser contract ([`deserializer`]), one parser per format
//! ([`filetypes`]), the two generic carving strategies ([`carvers`]), the
//! corpus of file-type descriptors ([`filetypes::corpus`]), the pattern
//! matcher the scanner drives ([`patterns`]), the scanner that turns matcher
//! hits into carves ([`search`]), the audit records that describe every
//! artefact ([`audit`]), and the text rendering behind file numbering and
//! the audit trail ([`digits`]).

pub mod audit;
pub mod carvers;
pub mod deserializer;
pub mod digits;
pub mod filetypes;
pub mod patterns;
pub mod search;
