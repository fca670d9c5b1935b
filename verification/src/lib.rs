//! Structured documents made of content blocks, typed relations between
//! blocks, and the small language in which a block declares such relations.
//!
//! A [`Document`] is an ordered, flat collection of [`Block`]s. A block holds
//! text, bytes, or the source of the relations language, which
//! [`parse_relations`] reads into [`Relation`]s. The two ends of a relation
//! name blocks of the same document or refer, by `elf://` references, to
//! blocks of other documents; such references are checked for their form and
//! never resolved. Documents are written and read as JSON.
//!
//! Every function states what it computes over mathematical models of the
//! data, and is proved to compute it.

pub mod attributes;
pub mod block;
pub mod document;
pub mod endpoint;
pub mod error;
pub mod interface;
pub mod json;
pub mod relation;
pub mod relations_parser;
pub mod text;
pub mod wire;

pub use attributes::Attributes;
pub use block::{Block, BlockContent};
pub use document::{Document, DocumentMetadata};
pub use endpoint::{
    classify_endpoint, validate_block_id, validate_elf_ref, BlockId, ElfRef, Endpoint,
};
pub use error::{RelationsSyntaxError, SyntaxErrorKind, TypesError};
pub use interface::{DefaultTypeInterface, ParserInterface, ReferenceResolver, TypeInterface};
pub use relation::Relation;
pub use relations_parser::parse_relations;
pub use wire::{deserialize_document, serialize_document};
