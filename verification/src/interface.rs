//! The interfaces through which other layers reach this crate.

use crate::block::{block_fault, block_fault_message, block_valid, Block};
use crate::document::Document;
use crate::endpoint::ElfRef;
use crate::error::TypesError;
use crate::relation::{relation_fault, relation_fault_message, relation_valid, Relation};
use crate::wire::{deserialize_document, document_read, document_text, serialize_document};
use vstd::prelude::*;

verus! {

/// What a layer that stores or synchronizes documents asks of this crate.
/// An implementation may add checks of its own: the trait promises nothing
/// about when a call succeeds.
pub trait TypeInterface: Send + Sync {
    /// Checks the rules of a block.
    fn validate_block(&self, block: &Block) -> Result<(), TypesError>;

    /// Writes a document as text.
    fn serialize_document(&self, doc: &Document) -> Result<String, TypesError>;

    /// Reads a document from text.
    fn deserialize_document(&self, content: &str) -> Result<Document, TypesError>;

    /// Checks the rules of a relation.
    fn validate_relation(&self, relation: &Relation) -> Result<(), TypesError>;
}

/// What a layer that takes in source text asks of a parser.
pub trait ParserInterface: Send + Sync {
    /// Reads a whole document from its source text.
    fn parse_file(&self, content: &str) -> Result<Document, TypesError>;

    /// Reads the content of one block of the given type.
    fn parse_block(&self, content: &str, block_type: &str) -> Result<Block, TypesError>;

    /// Reads the relations that a text of the relations language declares.
    fn parse_relations(&self, content: &str) -> Result<Vec<Relation>, TypesError>;
}

/// The capability to follow a reference into another document. This crate
/// checks the form of references and carries them; it never follows one. The
/// layer that stores or synchronizes documents supplies this capability, and
/// answers `TypesError::NotFound` where the reference leads nowhere.
pub trait ReferenceResolver {
    /// The block that the reference leads to.
    fn resolve(&self, reference: &ElfRef) -> Result<Block, TypesError>;
}

/// The interface that does what the types of this crate say, and no more.
#[derive(Debug, Clone, Copy)]
pub struct DefaultTypeInterface;

impl DefaultTypeInterface {
    pub fn new() -> (r: Self)
        ensures
            r == DefaultTypeInterface,
    {
        DefaultTypeInterface
    }
}

impl Default for DefaultTypeInterface {
    fn default() -> (r: Self)
        ensures
            r == DefaultTypeInterface,
    {
        DefaultTypeInterface
    }
}

impl TypeInterface for DefaultTypeInterface {
    fn validate_block(&self, block: &Block) -> (r: Result<(), TypesError>)
        ensures
            r is Ok <==> block_valid(block@),
            match block_fault(block@) {
                None => r is Ok,
                Some(fault) => r matches Err(TypesError::BlockValidation { message }) && message@
                    == block_fault_message(fault, block@),
            },
    {
        block.validate()
    }

    fn serialize_document(&self, doc: &Document) -> (r: Result<String, TypesError>)
        ensures
            r is Ok,
            r matches Ok(text) ==> text@ == document_text(doc@),
    {
        serialize_document(doc)
    }

    fn deserialize_document(&self, content: &str) -> (r: Result<Document, TypesError>)
        ensures
            match document_read(content@) {
                Some(document) => r matches Ok(d) && d@ == document,
                None => r matches Err(TypesError::Serialization { .. }),
            },
    {
        deserialize_document(content)
    }

    fn validate_relation(&self, relation: &Relation) -> (r: Result<(), TypesError>)
        ensures
            r is Ok <==> relation_valid(relation@),
            match relation_fault(relation@) {
                None => r is Ok,
                Some(fault) => r matches Err(TypesError::RelationValidation { message })
                    && message@ == relation_fault_message(fault, relation@),
            },
    {
        relation.validate()
    }
}

} // verus!
