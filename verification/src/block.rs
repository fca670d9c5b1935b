//! Blocks: the addressable content units of a document.

use crate::attributes::Attributes;
use crate::endpoint::{is_block_id, is_block_id_text};
use crate::error::{RelationsSyntaxError, TypesError};
use crate::json::JsonModel;
use crate::relation::{relation_models, Relation};
use crate::relations_parser::{error_models, lemma_empty_text, parse_relations, reads_as};
use vstd::prelude::*;
use vstd::string::StringExecFns;

verus! {

/// The payload of a block.
#[derive(Debug, Clone, PartialEq)]
pub enum BlockContent {
    /// Plain text.
    Text(String),
    /// Source text of the relations language, kept unparsed.
    Relations(String),
    /// Raw bytes.
    Binary(Vec<u8>),
}

/// The payload of a block as contracts speak of it.
pub enum ContentModel {
    Text(Seq<char>),
    Relations(Seq<char>),
    Binary(Seq<u8>),
}

impl View for BlockContent {
    type V = ContentModel;

    open spec fn view(&self) -> ContentModel {
        match self {
            BlockContent::Text(text) => ContentModel::Text(text@),
            BlockContent::Relations(source) => ContentModel::Relations(source@),
            BlockContent::Binary(bytes) => ContentModel::Binary(bytes@),
        }
    }
}

/// An addressable unit of content. A block belongs to one document; other
/// documents refer to it by reference, never share it.
#[derive(Debug, Clone)]
pub struct Block {
    pub id: String,
    pub name: Option<String>,
    pub block_type: String,
    pub attributes: Attributes,
    pub content: BlockContent,
}

/// A block as contracts speak of it.
pub struct BlockModel {
    pub id: Seq<char>,
    pub name: Option<Seq<char>>,
    pub block_type: Seq<char>,
    pub attributes: Map<Seq<char>, JsonModel>,
    pub content: ContentModel,
}

impl View for Block {
    type V = BlockModel;

    open spec fn view(&self) -> BlockModel {
        BlockModel {
            id: self.id@,
            name: match self.name {
                Some(name) => Some(name@),
                None => None,
            },
            block_type: self.block_type@,
            attributes: self.attributes@,
            content: self.content@,
        }
    }
}

/// The blocks of a sequence, each as contracts speak of it.
pub open spec fn block_models(blocks: Seq<Block>) -> Seq<BlockModel> {
    Seq::new(blocks.len(), |i: int| blocks[i]@)
}

/// What keeps a block from being valid.
#[derive(Debug, Clone, Copy, PartialEq, Eq, Structural)]
pub enum BlockFault {
    /// The identifier is empty.
    EmptyId,
    /// The identifier is no UUID in canonical form.
    InvalidId,
    /// The block type is empty.
    EmptyType,
    /// The block has a name, and the name is empty.
    EmptyName,
}

/// The block is valid: its identifier is a UUID in canonical form, its type
/// is not empty, nor is its name where it has one. What the content holds is
/// not asked.
pub open spec fn block_valid(b: BlockModel) -> bool {
    &&& is_block_id(b.id)
    &&& b.block_type.len() > 0
    &&& b.name matches Some(name) ==> name.len() > 0
}

/// The first thing that keeps the block from being valid, in the order in
/// which the rules are checked; `None` for a valid block.
pub open spec fn block_fault(b: BlockModel) -> Option<BlockFault> {
    if b.id.len() == 0 {
        Some(BlockFault::EmptyId)
    } else if !is_block_id(b.id) {
        Some(BlockFault::InvalidId)
    } else if b.block_type.len() == 0 {
        Some(BlockFault::EmptyType)
    } else if b.name matches Some(name) && name.len() == 0 {
        Some(BlockFault::EmptyName)
    } else {
        None
    }
}

/// The message that reports a fault of the block.
pub open spec fn block_fault_message(fault: BlockFault, b: BlockModel) -> Seq<char> {
    match fault {
        BlockFault::EmptyId => "Block ID cannot be empty"@,
        BlockFault::InvalidId => "Invalid UUID format for block ID: "@ + b.id,
        BlockFault::EmptyType => "Block type cannot be empty"@,
        BlockFault::EmptyName => "Block name cannot be empty string if specified"@,
    }
}

/// A block has a fault exactly if it is not valid.
pub proof fn lemma_block_fault_iff_invalid(b: BlockModel)
    ensures
        block_fault(b) is None <==> block_valid(b),
{
}

impl Block {
    /// The block with the given identifier and type, without a name or
    /// attributes, holding the empty text.
    pub fn new(id: String, block_type: String) -> (block: Self)
        ensures
            block@ == (BlockModel {
                id: id@,
                name: None,
                block_type: block_type@,
                attributes: Map::empty(),
                content: ContentModel::Text(Seq::empty()),
            }),
    {
        Block {
            id,
            name: None,
            block_type,
            attributes: Attributes::new(),
            content: BlockContent::Text(String::new()),
        }
    }

    /// The same block under the given name.
    pub fn with_name(self, name: String) -> (block: Self)
        ensures
            block@ == (BlockModel { name: Some(name@), ..self@ }),
    {
        Block {
            id: self.id,
            name: Some(name),
            block_type: self.block_type,
            attributes: self.attributes,
            content: self.content,
        }
    }

    /// The same block with the given content in place of its own.
    pub fn with_content(self, content: BlockContent) -> (block: Self)
        ensures
            block@ == (BlockModel { content: content@, ..self@ }),
    {
        Block {
            id: self.id,
            name: self.name,
            block_type: self.block_type,
            attributes: self.attributes,
            content,
        }
    }

    /// The same block with the given attributes in place of its own.
    pub fn with_attributes(self, attributes: Attributes) -> (block: Self)
        ensures
            block@ == (BlockModel { attributes: attributes@, ..self@ }),
    {
        Block {
            id: self.id,
            name: self.name,
            block_type: self.block_type,
            attributes,
            content: self.content,
        }
    }

    /// The first thing that keeps the block from being valid, if anything
    /// does.
    pub fn fault(&self) -> (r: Option<BlockFault>)
        ensures
            r == block_fault(self@),
    {
        if self.id.as_str().is_empty() {
            return Some(BlockFault::EmptyId);
        }
        if !is_block_id_text(self.id.as_str()) {
            return Some(BlockFault::InvalidId);
        }
        if self.block_type.as_str().is_empty() {
            return Some(BlockFault::EmptyType);
        }
        match &self.name {
            Some(name) => if name.as_str().is_empty() {
                Some(BlockFault::EmptyName)
            } else {
                None
            },
            None => None,
        }
    }

    /// Checks the rules of a block and reports the first that is broken. The
    /// text of a relations block is not read: a block with malformed
    /// relations text is still a valid block.
    pub fn validate(&self) -> (r: Result<(), TypesError>)
        ensures
            r is Ok <==> block_valid(self@),
            match block_fault(self@) {
                None => r is Ok,
                Some(fault) => r matches Err(TypesError::BlockValidation { message }) && message@
                    == block_fault_message(fault, self@),
            },
    {
        proof {
            lemma_block_fault_iff_invalid(self@);
        }
        let message = match self.fault() {
            None => {
                return Ok(());
            },
            Some(BlockFault::EmptyId) => String::from_str("Block ID cannot be empty"),
            Some(BlockFault::InvalidId) => String::from_str(
                "Invalid UUID format for block ID: ",
            ).concat(self.id.as_str()),
            Some(BlockFault::EmptyType) => String::from_str("Block type cannot be empty"),
            Some(BlockFault::EmptyName) => String::from_str(
                "Block name cannot be empty string if specified",
            ),
        };
        Err(TypesError::BlockValidation { message })
    }

    /// The source text of a relations block; the empty text for any other
    /// block.
    pub open spec fn relations_source(b: BlockModel) -> Seq<char> {
        match b.content {
            ContentModel::Relations(source) => source,
            _ => Seq::empty(),
        }
    }

    /// Reads the relations that the block declares. They are read anew at
    /// each call; a block that holds no relations text declares none.
    pub fn relations(&self) -> (r: (Vec<Relation>, Vec<RelationsSyntaxError>))
        ensures
            reads_as(Self::relations_source(self@), relation_models(r.0@), error_models(r.1@)),
            forall|i: int|
                0 <= i < r.1@.len() ==> (#[trigger] r.1@[i]).reason@ == r.1@[i].kind.reason(),
            !(self@.content is Relations) ==> r.0@.len() == 0 && r.1@.len() == 0,
    {
        match &self.content {
            BlockContent::Relations(source) => parse_relations(source.as_str()),
            _ => {
                let relations: Vec<Relation> = Vec::new();
                let errors: Vec<RelationsSyntaxError> = Vec::new();
                proof {
                    lemma_empty_text();
                    assert(relation_models(relations@) =~= Seq::empty());
                    assert(error_models(errors@) =~= Seq::empty());
                }
                (relations, errors)
            },
        }
    }
}

} // verus!
