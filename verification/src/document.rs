//! Documents: ordered, flat collections of blocks with metadata.

use crate::attributes::Attributes;
use crate::block::{block_models, Block, BlockModel};
use crate::error::TypesError;
use crate::json::JsonModel;
use crate::text::same_text;
use vstd::hash_set::StringHashSet;
use vstd::prelude::*;
use vstd::string::StringExecFns;

verus! {

/// What a document records about itself.
#[derive(Debug, Clone)]
pub struct DocumentMetadata {
    /// When the document was made, as an RFC 3339 time.
    pub created_at: String,
    /// When the document was last touched, as an RFC 3339 time.
    pub updated_at: String,
    /// A counter that grows with each touch.
    pub version: u64,
    pub attributes: Attributes,
}

/// The metadata of a document as contracts speak of it.
pub struct MetadataModel {
    pub created_at: Seq<char>,
    pub updated_at: Seq<char>,
    pub version: u64,
    pub attributes: Map<Seq<char>, JsonModel>,
}

impl View for DocumentMetadata {
    type V = MetadataModel;

    open spec fn view(&self) -> MetadataModel {
        MetadataModel {
            created_at: self.created_at@,
            updated_at: self.updated_at@,
            version: self.version,
            attributes: self.attributes@,
        }
    }
}

/// An ordered collection of blocks. Changing the blocks changes neither the
/// version nor the times of the document: `touch` does.
#[derive(Debug, Clone)]
pub struct Document {
    pub id: String,
    pub blocks: Vec<Block>,
    pub metadata: DocumentMetadata,
}

/// A document as contracts speak of it.
pub struct DocumentModel {
    pub id: Seq<char>,
    pub blocks: Seq<BlockModel>,
    pub metadata: MetadataModel,
}

impl View for Document {
    type V = DocumentModel;

    open spec fn view(&self) -> DocumentModel {
        DocumentModel {
            id: self.id@,
            blocks: block_models(self.blocks@),
            metadata: self.metadata@,
        }
    }
}

/// `std::time::SystemTime::now`, `From<SystemTime>` of `chrono::DateTime<Utc>`
/// and `chrono::DateTime::to_rfc3339`: the present time as text. The text
/// differs from call to call; whatever the clock shows, it is not empty. A
/// clock that stands before 1970 gives a time before 1970.
#[verifier::external_body]
pub(crate) fn now_rfc3339() -> (text: String)
    ensures
        text@.len() > 0,
{
    chrono::DateTime::<chrono::Utc>::from(std::time::SystemTime::now()).to_rfc3339()
}

/// The block at `j` has a name that an earlier block has too.
pub open spec fn name_repeats(blocks: Seq<BlockModel>, j: int) -> bool {
    exists|i: int| 0 <= i < j && #[trigger] blocks[i].name is Some && blocks[i].name == blocks[j].name
}

/// No two blocks have the same name. Blocks without a name are not compared.
pub open spec fn names_unique(blocks: Seq<BlockModel>) -> bool {
    forall|i: int, j: int|
        0 <= i < j < blocks.len() && #[trigger] blocks[i].name is Some ==> blocks[i].name
            != #[trigger] blocks[j].name
}

/// The block at `j` is the first whose name an earlier block has too.
pub open spec fn first_repeat(blocks: Seq<BlockModel>, j: int) -> bool {
    &&& 0 <= j < blocks.len()
    &&& name_repeats(blocks, j)
    &&& forall|k: int| 0 <= k < j ==> !name_repeats(blocks, k)
}

/// The error reports, by its name, the first block whose name an earlier
/// block has too.
pub open spec fn reports_first_repeat(e: TypesError, blocks: Seq<BlockModel>) -> bool {
    e matches TypesError::DocumentValidation { message } && (exists|j: int| #[trigger]
        first_repeat(blocks, j) && message@ == duplicate_name_message(blocks[j].name->0))
}

/// The position of the first block with the given identifier.
pub open spec fn first_with_id(blocks: Seq<BlockModel>, id: Seq<char>, i: int) -> bool {
    &&& 0 <= i < blocks.len()
    &&& blocks[i].id == id
    &&& forall|k: int| 0 <= k < i ==> (#[trigger] blocks[k]).id != id
}

/// The position of the first block with the given name.
pub open spec fn first_with_name(blocks: Seq<BlockModel>, name: Seq<char>, i: int) -> bool {
    &&& 0 <= i < blocks.len()
    &&& blocks[i].name == Some(name)
    &&& forall|k: int| 0 <= k < i ==> (#[trigger] blocks[k]).name != Some(name)
}

/// The message that reports a repeated name.
pub open spec fn duplicate_name_message(name: Seq<char>) -> Seq<char> {
    "Duplicate block name: "@ + name
}

impl Document {
    /// The empty document with the given identifier, made at the given time:
    /// no blocks, no attributes, version 1.
    pub fn created_at(id: String, now: String) -> (document: Self)
        ensures
            document@ == (DocumentModel {
                id: id@,
                blocks: Seq::empty(),
                metadata: MetadataModel {
                    created_at: now@,
                    updated_at: now@,
                    version: 1,
                    attributes: Map::empty(),
                },
            }),
    {
        let metadata = DocumentMetadata {
            created_at: now.clone(),
            updated_at: now,
            version: 1,
            attributes: Attributes::new(),
        };
        let document = Document { id, blocks: Vec::new(), metadata };
        assert(document@.blocks =~= Seq::empty());
        document
    }

    /// The empty document with the given identifier, made now: no blocks, no
    /// attributes, version 1, and one time for both of its times.
    pub fn new(id: String) -> (document: Self)
        ensures
            document@.id == id@,
            document@.blocks == Seq::<BlockModel>::empty(),
            document@.metadata.version == 1,
            document@.metadata.attributes == Map::<Seq<char>, JsonModel>::empty(),
            document@.metadata.created_at == document@.metadata.updated_at,
            document@.metadata.created_at.len() > 0,
    {
        Document::created_at(id, now_rfc3339())
    }

    /// Marks a change at the given time: the version grows by one, unless it
    /// cannot grow any more, and the time of the last change becomes `now`.
    /// Nothing else changes.
    pub fn touch_at(&mut self, now: String)
        ensures
            final(self)@ == (DocumentModel {
                metadata: MetadataModel {
                    updated_at: now@,
                    version: if old(self)@.metadata.version < u64::MAX {
                        (old(self)@.metadata.version + 1) as u64
                    } else {
                        u64::MAX
                    },
                    ..old(self)@.metadata
                },
                ..old(self)@
            }),
    {
        if self.metadata.version < u64::MAX {
            self.metadata.version = self.metadata.version + 1;
        }
        self.metadata.updated_at = now;
    }

    /// Marks a change now: the version grows by one, unless it cannot grow
    /// any more, and the time of the last change is set. Nothing else changes.
    pub fn touch(&mut self)
        ensures
            final(self)@.id == old(self)@.id,
            final(self)@.blocks == old(self)@.blocks,
            final(self)@.metadata.created_at == old(self)@.metadata.created_at,
            final(self)@.metadata.attributes == old(self)@.metadata.attributes,
            final(self)@.metadata.version == if old(self)@.metadata.version < u64::MAX {
                (old(self)@.metadata.version + 1) as u64
            } else {
                u64::MAX
            },
            final(self)@.metadata.updated_at.len() > 0,
    {
        self.touch_at(now_rfc3339());
    }

    /// The first block with the given identifier.
    pub fn find_block(&self, block_id: &str) -> (r: Option<&Block>)
        ensures
            match r {
                Some(block) => exists|i: int|
                    first_with_id(self@.blocks, block_id@, i) && *block == self.blocks@[i],
                None => forall|i: int|
                    0 <= i < self@.blocks.len() ==> (#[trigger] self@.blocks[i]).id != block_id@,
            },
    {
        let mut i: usize = 0;
        while i < self.blocks.len()
            invariant
                i <= self.blocks@.len(),
                forall|k: int| 0 <= k < i ==> (#[trigger] self@.blocks[k]).id != block_id@,
            decreases self.blocks@.len() - i,
        {
            if same_text(self.blocks[i].id.as_str(), block_id) {
                assert(first_with_id(self@.blocks, block_id@, i as int));
                return Some(&self.blocks[i]);
            }
            i = i + 1;
        }
        None
    }

    /// The first block with the given name.
    pub fn find_block_by_name(&self, block_name: &str) -> (r: Option<&Block>)
        ensures
            match r {
                Some(block) => exists|i: int|
                    first_with_name(self@.blocks, block_name@, i) && *block == self.blocks@[i],
                None => forall|i: int|
                    0 <= i < self@.blocks.len() ==> (#[trigger] self@.blocks[i]).name != Some(
                        block_name@,
                    ),
            },
    {
        let mut i: usize = 0;
        while i < self.blocks.len()
            invariant
                i <= self.blocks@.len(),
                forall|k: int|
                    0 <= k < i ==> (#[trigger] self@.blocks[k]).name != Some(block_name@),
            decreases self.blocks@.len() - i,
        {
            let found = match &self.blocks[i].name {
                Some(name) => same_text(name.as_str(), block_name),
                None => false,
            };
            if found {
                assert(first_with_name(self@.blocks, block_name@, i as int));
                return Some(&self.blocks[i]);
            }
            i = i + 1;
        }
        None
    }

    /// Checks that no two blocks have the same name. The blocks are gone
    /// through in order, and the first block whose name an earlier block has
    /// too is reported by that name.
    pub fn validate_unique_names(&self) -> (r: Result<(), TypesError>)
        ensures
            r is Ok <==> names_unique(self@.blocks),
            r matches Err(e) ==> reports_first_repeat(e, self@.blocks),
    {
        let mut seen = StringHashSet::new();
        let mut j: usize = 0;
        while j < self.blocks.len()
            invariant
                j <= self.blocks@.len(),
                forall|k: int| 0 <= k < j ==> !name_repeats(self@.blocks, k),
                forall|name: Seq<char>|
                    seen@.contains(name) <==> exists|i: int|
                        0 <= i < j && (#[trigger] self@.blocks[i]).name == Some(name),
            decreases self.blocks@.len() - j,
        {
            let ghost before = seen@;
            match &self.blocks[j].name {
                Some(name) => {
                    let fresh = seen.insert(name.clone());
                    if !fresh {
                        proof {
                            let i = choose|i: int|
                                0 <= i < j && (#[trigger] self@.blocks[i]).name == Some(name@);
                            assert(self@.blocks[i].name is Some);
                            assert(name_repeats(self@.blocks, j as int));
                            assert(first_repeat(self@.blocks, j as int));
                            assert(!names_unique(self@.blocks));
                        }
                        let message = String::from_str("Duplicate block name: ").concat(
                            name.as_str(),
                        );
                        return Err(TypesError::DocumentValidation { message });
                    }
                    proof {
                        assert(!name_repeats(self@.blocks, j as int)) by {
                            if name_repeats(self@.blocks, j as int) {
                                let i = choose|i: int|
                                    0 <= i < j && #[trigger] self@.blocks[i].name is Some
                                        && self@.blocks[i].name == self@.blocks[j as int].name;
                                assert(self@.blocks[i].name == Some(name@));
                                assert(before.contains(name@));
                            }
                        }
                        assert forall|other: Seq<char>|
                            seen@.contains(other) <==> exists|i: int|
                                0 <= i < j + 1 && (#[trigger] self@.blocks[i]).name == Some(
                                    other,
                                ) by {
                            if seen@.contains(other) {
                                if other == name@ {
                                    assert(self@.blocks[j as int].name == Some(other));
                                } else {
                                    let i = choose|i: int|
                                        0 <= i < j && (#[trigger] self@.blocks[i]).name == Some(
                                            other,
                                        );
                                    assert(self@.blocks[i].name == Some(other));
                                }
                            }
                        }
                    }
                },
                None => {
                    proof {
                        assert forall|other: Seq<char>|
                            seen@.contains(other) <==> exists|i: int|
                                0 <= i < j + 1 && (#[trigger] self@.blocks[i]).name == Some(
                                    other,
                                ) by {
                            if seen@.contains(other) {
                                let i = choose|i: int|
                                    0 <= i < j && (#[trigger] self@.blocks[i]).name == Some(other);
                                assert(self@.blocks[i].name == Some(other));
                            }
                        }
                    }
                },
            }
            j = j + 1;
        }
        proof {
            assert forall|a: int, b: int|
                0 <= a < b < self@.blocks.len() && #[trigger] self@.blocks[a].name is Some implies self@.blocks[a].name
                != #[trigger] self@.blocks[b].name by {
                if self@.blocks[a].name == self@.blocks[b].name {
                    assert(name_repeats(self@.blocks, b));
                }
            }
        }
        Ok(())
    }
}

/// The blocks `blocks` with the block at `i` renamed to `name`.
pub open spec fn renamed(blocks: Seq<BlockModel>, i: int, name: Seq<char>) -> Seq<BlockModel> {
    blocks.update(i, BlockModel { name: Some(name), ..blocks[i] })
}

/// Two blocks with one name make the names of a document not unique.
pub proof fn lemma_shared_name_is_refused(blocks: Seq<BlockModel>, i: int, j: int)
    requires
        0 <= i < j < blocks.len(),
        blocks[i].name is Some,
        blocks[i].name == blocks[j].name,
    ensures
        !names_unique(blocks),
{
}

/// Where only the blocks at `i` and `j` share a name, giving either of them
/// a name that no block has makes the names unique.
pub proof fn lemma_renaming_restores(blocks: Seq<BlockModel>, i: int, j: int, name: Seq<char>)
    requires
        0 <= i < j < blocks.len(),
        forall|a: int, b: int|
            0 <= a < b < blocks.len() && #[trigger] blocks[a].name is Some && blocks[a].name
                == #[trigger] blocks[b].name ==> a == i && b == j,
        forall|k: int| 0 <= k < blocks.len() ==> (#[trigger] blocks[k]).name != Some(name),
    ensures
        names_unique(renamed(blocks, i, name)),
        names_unique(renamed(blocks, j, name)),
{
    let left = renamed(blocks, i, name);
    let right = renamed(blocks, j, name);
    assert forall|a: int, b: int|
        0 <= a < b < left.len() && #[trigger] left[a].name is Some implies left[a].name
        != #[trigger] left[b].name by {
        if a != i && b != i {
            assert(blocks[a].name is Some);
            if blocks[a].name == blocks[b].name {
                assert(a == i && b == j);
            }
        } else if a == i {
            assert(blocks[b].name != Some(name));
        } else {
            assert(blocks[a].name != Some(name));
        }
    }
    assert forall|a: int, b: int|
        0 <= a < b < right.len() && #[trigger] right[a].name is Some implies right[a].name
        != #[trigger] right[b].name by {
        if a != j && b != j {
            assert(blocks[a].name is Some);
            if blocks[a].name == blocks[b].name {
                assert(a == i && b == j);
            }
        } else if a == j {
            assert(blocks[b].name != Some(name));
        } else {
            assert(blocks[a].name != Some(name));
        }
    }
}

} // verus!
