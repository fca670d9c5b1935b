//! The wire format: documents as JSON.
//!
//! ```text
//! Document := { "id": string, "blocks": [Block], "metadata": Metadata }
//! Metadata := { "created_at": string, "updated_at": string,
//!               "version": unsigned integer, "attributes": object }
//! Block    := { "id": string, "name": string or null, "block_type": string,
//!               "attributes": object, "content": Content }
//! Content  := { "Text": string } | { "Relations": string } | { "Binary": [byte] }
//! Relation := { "from": string, "to": string, "relation_type": string,
//!               "attributes": object }
//! ```
//!
//! Reading accepts what writing produces. It also accepts a block without
//! `"name"`, and members that the format does not name, which it passes over.

use crate::attributes::{lemma_distinct_entries_len, Attributes};
use crate::block::{block_models, Block, BlockContent, BlockModel, ContentModel};
use crate::document::{Document, DocumentMetadata, DocumentModel, MetadataModel};
use crate::error::TypesError;
use crate::json::{
    distinct_keys, entries_model, json_array, json_as_array, json_as_str, json_as_u64,
    json_entries, json_error, json_field, json_from_text, json_is_null, json_model, json_null,
    json_object, json_parse, json_string, json_text, json_to_text, json_u64,
    lemma_entries_model, models_of, JsonModel, JsonNumber,
};
use crate::relation::{Relation, RelationModel};
use crate::text::same_text;
use vstd::prelude::*;
use vstd::string::StringExecFns;

verus! {

/// The bytes of a binary payload as JSON numbers.
pub open spec fn bytes_json(bytes: Seq<u8>) -> Seq<JsonModel> {
    Seq::new(bytes.len(), |i: int| JsonModel::Number(JsonNumber::Unsigned(bytes[i] as u64)))
}

/// A payload as JSON: an object with one member, named after the kind of the
/// payload.
pub open spec fn content_json(content: ContentModel) -> JsonModel {
    match content {
        ContentModel::Text(text) => JsonModel::Object(map!["Text"@ => JsonModel::Str(text)]),
        ContentModel::Relations(source) => JsonModel::Object(
            map!["Relations"@ => JsonModel::Str(source)],
        ),
        ContentModel::Binary(bytes) => JsonModel::Object(
            map!["Binary"@ => JsonModel::Array(bytes_json(bytes))],
        ),
    }
}

/// A name as JSON: the string, or `null` where there is none.
pub open spec fn name_json(name: Option<Seq<char>>) -> JsonModel {
    match name {
        Some(name) => JsonModel::Str(name),
        None => JsonModel::Null,
    }
}

/// A block as JSON.
pub open spec fn block_json(block: BlockModel) -> JsonModel {
    JsonModel::Object(
        map![
            "id"@ => JsonModel::Str(block.id),
            "name"@ => name_json(block.name),
            "block_type"@ => JsonModel::Str(block.block_type),
            "attributes"@ => JsonModel::Object(block.attributes),
            "content"@ => content_json(block.content),
        ],
    )
}

/// Blocks as JSON, one by one.
pub open spec fn blocks_json(blocks: Seq<BlockModel>) -> Seq<JsonModel> {
    Seq::new(blocks.len(), |i: int| block_json(blocks[i]))
}

/// Metadata as JSON.
pub open spec fn metadata_json(metadata: MetadataModel) -> JsonModel {
    JsonModel::Object(
        map![
            "created_at"@ => JsonModel::Str(metadata.created_at),
            "updated_at"@ => JsonModel::Str(metadata.updated_at),
            "version"@ => JsonModel::Number(JsonNumber::Unsigned(metadata.version)),
            "attributes"@ => JsonModel::Object(metadata.attributes),
        ],
    )
}

/// A document as JSON.
pub open spec fn document_json(document: DocumentModel) -> JsonModel {
    JsonModel::Object(
        map![
            "id"@ => JsonModel::Str(document.id),
            "blocks"@ => JsonModel::Array(blocks_json(document.blocks)),
            "metadata"@ => metadata_json(document.metadata),
        ],
    )
}

/// The member of an object under `key`.
pub open spec fn member(json: JsonModel, key: Seq<char>) -> Option<JsonModel> {
    match json {
        JsonModel::Object(members) => if members.contains_key(key) {
            Some(members[key])
        } else {
            None
        },
        _ => None,
    }
}

/// The string under `key`.
pub open spec fn string_member(json: JsonModel, key: Seq<char>) -> Option<Seq<char>> {
    match member(json, key) {
        Some(JsonModel::Str(text)) => Some(text),
        _ => None,
    }
}

/// The members of the object under `key`.
pub open spec fn object_member(json: JsonModel, key: Seq<char>) -> Option<
    Map<Seq<char>, JsonModel>,
> {
    match member(json, key) {
        Some(JsonModel::Object(members)) => Some(members),
        _ => None,
    }
}

/// The byte that a JSON value stands for: a whole number from 0 to 255.
pub open spec fn byte_of(json: JsonModel) -> Option<u8> {
    match json {
        JsonModel::Number(JsonNumber::Unsigned(n)) => if n <= 255 {
            Some(n as u8)
        } else {
            None
        },
        _ => None,
    }
}

/// The bytes that JSON values stand for; `None` where one of them is no byte.
pub open spec fn bytes_of(items: Seq<JsonModel>) -> Option<Seq<u8>> {
    if forall|i: int| 0 <= i < items.len() ==> byte_of(#[trigger] items[i]) is Some {
        Some(Seq::new(items.len(), |i: int| byte_of(items[i])->0))
    } else {
        None
    }
}

/// The object has the one member `key` and no other.
pub open spec fn only_member(json: JsonModel, key: Seq<char>) -> bool {
    json matches JsonModel::Object(members) && members.dom() =~= set![key]
}

/// The payload that a JSON value stands for.
pub open spec fn content_of(json: JsonModel) -> Option<ContentModel> {
    if only_member(json, "Text"@) {
        match string_member(json, "Text"@) {
            Some(text) => Some(ContentModel::Text(text)),
            None => None,
        }
    } else if only_member(json, "Relations"@) {
        match string_member(json, "Relations"@) {
            Some(source) => Some(ContentModel::Relations(source)),
            None => None,
        }
    } else if only_member(json, "Binary"@) {
        match member(json, "Binary"@) {
            Some(JsonModel::Array(items)) => match bytes_of(items) {
                Some(bytes) => Some(ContentModel::Binary(bytes)),
                None => None,
            },
            _ => None,
        }
    } else {
        None
    }
}

/// The name that the member `"name"` of a block stands for: none where the
/// member is missing or `null`. The outer `None` says that the member is
/// neither a string nor `null`.
pub open spec fn name_of(json: JsonModel) -> Option<Option<Seq<char>>> {
    match member(json, "name"@) {
        None => Some(None),
        Some(JsonModel::Null) => Some(None),
        Some(JsonModel::Str(name)) => Some(Some(name)),
        Some(_) => None,
    }
}

/// The block that a JSON value stands for.
pub open spec fn block_of(json: JsonModel) -> Option<BlockModel> {
    match (
        string_member(json, "id"@),
        name_of(json),
        string_member(json, "block_type"@),
        object_member(json, "attributes"@),
        member(json, "content"@),
    ) {
        (Some(id), Some(name), Some(block_type), Some(attributes), Some(content)) => match content_of(
            content,
        ) {
            Some(content) => Some(BlockModel { id, name, block_type, attributes, content }),
            None => None,
        },
        _ => None,
    }
}

/// The blocks that JSON values stand for; `None` where one of them is no
/// block.
pub open spec fn blocks_of(items: Seq<JsonModel>) -> Option<Seq<BlockModel>> {
    if forall|i: int| 0 <= i < items.len() ==> block_of(#[trigger] items[i]) is Some {
        Some(Seq::new(items.len(), |i: int| block_of(items[i])->0))
    } else {
        None
    }
}

/// The metadata that a JSON value stands for.
pub open spec fn metadata_of(json: JsonModel) -> Option<MetadataModel> {
    match (
        string_member(json, "created_at"@),
        string_member(json, "updated_at"@),
        member(json, "version"@),
        object_member(json, "attributes"@),
    ) {
        (
            Some(created_at),
            Some(updated_at),
            Some(JsonModel::Number(JsonNumber::Unsigned(version))),
            Some(attributes),
        ) => Some(MetadataModel { created_at, updated_at, version, attributes }),
        _ => None,
    }
}

/// The document that a JSON value stands for.
pub open spec fn document_of(json: JsonModel) -> Option<DocumentModel> {
    match (string_member(json, "id"@), member(json, "blocks"@), member(json, "metadata"@)) {
        (Some(id), Some(JsonModel::Array(items)), Some(metadata)) => match (
            blocks_of(items),
            metadata_of(metadata),
        ) {
            (Some(blocks), Some(metadata)) => Some(DocumentModel { id, blocks, metadata }),
            _ => None,
        },
        _ => None,
    }
}

/// The names of the members of the wire format differ from one another.
pub proof fn lemma_member_names_differ()
    ensures
        "id"@ != "name"@,
        "id"@ != "block_type"@,
        "id"@ != "attributes"@,
        "id"@ != "content"@,
        "name"@ != "block_type"@,
        "name"@ != "attributes"@,
        "name"@ != "content"@,
        "block_type"@ != "attributes"@,
        "block_type"@ != "content"@,
        "attributes"@ != "content"@,
        "id"@ != "blocks"@,
        "id"@ != "metadata"@,
        "blocks"@ != "metadata"@,
        "created_at"@ != "updated_at"@,
        "created_at"@ != "version"@,
        "created_at"@ != "attributes"@,
        "updated_at"@ != "version"@,
        "updated_at"@ != "attributes"@,
        "version"@ != "attributes"@,
        "Text"@ != "Relations"@,
        "Text"@ != "Binary"@,
        "Relations"@ != "Binary"@,
{
    reveal_strlit("id");
    reveal_strlit("name");
    reveal_strlit("block_type");
    reveal_strlit("attributes");
    reveal_strlit("content");
    reveal_strlit("blocks");
    reveal_strlit("metadata");
    reveal_strlit("created_at");
    reveal_strlit("updated_at");
    reveal_strlit("version");
    reveal_strlit("Text");
    reveal_strlit("Relations");
    reveal_strlit("Binary");
    assert("id"@.len() == 2);
    assert("name"@.len() == 4);
    assert("block_type"@.len() == 10);
    assert("attributes"@.len() == 10);
    assert("content"@.len() == 7);
    assert("blocks"@.len() == 6);
    assert("metadata"@.len() == 8);
    assert("created_at"@.len() == 10);
    assert("updated_at"@.len() == 10);
    assert("version"@.len() == 7);
    assert("Text"@.len() == 4);
    assert("Relations"@.len() == 9);
    assert("Binary"@.len() == 6);
    assert("block_type"@[0] != "attributes"@[0]);
    assert("created_at"@[0] != "updated_at"@[0]);
    assert("created_at"@[0] != "attributes"@[0]);
    assert("updated_at"@[0] != "attributes"@[0]);
}

/// Reading the JSON of a payload gives the payload back.
pub proof fn lemma_content_round_trip(content: ContentModel)
    ensures
        content_of(content_json(content)) == Some(content),
{
    lemma_member_names_differ();
    match content {
        ContentModel::Text(text) => {
            assert(map!["Text"@ => JsonModel::Str(text)].dom() =~= set!["Text"@]);
        },
        ContentModel::Relations(source) => {
            let members = map!["Relations"@ => JsonModel::Str(source)];
            assert(members.dom() =~= set!["Relations"@]);
            assert(!set!["Text"@].contains("Relations"@));
        },
        ContentModel::Binary(bytes) => {
            let members = map!["Binary"@ => JsonModel::Array(bytes_json(bytes))];
            assert(members.dom() =~= set!["Binary"@]);
            assert(!set!["Text"@].contains("Binary"@));
            assert(!set!["Relations"@].contains("Binary"@));
            assert forall|i: int| 0 <= i < bytes.len() implies byte_of(
                #[trigger] bytes_json(bytes)[i],
            ) == Some(bytes[i]) by {
                assert(bytes[i] as u64 as u8 == bytes[i]);
            }
            assert(bytes_of(bytes_json(bytes))->0 =~= bytes);
        },
    }
}

/// Reading the JSON of a block gives the block back.
pub proof fn lemma_block_round_trip(block: BlockModel)
    ensures
        block_of(block_json(block)) == Some(block),
{
    lemma_member_names_differ();
    lemma_content_round_trip(block.content);
}

/// Reading the JSON of a document gives the document back: the same
/// identifier, the same blocks in the same order, each with its name, type,
/// attributes and payload, and the same metadata.
pub proof fn lemma_document_round_trip(document: DocumentModel)
    ensures
        document_of(document_json(document)) == Some(document),
{
    lemma_member_names_differ();
    let items = blocks_json(document.blocks);
    assert forall|i: int| 0 <= i < items.len() implies block_of(#[trigger] items[i]) == Some(
        document.blocks[i],
    ) by {
        lemma_block_round_trip(document.blocks[i]);
    }
    assert(blocks_of(items)->0 =~= document.blocks);
}

/// Adds a member under a name that the entries do not have yet.
fn add_member(entries: &mut Vec<(String, serde_json::Value)>, key: &str, value: serde_json::Value)
    requires
        distinct_keys(old(entries)@),
        !entries_model(old(entries)@).contains_key(key@),
    ensures
        distinct_keys(final(entries)@),
        entries_model(final(entries)@) == entries_model(old(entries)@).insert(
            key@,
            json_model(value),
        ),
{
    let ghost before = entries@;
    proof {
        lemma_entries_model(before);
    }
    entries.push((String::from_str(key), value));
    proof {
        assert(entries@.drop_last() =~= before);
        assert forall|a: int, b: int| 0 <= a < b < entries@.len() implies (#[trigger] entries@[a]).0@
            != (#[trigger] entries@[b]).0@ by {
            if b < before.len() {
                assert(before[a].0@ != before[b].0@);
            } else {
                assert(before[a].0@ != key@);
            }
        }
    }
}

/// The bytes of a binary payload as a JSON array of numbers.
fn encode_bytes(bytes: &Vec<u8>) -> (v: serde_json::Value)
    ensures
        json_model(v) == JsonModel::Array(bytes_json(bytes@)),
{
    let mut items: Vec<serde_json::Value> = Vec::new();
    let mut i: usize = 0;
    while i < bytes.len()
        invariant
            i <= bytes@.len(),
            items@.len() == i,
            forall|k: int|
                0 <= k < i ==> json_model(#[trigger] items@[k]) == JsonModel::Number(
                    JsonNumber::Unsigned(bytes@[k] as u64),
                ),
        decreases bytes@.len() - i,
    {
        items.push(json_u64(bytes[i] as u64));
        i = i + 1;
    }
    proof {
        assert(models_of(items@) =~= bytes_json(bytes@));
    }
    json_array(items)
}

/// The payload of a block as JSON.
pub fn encode_content(content: &BlockContent) -> (v: serde_json::Value)
    ensures
        json_model(v) == content_json(content@),
{
    let mut entries: Vec<(String, serde_json::Value)> = Vec::new();
    match content {
        BlockContent::Text(text) => {
            add_member(&mut entries, "Text", json_string(text.clone()));
        },
        BlockContent::Relations(source) => {
            add_member(&mut entries, "Relations", json_string(source.clone()));
        },
        BlockContent::Binary(bytes) => {
            add_member(&mut entries, "Binary", encode_bytes(bytes));
        },
    }
    json_object(&entries)
}

/// A block as JSON.
pub fn encode_block(block: &Block) -> (v: serde_json::Value)
    ensures
        json_model(v) == block_json(block@),
{
    proof {
        lemma_member_names_differ();
    }
    let name = match &block.name {
        Some(name) => json_string(name.clone()),
        None => json_null(),
    };
    let mut entries: Vec<(String, serde_json::Value)> = Vec::new();
    add_member(&mut entries, "id", json_string(block.id.clone()));
    add_member(&mut entries, "name", name);
    add_member(&mut entries, "block_type", json_string(block.block_type.clone()));
    add_member(&mut entries, "attributes", block.attributes.to_json());
    add_member(&mut entries, "content", encode_content(&block.content));
    json_object(&entries)
}

/// The metadata of a document as JSON.
pub fn encode_metadata(metadata: &DocumentMetadata) -> (v: serde_json::Value)
    ensures
        json_model(v) == metadata_json(metadata@),
{
    proof {
        lemma_member_names_differ();
    }
    let mut entries: Vec<(String, serde_json::Value)> = Vec::new();
    add_member(&mut entries, "created_at", json_string(metadata.created_at.clone()));
    add_member(&mut entries, "updated_at", json_string(metadata.updated_at.clone()));
    add_member(&mut entries, "version", json_u64(metadata.version));
    add_member(&mut entries, "attributes", metadata.attributes.to_json());
    json_object(&entries)
}

/// A document as JSON.
pub fn encode_document(document: &Document) -> (v: serde_json::Value)
    ensures
        json_model(v) == document_json(document@),
{
    proof {
        lemma_member_names_differ();
    }
    let mut blocks: Vec<serde_json::Value> = Vec::new();
    let mut i: usize = 0;
    while i < document.blocks.len()
        invariant
            i <= document.blocks@.len(),
            blocks@.len() == i,
            forall|k: int|
                0 <= k < i ==> json_model(#[trigger] blocks@[k]) == block_json(
                    document.blocks@[k]@,
                ),
        decreases document.blocks@.len() - i,
    {
        blocks.push(encode_block(&document.blocks[i]));
        i = i + 1;
    }
    proof {
        assert(models_of(blocks@) =~= blocks_json(document@.blocks));
    }
    let mut entries: Vec<(String, serde_json::Value)> = Vec::new();
    add_member(&mut entries, "id", json_string(document.id.clone()));
    add_member(&mut entries, "blocks", json_array(blocks));
    add_member(&mut entries, "metadata", encode_metadata(&document.metadata));
    json_object(&entries)
}

/// Reads the string under `key`.
fn decode_string(v: &serde_json::Value, key: &str) -> (r: Option<String>)
    ensures
        match string_member(json_model(*v), key@) {
            Some(text) => r matches Some(s) && s@ == text,
            None => r is None,
        },
{
    match json_field(v, key) {
        Some(member) => match json_as_str(member) {
            Some(text) => Some(String::from_str(text)),
            None => None,
        },
        None => None,
    }
}

/// Reads the attributes under `key`.
fn decode_attributes(v: &serde_json::Value, key: &str) -> (r: Option<Attributes>)
    ensures
        match object_member(json_model(*v), key@) {
            Some(members) => r matches Some(attributes) && attributes@ == members,
            None => r is None,
        },
{
    match json_field(v, key) {
        Some(member) => match json_entries(member) {
            Some(entries) => Some(Attributes::from_distinct_entries(entries)),
            None => None,
        },
        None => None,
    }
}

/// Reads JSON numbers as bytes.
fn decode_bytes(items: &Vec<serde_json::Value>) -> (r: Option<Vec<u8>>)
    ensures
        match bytes_of(models_of(items@)) {
            Some(bytes) => r matches Some(b) && b@ == bytes,
            None => r is None,
        },
{
    let mut bytes: Vec<u8> = Vec::new();
    let mut i: usize = 0;
    while i < items.len()
        invariant
            i <= items@.len(),
            bytes@.len() == i,
            forall|k: int|
                0 <= k < i ==> byte_of(#[trigger] models_of(items@)[k]) == Some(bytes@[k]),
        decreases items@.len() - i,
    {
        match json_as_u64(&items[i]) {
            Some(n) => {
                if n > 255 {
                    assert(byte_of(models_of(items@)[i as int]) is None);
                    return None;
                }
                bytes.push(n as u8);
            },
            None => {
                assert(byte_of(models_of(items@)[i as int]) is None);
                return None;
            },
        }
        i = i + 1;
    }
    proof {
        assert(bytes_of(models_of(items@))->0 =~= bytes@);
    }
    Some(bytes)
}

/// Reads a payload.
pub fn decode_content(v: &serde_json::Value) -> (r: Option<BlockContent>)
    ensures
        match content_of(json_model(*v)) {
            Some(content) => r matches Some(c) && c@ == content,
            None => r is None,
        },
{
    proof {
        lemma_member_names_differ();
    }
    let entries = match json_entries(v) {
        Some(entries) => entries,
        None => {
            return None;
        },
    };
    proof {
        lemma_distinct_entries_len(entries@);
        lemma_entries_model(entries@);
    }
    if entries.len() != 1 {
        proof {
            assert(set!["Text"@].len() == 1);
            assert(set!["Relations"@].len() == 1);
            assert(set!["Binary"@].len() == 1);
        }
        return None;
    }
    let key = entries[0].0.as_str();
    let value = &entries[0].1;
    proof {
        let members = entries_model(entries@);
        assert(entries@.drop_last() =~= Seq::empty());
        assert(members =~= Map::empty().insert(key@, json_model(*value)));
        assert(members.dom() =~= set![key@]);
        assert(set![key@].contains(key@));
    }
    if same_text(key, "Text") {
        match json_as_str(value) {
            Some(text) => Some(BlockContent::Text(String::from_str(text))),
            None => None,
        }
    } else if same_text(key, "Relations") {
        match json_as_str(value) {
            Some(source) => Some(BlockContent::Relations(String::from_str(source))),
            None => None,
        }
    } else if same_text(key, "Binary") {
        match json_as_array(value) {
            Some(items) => match decode_bytes(items) {
                Some(bytes) => Some(BlockContent::Binary(bytes)),
                None => None,
            },
            None => None,
        }
    } else {
        None
    }
}

/// Reads the name of a block. `None` says that the member is neither a
/// string nor `null`.
fn decode_name(v: &serde_json::Value) -> (r: Option<Option<String>>)
    ensures
        match name_of(json_model(*v)) {
            Some(Some(name)) => r matches Some(Some(n)) && n@ == name,
            Some(None) => r == Some(None::<String>),
            None => r is None,
        },
{
    match json_field(v, "name") {
        None => Some(None),
        Some(member) => {
            if json_is_null(member) {
                Some(None)
            } else {
                match json_as_str(member) {
                    Some(name) => Some(Some(String::from_str(name))),
                    None => None,
                }
            }
        },
    }
}

/// Reads a block.
pub fn decode_block(v: &serde_json::Value) -> (r: Option<Block>)
    ensures
        match block_of(json_model(*v)) {
            Some(block) => r matches Some(b) && b@ == block,
            None => r is None,
        },
{
    let id = match decode_string(v, "id") {
        Some(id) => id,
        None => {
            return None;
        },
    };
    let name = match decode_name(v) {
        Some(name) => name,
        None => {
            return None;
        },
    };
    let block_type = match decode_string(v, "block_type") {
        Some(block_type) => block_type,
        None => {
            return None;
        },
    };
    let attributes = match decode_attributes(v, "attributes") {
        Some(attributes) => attributes,
        None => {
            return None;
        },
    };
    let content = match json_field(v, "content") {
        Some(member) => match decode_content(member) {
            Some(content) => content,
            None => {
                return None;
            },
        },
        None => {
            return None;
        },
    };
    Some(Block { id, name, block_type, attributes, content })
}

/// Reads blocks.
fn decode_blocks(items: &Vec<serde_json::Value>) -> (r: Option<Vec<Block>>)
    ensures
        match blocks_of(models_of(items@)) {
            Some(blocks) => r matches Some(b) && block_models(b@) == blocks,
            None => r is None,
        },
{
    let mut blocks: Vec<Block> = Vec::new();
    let mut i: usize = 0;
    while i < items.len()
        invariant
            i <= items@.len(),
            blocks@.len() == i,
            forall|k: int|
                0 <= k < i ==> block_of(#[trigger] models_of(items@)[k]) == Some(blocks@[k]@),
        decreases items@.len() - i,
    {
        match decode_block(&items[i]) {
            Some(block) => {
                blocks.push(block);
            },
            None => {
                assert(block_of(models_of(items@)[i as int]) is None);
                return None;
            },
        }
        i = i + 1;
    }
    proof {
        assert(blocks_of(models_of(items@))->0 =~= block_models(blocks@));
    }
    Some(blocks)
}

/// Reads the metadata of a document.
pub fn decode_metadata(v: &serde_json::Value) -> (r: Option<DocumentMetadata>)
    ensures
        match metadata_of(json_model(*v)) {
            Some(metadata) => r matches Some(m) && m@ == metadata,
            None => r is None,
        },
{
    let created_at = match decode_string(v, "created_at") {
        Some(created_at) => created_at,
        None => {
            return None;
        },
    };
    let updated_at = match decode_string(v, "updated_at") {
        Some(updated_at) => updated_at,
        None => {
            return None;
        },
    };
    let version = match json_field(v, "version") {
        Some(member) => match json_as_u64(member) {
            Some(version) => version,
            None => {
                return None;
            },
        },
        None => {
            return None;
        },
    };
    let attributes = match decode_attributes(v, "attributes") {
        Some(attributes) => attributes,
        None => {
            return None;
        },
    };
    Some(DocumentMetadata { created_at, updated_at, version, attributes })
}

/// Reads a document. A value that is no document is refused whole, with an
/// error that names the member at fault.
pub fn decode_document(v: &serde_json::Value) -> (r: Result<Document, TypesError>)
    ensures
        match document_of(json_model(*v)) {
            Some(document) => r matches Ok(d) && d@ == document,
            None => r matches Err(TypesError::Serialization { .. }),
        },
{
    let id = match decode_string(v, "id") {
        Some(id) => id,
        None => {
            return Err(
                TypesError::Serialization {
                    source: json_error("a document needs a string under `id`"),
                },
            );
        },
    };
    let blocks = match json_field(v, "blocks") {
        Some(member) => match json_as_array(member) {
            Some(items) => decode_blocks(items),
            None => None,
        },
        None => None,
    };
    let blocks = match blocks {
        Some(blocks) => blocks,
        None => {
            return Err(
                TypesError::Serialization {
                    source: json_error("a document needs an array of blocks under `blocks`"),
                },
            );
        },
    };
    let metadata = match json_field(v, "metadata") {
        Some(member) => decode_metadata(member),
        None => None,
    };
    let metadata = match metadata {
        Some(metadata) => metadata,
        None => {
            return Err(
                TypesError::Serialization {
                    source: json_error("a document needs its metadata under `metadata`"),
                },
            );
        },
    };
    Ok(Document { id, blocks, metadata })
}

/// The document that a text stands for: the text is read as JSON, and the
/// JSON as a document.
pub open spec fn document_read(text: Seq<char>) -> Option<DocumentModel> {
    match json_parse(text) {
        Some(json) => document_of(json),
        None => None,
    }
}

/// The text that is written for a document.
pub open spec fn document_text(document: DocumentModel) -> Seq<char> {
    json_text(document_json(document))
}

/// What becomes of the JSON writer's answer: its text is handed on, its
/// error is wrapped.
pub fn written(outcome: Result<String, serde_json::Error>) -> (r: Result<String, TypesError>)
    ensures
        match outcome {
            Ok(text) => r == Ok::<String, TypesError>(text),
            Err(error) => r == Err::<String, TypesError>(
                TypesError::Serialization { source: error },
            ),
        },
{
    match outcome {
        Ok(text) => Ok(text),
        Err(error) => Err(TypesError::from(error)),
    }
}

/// What becomes of the JSON reader's answer: its value is read as a
/// document, its error is wrapped.
pub fn read(outcome: Result<serde_json::Value, serde_json::Error>) -> (r: Result<
    Document,
    TypesError,
>)
    ensures
        match outcome {
            Ok(v) => match document_of(json_model(v)) {
                Some(document) => r matches Ok(d) && d@ == document,
                None => r matches Err(TypesError::Serialization { .. }),
            },
            Err(error) => r matches Err(TypesError::Serialization { source }) && source == error,
        },
{
    match outcome {
        Ok(v) => decode_document(&v),
        Err(error) => Err(TypesError::from(error)),
    }
}

/// Writes a document as JSON text. This always succeeds.
pub fn serialize_document(document: &Document) -> (r: Result<String, TypesError>)
    ensures
        r is Ok,
        r matches Ok(text) ==> text@ == document_text(document@),
{
    let json = encode_document(document);
    written(json_to_text(&json))
}

/// Reads a document from JSON text. A text that is no JSON, or whose JSON is
/// no document, is refused whole.
pub fn deserialize_document(content: &str) -> (r: Result<Document, TypesError>)
    ensures
        match document_read(content@) {
            Some(document) => r matches Ok(d) && d@ == document,
            None => r matches Err(TypesError::Serialization { .. }),
        },
{
    read(json_from_text(content))
}

/// Reading what was written gives the document back, provided that the JSON
/// reader makes of the written text the JSON that was written.
pub proof fn lemma_text_round_trip(document: DocumentModel)
    requires
        json_parse(document_text(document)) == Some(document_json(document)),
    ensures
        document_read(document_text(document)) == Some(document),
{
    lemma_document_round_trip(document);
}

/// A relation as JSON.
pub open spec fn relation_json(relation: RelationModel) -> JsonModel {
    JsonModel::Object(
        map![
            "from"@ => JsonModel::Str(relation.from),
            "to"@ => JsonModel::Str(relation.to),
            "relation_type"@ => JsonModel::Str(relation.relation_type),
            "attributes"@ => JsonModel::Object(relation.attributes),
        ],
    )
}

/// The relation that a JSON value stands for.
pub open spec fn relation_of(json: JsonModel) -> Option<RelationModel> {
    match (
        string_member(json, "from"@),
        string_member(json, "to"@),
        string_member(json, "relation_type"@),
        object_member(json, "attributes"@),
    ) {
        (Some(from), Some(to), Some(relation_type), Some(attributes)) => Some(
            RelationModel { from, to, relation_type, attributes },
        ),
        _ => None,
    }
}

/// The names of the members of a relation differ from one another.
pub proof fn lemma_relation_member_names_differ()
    ensures
        "from"@ != "to"@,
        "from"@ != "relation_type"@,
        "from"@ != "attributes"@,
        "to"@ != "relation_type"@,
        "to"@ != "attributes"@,
        "relation_type"@ != "attributes"@,
{
    reveal_strlit("from");
    reveal_strlit("to");
    reveal_strlit("relation_type");
    reveal_strlit("attributes");
    assert("from"@.len() == 4);
    assert("to"@.len() == 2);
    assert("relation_type"@.len() == 13);
    assert("attributes"@.len() == 10);
}

/// Reading the JSON of a relation gives the relation back.
pub proof fn lemma_relation_round_trip(relation: RelationModel)
    ensures
        relation_of(relation_json(relation)) == Some(relation),
{
    lemma_relation_member_names_differ();
}

/// A relation as JSON.
pub fn encode_relation(relation: &Relation) -> (v: serde_json::Value)
    ensures
        json_model(v) == relation_json(relation@),
{
    proof {
        lemma_relation_member_names_differ();
    }
    let mut entries: Vec<(String, serde_json::Value)> = Vec::new();
    add_member(&mut entries, "from", json_string(relation.from.clone()));
    add_member(&mut entries, "to", json_string(relation.to.clone()));
    add_member(&mut entries, "relation_type", json_string(relation.relation_type.clone()));
    add_member(&mut entries, "attributes", relation.attributes.to_json());
    json_object(&entries)
}

/// Reads a relation.
pub fn decode_relation(v: &serde_json::Value) -> (r: Option<Relation>)
    ensures
        match relation_of(json_model(*v)) {
            Some(relation) => r matches Some(read) && read@ == relation,
            None => r is None,
        },
{
    let from = match decode_string(v, "from") {
        Some(from) => from,
        None => {
            return None;
        },
    };
    let to = match decode_string(v, "to") {
        Some(to) => to,
        None => {
            return None;
        },
    };
    let relation_type = match decode_string(v, "relation_type") {
        Some(relation_type) => relation_type,
        None => {
            return None;
        },
    };
    match decode_attributes(v, "attributes") {
        Some(attributes) => Some(Relation { from, to, relation_type, attributes }),
        None => None,
    }
}

} // verus!
