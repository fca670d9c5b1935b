use elfi_types::{
    Attributes, Block, BlockContent, DefaultTypeInterface, Document, Relation, TypeInterface,
    TypesError,
};
use std::time::{Duration, Instant};
use uuid::Uuid;

fn members(pairs: Vec<(&str, serde_json::Value)>) -> serde_json::Value {
    let mut map = serde_json::Map::new();
    for (key, value) in pairs {
        map.insert(key.to_string(), value);
    }
    serde_json::Value::Object(map)
}

fn same_attributes(a: &Attributes, b: &Attributes) -> bool {
    let left: std::collections::HashMap<String, serde_json::Value> =
        a.entries().iter().cloned().collect();
    let right: std::collections::HashMap<String, serde_json::Value> =
        b.entries().iter().cloned().collect();
    left == right
}

fn items(values: Vec<&str>) -> serde_json::Value {
    serde_json::Value::Array(values.into_iter().map(serde_json::Value::from).collect())
}





#[test]
fn test_complex_document_lifecycle() {
    let mut doc = Document::new("integration-test-doc".to_string());
    
    assert_eq!(doc.id, "integration-test-doc");
    assert_eq!(doc.blocks.len(), 0);
    assert_eq!(doc.metadata.version, 1);
    
    let intro_block = Block::new(Uuid::new_v4().to_string(), "markdown".to_string())
        .with_name("introduction".to_string())
        .with_content(BlockContent::Text("# 项目介绍\n\n这是一个基于CRDT的协作文档系统。".to_string()));
        
    let code_block = Block::new(Uuid::new_v4().to_string(), "code".to_string())
        .with_name("setup-code".to_string())
        .with_content(BlockContent::Text("npm install elfi-core".to_string()))
        .with_attributes({
            let mut attrs = Attributes::new();
            attrs.insert("language".to_string(), serde_json::Value::from("bash"));
            attrs.insert("parent".to_string(), serde_json::Value::from(intro_block.id.clone()));
            attrs
        });
        
    let relations_block = Block::new(Uuid::new_v4().to_string(), "relations".to_string())
        .with_name("document-relations".to_string())
        .with_content(BlockContent::Relations(format!(
            "{} -> {} [child_of] {{}}\n{} -> elf://shared-lib/utils/helpers#string-utils [references] {{display_text: \"共享工具函数\"}}",
            code_block.id, intro_block.id, intro_block.id
        )))
        .with_attributes({
            let mut attrs = Attributes::new();
            attrs.insert("owner".to_string(), serde_json::Value::from("alice"));
            attrs.insert("merge_method".to_string(), serde_json::Value::from("manual"));
            attrs
        });
    
    let intro_id = intro_block.id.clone();
    let code_id = code_block.id.clone();
    let relations_id = relations_block.id.clone();
    
    doc.blocks.push(intro_block);
    doc.blocks.push(code_block);
    doc.blocks.push(relations_block);
    
    assert_eq!(doc.blocks.len(), 3);
    
    assert!(doc.find_block(&intro_id).is_some());
    assert!(doc.find_block(&code_id).is_some());
    assert!(doc.find_block(&relations_id).is_some());
    assert!(doc.find_block("non-existent-id").is_none());
    
    assert!(doc.find_block_by_name("introduction").is_some());
    assert!(doc.find_block_by_name("setup-code").is_some());
    assert!(doc.find_block_by_name("document-relations").is_some());
    assert!(doc.find_block_by_name("non-existent-name").is_none());
    
    let found_intro = doc.find_block(&intro_id).unwrap();
    assert_eq!(found_intro.block_type, "markdown");
    assert_eq!(found_intro.name.as_ref().unwrap(), "introduction");
    
    let found_code = doc.find_block(&code_id).unwrap();
    assert_eq!(found_code.block_type, "code");
    assert_eq!(found_code.attributes.get("language").unwrap(), "bash");
    
    let found_relations = doc.find_block(&relations_id).unwrap();
    assert_eq!(found_relations.block_type, "relations");
    assert!(matches!(found_relations.content, BlockContent::Relations(_)));
    
    assert!(doc.validate_unique_names().is_ok());
    
    let interface = DefaultTypeInterface::new();
    let serialized = interface.serialize_document(&doc).expect("序列化应该成功");
    assert!(!serialized.is_empty());
    
    let deserialized = interface.deserialize_document(&serialized).expect("反序列化应该成功");
    assert_eq!(deserialized.id, doc.id);
    assert_eq!(deserialized.blocks.len(), doc.blocks.len());
    assert_eq!(deserialized.metadata.version, doc.metadata.version);
}

#[test]
fn test_document_metadata_management() {
    let mut doc = Document::new("metadata-test".to_string());
    
    doc.metadata.attributes.insert(
        "project_info".to_string(),
        members(vec![
            ("name", serde_json::Value::from("ELFI")),
            ("version", serde_json::Value::from("0.1.0")),
            ("authors", items(vec!["Alice", "Bob"])),
            ("tags", items(vec!["crdt", "collaboration", "document"])),
        ])
    );
    
    doc.metadata.attributes.insert(
        "settings".to_string(),
        members(vec![
            ("auto_save", serde_json::Value::from(true)),
            ("real_time_sync", serde_json::Value::from(true)),
            ("conflict_resolution", serde_json::Value::from("manual")),
        ])
    );
    
    let interface = DefaultTypeInterface::new();
    let serialized = interface.serialize_document(&doc).expect("序列化应该成功");
    let deserialized = interface.deserialize_document(&serialized).expect("反序列化应该成功");
    
    assert_eq!(deserialized.metadata.attributes.len(), 2);
    assert!(deserialized.metadata.attributes.contains_key("project_info"));
    assert!(deserialized.metadata.attributes.contains_key("settings"));
    
    let project_info = deserialized.metadata.attributes.get("project_info").unwrap();
    assert_eq!(project_info["name"], "ELFI");
    assert_eq!(project_info["authors"].as_array().unwrap().len(), 2);
}

#[test]
fn test_document_concurrent_modifications() {
    let mut doc = Document::new("concurrent-test".to_string());
    
    let mut user_blocks = Vec::new();
    
    for i in 0..10 {
        let block = Block::new(Uuid::new_v4().to_string(), "markdown".to_string())
            .with_name(format!("user-block-{}", i))
            .with_content(BlockContent::Text(format!("用户{}的内容", i)))
            .with_attributes({
                let mut attrs = Attributes::new();
                attrs.insert("author".to_string(), serde_json::Value::from(format!("user-{}", i)));
                attrs.insert("timestamp".to_string(), serde_json::Value::from(i));
                attrs
            });
        user_blocks.push(block);
    }
    
    for block in user_blocks {
        doc.blocks.push(block);
    }
    
    assert_eq!(doc.blocks.len(), 10);
    
    assert!(doc.validate_unique_names().is_ok());
    
    let user_5_blocks: Vec<_> = doc.blocks.iter()
        .filter(|block| {
            block.attributes.get("author")
                .and_then(|v| v.as_str())
                .map(|s| s == "user-5")
                .unwrap_or(false)
        })
        .collect();
    assert_eq!(user_5_blocks.len(), 1);
}



#[test]
fn test_complex_block_hierarchy() {
    let mut doc = Document::new("hierarchy-test".to_string());
    
    let root_block = Block::new(Uuid::new_v4().to_string(), "markdown".to_string())
        .with_name("root".to_string())
        .with_content(BlockContent::Text("# 文档根节点".to_string()));
        
    let chapter_block = Block::new(Uuid::new_v4().to_string(), "markdown".to_string())
        .with_name("chapter1".to_string())
        .with_content(BlockContent::Text("## 第一章".to_string()))
        .with_attributes({
            let mut attrs = Attributes::new();
            attrs.insert("parent".to_string(), serde_json::Value::from(root_block.id.clone()));
            attrs.insert("level".to_string(), serde_json::Value::from(1));
            attrs
        });
        
    let section_block = Block::new(Uuid::new_v4().to_string(), "markdown".to_string())
        .with_name("section1.1".to_string())
        .with_content(BlockContent::Text("### 1.1 节".to_string()))
        .with_attributes({
            let mut attrs = Attributes::new();
            attrs.insert("parent".to_string(), serde_json::Value::from(chapter_block.id.clone()));
            attrs.insert("level".to_string(), serde_json::Value::from(2));
            attrs
        });
        
    let subsection_block = Block::new(Uuid::new_v4().to_string(), "code".to_string())
        .with_name("subsection1.1.1".to_string())
        .with_content(BlockContent::Text("fn example() { println!(\"Hello\"); }".to_string()))
        .with_attributes({
            let mut attrs = Attributes::new();
            attrs.insert("parent".to_string(), serde_json::Value::from(section_block.id.clone()));
            attrs.insert("level".to_string(), serde_json::Value::from(3));
            attrs.insert("language".to_string(), serde_json::Value::from("rust"));
            attrs
        });
    
    let relations_content = format!(
        r#"# 层级关系
{} -> {} [child_of] {{level: 1}}
{} -> {} [child_of] {{level: 2}}
{} -> {} [child_of] {{level: 3}}

# 引用关系  
{} -> elf://external-doc/concepts#crdt [references] {{context: "技术背景"}}
{} -> elf://examples/rust-basics#functions [references] {{context: "代码示例"}}"#,
        chapter_block.id, root_block.id,
        section_block.id, chapter_block.id,
        subsection_block.id, section_block.id,
        root_block.id,
        subsection_block.id
    );
    
    let relations_block = Block::new(Uuid::new_v4().to_string(), "relations".to_string())
        .with_name("document-structure".to_string())
        .with_content(BlockContent::Relations(relations_content))
        .with_attributes({
            let mut attrs = Attributes::new();
            attrs.insert("scope".to_string(), serde_json::Value::from("document"));
            attrs.insert("auto_generated".to_string(), serde_json::Value::from(false));
            attrs
        });
    
    doc.blocks.push(root_block);
    doc.blocks.push(chapter_block);
    doc.blocks.push(section_block);
    doc.blocks.push(subsection_block);
    doc.blocks.push(relations_block);
    
    assert_eq!(doc.blocks.len(), 5);
    
    let level_1_blocks: Vec<_> = doc.blocks.iter()
        .filter(|block| {
            block.attributes.get("level")
                .and_then(|v| v.as_i64())
                .map(|l| l == 1)
                .unwrap_or(false)
        })
        .collect();
    assert_eq!(level_1_blocks.len(), 1);
    
    let level_3_blocks: Vec<_> = doc.blocks.iter()
        .filter(|block| {
            block.attributes.get("level")
                .and_then(|v| v.as_i64())
                .map(|l| l == 3)
                .unwrap_or(false)
        })
        .collect();
    assert_eq!(level_3_blocks.len(), 1);
    
    let relations = doc.find_block_by_name("document-structure").unwrap();
    assert_eq!(relations.block_type, "relations");
    assert!(matches!(relations.content, BlockContent::Relations(_)));
    
    if let BlockContent::Relations(ref content) = relations.content {
        assert!(content.contains("elf://external-doc/concepts#crdt"));
        assert!(content.contains("elf://examples/rust-basics#functions"));
    }
}

#[test]
fn test_relations_block_and_relation_objects() {
    let relation1 = Relation::new(
        "block-a".to_string(),
        "block-b".to_string(),
        "child_of".to_string(),
    ).with_attributes({
        let mut attrs = Attributes::new();
        attrs.insert("weight".to_string(), serde_json::Value::from(1.0));
        attrs.insert("created_by".to_string(), serde_json::Value::from("alice"));
        attrs
    });
    
    let relation2 = Relation::new(
        "block-b".to_string(),
        "elf://other-doc/section#intro".to_string(),
        "references".to_string(),
    ).with_attributes({
        let mut attrs = Attributes::new();
        attrs.insert("display_text".to_string(), serde_json::Value::from("相关介绍"));
        attrs.insert("auto_sync".to_string(), serde_json::Value::from(true));
        attrs
    });
    
    assert!(relation1.validate().is_err());
    assert!(relation2.validate().is_err());
    
    let relations_content = format!(
        r#"{} -> {} [{}] {{}}
{} -> {} [{}] {{}}"#,
        relation1.from, relation1.to, relation1.relation_type,
        relation2.from, relation2.to, relation2.relation_type
    );
    
    let relations_block = Block::new(Uuid::new_v4().to_string(), "relations".to_string())
        .with_name("mixed-relations".to_string())
        .with_content(BlockContent::Relations(relations_content));
    
    assert!(relations_block.validate().is_ok());
    assert_eq!(relations_block.block_type, "relations");
    
    let interface = DefaultTypeInterface::new();
    
    let relation1_json = serde_json::to_string(&elfi_types::wire::encode_relation(&relation1)).expect("Relation序列化成功");
    let relation2_json = serde_json::to_string(&elfi_types::wire::encode_relation(&relation2)).expect("Relation序列化成功");
    let block_json = serde_json::to_string(&elfi_types::wire::encode_block(&relations_block)).expect("Block序列化成功");
    
    assert!(!relation1_json.is_empty());
    assert!(!relation2_json.is_empty());
    assert!(!block_json.is_empty());
    
    let relation1_value: serde_json::Value = serde_json::from_str(&relation1_json).expect("Relation反序列化成功");
    let deserialized_relation1: Relation = elfi_types::wire::decode_relation(&relation1_value).expect("Relation反序列化成功");
    let block_value: serde_json::Value = serde_json::from_str(&block_json).expect("Block反序列化成功");
    let deserialized_block: Block = elfi_types::wire::decode_block(&block_value).expect("Block反序列化成功");
    
    assert_eq!(deserialized_relation1.from, relation1.from);
    assert_eq!(deserialized_relation1.to, relation1.to);
    assert_eq!(deserialized_relation1.relation_type, relation1.relation_type);
    assert_eq!(deserialized_block.name, relations_block.name);
}

#[test]
fn test_cross_document_references() {
    let mut doc = Document::new("main-document".to_string());
    
    let intro_block = Block::new(Uuid::new_v4().to_string(), "markdown".to_string())
        .with_name("introduction".to_string())
        .with_content(BlockContent::Text("# 主文档介绍\n\n本文档引用了多个外部资源。".to_string()));
    
    let impl_block = Block::new(Uuid::new_v4().to_string(), "code".to_string())
        .with_name("implementation".to_string())
        .with_content(BlockContent::Text("// 实现细节参考外部文档\nuse external_lib::*;".to_string()))
        .with_attributes({
            let mut attrs = Attributes::new();
            attrs.insert("language".to_string(), serde_json::Value::from("rust"));
            attrs
        });
    
    let cross_refs_content = format!(
        r#"# 文档内关系
{} -> {} [child_of] {{}}

# 跨文档引用 - 不同类型的URI格式
{} -> elf://shared-lib/utils/helpers#string-utils [references] {{display_text: "字符串工具"}}
{} -> elf://alice/project-docs/api-ref#authentication [references] {{display_text: "认证API"}}
{} -> elf://team/guidelines/coding-standards#rust-style [follows] {{category: "代码规范"}}

# 组件引用
{} -> elf://ui-components/forms#login-form [uses] {{version: "1.2.0"}}
{} -> elf://shared/templates/layouts#main-layout [extends] {{theme: "dark"}}"#,
        impl_block.id, intro_block.id,
        intro_block.id,
        impl_block.id,
        impl_block.id,
        intro_block.id,
        impl_block.id
    );
    
    let cross_refs_block = Block::new(Uuid::new_v4().to_string(), "relations".to_string())
        .with_name("cross-document-refs".to_string())
        .with_content(BlockContent::Relations(cross_refs_content))
        .with_attributes({
            let mut attrs = Attributes::new();
            attrs.insert("scope".to_string(), serde_json::Value::from("global"));
            attrs.insert("auto_update".to_string(), serde_json::Value::from(true));
            attrs
        });
    
    doc.blocks.push(intro_block);
    doc.blocks.push(impl_block);
    doc.blocks.push(cross_refs_block);
    
    assert_eq!(doc.blocks.len(), 3);
    
    let refs_block = doc.find_block_by_name("cross-document-refs").unwrap();
    if let BlockContent::Relations(ref content) = refs_block.content {
        assert!(content.contains("elf://shared-lib/utils/helpers#string-utils"));
        assert!(content.contains("elf://alice/project-docs/api-ref#authentication"));
        assert!(content.contains("elf://team/guidelines/coding-standards#rust-style"));
        assert!(content.contains("elf://ui-components/forms#login-form"));
        assert!(content.contains("elf://shared/templates/layouts#main-layout"));
        
        assert!(content.contains("[references]"));
        assert!(content.contains("[follows]"));
        assert!(content.contains("[uses]"));
        assert!(content.contains("[extends]"));
        
        assert!(content.contains(r#"display_text: "字符串工具""#));
        assert!(content.contains(r#"version: "1.2.0""#));
        assert!(content.contains(r#"theme: "dark""#));
    }
    
    let interface = DefaultTypeInterface::new();
    let serialized = interface.serialize_document(&doc).expect("序列化成功");
    let deserialized = interface.deserialize_document(&serialized).expect("反序列化成功");
    
    let deserialized_refs = deserialized.find_block_by_name("cross-document-refs").unwrap();
    assert_eq!(refs_block.content, deserialized_refs.content);
}



#[test]
fn test_large_scale_data_processing() {
    let mut doc = Document::new("large-scale-test".to_string());
    
    const LARGE_BLOCK_COUNT: usize = 1000;
    const LARGE_CONTENT_SIZE: usize = 10000;
    
    let start_time = Instant::now();
    
    for i in 0..LARGE_BLOCK_COUNT {
        let large_content = "A".repeat(LARGE_CONTENT_SIZE);
        let block = Block::new(Uuid::new_v4().to_string(), "markdown".to_string())
            .with_name(format!("large-block-{:04}", i))
            .with_content(BlockContent::Text(large_content))
            .with_attributes({
                let mut attrs = Attributes::new();
                attrs.insert("index".to_string(), serde_json::Value::from(i));
                attrs.insert("size".to_string(), serde_json::Value::from(LARGE_CONTENT_SIZE));
                attrs.insert("category".to_string(), serde_json::Value::from(format!("cat-{}", i % 10)));
                attrs
            });
        doc.blocks.push(block);
    }
    
    let creation_time = start_time.elapsed();
    println!("创建{}个大Block耗时: {:?}", LARGE_BLOCK_COUNT, creation_time);
    
    assert_eq!(doc.blocks.len(), LARGE_BLOCK_COUNT);
    
    let search_start = Instant::now();
    let found_block = doc.find_block_by_name("large-block-0500");
    let search_time = search_start.elapsed();
    
    assert!(found_block.is_some());
    assert!(search_time < Duration::from_millis(100));
    println!("在{}个Block中查找耗时: {:?}", LARGE_BLOCK_COUNT, search_time);
    
    let filter_start = Instant::now();
    let category_5_blocks: Vec<_> = doc.blocks.iter()
        .filter(|block| {
            block.attributes.get("category")
                .and_then(|v| v.as_str())
                .map(|s| s == "cat-5")
                .unwrap_or(false)
        })
        .collect();
    let filter_time = filter_start.elapsed();
    
    assert_eq!(category_5_blocks.len(), LARGE_BLOCK_COUNT / 10);
    assert!(filter_time < Duration::from_millis(500));
    println!("按属性过滤{}个Block耗时: {:?}", LARGE_BLOCK_COUNT, filter_time);
    
    let sample_doc = Document {
        id: doc.id.clone(),
        blocks: doc.blocks.iter().take(10).cloned().collect(),
        metadata: doc.metadata.clone(),
    };
    
    let serialize_start = Instant::now();
    let interface = DefaultTypeInterface::new();
    let serialized = interface.serialize_document(&sample_doc).expect("序列化成功");
    let serialize_time = serialize_start.elapsed();
    
    assert!(!serialized.is_empty());
    assert!(serialize_time < Duration::from_millis(100));
    println!("序列化10个大Block耗时: {:?}", serialize_time);
}

#[test]
fn test_malicious_input_handling() {
    let interface = DefaultTypeInterface::new();
    
    let malicious_inputs = vec![
        "",
        "invalid json",
        "{}",
        r#"{"id": null}"#,
        r#"{"id": "test", "blocks": null}"#,
        "[]",
        r#"{"id": "test", "blocks": "not_array"}"#,
        "{'id': 'invalid_quotes'}",
        r#"{"id": "test", "metadata": {"created_at": "invalid_date"}}"#,
    ];
    
    for (i, malicious_input) in malicious_inputs.iter().enumerate() {
        let result = interface.deserialize_document(malicious_input);
        assert!(result.is_err(), "恶意输入 {} 应该失败: {}", i, malicious_input);
        
        if let Err(e) = result {
            assert!(matches!(e, TypesError::Serialization { .. }));
        }
    }
}

#[test]
fn test_extreme_boundary_conditions() {
    let very_long_id = "a".repeat(10000);
    let result = Document::new(very_long_id.clone());
    assert_eq!(result.id, very_long_id);
    
    let very_long_name = "block_".repeat(1000);
    let block = Block::new(Uuid::new_v4().to_string(), "markdown".to_string())
        .with_name(very_long_name.clone());
    assert_eq!(block.name.unwrap(), very_long_name);
    
    let deeply_nested = members(vec![
        ("level1", members(vec![
            ("level2", members(vec![
                ("level3", members(vec![
                    ("level4", members(vec![
                        ("level5", members(vec![
                            ("level6", members(vec![
                                ("level7", members(vec![
                                    ("level8", members(vec![
                                        ("level9", members(vec![
                                            ("level10", serde_json::Value::from("deep_value")),
                                        ])),
                                    ])),
                                ])),
                            ])),
                        ])),
                    ])),
                ])),
            ])),
        ])),
    ]);
    
    let mut attributes = Attributes::new();
    attributes.insert("nested".to_string(), deeply_nested);
    
    let block = Block::new(Uuid::new_v4().to_string(), "test".to_string())
        .with_attributes(attributes);
    
    assert!(block.validate().is_ok());
    
    let serialized = serde_json::to_string(&elfi_types::wire::encode_block(&block)).expect("序列化成功");
    let serialized_value: serde_json::Value = serde_json::from_str(&serialized).expect("反序列化成功");
    let deserialized: Block = elfi_types::wire::decode_block(&serialized_value).expect("反序列化成功");
    assert!(same_attributes(&block.attributes, &deserialized.attributes));
    
    let large_binary = vec![0u8; 1024 * 1024];
    let binary_block = Block::new(Uuid::new_v4().to_string(), "binary".to_string())
        .with_content(BlockContent::Binary(large_binary.clone()));
    
    assert!(binary_block.validate().is_ok());
    if let BlockContent::Binary(ref data) = binary_block.content {
        assert_eq!(data.len(), 1024 * 1024);
    }
    
    let empty_relations = Block::new(Uuid::new_v4().to_string(), "relations".to_string())
        .with_content(BlockContent::Relations("".to_string()));
    assert!(empty_relations.validate().is_ok());
    
    let malformed_relations = Block::new(Uuid::new_v4().to_string(), "relations".to_string())
        .with_content(BlockContent::Relations("invalid -> syntax [malformed] {{".to_string()));
    assert!(malformed_relations.validate().is_ok());
}

#[test]
fn test_memory_usage_analysis() {
    
    let mut doc = Document::new("memory-test".to_string());
    let initial_block_count = doc.blocks.len();
    
    for batch in 1..=5 {
        let batch_size = batch * 100;
        
        for i in 0..batch_size {
            let content = format!("Batch {} Block {} with some content to fill memory", batch, i);
            let block = Block::new(Uuid::new_v4().to_string(), "markdown".to_string())
                .with_name(format!("memory-block-{}-{}", batch, i))
                .with_content(BlockContent::Text(content))
                .with_attributes({
                    let mut attrs = Attributes::new();
                    attrs.insert("batch".to_string(), serde_json::Value::from(batch));
                    attrs.insert("index".to_string(), serde_json::Value::from(i));
                    attrs
                });
            doc.blocks.push(block);
        }
        
        let expected_count = initial_block_count + (1..=batch).map(|b| b * 100).sum::<usize>();
        assert_eq!(doc.blocks.len(), expected_count);
        
        let search_start = Instant::now();
        let _found = doc.find_block_by_name(&format!("memory-block-1-50"));
        let search_time = search_start.elapsed();
        
        println!("Batch {}: {} blocks, search time: {:?}", batch, doc.blocks.len(), search_time);
        
        assert!(search_time < Duration::from_millis(50));
    }
}




#[test]
fn test_conversation_as_document_usecase() {
    let mut conversation_doc = Document::new("team-meeting-2024-01-15".to_string());
    
    conversation_doc.metadata.attributes.insert(
        "meeting_info".to_string(),
        members(vec![
            ("date", serde_json::Value::from("2024-01-15")),
            ("participants", items(vec!["alice", "bob", "charlie"])),
            ("topic", serde_json::Value::from("Sprint Planning")),
            ("duration", serde_json::Value::from("60 minutes")),
        ])
    );
    
    let conversation_blocks = vec![
        ("alice", "introduction", "# Sprint Planning Meeting\n\n欢迎大家参加今天的Sprint规划会议。"),
        ("bob", "status-update", "## 当前进度\n\n后端API开发已完成80%，预计本周五交付。"),
        ("charlie", "ui-progress", "## UI进展\n\n设计稿已完成，正在进行组件开发。"),
        ("alice", "timeline-discussion", "## 时间安排\n\n根据大家的进度，我们需要调整一下时间线。"),
        ("bob", "technical-concern", "## 技术考虑\n\n需要考虑数据库迁移的影响，可能需要额外的时间。"),
        ("charlie", "design-update", "## 设计更新\n\n用户反馈建议调整颜色方案，会在明天更新。"),
    ];
    
    let mut block_ids = Vec::new();
    for (author, name, content) in conversation_blocks {
        let block = Block::new(Uuid::new_v4().to_string(), "markdown".to_string())
            .with_name(name.to_string())
            .with_content(BlockContent::Text(content.to_string()))
            .with_attributes({
                let mut attrs = Attributes::new();
                attrs.insert("author".to_string(), serde_json::Value::from(author));
                attrs.insert("timestamp".to_string(), serde_json::Value::from(format!("2024-01-15T10:{:02}:00Z", 10 + block_ids.len() * 5)));
                attrs.insert("type".to_string(), serde_json::Value::from("conversation"));
                attrs
            });
        
        block_ids.push(block.id.clone());
        conversation_doc.blocks.push(block);
    }
    
    let meeting_structure = format!(
        r#"# 会议流程结构
{} -> {} [follows] {{order: 1}}
{} -> {} [follows] {{order: 2}}
{} -> {} [follows] {{order: 3}}
{} -> {} [follows] {{order: 4}}
{} -> {} [follows] {{order: 5}}

# 主题关联
{} -> {} [related_to] {{topic: "进度汇报"}}
{} -> {} [blocks] {{dependency: "API完成"}}

# 外部引用
{} -> elf://project-docs/api-spec#endpoints [references] {{context: "技术依赖"}}
{} -> elf://design-system/components#buttons [references] {{context: "UI组件"}}"#,
        block_ids[0], block_ids[1],
        block_ids[1], block_ids[2],
        block_ids[2], block_ids[3],
        block_ids[3], block_ids[4],
        block_ids[4], block_ids[5],
        block_ids[1], block_ids[2],
        block_ids[4], block_ids[1],
        block_ids[4],
        block_ids[5]
    );
    
    let relations_block = Block::new(Uuid::new_v4().to_string(), "relations".to_string())
        .with_name("meeting-structure".to_string())
        .with_content(BlockContent::Relations(meeting_structure))
        .with_attributes({
            let mut attrs = Attributes::new();
            attrs.insert("auto_generated".to_string(), serde_json::Value::from(false));
            attrs.insert("scope".to_string(), serde_json::Value::from("meeting"));
            attrs
        });
    
    conversation_doc.blocks.push(relations_block);
    
    assert_eq!(conversation_doc.blocks.len(), 7);
    assert!(conversation_doc.validate_unique_names().is_ok());
    
    let alice_blocks: Vec<_> = conversation_doc.blocks.iter()
        .filter(|block| {
            block.attributes.get("author")
                .and_then(|v| v.as_str())
                .map(|s| s == "alice")
                .unwrap_or(false)
        })
        .collect();
    assert_eq!(alice_blocks.len(), 2);
    
    let mut timestamps: Vec<_> = conversation_doc.blocks.iter()
        .filter_map(|block| {
            block.attributes.get("timestamp")
                .and_then(|v| v.as_str())
        })
        .collect();
    timestamps.sort();
    assert!(timestamps.len() >= 6);
    
    let interface = DefaultTypeInterface::new();
    let serialized = interface.serialize_document(&conversation_doc).expect("序列化成功");
    let deserialized = interface.deserialize_document(&serialized).expect("反序列化成功");
    
    assert_eq!(deserialized.id, conversation_doc.id);
    assert_eq!(deserialized.blocks.len(), conversation_doc.blocks.len());
}

#[test]
fn test_bootstrapping_development_usecase() {
    let mut dev_doc = Document::new("elfi-core-development".to_string());
    
    dev_doc.metadata.attributes.insert(
        "project".to_string(),
        members(vec![
            ("name", serde_json::Value::from("elfi-core")),
            ("version", serde_json::Value::from("0.1.0")),
            ("language", serde_json::Value::from("rust")),
            ("build_system", serde_json::Value::from("cargo")),
        ])
    );
    
    let code_blocks = vec![
        ("project-structure", "markdown", "# ELFI项目结构\n\n描述整个项目的组织方式和模块划分。"),
        ("core-types", "code", "// 核心数据类型定义\nuse serde::{Serialize, Deserialize};\n\n#[derive(Debug, Serialize, Deserialize)]\npub struct Document {\n    pub id: String,\n    pub blocks: Vec<Block>,\n}"),
        ("test-strategy", "markdown", "## 测试策略\n\n1. 单元测试覆盖所有公共API\n2. 集成测试验证端到端功能\n3. 性能基准确保可扩展性"),
        ("build-config", "code", "# Cargo.toml configuration\n[package]\nname = \"elfi-core\"\nversion = \"0.1.0\"\nedition = \"2021\""),
        ("deployment-recipe", "recipe", "# 自动化部署脚本\nsteps:\n  - cargo test\n  - cargo build --release\n  - cargo publish"),
    ];
    
    let mut block_ids = Vec::new();
    for (name, block_type, content) in code_blocks {
        let content_enum = match block_type {
            "recipe" => BlockContent::Text(content.to_string()),
            _ => BlockContent::Text(content.to_string()),
        };
        
        let block = Block::new(Uuid::new_v4().to_string(), block_type.to_string())
            .with_name(name.to_string())
            .with_content(content_enum)
            .with_attributes({
                let mut attrs = Attributes::new();
                attrs.insert("category".to_string(), serde_json::Value::from("development"));
                if block_type == "code" {
                    attrs.insert("language".to_string(), serde_json::Value::from("rust"));
                    attrs.insert("executable".to_string(), serde_json::Value::from(true));
                }
                if block_type == "recipe" {
                    attrs.insert("auto_run".to_string(), serde_json::Value::from(false));
                    attrs.insert("dependencies".to_string(), items(vec!["core-types", "test-strategy"]));
                }
                attrs
            });
        
        block_ids.push(block.id.clone());
        dev_doc.blocks.push(block);
    }
    
    let dev_workflow = format!(
        r#"# 开发依赖关系
{} -> {} [implements] {{stage: "foundation"}}
{} -> {} [tests] {{coverage: "unit"}}
{} -> {} [builds] {{target: "release"}}
{} -> {} [requires] {{type: "sequential"}}

# 外部工具引用
{} -> elf://build-tools/cargo#commands [uses] {{purpose: "compilation"}}
{} -> elf://ci-cd/github-actions#rust-workflow [triggers] {{event: "push"}}
{} -> elf://docs/api-reference#types [documents] {{format: "rustdoc"}}

# 自举循环
{} -> elf://elfi-core/src/lib.rs#Document [defines] {{meta: "self_reference"}}
{} -> elf://elfi-core/Cargo.toml#dependencies [configures] {{tool: "cargo"}}"#,
        block_ids[1], block_ids[0],
        block_ids[2], block_ids[1],
        block_ids[3], block_ids[1],
        block_ids[4], block_ids[2],
        block_ids[3],
        block_ids[4],
        block_ids[1],
        block_ids[1],
        block_ids[3]
    );
    
    let relations_block = Block::new(Uuid::new_v4().to_string(), "relations".to_string())
        .with_name("development-workflow".to_string())
        .with_content(BlockContent::Relations(dev_workflow))
        .with_attributes({
            let mut attrs = Attributes::new();
            attrs.insert("scope".to_string(), serde_json::Value::from("project"));
            attrs.insert("auto_update".to_string(), serde_json::Value::from(true));
            attrs
        });
    
    dev_doc.blocks.push(relations_block);
    
    assert_eq!(dev_doc.blocks.len(), 6);
    assert!(dev_doc.validate_unique_names().is_ok());
    
    let code_blocks_count = dev_doc.blocks.iter()
        .filter(|block| block.block_type == "code")
        .count();
    assert_eq!(code_blocks_count, 2);
    
    let recipe_block = dev_doc.find_block_by_name("deployment-recipe").unwrap();
    assert_eq!(recipe_block.block_type, "recipe");
    assert!(recipe_block.attributes.contains_key("dependencies"));
    
    let workflow_block = dev_doc.find_block_by_name("development-workflow").unwrap();
    if let BlockContent::Relations(ref content) = workflow_block.content {
        assert!(content.contains("elf://elfi-core/"));
        assert!(content.contains("self_reference"));
    }
    
    let interface = DefaultTypeInterface::new();
    let serialized = interface.serialize_document(&dev_doc).expect("序列化成功");
    
    assert!(serialized.contains("Document"));
    assert!(serialized.contains("cargo test"));
    assert!(serialized.contains("elfi-core"));
}

#[test]
fn test_document_as_app_usecase() {
    let mut main_doc = Document::new("interactive-dashboard".to_string());
    
    main_doc.metadata.attributes.insert(
        "app_config".to_string(),
        members(vec![
            ("title", serde_json::Value::from("ELFI Dashboard")),
            ("version", serde_json::Value::from("1.0.0")),
            ("theme", serde_json::Value::from("dark")),
            ("interactive", serde_json::Value::from(true)),
        ])
    );
    
    let main_blocks = vec![
        ("app-header", "component", "# Dashboard Header\n\n应用顶部导航和用户信息显示"),
        ("main-content", "layout", "## 主要内容区域\n\n包含多个动态组件的布局容器"),
        ("data-visualization", "component", "### 数据可视化\n\n实时图表和统计信息"),
        ("user-settings", "component", "### 用户设置\n\n个性化配置面板"),
    ];
    
    let mut main_block_ids = Vec::new();
    for (name, block_type, content) in main_blocks {
        let block = Block::new(Uuid::new_v4().to_string(), block_type.to_string())
            .with_name(name.to_string())
            .with_content(BlockContent::Text(content.to_string()))
            .with_attributes({
                let mut attrs = Attributes::new();
                attrs.insert("interactive".to_string(), serde_json::Value::from(true));
                attrs.insert("render_priority".to_string(), serde_json::Value::from(main_block_ids.len()));
                attrs
            });
        
        main_block_ids.push(block.id.clone());
        main_doc.blocks.push(block);
    }
    
    let cross_doc_relations = format!(
        r#"# 文档内布局关系
{} -> {} [contains] {{position: "top"}}
{} -> {} [contains] {{position: "center-left"}}
{} -> {} [contains] {{position: "center-right"}}

# 跨文档组件引用
{} -> elf://ui-components/navigation#top-nav [renders] {{props: "{{\"title\": \"Dashboard\", \"user\": \"alice\"}}"}}
{} -> elf://widgets/charts#line-chart [embeds] {{data_source: "api://stats/daily", refresh: 30}}
{} -> elf://widgets/charts#pie-chart [embeds] {{data_source: "api://stats/categories", interactive: true}}
{} -> elf://forms/settings#user-preferences [includes] {{theme: "dark", save_auto: true}}

# 动态内容引用
{} -> elf://data-sources/analytics#real-time [subscribes] {{interval: 5000}}
{} -> elf://themes/dark#variables [applies] {{scope: "global"}}

# 状态管理引用
{} -> elf://state/user-session#current [reads] {{reactive: true}}
{} -> elf://state/app-config#dashboard [writes] {{persistent: true}}"#,
        main_block_ids[0], main_block_ids[1],
        main_block_ids[1], main_block_ids[2],
        main_block_ids[1], main_block_ids[3],
        main_block_ids[0],
        main_block_ids[2],
        main_block_ids[2],
        main_block_ids[3],
        main_block_ids[2],
        main_block_ids[0],
        main_block_ids[3],
        main_block_ids[1]
    );
    
    let relations_block = Block::new(Uuid::new_v4().to_string(), "relations".to_string())
        .with_name("app-composition".to_string())
        .with_content(BlockContent::Relations(cross_doc_relations))
        .with_attributes({
            let mut attrs = Attributes::new();
            attrs.insert("scope".to_string(), serde_json::Value::from("application"));
            attrs.insert("runtime".to_string(), serde_json::Value::from("browser"));
            attrs.insert("hot_reload".to_string(), serde_json::Value::from(true));
            attrs
        });
    
    main_doc.blocks.push(relations_block);
    
    let mut component_doc = Document::new("shared-ui-components".to_string());
    
    let component_blocks = vec![
        ("top-nav", "component", "<!-- Navigation Component -->\n<nav class=\"top-nav\">{{title}}</nav>"),
        ("line-chart", "component", "<!-- Line Chart Component -->\n<div class=\"chart\" data-type=\"line\">{{data}}</div>"),
        ("user-preferences", "component", "<!-- Settings Form -->\n<form class=\"preferences\">{{fields}}</form>"),
    ];
    
    for (name, block_type, content) in component_blocks {
        let block = Block::new(Uuid::new_v4().to_string(), block_type.to_string())
            .with_name(name.to_string())
            .with_content(BlockContent::Text(content.to_string()))
            .with_attributes({
                let mut attrs = Attributes::new();
                attrs.insert("reusable".to_string(), serde_json::Value::from(true));
                attrs.insert("framework".to_string(), serde_json::Value::from("html"));
                attrs
            });
        
        component_doc.blocks.push(block);
    }
    
    assert_eq!(main_doc.blocks.len(), 5);
    assert_eq!(component_doc.blocks.len(), 3);
    
    let app_composition = main_doc.find_block_by_name("app-composition").unwrap();
    if let BlockContent::Relations(ref content) = app_composition.content {
        assert!(content.contains("elf://ui-components/navigation#top-nav"));
        assert!(content.contains("elf://widgets/charts#line-chart"));
        assert!(content.contains("elf://forms/settings#user-preferences"));
        
        assert!(content.contains("elf://data-sources/analytics#real-time"));
        assert!(content.contains("elf://state/user-session#current"));
        
        assert!(content.contains(r#"refresh: 30"#));
        assert!(content.contains(r#"interactive: true"#));
        assert!(content.contains(r#"reactive: true"#));
    }
    
    let reusable_components: Vec<_> = component_doc.blocks.iter()
        .filter(|block| {
            block.attributes.get("reusable")
                .and_then(|v| v.as_bool())
                .unwrap_or(false)
        })
        .collect();
    assert_eq!(reusable_components.len(), 3);
    
    let interface = DefaultTypeInterface::new();
    
    let main_serialized = interface.serialize_document(&main_doc).expect("主文档序列化成功");
    let component_serialized = interface.serialize_document(&component_doc).expect("组件文档序列化成功");
    
    assert!(main_serialized.contains("Dashboard"));
    assert!(main_serialized.contains("elf://ui-components/"));
    assert!(component_serialized.contains("top-nav"));
    assert!(component_serialized.contains("reusable"));
    
    let main_deserialized = interface.deserialize_document(&main_serialized).expect("主文档反序列化成功");
    let component_deserialized = interface.deserialize_document(&component_serialized).expect("组件文档反序列化成功");
    
    assert_eq!(main_deserialized.id, main_doc.id);
    assert_eq!(component_deserialized.id, component_doc.id);
    
    let deserialized_relations = main_deserialized.find_block_by_name("app-composition").unwrap();
    assert_eq!(deserialized_relations.content, app_composition.content);
}