use floatdea::data::ai::extract::{
    extract_text_from_file, is_pdf, is_text_file, truncate, MAX_EXTRACT_CHARS,
};
use floatdea::data::ai::provider::wire::wire_tool_name;
use floatdea::data::ai::types::{
    content_hash, dedup_sources, AiBoxData, Message, SourceTarget,
};
use floatdea::data::ids::{ContainerId, ConversationId, EntityId, TurnTaskId};

fn conversation_id() -> ConversationId {
    ConversationId::new()
}

#[test]
fn text_file_is_detected_by_extension() {
    assert!(is_text_file("note.md"));
    assert!(is_text_file("data.json"));
    assert!(is_text_file("script.rs"));
    assert!(!is_text_file("image.png"));
    assert!(!is_text_file("archive.zip"));
}

#[test]
fn pdf_is_detected_by_extension() {
    assert!(is_pdf("doc.pdf"));
    assert!(is_pdf("DOC.PDF"));
    assert!(!is_pdf("doc.txt"));
}

#[test]
fn missing_file_returns_none() {
    assert!(extract_text_from_file("/tmp/floatdea-nonexistent-xyz.md", None).is_none());
}

#[test]
fn text_file_is_read_and_truncated() {
    let result = extract_text_from_file("hello.txt", Some(b"Hello, world!".to_vec()));
    assert_eq!(result, Some("Hello, world!".to_owned()));
}

#[test]
fn truncation_caps_at_max_chars() {
    let long = "a".repeat(MAX_EXTRACT_CHARS + 100);
    assert_eq!(truncate(&long).len(), MAX_EXTRACT_CHARS);
}

#[test]
fn unknown_extension_tries_utf8_fallback() {
    let result = extract_text_from_file("data.xyz", Some(b"fallback content".to_vec()));
    assert_eq!(result, Some("fallback content".to_owned()));
}

#[test]
fn pdf_file_is_detected_and_attempts_extraction() {
    let result = extract_text_from_file("test.pdf", Some(b"not a real pdf".to_vec()));
    assert!(result.is_none(), "invalid PDF content should return None");
}

#[test]
fn bytes_that_are_no_text_have_none() {
    assert!(extract_text_from_file("data.txt", Some(vec![0xff, 0xfe])).is_none());
    assert_eq!(
        extract_text_from_file("data.txt", Some("grüß".as_bytes().to_vec())),
        Some("grüß".to_owned())
    );
}

#[test]
fn wire_tool_name_sanitizes_namespaced_ids() {
    assert_eq!(wire_tool_name("core.list_sources"), "core_list_sources");
    assert_eq!(wire_tool_name("core.read_source"), "core_read_source");
    assert_eq!(wire_tool_name("core.search_sources"), "core_search_sources");
    assert_eq!(
        wire_tool_name("core.create_output_proposal"),
        "core_create_output_proposal"
    );
    for name in ["core_list_sources", "core_read_source"] {
        assert!(
            name.chars().all(|c| c.is_ascii_alphanumeric() || c == '_' || c == '-'),
            "{name} is a valid name"
        );
        assert_eq!(wire_tool_name(name), name);
    }
}

#[test]
fn content_hash_is_stable_and_sensitive_to_content() {
    let a = content_hash("same content");
    assert_eq!(a, content_hash("same content"));
    assert_ne!(a, content_hash("different content"));
    assert_ne!(content_hash(""), a);
}

#[test]
fn conversation_lifecycle_mutates_sidecar_data() {
    let ai_box = ContainerId::new();
    let mut data = AiBoxData::empty(ai_box);
    let id = conversation_id();
    let entity = EntityId::new();
    let source = SourceTarget::Snippet(entity);

    assert!(data.create_conversation(id.clone(), "Ask", false, vec![source.clone()], 1));
    // Duplicate id is rejected.
    assert!(!data.create_conversation(id.clone(), "Again", false, Vec::new(), 1));

    // Binding is de-duplicated by stable id.
    assert!(!data.bind_source(&id, source.clone()));
    assert!(data.bind_source(&id, SourceTarget::Container(ContainerId::new())));
    assert_eq!(data.get(&id).unwrap().sources.len(), 2);

    let task = TurnTaskId::new();
    assert!(data.push_message(&id, Message::user("hello"), 2));
    assert!(data.push_message(&id, Message::assistant("hi there", task.clone()), 3));
    assert_eq!(data.get(&id).unwrap().updated_at, 3);
    assert_eq!(data.get(&id).unwrap().messages.len(), 2);
    assert_eq!(data.get(&id).unwrap().messages[1].turn_task.as_ref(), Some(&task));

    assert!(data.rename_conversation(&id, "Renamed"));
    assert_eq!(data.get(&id).unwrap().title, "Renamed");

    assert!(data.delete_conversation(&id));
    assert!(data.get(&id).is_none());
    assert!(!data.delete_conversation(&id));
}

#[test]
fn unbinding_source_only_affects_future_turns() {
    let mut data = AiBoxData::empty(ContainerId::new());
    let id = conversation_id();
    let entity = EntityId::new();
    let source = SourceTarget::Snippet(entity);
    data.create_conversation(id.clone(), "C", false, vec![source.clone()], 0);
    assert!(data.unbind_source(&id, &source));
    assert!(data.get(&id).unwrap().sources.is_empty());
    // Unbinding an unknown source is a no-op.
    assert!(!data.unbind_source(&id, &SourceTarget::Snippet(EntityId::new())));
}

#[test]
fn sources_deduplicate_by_stable_key_on_creation() {
    let entity = EntityId::new();
    let sources = vec![
        SourceTarget::Snippet(entity.clone()),
        SourceTarget::Snippet(entity),
    ];
    let deduped = dedup_sources(sources);
    assert_eq!(deduped.len(), 1);
}
