use floatdea::app::settings::{
    ai_rows, mode_label, provider_kinds, provider_notice, theme_label, AiRow, SettingsEdit,
};
use floatdea::app::start::starter_snippets;
use floatdea::app::page::HomePage;
use floatdea::data::ai::provider::ProviderKind;
use floatdea::data::ai::store::AiStore;
use floatdea::data::ai::types::{
    AiBoxData, Message, MessageRole, SourceTarget, AI_BOX_DATA_VERSION,
};
use floatdea::data::ids::{
    ContainerId, ConversationId, EntityId, ReferenceId, TextId, TurnTaskId,
};
use floatdea::data::layout::{CanvasText, CardLayout, ContainerLayout, Point};
use floatdea::data::model::Snippet;
use floatdea::data::settings::{
    Settings, SettingsStore, ThemeSetting, WindowMode, DEFAULT_MATH_CAP_SCALE,
    DEFAULT_PREVIEW_FONT_SIZE,
};
use floatdea::data::storage::{
    holds_snippet, parse_file_stem, FolderEntry, LoadPlan, SnippetStore, StorageError,
};
use floatdea::data::workspace::{
    MemberRole, ReferenceTarget, SpecialKind, Workspace, WorkspaceError, WorkspaceStore,
};

fn point(x: f32, y: f32) -> Point {
    Point { x: x.to_bits(), y: y.to_bits() }
}

fn same_settings(a: &Settings, b: &Settings) -> bool {
    a.version == b.version
        && a.theme == b.theme
        && a.preview_font_size == b.preview_font_size
        && a.math_cap_scale == b.math_cap_scale
        && a.snap_to_grid == b.snap_to_grid
        && a.show_grid == b.show_grid
        && a.window_mode == b.window_mode
        && a.ai_enabled == b.ai_enabled
        && a.ai_provider == b.ai_provider
        && a.ai_model == b.ai_model
        && a.ai_base_url == b.ai_base_url
        && a.ai_api_key == b.ai_api_key
        && a.ai_tools_enabled == b.ai_tools_enabled
        && a.summarizer_model == b.summarizer_model
}

#[test]
fn loads_defaults_when_file_is_missing() {
    let store = SettingsStore::open("/w");
    assert!(same_settings(&store.load(None), &Settings::default()));
}

#[test]
fn persists_changes_across_reloads() {
    let store = SettingsStore::open("/w");
    let changed = || Settings {
        theme: ThemeSetting::Dark,
        preview_font_size: 18.0f32.to_bits(),
        math_cap_scale: 1.4f32.to_bits(),
        snap_to_grid: false,
        show_grid: false,
        window_mode: WindowMode::Floating,
        ..Settings::default()
    };
    assert_eq!(store.save(), "/w/.floatdea/settings.json");
    let reloaded = SettingsStore::open("/w").load(Some(changed()));
    assert!(same_settings(&reloaded, &changed()));
}

#[test]
fn falls_back_to_defaults_on_corrupt_file() {
    // A file that is no settings file holds no settings.
    let store = SettingsStore::open("/w");
    assert_eq!(store.path(), "/w/.floatdea/settings.json");
    assert!(same_settings(&store.load(None), &Settings::default()));
}

#[test]
fn ai_is_disabled_by_default() {
    let settings = Settings::default();
    assert!(!settings.ai_enabled);
    assert_eq!(settings.ai_provider, ProviderKind::Fake);
    // The default fake provider requires no endpoint or key.
    let config = settings.ai_provider_config();
    assert_eq!(config.kind, ProviderKind::Fake);
    assert!(config.base_url.is_none());
    assert_eq!(settings.preview_font_size, DEFAULT_PREVIEW_FONT_SIZE);
    assert_eq!(f32::from_bits(DEFAULT_PREVIEW_FONT_SIZE), 16.0);
    assert_eq!(f32::from_bits(DEFAULT_MATH_CAP_SCALE), 1.15);
}

#[test]
fn ai_provider_config_uses_the_stored_key() {
    let settings = Settings {
        ai_enabled: true,
        ai_provider: ProviderKind::OpenAiCompatible,
        ai_model: "gpt-test".to_owned(),
        ai_base_url: "https://example.test/v1".to_owned(),
        ai_api_key: "sk-secret".to_owned(),
        ..Settings::default()
    };
    let config = settings.ai_provider_config();
    assert_eq!(config.kind, ProviderKind::OpenAiCompatible);
    assert_eq!(config.model, "gpt-test");
    assert_eq!(config.base_url.as_deref(), Some("https://example.test/v1"));
    assert_eq!(config.api_key.as_deref(), Some("sk-secret"));
}

#[test]
fn ai_provider_config_blank_key_stays_none() {
    let settings = Settings { ai_api_key: "   ".to_owned(), ..Settings::default() };
    assert_eq!(settings.ai_provider_config().api_key, None);
}

#[test]
fn ai_settings_persist_across_reloads() {
    let store = SettingsStore::open("/w");
    let settings = || Settings {
        ai_enabled: true,
        ai_provider: ProviderKind::Ollama,
        ai_model: "llama3.2".to_owned(),
        ai_base_url: "http://127.0.0.1:11434".to_owned(),
        ai_api_key: "ollama-no-key".to_owned(),
        ..Settings::default()
    };
    assert!(same_settings(&store.load(Some(settings())), &settings()));
}

#[test]
fn small_tasks_may_have_a_model_of_their_own() {
    let mut settings = Settings { ai_model: "big".to_owned(), ..Settings::default() };
    assert_eq!(settings.summarizer_provider_config().model, "big");
    settings.summarizer_model = " small ".to_owned();
    assert_eq!(settings.summarizer_provider_config().model, "small");
}

#[test]
fn settings_are_edited_one_by_one() {
    let snippets = starter_snippets();
    let (workspace, _) =
        WorkspaceStore::open("/w").load_or_initialize(&snippets, None).unwrap();
    let layout = ContainerLayout::empty(workspace.root.clone());
    let slots = vec![point(0.0, 0.0); 8];
    let mut page =
        HomePage::new(snippets, workspace, Vec::new(), Settings::default(), layout, &slots);
    assert_eq!(page.edit_settings(SettingsEdit::Mode(WindowMode::Floating)), Some([1280, 800]));
    assert_eq!(page.edit_settings(SettingsEdit::Mode(WindowMode::Native)), Some([640, 480]));
    assert_eq!(page.edit_settings(SettingsEdit::Theme(ThemeSetting::Light)), None);
    assert_eq!(page.settings.theme, ThemeSetting::Light);
    page.edit_settings(SettingsEdit::Model("m".to_owned()));
    assert_eq!(page.settings.ai_model, "m");
    assert_eq!(ai_rows(&page.settings), vec![AiRow::Enabled, AiRow::OffNotice]);
    page.edit_settings(SettingsEdit::AiEnabled(true));
    assert!(ai_rows(&page.settings).contains(&AiRow::FakeNotice));
    assert!(!ai_rows(&page.settings).contains(&AiRow::ApiKey));
    page.edit_settings(SettingsEdit::Provider(ProviderKind::Ollama));
    assert!(ai_rows(&page.settings).contains(&AiRow::ApiKey));
    assert_eq!(theme_label(ThemeSetting::System), "System");
    assert_eq!(mode_label(WindowMode::Floating), "Floating (single window)");
    assert_eq!(provider_kinds().len(), 3);
    assert!(provider_notice(ProviderKind::Ollama).contains("11434"));
}

fn snippet(title: &str, content: &str) -> Snippet {
    Snippet { id: EntityId::new(), title: title.to_owned(), content: content.to_owned() }
}

fn entry(name: &str, text: &str) -> FolderEntry {
    FolderEntry { name: name.to_owned(), is_file: true, text: text.to_owned() }
}

/// Loads files of a folder.
fn load(store: &SnippetStore, files: Vec<(String, &str)>) -> Vec<Snippet> {
    let entries = files.iter().map(|(name, text)| entry(name, text)).collect();
    store.load_all(&entries).unwrap().0
}

fn file_name(path: &str) -> String {
    path.rsplit('/').next().unwrap().to_owned()
}

#[test]
fn saves_and_loads_plain_text_files() {
    let store = SnippetStore::open("/notes");
    let saved = snippet("hello", "hello, world!");

    let path = store.save(&saved).unwrap();

    assert_eq!(path, format!("/notes/hello--{}.txt", saved.id.as_str()));
    assert_eq!(load(&store, vec![(file_name(&path), "hello, world!")]), vec![saved]);
}

#[test]
fn loads_only_text_files_in_title_order() {
    let store = SnippetStore::open("/notes");

    let snippets = load(
        &store,
        vec![
            ("z.txt".to_owned(), "last"),
            ("a.txt".to_owned(), "first"),
            ("ignored.json".to_owned(), "{}"),
        ],
    );

    assert_eq!(
        snippets,
        vec![
            Snippet {
                id: snippets[0].id.clone(),
                title: "a".to_owned(),
                content: "first".to_owned(),
            },
            Snippet {
                id: snippets[1].id.clone(),
                title: "z".to_owned(),
                content: "last".to_owned(),
            },
        ]
    );
}

#[test]
fn rejects_titles_that_can_escape_the_folder() {
    let store = SnippetStore::open("/notes");
    assert_eq!(store.save(&snippet("../outside", "")).unwrap_err(), StorageError::Title);
    assert_eq!(store.save(&snippet("", "")).unwrap_err(), StorageError::Title);
    let mut broken = snippet("ok", "");
    broken.id = EntityId::from_string("a/b");
    assert_eq!(store.save(&broken).unwrap_err(), StorageError::Id);
    assert_eq!(
        StorageError::Title.message(),
        "snippet title cannot be empty or contain path separators"
    );
}

#[test]
fn removes_a_snippet_file() {
    let store = SnippetStore::open("/notes");
    let saved = snippet("temporary", "");
    assert_eq!(store.save(&saved), store.remove(&saved));
    assert_eq!(
        store.remove(&saved).unwrap(),
        format!("/notes/temporary--{}.txt", saved.id.as_str())
    );
}

#[test]
fn continues_to_load_legacy_ulid_filenames() {
    let store = SnippetStore::open("/notes");
    let legacy_id = ulid::Ulid::new().to_string();

    let snippets = load(&store, vec![(format!("legacy--{legacy_id}.txt"), "content")]);

    assert_eq!(snippets[0].id.as_str(), legacy_id);
    assert_eq!(snippets[0].title, "legacy");
    // Other text of that length is no identifier.
    assert!(parse_file_stem("x--IIIIIIIIIIIIIIIIIIIIIIIIIU").is_none());
}

#[test]
fn rename_moves_the_file_without_leaving_the_old_one() {
    let store = SnippetStore::open("/notes");
    let saved = snippet("old", "body");
    let old_path = store.save(&saved).unwrap();

    let (from, to) = store.rename(&saved.id, "old", "new").unwrap().unwrap();

    assert_eq!(from, old_path);
    assert_eq!(to, format!("/notes/new--{}.txt", saved.id.as_str()));
    let reloaded = load(&store, vec![(file_name(&to), "body")]);
    assert_eq!(reloaded.len(), 1);
    assert_eq!(reloaded[0].title, "new");
    assert_eq!(reloaded[0].content, "body");
    assert_eq!(store.rename(&saved.id, "old", "old").unwrap(), None);
}

#[test]
fn missing_box_loads_as_empty() {
    let store = AiStore::open("/w");
    let ai_box = ContainerId::new();
    let data = store.load_box(&ai_box, None);
    assert!(data.ai_box == ai_box);
    assert!(data.conversations.is_empty());
}

#[test]
fn persists_conversations_across_reloads() {
    let store = AiStore::open("/w");
    let ai_box = ContainerId::new();
    let conversation = ConversationId::new();
    let mut data = AiBoxData::empty(ai_box.clone());
    assert!(data.create_conversation(
        conversation.clone(),
        "Ask",
        false,
        vec![SourceTarget::Snippet(EntityId::new())],
        1,
    ));
    assert!(data.push_message(&conversation, Message::user("hello"), 2));
    let task = TurnTaskId::new();
    assert!(data.push_message(&conversation, Message::assistant("hi", task.clone()), 3));
    assert_eq!(
        store.save_box(&data),
        format!("/w/.floatdea/ai/{}.json", ai_box.as_str())
    );

    let loaded = store.load_box(&ai_box, Some(data));
    let loaded_conversation = loaded.get(&conversation).expect("conversation survives");
    assert_eq!(loaded_conversation.title, "Ask");
    assert!(!loaded_conversation.temporary);
    assert_eq!(loaded_conversation.messages.len(), 2);
    assert_eq!(loaded_conversation.messages[1].role, MessageRole::Assistant);
    assert_eq!(loaded_conversation.messages[1].turn_task.as_ref(), Some(&task));
    assert!(matches!(loaded_conversation.sources[0], SourceTarget::Snippet(_)));
}

#[test]
fn deleting_a_box_removes_only_its_sidecar() {
    let store = AiStore::open("/w");
    let first = ContainerId::new();
    let second = ContainerId::new();
    let mut other = AiBoxData::empty(second.clone());
    assert!(other.create_conversation(ConversationId::new(), "D", true, Vec::new(), 1));

    assert_ne!(store.remove_box(&first), store.save_box(&other));

    assert!(store.load_box(&first, None).conversations.is_empty());
    assert_eq!(store.load_box(&second, Some(other)).conversations.len(), 1);
}

#[test]
fn incompatible_sidecar_degrades_to_empty() {
    let store = AiStore::open("/w");
    let ai_box = ContainerId::new();
    let mut stored = AiBoxData::empty(ContainerId::from_string("bad"));
    stored.version = 99;

    let loaded = store.load_box(&ai_box, Some(stored));
    assert_eq!(loaded.version, AI_BOX_DATA_VERSION);
    assert!(loaded.ai_box == ai_box);
    assert!(loaded.conversations.is_empty());
}

#[test]
fn temporary_flag_survives_round_trip() {
    let store = AiStore::open("/w");
    let ai_box = ContainerId::new();
    let conversation = ConversationId::new();
    let mut data = AiBoxData::empty(ai_box.clone());
    assert!(data.create_conversation(conversation.clone(), "Temp", true, Vec::new(), 0));
    assert!(store.load_box(&ai_box, Some(data)).get(&conversation).unwrap().temporary);
}

#[test]
fn initializes_root_with_references_not_owned_entities() {
    let store = WorkspaceStore::open("/w");
    let saved = snippet("hello", "");

    let (workspace, save) =
        store.load_or_initialize(&vec![saved.clone()], None).unwrap();

    assert!(matches!(
        &workspace.root().members[0].target,
        ReferenceTarget::Snippet(id) if id == &saved.id
    ));
    assert!(save);
    assert_eq!(store.save(&workspace).unwrap(), "/w/workspace.json");
}

#[test]
fn root_holds_the_settings_special_after_initialization() {
    let store = WorkspaceStore::open("/w");
    let (workspace, _) = store.load_or_initialize(&vec![snippet("hello", "")], None).unwrap();
    assert!(workspace.root().members.iter().any(|reference| {
        matches!(&reference.target, ReferenceTarget::Special(SpecialKind::Settings))
    }));
}

#[test]
fn saves_each_container_layout_separately() {
    let store = WorkspaceStore::open("/w");
    let container = ContainerId::new();
    let reference = ReferenceId::new();
    let mut layout = ContainerLayout::empty(container.clone());
    layout.items.insert(
        reference.clone(),
        CardLayout { position: point(41.0, 73.0), color: None, size: None, image_fit: None },
    );

    assert_eq!(
        store.save_layout(&layout).unwrap(),
        format!("/w/.floatdea/layout/{}.json", container.as_str())
    );

    let loaded = store.load_layout(&container, Some(layout)).unwrap();
    assert_eq!(loaded.items.get(&reference).unwrap().position, point(41.0, 73.0));
}

#[test]
fn persists_canvas_texts_in_container_layout() {
    let store = WorkspaceStore::open("/w");
    let container = ContainerId::new();
    let mut layout = ContainerLayout::empty(container.clone());
    layout.texts.push(CanvasText {
        id: TextId::new(),
        position: point(12.0, 34.0),
        text: "plain text".to_owned(),
        color: None,
    });

    let loaded = store.load_layout(&container, Some(layout)).unwrap();
    assert_eq!(loaded.texts.len(), 1);
    assert_eq!(loaded.texts[0].position, point(12.0, 34.0));
    assert_eq!(loaded.texts[0].text, "plain text");
}

#[test]
fn layouts_of_other_containers_are_refused() {
    let store = WorkspaceStore::open("/w");
    let layout = ContainerLayout::empty(ContainerId::new());
    assert!(matches!(
        store.load_layout(&ContainerId::new(), Some(layout)),
        Err(WorkspaceError::LayoutMismatch)
    ));
    let mut layout = ContainerLayout::empty(ContainerId::new());
    layout.version = 2;
    assert!(matches!(
        store.save_layout(&layout),
        Err(WorkspaceError::UnsupportedLayoutVersion)
    ));
}

#[test]
fn ai_box_member_roles_persist_through_the_store() {
    let store = WorkspaceStore::open("/w");
    let mut workspace = Workspace::empty();
    let ai_box = workspace.create_ai_box("AI");
    let entity = EntityId::new();
    let conversation = ConversationId::new();
    let _ = workspace
        .add_source_reference(&ai_box, ReferenceTarget::Snippet(entity.clone()))
        .unwrap();
    let conversation_ref =
        workspace.add_conversation_card(&ai_box, conversation.clone()).unwrap();
    let _ = workspace.add_output_reference(&ai_box, entity.clone()).unwrap();
    let _ = workspace.add_snippet_reference(&ai_box, entity.clone()).unwrap();
    let _ = workspace.add_container_to_root(ai_box.clone());
    store.save(&workspace).unwrap();

    let (loaded, _) = store.load_or_initialize(&Vec::new(), Some(workspace)).unwrap();
    let members = &loaded.containers.get(&ai_box).unwrap().members;
    let source = members
        .iter()
        .find(|reference| reference.role == MemberRole::Source)
        .expect("source role");
    assert!(matches!(&source.target, ReferenceTarget::Snippet(id) if id == &entity));
    let output = members
        .iter()
        .find(|reference| reference.role == MemberRole::Output)
        .expect("output role");
    assert!(matches!(&output.target, ReferenceTarget::Snippet(id) if id == &entity));
    let conversation_member = members
        .iter()
        .find(|reference| reference.id == conversation_ref)
        .expect("conversation card");
    assert!(matches!(
        &conversation_member.target,
        ReferenceTarget::Conversation(id) if id == &conversation
    ));
    assert_eq!(conversation_member.role, MemberRole::Conversation);
    // A plain snippet reference inside the AI box keeps Normal role.
    assert!(members.iter().any(|reference| reference.role == MemberRole::Normal));
}

#[test]
fn conversation_cards_validate_without_sidecar_entries() {
    let mut workspace = Workspace::empty();
    let ai_box = workspace.create_ai_box("AI");
    let _ = workspace.add_conversation_card(&ai_box, ConversationId::new()).unwrap();
    // The sidecar store is separate from the workspace graph, so a conversation card
    // never fails workspace validation.
    assert!(workspace.validate().is_ok());
}

#[test]
fn remove_entity_references_leaves_conversation_cards() {
    let mut workspace = Workspace::empty();
    let ai_box = workspace.create_ai_box("AI");
    let entity = EntityId::new();
    let _ = workspace
        .add_source_reference(&ai_box, ReferenceTarget::Snippet(entity.clone()))
        .unwrap();
    let _ = workspace.add_conversation_card(&ai_box, ConversationId::new()).unwrap();
    workspace.remove_entity_references(&entity);

    let members = &workspace.containers.get(&ai_box).unwrap().members;
    assert!(!members.iter().any(|reference| matches!(
        &reference.target,
        ReferenceTarget::Snippet(id) if id == &entity
    )));
    assert!(members
        .iter()
        .any(|reference| matches!(reference.target, ReferenceTarget::Conversation(_))));
}

#[test]
fn dotted_titles_keep_their_files_apart() {
    let store = SnippetStore::open("/notes");
    let a = EntityId::from_string("0123456789abcdef0123");
    let b = EntityId::from_string("0123456789abcdef0124");

    let path = store.path_for("v1.2", &a).unwrap();

    assert_eq!(path, "/notes/v1.2--0123456789abcdef0123.txt");
    assert_ne!(path, store.path_for("v1.2", &b).unwrap());
    let reloaded = load(&store, vec![(file_name(&path), "body")]);
    assert_eq!(reloaded.len(), 1);
    assert_eq!(reloaded[0].title, "v1.2");
    assert!(reloaded[0].id == a);
    assert_eq!(
        store.path_for(".profile", &a).unwrap(),
        "/notes/.profile--0123456789abcdef0123.txt"
    );
}

#[test]
fn folders_are_loaded_and_loaded_again() {
    let store = SnippetStore::open("/notes");
    let fresh: Vec<EntityId> = ["a", "b", "c", "d"]
        .iter()
        .map(|c| EntityId::from_string(&c.repeat(20)))
        .collect();
    let mut entries = vec![
        entry("plain.txt", "one"),
        entry("kept--0123456789abcdef0123.txt", "two"),
        entry("picture.png", ""),
        FolderEntry { name: "folder.txt".to_owned(), is_file: false, text: String::new() },
    ];

    let (first, moves) = store.load_all_as(&entries, &fresh).unwrap();

    assert_eq!(first.len(), 2);
    assert_eq!((first[0].title.as_str(), first[0].content.as_str()), ("kept", "two"));
    assert_eq!((first[1].title.as_str(), first[1].content.as_str()), ("plain", "one"));
    assert_eq!(first[1].id.as_str(), "a".repeat(20));
    let moved = format!("/notes/plain--{}.txt", "a".repeat(20));
    assert_eq!(moves, vec![("plain.txt".to_owned(), moved.clone())]);

    entries[0].name = file_name(&moved);
    let (second, moves) = store.load_all(&entries).unwrap();
    assert_eq!(second, first);
    assert!(moves.is_empty());

    let refused = vec![entry("a\\b.txt", "")];
    assert_eq!(store.load_all(&refused).unwrap_err(), StorageError::Title);
    assert!(matches!(
        store.load_entry_as("note.json", true, EntityId::new()),
        Ok(LoadPlan::Skip)
    ));
    assert!(holds_snippet("a.txt", true) && !holds_snippet("a.txt", false));
}

fn cards(ids: &[&str]) -> Vec<ReferenceId> {
    ids.iter().map(|id| ReferenceId::from_string(id)).collect()
}

#[test]
fn workspaces_are_made_under_the_given_identifiers() {
    let store = WorkspaceStore::open("/w");
    let snippets = vec![snippet("one", ""), snippet("two", "")];
    let root = || ContainerId::from_string("root");
    let settings = || ReferenceId::from_string("s");

    let (made, save) =
        store.initialize_with(&snippets, None, root(), cards(&["a", "b"]), settings()).unwrap();

    assert!(save);
    assert_eq!(made.root.as_str(), "root");
    let ids: Vec<&str> = made.root().members.iter().map(|card| card.id.as_str()).collect();
    assert_eq!(ids, vec!["a", "b", "s"]);
    for repeated in [cards(&["a", "a"]), cards(&["a", "s"])] {
        assert!(matches!(
            store.initialize_with(&snippets, None, root(), repeated, settings()),
            Err(WorkspaceError::DuplicateReference)
        ));
    }
}

#[test]
fn stored_workspaces_get_one_settings_card() {
    let store = WorkspaceStore::open("/w");
    let none = Vec::new();
    let settings = || ReferenceId::from_string("s");
    let with = |count: usize| {
        let mut w = Workspace::empty();
        let root = w.root.clone();
        let entity = ReferenceTarget::Snippet(EntityId::new());
        w.push_reference(&root, ReferenceId::from_string("n"), entity, MemberRole::Normal).unwrap();
        for _ in 0..count {
            w.add_special_to_root(SpecialKind::Settings);
        }
        w
    };
    for count in [0, 1, 2] {
        let stored = with(count);
        let first = stored.root().members.get(1).map(|card| card.id.clone());
        let root = ContainerId::new();
        let (w, save) =
            store.initialize_with(&none, Some(stored), root, Vec::new(), settings()).unwrap();
        assert_eq!(save, count == 0);
        assert_eq!(w.root().members.len(), 2);
        assert!(matches!(w.root().members[1].target, ReferenceTarget::Special(_)));
        let id = first.unwrap_or(settings());
        assert!(w.root().members[1].id == id);
    }
    let taken = ReferenceId::from_string("n");
    assert!(matches!(
        store.initialize_with(&none, Some(with(0)), ContainerId::new(), Vec::new(), taken),
        Err(WorkspaceError::DuplicateReference)
    ));
}
