use floatdea::app::cards::{
    announces_files, canvas_menu, card_label, card_menu, card_tag, choice_label, choose_card,
    click_command, clipboard_status, clipboard_valid_for, container_preview_cards,
    conversation_preview, delete_question, drop_state, drop_valid_for, file_preview, item_label,
    linkable_files, linkable_folders, paste_label, preview_target, reference_count, role_tag,
    shows_clipboard_status, snippet_preview, takes_files, CanvasChoice, CardChoice, CardOutcome,
    DropAction, DropCursor, HoverChange, HoverPreview, ItemKind, PreviewTarget,
};
use floatdea::app::commands::{
    CanvasCommand, ClipboardEntry, ClipboardSemantics, DragPayload, PendingDelete, Viewport,
};
use floatdea::data::ai::types::{AiBoxData, Message, SourceTarget};
use floatdea::data::ids::{ContainerId, ConversationId, EntityId, ExternalFileId, ReferenceId};
use floatdea::data::layout::{CardLayout, ContainerLayout, Point};
use floatdea::data::model::Snippet;
use floatdea::data::workspace::{
    ExternalFileRef, MemberRole, ReferenceTarget, SpecialKind, Workspace,
};
use floatdea::idmap::IdMap;

fn snippets_of(titles: &[&str]) -> (IdMap<EntityId, Snippet>, Vec<EntityId>) {
    let mut all = IdMap::new();
    let mut ids = Vec::new();
    for title in titles {
        let id = EntityId::new();
        all.insert(
            id.clone(),
            Snippet { id: id.clone(), title: (*title).to_owned(), content: String::new() },
        );
        ids.push(id);
    }
    (all, ids)
}

fn file(path: &str, title: &str) -> ExternalFileRef {
    ExternalFileRef {
        id: ExternalFileId::new(),
        path: path.to_owned(),
        title: title.to_owned(),
        media_type: None,
    }
}

fn no_boxes() -> IdMap<ContainerId, AiBoxData> {
    IdMap::new()
}

#[test]
fn cards_are_labelled_by_their_target() {
    let (snippets, ids) = snippets_of(&["Note", ""]);
    let mut workspace = Workspace::empty();
    let folder = workspace.create_container("Folder");
    let ai_box = workspace.create_ai_box("Analysis");
    let mut data = AiBoxData::empty(ai_box.clone());
    let conversation = ConversationId::new();
    assert!(data.create_conversation(conversation.clone(), "Chat", false, Vec::new(), 1));
    let mut boxes = no_boxes();
    boxes.insert(ai_box.clone(), data);
    let label = |target: ReferenceTarget| item_label(&ai_box, &target, &snippets, &workspace, &boxes);

    assert_eq!(
        label(ReferenceTarget::Snippet(ids[0].clone())),
        Some(("Note".to_owned(), ItemKind::Snippet))
    );
    assert_eq!(label(ReferenceTarget::Snippet(ids[1].clone())), None);
    assert_eq!(label(ReferenceTarget::Snippet(EntityId::new())), None);
    assert_eq!(
        label(ReferenceTarget::Container(folder.clone())),
        Some(("Folder".to_owned(), ItemKind::Folder))
    );
    assert_eq!(
        label(ReferenceTarget::Container(ai_box.clone())),
        Some(("Analysis".to_owned(), ItemKind::AiBox))
    );
    assert_eq!(
        label(ReferenceTarget::Special(SpecialKind::Settings)),
        Some(("Settings".to_owned(), ItemKind::Special))
    );
    assert_eq!(
        label(ReferenceTarget::Conversation(conversation)),
        Some(("Chat".to_owned(), ItemKind::Conversation))
    );
    assert_eq!(
        label(ReferenceTarget::Conversation(ConversationId::new())),
        Some(("Conversation".to_owned(), ItemKind::Conversation))
    );
    assert_eq!(card_label(ItemKind::Folder, "Folder"), "📁 Folder");
    assert_eq!(card_label(ItemKind::Special, "Settings"), "⚙ Settings");
    assert_eq!(card_label(ItemKind::AiBox, "Analysis"), "AI Analysis");
    assert_eq!(card_label(ItemKind::ExternalFile, "a.pdf"), "📄 a.pdf");
    assert_eq!(card_label(ItemKind::Snippet, "Note"), "Note");
}

#[test]
fn roles_are_tagged_in_ai_workspaces_only() {
    assert_eq!(role_tag(MemberRole::Source), "LINK · READ-ONLY");
    assert_eq!(card_tag(true, MemberRole::Output), Some("OUTPUT"));
    assert_eq!(card_tag(true, MemberRole::Conversation), Some("CONVERSATION"));
    assert_eq!(card_tag(true, MemberRole::Normal), None);
    assert_eq!(card_tag(false, MemberRole::Source), None);
}

#[test]
fn references_are_counted_over_all_containers() {
    let mut workspace = Workspace::empty();
    let folder = workspace.create_container("Folder");
    let entity = EntityId::new();
    let target = ReferenceTarget::Snippet(entity.clone());
    assert_eq!(reference_count(&workspace, &target), 0);
    let _ = workspace.add_snippet_to_root(entity.clone());
    let _ = workspace.add_snippet_to_root(entity.clone());
    workspace.add_snippet_reference(&folder, entity).unwrap();
    assert_eq!(reference_count(&workspace, &target), 3);
}

#[test]
fn previews_follow_the_pointer() {
    let canvas = ContainerId::new();
    let other = ContainerId::new();
    let card = EntityId::new();
    let mut preview = HoverPreview::new();
    let over = |id: &EntityId| Some(PreviewTarget::Snippet(id.clone()));
    assert_eq!(preview.hover(&canvas, None, false, false, false), HoverChange::Untouched);
    assert_eq!(preview.hover(&canvas, over(&card), false, false, false), HoverChange::Claimed);
    assert!(!preview.shown_on(&canvas));
    assert_eq!(preview.hover(&canvas, over(&card), false, true, false), HoverChange::Followed);
    assert!(preview.shown_on(&canvas));
    assert!(!preview.shown_on(&other));
    assert_eq!(preview.hover(&other, None, false, false, false), HoverChange::Untouched);
    assert_eq!(preview.hover(&canvas, None, false, false, true), HoverChange::Untouched);
    assert!(preview.shown_on(&canvas));
    assert_eq!(preview.hover(&canvas, None, false, false, false), HoverChange::Dismissed);
    assert!(!preview.shown_on(&canvas));
    assert_eq!(
        preview.hover(&other, over(&EntityId::new()), true, false, false),
        HoverChange::Claimed
    );
    assert!(preview.shown_on(&other));
}

#[test]
fn previews_show_what_is_there() {
    let long: Vec<String> = (0..40).map(|i| format!("line {i}")).collect();
    assert_eq!(snippet_preview(&long.join("\n")), long[..30].join("\n"));
    assert_eq!(snippet_preview("one\ntwo\n"), "one\ntwo");

    let mut workspace = Workspace::empty();
    let ai_box = workspace.create_ai_box("Analysis");
    let folder = workspace.create_container("Folder");
    assert_eq!(
        preview_target(&ReferenceTarget::Container(ai_box.clone()), &workspace),
        Some(PreviewTarget::AiBox(ai_box.clone()))
    );
    assert_eq!(
        preview_target(&ReferenceTarget::Container(folder.clone()), &workspace),
        Some(PreviewTarget::Folder(folder))
    );
    assert_eq!(preview_target(&ReferenceTarget::Special(SpecialKind::Settings), &workspace), None);

    let mut data = AiBoxData::empty(ai_box.clone());
    let source = SourceTarget::Snippet(EntityId::new());
    let conversation = ConversationId::new();
    assert!(data.create_conversation(conversation.clone(), "Chat", false, vec![source], 1));
    data.push_message(&conversation, Message::user("one"), 2);
    data.push_message(&conversation, Message::user("two"), 3);
    let mut boxes = no_boxes();
    boxes.insert(ai_box, data);
    assert_eq!(
        conversation_preview(&boxes, &conversation),
        Some("1 sources · 2 messages".to_owned())
    );
    assert_eq!(conversation_preview(&boxes, &ConversationId::new()), None);
}

#[test]
fn sources_are_offered_once() {
    let mut workspace = Workspace::empty();
    let root = workspace.root.clone();
    let ai_box = workspace.create_ai_box("Analysis");
    let folder = workspace.create_container("Folder");
    let a = file("/a.txt", "a");
    let b = file("/b.txt", "b");
    workspace.add_external_file_reference(&root, a.clone()).unwrap();
    workspace.add_external_file_reference(&folder, a.clone()).unwrap();
    workspace.add_external_file_reference(&folder, b.clone()).unwrap();
    let mut titles: Vec<String> =
        linkable_files(&workspace).iter().map(|file| file.title.clone()).collect();
    titles.sort();
    assert_eq!(titles, ["a", "b"]);
    let folders = linkable_folders(&workspace, &ai_box);
    assert_eq!(folders.len(), 2);
    assert!(folders.contains(&root) && folders.contains(&folder));
    assert_eq!(file_preview(&workspace, &b.id), Some("/b.txt".to_owned()));
    assert_eq!(file_preview(&workspace, &ExternalFileId::new()), None);
}

#[test]
fn folders_preview_their_cards() {
    let (snippets, ids) = snippets_of(&["First", "Second"]);
    let mut workspace = Workspace::empty();
    let folder = workspace.create_container("Folder");
    let first = workspace.add_snippet_reference(&folder, ids[0].clone()).unwrap();
    workspace.add_snippet_reference(&folder, EntityId::new()).unwrap();
    workspace.add_snippet_reference(&folder, ids[1].clone()).unwrap();
    let mut layout = ContainerLayout::empty(folder.clone());
    let place = Point { x: 7, y: 8 };
    layout.items.insert(
        first,
        CardLayout { position: place, color: None, size: None, image_fit: None },
    );
    let slots: Vec<Point> = (0..3).map(|i| Point { x: i, y: 0 }).collect();
    let container = workspace.containers.get(&folder).unwrap();
    let cards =
        container_preview_cards(container, &layout, &slots, &snippets, &workspace, &no_boxes());
    assert_eq!(cards.len(), 2);
    assert_eq!((cards[0].label.as_str(), cards[0].position), ("First", place));
    assert_eq!((cards[1].label.as_str(), cards[1].position), ("Second", slots[1]));
}

#[test]
fn picked_up_cards_can_be_pasted_elsewhere() {
    let (snippets, ids) = snippets_of(&["Note"]);
    let mut workspace = Workspace::empty();
    let root = workspace.root.clone();
    let folder = workspace.create_container("Folder");
    let reference_id = workspace.add_snippet_to_root(ids[0].clone());
    let mut entry = ClipboardEntry {
        source_container: root.clone(),
        reference_id: reference_id.clone(),
        target: ReferenceTarget::Snippet(ids[0].clone()),
        semantics: ClipboardSemantics::Move,
        origin: Viewport::Root,
    };
    assert!(clipboard_valid_for(&entry, &folder, &snippets, &workspace));
    assert!(!clipboard_valid_for(&entry, &root, &snippets, &workspace));
    assert_eq!(paste_label(&entry, &snippets, &workspace), "Paste (Move): Note");
    assert_eq!(
        clipboard_status(&entry, &snippets, &workspace),
        "Clipboard: Note (Move) — right-click a canvas → Paste"
    );
    entry.semantics = ClipboardSemantics::Link;
    assert!(clipboard_valid_for(&entry, &root, &snippets, &workspace));
    assert_eq!(paste_label(&entry, &snippets, &workspace), "Paste (Link): Note");
    assert!(shows_clipboard_status(&entry, &Viewport::Root, false, true));
    assert!(!shows_clipboard_status(&entry, &Viewport::View(3), false, false));

    let payload = DragPayload {
        source_container: root.clone(),
        reference_id,
        target: ReferenceTarget::Snippet(ids[0].clone()),
    };
    assert!(drop_valid_for(&payload, &folder, &snippets, &workspace, true));
    assert!(!drop_valid_for(&payload, &root, &snippets, &workspace, true));
    let over = drop_state(&payload, &folder, true, None, false, false, &snippets, &workspace);
    assert!(over.canvas_accepts);
    assert_eq!(over.cursor, DropCursor::Copy);
    assert!(matches!(over.action, DropAction::OntoCanvas));
    let into = drop_state(&payload, &root, true, Some(&folder), false, true, &snippets, &workspace);
    assert!(!into.canvas_accepts);
    assert_eq!(into.cursor, DropCursor::Move);
    assert!(matches!(into.action, DropAction::IntoFolder(id) if id == folder));
    let refused = drop_state(&payload, &folder, true, None, true, false, &snippets, &workspace);
    assert_eq!(refused.cursor, DropCursor::NotAllowed);
    assert!(matches!(refused.action, DropAction::Nothing));
    let home = drop_state(&payload, &root, true, None, false, false, &snippets, &workspace);
    assert_eq!(home.cursor, DropCursor::Plain);
}

#[test]
fn menus_depend_on_the_card() {
    let snippet = ReferenceTarget::Snippet(EntityId::new());
    let document = ReferenceTarget::ExternalFile(file("/a.pdf", "a"));
    let special = ReferenceTarget::Special(SpecialKind::Settings);
    let chat = ReferenceTarget::Conversation(ConversationId::new());
    assert_eq!(
        card_menu(false, MemberRole::Normal, &snippet, true),
        [CardChoice::Link, CardChoice::Move, CardChoice::Rename, CardChoice::Delete]
    );
    assert_eq!(
        card_menu(false, MemberRole::Normal, &document, false),
        [
            CardChoice::Link,
            CardChoice::Move,
            CardChoice::OpenExternally,
            CardChoice::RenameFile,
            CardChoice::Unlink
        ]
    );
    assert_eq!(card_menu(false, MemberRole::Normal, &special, true), []);
    assert_eq!(
        card_menu(true, MemberRole::Source, &snippet, true),
        [CardChoice::OpenReadOnly, CardChoice::OpenOriginal, CardChoice::RemoveSource]
    );
    assert_eq!(
        card_menu(true, MemberRole::Source, &document, true),
        [CardChoice::OpenExternally, CardChoice::RemoveSource]
    );
    assert_eq!(
        card_menu(true, MemberRole::Conversation, &chat, true),
        [
            CardChoice::OpenConversation,
            CardChoice::RenameConversation,
            CardChoice::DeleteConversation
        ]
    );
    assert_eq!(choice_label(CardChoice::RemoveSource), "Remove Source");
    assert_eq!(
        canvas_menu(true, Some(false)),
        [
            CanvasChoice::Search,
            CanvasChoice::NewConversation,
            CanvasChoice::LinkSource,
            CanvasChoice::PasteDisabled,
            CanvasChoice::NewSnippet,
            CanvasChoice::NewFolder,
            CanvasChoice::InsertFile,
            CanvasChoice::NewText,
            CanvasChoice::Organize
        ]
    );
    assert_eq!(canvas_menu(false, None)[1], CanvasChoice::NewAiBox);
    assert!(canvas_menu(false, Some(true)).contains(&CanvasChoice::Paste));
}

#[test]
fn menu_entries_lead_to_commands() {
    let container = ContainerId::new();
    let reference = ReferenceId::new();
    let id = EntityId::new();
    let target = ReferenceTarget::Snippet(id.clone());
    let choose = |choice| choose_card(choice, &container, &reference, &target, Viewport::Root);
    assert!(matches!(
        choose(CardChoice::OpenReadOnly),
        CardOutcome::Command(CanvasCommand::OpenSnippetReadOnly(opened)) if opened == id
    ));
    assert!(matches!(
        choose(CardChoice::Move),
        CardOutcome::PickUp(entry)
            if entry.semantics == ClipboardSemantics::Move && entry.reference_id == reference
    ));
    assert!(matches!(
        choose(CardChoice::Unlink),
        CardOutcome::Command(CanvasCommand::DeleteReference { owner, .. }) if owner == container
    ));
    assert!(matches!(choose(CardChoice::OpenConversation), CardOutcome::Nothing));
    assert!(matches!(
        click_command(true, MemberRole::Source, &container, &target),
        Some(CanvasCommand::OpenSnippetReadOnly(_))
    ));
    assert!(matches!(
        click_command(true, MemberRole::Output, &container, &target),
        Some(CanvasCommand::OpenSnippet(_))
    ));
}

#[test]
fn files_are_taken_by_one_canvas() {
    let mut taken = false;
    assert!(!takes_files(true, 1, &mut taken, true, true, true));
    assert!(!takes_files(false, 0, &mut taken, true, true, true));
    assert!(!takes_files(false, 1, &mut taken, false, true, true));
    assert!(takes_files(false, 1, &mut taken, false, false, true));
    assert!(!takes_files(false, 1, &mut taken, true, true, true));
    assert!(announces_files(false, true, true));
    assert!(!announces_files(false, false, true));
    assert!(!announces_files(true, true, false));
}

#[test]
fn last_cards_are_asked_about_by_name() {
    let (snippets, ids) = snippets_of(&["Note"]);
    let mut workspace = Workspace::empty();
    let folder = workspace.create_container("Folder");
    let ask = |target: ReferenceTarget| {
        let pending = PendingDelete {
            owner: workspace.root.clone(),
            reference: ReferenceId::new(),
            target,
            origin: Viewport::Root,
        };
        delete_question(&pending, &snippets, &workspace)
    };
    assert_eq!(
        ask(ReferenceTarget::Snippet(ids[0].clone())).unwrap(),
        "Remove \"Note\"?\nThis is the last reference, so the snippet will be removed permanently."
    );
    assert_eq!(
        ask(ReferenceTarget::Container(folder.clone())).unwrap(),
        "Remove \"Folder\"?\nThis is the last reference, so the folder will be removed permanently."
    );
    assert_eq!(ask(ReferenceTarget::Snippet(EntityId::new())), None);
    assert_eq!(ask(ReferenceTarget::ExternalFile(file("/a", "a"))), None);
}
