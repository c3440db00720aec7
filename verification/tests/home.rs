use floatdea::app::board::{desired_rows, first_free_slot, CanvasItem};
use floatdea::app::commands::{
    CanvasCommand, ClipboardEntry, ClipboardSemantics, DragPayload, Effect, PendingDelete,
    RenameTarget, Viewport,
};
use floatdea::app::page::HomePage;
use floatdea::app::process::RenamePlan;
use floatdea::app::session::{search_notice, search_snippets};
use floatdea::app::start::{ai_box_ids, starter_snippets};
use floatdea::app::view::ViewMode;
use floatdea::data::ai::store::AiStore;
use floatdea::data::ai::types::{AiBoxData, SourceTarget};
use floatdea::data::ids::{ContainerId, ConversationId, EntityId, ReferenceId};
use floatdea::data::layout::{ContainerLayout, Point};
use floatdea::data::model::Snippet;
use floatdea::data::settings::{Settings, WindowMode};
use floatdea::data::storage::SnippetStore;
use floatdea::data::workspace::{
    ContainerKind, MemberRole, ReferenceTarget, SpecialKind, Workspace, WorkspaceStore,
};
use floatdea::idmap::IdMap;

fn point(x: f32, y: f32) -> Point {
    Point { x: x.to_bits(), y: y.to_bits() }
}

fn slots(workspace: &Workspace) -> Vec<Point> {
    let count: usize = workspace.root().members.len();
    (0..count + 8).map(|i| point(24.0 + i as f32 * 200.0, 24.0)).collect()
}

fn open(snippets: Vec<Snippet>, stored: Option<Workspace>, boxes: Vec<(ContainerId, AiBoxData)>, layout: Option<ContainerLayout>) -> HomePage {
    let store = WorkspaceStore::open("/w");
    let (workspace, _) = store.load_or_initialize(&snippets, stored).unwrap();
    let root = workspace.root.clone();
    let layout = store.load_layout(&root, layout).unwrap();
    let places = slots(&workspace);
    HomePage::new(snippets, workspace, boxes, Settings::default(), layout, &places)
}

fn new_page() -> HomePage {
    open(starter_snippets(), None, Vec::new(), None)
}

/// Closes the page and opens it with what it saved.
fn restart(mut page: HomePage) -> HomePage {
    let store = AiStore::open("/w");
    let mut snippets = Vec::new();
    for i in 0..page.all_snippets.len() {
        snippets.push(page.all_snippets.value_at(i).clone());
    }
    let mut boxes = Vec::new();
    for id in ai_box_ids(&page.workspace) {
        let stored = page.ai_boxes.remove(&id);
        boxes.push((id.clone(), store.load_box(&id, stored)));
    }
    open(snippets, Some(page.workspace), boxes, Some(page.boards.root.layout))
}

fn no_box() -> AiBoxData {
    AiBoxData::empty(ContainerId::new())
}

fn process(page: &mut HomePage, command: CanvasCommand) -> Vec<Effect> {
    page.process_command(command, Viewport::Root, point(400.0, 24.0), no_box())
}

fn add_folder(page: &mut HomePage) -> ContainerId {
    let folder = page.workspace.create_container("Folder");
    let _ = page.workspace.add_container_to_root(folder.clone());
    folder
}

fn show_folder(page: &mut HomePage, folder: &ContainerId) {
    let layout = ContainerLayout::empty(folder.clone());
    let places = slots(&page.workspace);
    page.open_folder(folder, layout, &places);
}

fn members(page: &HomePage, container: &ContainerId) -> usize {
    page.workspace.containers.get(container).unwrap().members.len()
}

fn clip_root_first_entry(page: &HomePage, semantics: ClipboardSemantics) -> ClipboardEntry {
    ClipboardEntry {
        source_container: page.boards.root.container_id.clone(),
        reference_id: page.boards.root.items[0].reference_id.clone(),
        target: page.boards.root.items[0].target.clone(),
        semantics,
        origin: Viewport::Root,
    }
}

fn root_first_snippet(page: &HomePage) -> (EntityId, ReferenceId) {
    match &page.boards.root.items[0].target {
        ReferenceTarget::Snippet(id) => {
            (id.clone(), page.boards.root.items[0].reference_id.clone())
        }
        _ => panic!("root cards are snippets"),
    }
}

fn payload(page: &HomePage, reference_id: ReferenceId, target: ReferenceTarget) -> DragPayload {
    DragPayload {
        source_container: page.boards.root.container_id.clone(),
        reference_id,
        target,
    }
}

#[test]
fn restores_root_card_positions() {
    let mut first_session = new_page();
    first_session.boards.root.items[0].position = point(137.0, 281.0);
    first_session.boards.root.save_layout();

    let second_session = restart(first_session);

    assert_eq!(second_session.boards.root.items[0].position, point(137.0, 281.0));
}

#[test]
fn restores_snippet_and_folder_positions_from_one_layout() {
    let mut first_session = new_page();
    let folder_id = first_session.workspace.create_container("Folder");
    let reference_id = first_session.workspace.add_container_to_root(folder_id.clone());
    first_session.boards.root.items.push(CanvasItem::new(
        reference_id,
        ReferenceTarget::Container(folder_id),
        MemberRole::Normal,
        point(320.0, 144.0),
    ));
    first_session.boards.root.save_layout();

    let second_session = restart(first_session);

    assert!(second_session.boards.root.items.iter().any(|item| {
        matches!(item.target, ReferenceTarget::Container(_))
            && item.position == point(320.0, 144.0)
    }));
}

#[test]
fn pastes_link_reference_into_folder() {
    let mut page = new_page();
    let folder_id = add_folder(&mut page);
    show_folder(&mut page, &folder_id);

    let entry = clip_root_first_entry(&page, ClipboardSemantics::Link);
    let root_count = page.boards.root.items.len();
    let (ok, effects) = page.paste_clipboard(&folder_id, &entry, point(24.0, 24.0));
    assert!(ok);
    assert!(matches!(effects.last(), Some(Effect::SaveWorkspace)));
    assert_eq!(page.boards.root.items.len(), root_count, "link keeps the source card");
    let folder_canvas = page.boards.folder_views.get(&folder_id).expect("folder view open");
    assert_eq!(folder_canvas.items.len(), 1);
    assert!(folder_canvas.items[0].target == entry.target);
    assert_eq!(members(&page, &folder_id), 1);
}

#[test]
fn pastes_move_reference_into_folder() {
    let mut page = new_page();
    let folder_id = add_folder(&mut page);
    show_folder(&mut page, &folder_id);

    let entry = clip_root_first_entry(&page, ClipboardSemantics::Move);
    let root_count = page.boards.root.items.len();
    assert!(page.paste_clipboard(&folder_id, &entry, point(24.0, 24.0)).0);
    assert_eq!(
        page.boards.root.items.len(),
        root_count - 1,
        "move removes the source card"
    );
    assert_eq!(members(&page, &folder_id), 1);
    // The entity itself is untouched; only the reference moved.
    match &entry.target {
        ReferenceTarget::Snippet(id) => assert!(page.all_snippets.contains_key(id)),
        _ => panic!("root cards are snippets"),
    }
}

#[test]
fn pasted_reference_survives_restart() {
    let mut page = new_page();
    let folder_id = add_folder(&mut page);
    let entry = clip_root_first_entry(&page, ClipboardSemantics::Link);
    assert!(page.paste_clipboard(&folder_id, &entry, point(24.0, 24.0)).0);

    let reloaded = restart(page);
    assert_eq!(members(&reloaded, &folder_id), 1);
}

#[test]
fn rejects_self_reference_paste() {
    let mut page = new_page();
    let folder_id = page.workspace.create_container("Folder");
    let reference_id = page.workspace.add_container_to_root(folder_id.clone());
    let entry = ClipboardEntry {
        source_container: page.boards.root.container_id.clone(),
        reference_id,
        target: ReferenceTarget::Container(folder_id.clone()),
        semantics: ClipboardSemantics::Link,
        origin: Viewport::Root,
    };
    assert!(!page.paste_clipboard(&folder_id, &entry, point(24.0, 24.0)).0);
}

#[test]
fn drop_creates_link_reference_in_folder() {
    let mut page = new_page();
    let folder_id = add_folder(&mut page);
    show_folder(&mut page, &folder_id);

    let (entity_id, reference_id) = root_first_snippet(&page);
    let dragged = payload(&page, reference_id, ReferenceTarget::Snippet(entity_id));
    let root_count = page.boards.root.items.len();
    assert!(
        page.apply_drop(&folder_id, Some(point(88.0, 44.0)), &dragged, false, point(0.0, 0.0)).0
    );
    // Link keeps the source card.
    assert_eq!(page.boards.root.items.len(), root_count);
    let folder_canvas = page.boards.folder_views.get(&folder_id).expect("folder view open");
    assert_eq!(folder_canvas.items.len(), 1);
    assert_eq!(folder_canvas.items[0].position, point(88.0, 44.0));
    assert_eq!(members(&page, &folder_id), 1);
}

#[test]
fn drop_moves_reference_into_folder() {
    let mut page = new_page();
    let folder_id = add_folder(&mut page);
    show_folder(&mut page, &folder_id);

    let (entity_id, reference_id) = root_first_snippet(&page);
    let dragged = payload(&page, reference_id, ReferenceTarget::Snippet(entity_id.clone()));
    let root_count = page.boards.root.items.len();
    assert!(page.apply_drop(&folder_id, None, &dragged, true, point(24.0, 24.0)).0);
    assert_eq!(
        page.boards.root.items.len(),
        root_count - 1,
        "move removes the source card"
    );
    assert_eq!(members(&page, &folder_id), 1);
    // The entity itself is untouched; only the reference moved.
    assert!(page.all_snippets.contains_key(&entity_id));
}

#[test]
fn drop_rejects_self_reference() {
    let mut page = new_page();
    let folder_id = page.workspace.create_container("Folder");
    let reference_id = page.workspace.add_container_to_root(folder_id.clone());
    let dragged = payload(&page, reference_id, ReferenceTarget::Container(folder_id.clone()));
    assert!(!page.apply_drop(&folder_id, None, &dragged, false, point(24.0, 24.0)).0);
}

#[test]
fn drop_rejects_move_into_same_container() {
    let mut page = new_page();
    let (entity_id, reference_id) = root_first_snippet(&page);
    let dragged = payload(&page, reference_id, ReferenceTarget::Snippet(entity_id));
    let root_id = page.boards.root.container_id.clone();
    let root_count = page.boards.root.items.len();
    assert!(
        !page.apply_drop(&root_id, Some(point(24.0, 24.0)), &dragged, true, point(0.0, 0.0)).0
    );
    assert_eq!(page.boards.root.items.len(), root_count);
}

#[test]
fn drop_command_records_consumption() {
    let mut page = new_page();
    let folder_id = add_folder(&mut page);
    let (entity_id, reference_id) = root_first_snippet(&page);
    let dragged = payload(&page, reference_id.clone(), ReferenceTarget::Snippet(entity_id));
    process(
        &mut page,
        CanvasCommand::DropOnCanvas {
            container: folder_id.clone(),
            position: None,
            payload: dragged,
            move_semantics: false,
        },
    );
    let root = page.boards.root.container_id.clone();
    assert!(page
        .consumed_drops
        .iter()
        .any(|(container, reference)| *container == root && *reference == reference_id));
    assert_eq!(members(&page, &folder_id), 1);
}

#[test]
fn rejects_move_into_same_container() {
    let mut page = new_page();
    let entry = clip_root_first_entry(&page, ClipboardSemantics::Move);
    let root_count = page.boards.root.items.len();
    let root_id = page.boards.root.container_id.clone();
    assert!(!page.paste_clipboard(&root_id, &entry, point(24.0, 24.0)).0);
    assert_eq!(page.boards.root.items.len(), root_count);
}

#[test]
fn link_paste_command_clears_clipboard() {
    let mut page = new_page();
    let folder_id = add_folder(&mut page);
    show_folder(&mut page, &folder_id);
    let entry = clip_root_first_entry(&page, ClipboardSemantics::Link);
    page.windows.clipboard = Some(entry.clone());
    process(&mut page, CanvasCommand::PasteClipboard { container: folder_id, entry });
    assert!(page.windows.clipboard.is_none());
}

#[test]
fn opening_snippet_clears_clipboard() {
    let mut page = new_page();
    let entry = clip_root_first_entry(&page, ClipboardSemantics::Link);
    page.windows.clipboard = Some(entry);
    let (snippet_id, _) = root_first_snippet(&page);
    page.open_view(snippet_id);
    assert!(page.windows.clipboard.is_none());
}

#[test]
fn root_always_holds_a_settings_special_card() {
    let page = new_page();
    assert!(page.boards.root.items.iter().any(|item| matches!(
        &item.target,
        ReferenceTarget::Special(SpecialKind::Settings)
    )));
}

#[test]
fn settings_special_cannot_be_pasted_or_dropped() {
    let mut page = new_page();
    let (special_reference, special_target) = {
        let special = page
            .boards
            .root
            .items
            .iter()
            .find(|item| matches!(item.target, ReferenceTarget::Special(_)))
            .expect("root has a settings special card");
        (special.reference_id.clone(), special.target.clone())
    };
    let folder_id = page.workspace.create_container("Folder");
    let entry = ClipboardEntry {
        source_container: page.boards.root.container_id.clone(),
        reference_id: special_reference.clone(),
        target: special_target.clone(),
        semantics: ClipboardSemantics::Link,
        origin: Viewport::Root,
    };
    assert!(
        !page.paste_clipboard(&folder_id, &entry, point(24.0, 24.0)).0,
        "special items cannot be pasted"
    );
    let dragged = payload(&page, special_reference, special_target);
    assert!(
        !page.apply_drop(&folder_id, None, &dragged, false, point(24.0, 24.0)).0,
        "special items cannot be dropped"
    );
    assert_eq!(members(&page, &folder_id), 0);
}

#[test]
fn opening_special_opens_the_settings_window() {
    let mut page = new_page();
    assert!(!page.windows.settings_open);
    process(&mut page, CanvasCommand::OpenSpecial(SpecialKind::Settings));
    assert!(page.windows.settings_open);
}

#[test]
fn open_search_command_opens_the_search_window_on_the_originating_viewport() {
    let mut page = new_page();
    assert!(!page.windows.search.open);
    let folder_viewport = Viewport::Folder(ContainerId::from_string("some-container"));
    page.process_command(
        CanvasCommand::OpenSearch,
        folder_viewport.clone(),
        point(0.0, 0.0),
        no_box(),
    );
    assert!(page.windows.search.open);
    assert!(page.windows.search.focus_requested);
    assert!(
        page.windows.search.origin == folder_viewport,
        "the search window remembers the viewport that opened it"
    );
    assert!(page.windows.search.shown_in(&folder_viewport));
    assert!(!page.windows.search.shown_in(&Viewport::Root));
}

#[test]
fn closing_the_originating_viewport_closes_the_search_window() {
    let mut page = new_page();
    let folder_viewport = Viewport::Folder(ContainerId::from_string("some-container"));
    let open_search = |page: &mut HomePage| {
        page.process_command(
            CanvasCommand::OpenSearch,
            Viewport::Folder(ContainerId::from_string("some-container")),
            point(0.0, 0.0),
            no_box(),
        );
    };
    open_search(&mut page);
    assert!(page.windows.search.open);

    // Closing the folder window that opened the search dismisses it; other
    // viewports leave it untouched.
    page.windows.clear_search_for_viewport(&folder_viewport);
    assert!(!page.windows.search.open);

    open_search(&mut page);
    assert!(page.windows.search.open);
    page.windows.clear_search_for_viewport(&Viewport::Root);
    assert!(page.windows.search.open, "unrelated viewport closes leave search open");
}

#[test]
fn search_snippets_prioritizes_titles_and_is_case_insensitive() {
    let mut snippets: IdMap<EntityId, Snippet> = IdMap::new();
    let insert = |snippets: &mut IdMap<EntityId, Snippet>, title: &str, content: &str| {
        let id = EntityId::new();
        snippets.insert(
            id.clone(),
            Snippet { id: id.clone(), title: title.to_owned(), content: content.to_owned() },
        );
        id
    };
    let math_id = insert(&mut snippets, "Math Notes", "y = x^2");
    let shopping_id = insert(&mut snippets, "Shopping", "milk and math textbooks");
    insert(&mut snippets, "Journal", "a walk by the lake");

    // Title hit comes before a body hit.
    let results = search_snippets("math", &snippets);
    assert!(results[0] == math_id, "title match ranks first");
    assert!(results.contains(&shopping_id), "body match is found too");

    // Case-insensitive.
    assert!(search_snippets("MILK", &snippets) == vec![shopping_id]);

    // Empty query matches nothing.
    assert!(search_snippets("   ", &snippets).is_empty());
    assert_eq!(search_notice("  ", 0), Some("Type to search all snippets"));
    assert_eq!(search_notice("x", 0), Some("(no matches)"));
    assert_eq!(search_notice("x", 2), None);
}

#[test]
fn organize_arranges_cards_column_major_within_viewport() {
    let mut page = new_page();
    let count = page.boards.root.items.len();
    for (index, item) in page.boards.root.items.iter_mut().enumerate() {
        item.position = point(1000.0 + index as f32, 1000.0);
    }
    let viewport_height: f32 = 480.0;
    const GRID: f32 = 32.0;
    const MARGIN: f32 = GRID;
    const STEP_X: f32 = 6.0 * GRID;
    const GAP_Y: f32 = 12.0;
    let max_height = page
        .boards
        .root
        .items
        .iter()
        .map(|item| f32::from_bits(item.size.y))
        .fold(25.0, f32::max);
    let step_y = ((max_height + GAP_Y) / GRID).ceil() * GRID;
    let rows_per_column = (((viewport_height - MARGIN) / step_y).floor() as usize).max(1);
    let columns = (count + rows_per_column - 1) / rows_per_column;
    let xs: Vec<u32> = (0..columns).map(|c| (MARGIN + c as f32 * STEP_X).to_bits()).collect();
    let ys: Vec<u32> =
        (0..rows_per_column).map(|r| (MARGIN + r as f32 * step_y).to_bits()).collect();
    page.boards.root.organize(rows_per_column, &xs, &ys);

    let expected = |index: usize| {
        let column = index / rows_per_column;
        let row = index % rows_per_column;
        point(MARGIN + column as f32 * STEP_X, MARGIN + row as f32 * step_y)
    };
    for (index, item) in page.boards.root.items.iter().enumerate() {
        assert_eq!(item.position, expected(index));
        assert_eq!(f32::from_bits(item.position.x) % GRID, 0.0);
        assert_eq!(f32::from_bits(item.position.y) % GRID, 0.0);
    }
    // The layout is persisted across sessions.
    let reloaded = restart(page);
    for (index, item) in reloaded.boards.root.items.iter().enumerate() {
        assert_eq!(item.position, expected(index));
    }
}

#[test]
fn organize_dense_packs_cards_without_gaps() {
    let mut page = new_page();
    const MARGIN: f32 = 32.0;
    let width = f32::from_bits(page.boards.root.items[0].size.x);
    let height = f32::from_bits(page.boards.root.items[0].size.y);
    let xs: Vec<u32> = (0..4).map(|c| (MARGIN + c as f32 * width).to_bits()).collect();
    let ys: Vec<u32> = (0..2).map(|r| (MARGIN + r as f32 * height).to_bits()).collect();
    page.boards.root.organize(2, &xs, &ys);
    for (index, item) in page.boards.root.items.iter().enumerate() {
        assert_eq!(
            item.position,
            point(
                MARGIN + (index / 2) as f32 * width,
                MARGIN + (index % 2) as f32 * height
            )
        );
    }
}

#[test]
fn delete_reference_when_not_last_link_removes_only_the_link() {
    let mut page = new_page();
    let folder_id = add_folder(&mut page);
    show_folder(&mut page, &folder_id);

    // Give the folder a second link to the same snippet so it is not the last one.
    let (entity_id, root_ref) = root_first_snippet(&page);
    let folder_ref = page
        .workspace
        .add_snippet_reference(&folder_id, entity_id.clone())
        .unwrap();
    page.boards.folder_views.get_mut(&folder_id).unwrap().items.push(CanvasItem::new(
        folder_ref,
        ReferenceTarget::Snippet(entity_id.clone()),
        MemberRole::Normal,
        point(24.0, 24.0),
    ));

    let root_count = page.boards.root.items.len();
    let owner = page.boards.root.container_id.clone();
    process(
        &mut page,
        CanvasCommand::DeleteReference {
            owner,
            reference: root_ref,
            target: ReferenceTarget::Snippet(entity_id.clone()),
        },
    );

    // Not the last link: no confirmation dialog, entity untouched.
    assert!(page.windows.pending_delete.is_none());
    assert_eq!(page.boards.root.items.len(), root_count - 1);
    let wanted = ReferenceTarget::Snippet(entity_id.clone());
    assert!(page
        .boards
        .folder_views
        .get(&folder_id)
        .unwrap()
        .items
        .iter()
        .any(|item| item.target == wanted));
    assert!(page.all_snippets.contains_key(&entity_id));
}

#[test]
fn delete_reference_when_last_link_asks_then_confirm_removes_entity() {
    let mut page = new_page();
    let (entity_id, root_ref) = root_first_snippet(&page);
    let root_count = page.boards.root.items.len();
    let owner = page.boards.root.container_id.clone();

    process(
        &mut page,
        CanvasCommand::DeleteReference {
            owner,
            reference: root_ref,
            target: ReferenceTarget::Snippet(entity_id.clone()),
        },
    );

    // Last link: confirmation dialog pending; nothing removed yet.
    assert!(page.windows.pending_delete.is_some());
    assert_eq!(page.boards.root.items.len(), root_count);
    assert!(page.all_snippets.contains_key(&entity_id));

    let pending = page.windows.pending_delete.clone().unwrap();
    let effects = page.confirm_delete(&pending);
    assert!(matches!(effects[0], Effect::RemoveSnippetFile { .. }));
    assert!(page.windows.pending_delete.is_none());
    assert!(!page.all_snippets.contains_key(&entity_id));
    assert_eq!(page.boards.root.items.len(), root_count - 1);
}

#[test]
fn file_cards_are_removed_without_a_question() {
    let mut page = new_page();
    let root = page.boards.root.container_id.clone();
    page.create_external_file(&root, "/docs/report.final.pdf", None, point(300.0, 300.0));
    let item = page.boards.root.items.last().unwrap();
    let (reference, target) = (item.reference_id.clone(), item.target.clone());
    assert!(
        matches!(&target, ReferenceTarget::ExternalFile(file) if file.title == "report.final" && file.path == "/docs/report.final.pdf")
    );
    assert_eq!(item.position, point(300.0, 300.0));
    let count = page.boards.root.items.len();
    process(&mut page, CanvasCommand::DeleteReference { owner: root, reference, target });
    assert!(page.windows.pending_delete.is_none());
    assert_eq!(page.boards.root.items.len(), count - 1);
}

#[test]
fn confirm_delete_last_folder_link_removes_container_and_window() {
    let mut page = new_page();
    let folder_id = page.workspace.create_container("Folder");
    let reference_id = page.workspace.add_container_to_root(folder_id.clone());
    show_folder(&mut page, &folder_id);
    assert!(page.boards.folder_views.contains_key(&folder_id));

    let owner = page.boards.root.container_id.clone();
    page.confirm_delete(&PendingDelete {
        owner,
        reference: reference_id,
        target: ReferenceTarget::Container(folder_id.clone()),
        origin: Viewport::Root,
    });

    assert!(!page.workspace.containers.contains_key(&folder_id));
    assert!(!page.boards.folder_views.contains_key(&folder_id));
}

#[test]
fn create_text_enters_edit_and_persists_across_sessions() {
    let mut page = new_page();
    page.boards.root.create_text(point(24.0, 36.0));
    assert_eq!(page.boards.root.texts.len(), 1);
    let text_id = page.boards.root.texts[0].id.clone();
    assert!(page.boards.root.editing_text == Some(text_id));

    let reloaded = restart(page);
    assert_eq!(reloaded.boards.root.texts.len(), 1);
    assert_eq!(reloaded.boards.root.texts[0].position, point(24.0, 36.0));
    assert!(reloaded.boards.root.texts[0].text.is_empty());
}

#[test]
fn delete_text_removes_it_and_clears_edit_state() {
    let mut page = new_page();
    page.boards.root.create_text(point(24.0, 24.0));
    let text_id = page.boards.root.texts[0].id.clone();

    page.boards.root.delete_text(&text_id);

    assert!(page.boards.root.texts.is_empty());
    assert!(page.boards.root.editing_text.is_none());

    let reloaded = restart(page);
    assert!(reloaded.boards.root.texts.is_empty());
}

#[test]
fn floating_windows_accept_cross_window_card_drops() {
    let mut page = new_page();
    page.settings.window_mode = WindowMode::Floating;
    assert!(page.floating_windows());
    let folder_id = add_folder(&mut page);
    show_folder(&mut page, &folder_id);
    let root_card_count = page.boards.root.items.len();

    // Press on the root card, drag it over to the folder window, release it there.
    page.boards.root.begin_drag(0, point(5.0, 5.0));
    page.boards.root.move_card(0, point(1000.0, 250.0));
    let (entity_id, reference_id) = root_first_snippet(&page);
    let dragged = payload(&page, reference_id, ReferenceTarget::Snippet(entity_id));
    process(
        &mut page,
        CanvasCommand::DropOnCanvas {
            container: folder_id.clone(),
            position: Some(point(300.0, 150.0)),
            payload: dragged,
            move_semantics: false,
        },
    );
    page.finalize_drops(&None);

    assert_eq!(
        members(&page, &folder_id),
        1,
        "a card dropped onto another floating window's canvas creates a reference"
    );
    let folder_canvas = page.boards.folder_views.get(&folder_id).expect("folder view open");
    assert_eq!(folder_canvas.items.len(), 1);
    assert!(matches!(folder_canvas.items[0].target, ReferenceTarget::Snippet(_)));
    // Link semantics: the source card stays in the root box.
    assert_eq!(page.boards.root.items.len(), root_card_count);
    assert!(page.boards.root.dragging.is_none());
    assert!(page.consumed_drops.is_empty());
}

#[test]
fn cards_that_nobody_took_go_back() {
    let mut page = new_page();
    let start = page.boards.root.items[0].position;
    page.boards.root.begin_drag(0, point(5.0, 5.0));
    page.boards.root.move_card(0, point(900.0, 900.0));
    let (entity_id, reference_id) = root_first_snippet(&page);
    let dragged = payload(&page, reference_id, ReferenceTarget::Snippet(entity_id));
    // Still dragged: nothing happens.
    assert!(page.finalize_drops(&Some(dragged)).is_empty());
    assert!(page.boards.root.dragging.is_some());
    assert_eq!(page.boards.root.items[0].position, point(900.0, 900.0));
    // The drag is over, and no canvas took the card.
    let effects = page.finalize_drops(&None);
    assert_eq!(effects.len(), 1);
    assert!(matches!(&effects[0], Effect::SaveLayout(_)));
    assert_eq!(page.boards.root.items[0].position, start);
    assert!(page.boards.root.dragging.is_none());
}

/// Creates a fresh AI box in the root canvas via the `NewAiBox` command.
fn create_ai_box_in_root(page: &mut HomePage) -> ContainerId {
    let root = page.boards.root.container_id.clone();
    process(
        page,
        CanvasCommand::NewAiBox { owner: root, position: Some(point(120.0, 90.0)) },
    );
    ai_box_ids(&page.workspace).remove(0)
}

fn first_snippet_id(page: &HomePage) -> EntityId {
    page.boards
        .root
        .items
        .iter()
        .find_map(|item| match &item.target {
            ReferenceTarget::Snippet(id) => Some(id.clone()),
            _ => None,
        })
        .expect("root has a snippet card")
}

#[test]
fn new_ai_box_command_creates_an_ai_workspace_card() {
    let mut page = new_page();
    let before = page.boards.root.items.len();
    let ai_box = create_ai_box_in_root(&mut page);

    assert!(page.workspace.is_ai_box(&ai_box));
    assert_eq!(page.boards.root.items.len(), before + 1);
    let item = page
        .boards
        .root
        .items
        .iter()
        .find(|item| matches!(&item.target, ReferenceTarget::Container(id) if id == &ai_box))
        .expect("the AI box card was placed");
    assert_eq!(item.position, point(120.0, 90.0));

    let reloaded = restart(page);
    assert_eq!(
        reloaded.workspace.containers.get(&ai_box).unwrap().kind,
        ContainerKind::AiWorkspace
    );
}

#[test]
fn new_conversation_binds_direct_sources_and_adds_card() {
    let mut page = new_page();
    let ai_box = create_ai_box_in_root(&mut page);
    let entity = first_snippet_id(&page);

    process(
        &mut page,
        CanvasCommand::LinkAiSource {
            ai_box: ai_box.clone(),
            target: ReferenceTarget::Snippet(entity.clone()),
            position: Some(point(50.0, 50.0)),
        },
    );
    assert!(page
        .workspace
        .containers
        .get(&ai_box)
        .unwrap()
        .members
        .iter()
        .any(|reference| reference.role == MemberRole::Source));

    page.process_command(
        CanvasCommand::NewConversation {
            ai_box: ai_box.clone(),
            position: Some(point(80.0, 80.0)),
        },
        Viewport::Root,
        point(0.0, 0.0),
        AiBoxData::empty(ai_box.clone()),
    );

    let data = page.ai_boxes.get(&ai_box).expect("sidecar loaded");
    assert_eq!(data.conversations.len(), 1);
    let conversation = data.conversations.value_at(0);
    assert_eq!(conversation.title, "New Conversation");
    assert_eq!(conversation.sources.len(), 1);
    assert!(matches!(conversation.sources[0], SourceTarget::Snippet(_)));
    assert!(page.workspace.containers.get(&ai_box).unwrap().members.iter().any(|reference| {
        matches!(&reference.target, ReferenceTarget::Conversation(id) if id == &conversation.id)
            && reference.role == MemberRole::Conversation
    }));

    let reloaded = restart(page);
    assert_eq!(reloaded.ai_boxes.get(&ai_box).unwrap().conversations.len(), 1);
}

#[test]
fn remove_ai_source_unlinks_without_deleting_the_entity() {
    let mut page = new_page();
    let ai_box = create_ai_box_in_root(&mut page);
    let entity = first_snippet_id(&page);
    process(
        &mut page,
        CanvasCommand::LinkAiSource {
            ai_box: ai_box.clone(),
            target: ReferenceTarget::Snippet(entity.clone()),
            position: None,
        },
    );
    let reference = page
        .workspace
        .containers
        .get(&ai_box)
        .unwrap()
        .members
        .iter()
        .find(|reference| reference.role == MemberRole::Source)
        .expect("a source reference exists")
        .id
        .clone();

    process(
        &mut page,
        CanvasCommand::RemoveAiSource { ai_box: ai_box.clone(), reference: reference.clone() },
    );

    assert!(page
        .workspace
        .containers
        .get(&ai_box)
        .unwrap()
        .members
        .iter()
        .all(|reference| reference.role != MemberRole::Source));
    assert!(
        page.all_snippets.contains_key(&entity),
        "removing a source never deletes the entity"
    );
    let reloaded = restart(page);
    assert!(reloaded.all_snippets.contains_key(&entity));
}

#[test]
fn deleting_an_ai_box_removes_only_its_sidecar() {
    let mut page = new_page();
    let root = page.boards.root.container_id.clone();
    let ai_box = create_ai_box_in_root(&mut page);
    page.process_command(
        CanvasCommand::NewConversation { ai_box: ai_box.clone(), position: None },
        Viewport::Root,
        point(0.0, 0.0),
        AiBoxData::empty(ai_box.clone()),
    );
    assert_eq!(page.ai_boxes.get(&ai_box).unwrap().conversations.len(), 1);

    let reference = page
        .workspace
        .containers
        .get(&root)
        .unwrap()
        .members
        .iter()
        .find(|reference| {
            matches!(&reference.target, ReferenceTarget::Container(id) if id == &ai_box)
        })
        .expect("root holds the AI box card")
        .id
        .clone();
    let effects = page.confirm_delete(&PendingDelete {
        owner: root.clone(),
        reference,
        target: ReferenceTarget::Container(ai_box.clone()),
        origin: Viewport::Root,
    });

    assert!(effects.iter().any(|e| matches!(e, Effect::RemoveBox(id) if id == &ai_box)));
    assert!(!page.workspace.containers.contains_key(&ai_box));
    assert!(!page.ai_boxes.contains_key(&ai_box));
    let reloaded = restart(page);
    assert!(!reloaded.ai_boxes.contains_key(&ai_box));
}

#[test]
fn titles_are_given_through_the_dialog() {
    let mut page = new_page();
    let store = SnippetStore::open("/w");
    let (entity, _) = root_first_snippet(&page);
    process(&mut page, CanvasCommand::RenameSnippet(entity.clone()));
    assert_eq!(page.windows.rename_dialog.buffer, "hello");
    assert!(page.windows.rename_dialog.take_focus());
    assert!(!page.windows.rename_dialog.take_focus());
    page.windows.rename_dialog.buffer = "  greeting ".to_owned();
    // Another window is not asked.
    let elsewhere = Viewport::Folder(ContainerId::new());
    assert!(page.windows.step_rename_dialog(&elsewhere, true, false).is_none());
    let target = page.windows.step_rename_dialog(&Viewport::Root, true, false).unwrap();
    match page.plan_rename(&store, &entity, "greeting") {
        RenamePlan::Move { from, to } => {
            assert_eq!(from, format!("/w/hello--{}.txt", entity.as_str()));
            assert_eq!(to, format!("/w/greeting--{}.txt", entity.as_str()));
        }
        _ => panic!("the file has to be moved"),
    }
    assert!(matches!(page.plan_rename(&store, &entity, ""), RenamePlan::Refused));
    assert!(matches!(page.plan_rename(&store, &entity, "a/b"), RenamePlan::Refused));
    assert!(matches!(page.plan_rename(&store, &entity, "hello"), RenamePlan::Keep));
    // The file could not be moved: the dialog stays.
    process(&mut page, CanvasCommand::ApplyRename { target: target.clone(), moved: false });
    assert!(page.windows.rename_dialog.pending.is_some());
    process(&mut page, CanvasCommand::ApplyRename { target, moved: true });
    assert!(page.windows.rename_dialog.pending.is_none());
    assert_eq!(page.all_snippets.get(&entity).unwrap().title, "greeting");
}

#[test]
fn folders_files_and_conversations_get_titles() {
    let mut page = new_page();
    let root = page.boards.root.container_id.clone();
    let folder = add_folder(&mut page);
    assert!(page.rename_folder(&folder, "Notes").0);
    assert_eq!(page.workspace.containers.get(&folder).unwrap().title, "Notes");
    assert!(!page.rename_folder(&folder, "").0);
    assert!(!page.rename_folder(&ContainerId::new(), "x").0);

    page.create_external_file(&root, "/a/b.txt", None, point(0.0, 0.0));
    let id = match &page.boards.root.items.last().unwrap().target {
        ReferenceTarget::ExternalFile(file) => file.id.clone(),
        _ => panic!("a file card"),
    };
    process(&mut page, CanvasCommand::RenameExternalFile(id.clone()));
    assert_eq!(page.windows.rename_dialog.buffer, "b");
    assert!(matches!(
        page.windows.rename_dialog.pending,
        Some(RenameTarget::ExternalFile { .. })
    ));
    assert!(page.rename_external_file(&id, "Renamed").0);
    assert!(
        matches!(&page.boards.root.items.last().unwrap().target, ReferenceTarget::ExternalFile(f) if f.title == "Renamed")
    );
    assert_eq!(page.title_of_file(&id), Some("Renamed".to_owned()));
}

#[test]
fn new_snippets_and_folders_get_cards() {
    let mut page = new_page();
    let root = page.boards.root.container_id.clone();
    let count = page.all_snippets.len();
    let effects = page.create_snippet(&root, Some(point(10.0, 20.0)), point(0.0, 0.0));
    assert!(
        matches!(&effects[0], Effect::SaveSnippet(s) if s.title == "Untitled" && s.content.is_empty())
    );
    assert_eq!(page.all_snippets.len(), count + 1);
    assert_eq!(page.boards.root.items.last().unwrap().position, point(10.0, 20.0));
    page.create_folder(&root, None, point(30.0, 40.0));
    assert_eq!(page.boards.root.items.last().unwrap().position, point(30.0, 40.0));
    // Without a container nothing is kept, but the file of the snippet is written.
    let nowhere = ContainerId::new();
    let effects = page.create_snippet(&nowhere, None, point(0.0, 0.0));
    assert_eq!(effects.len(), 1);
    assert_eq!(page.all_snippets.len(), count + 1);
}

#[test]
fn windows_open_and_close() {
    let mut page = new_page();
    let (entity, _) = root_first_snippet(&page);
    page.open_view(entity.clone());
    page.open_view(entity.clone());
    assert_eq!(page.windows.views.len(), 2);
    assert_eq!(page.windows.views[0].mode, ViewMode::Preview);
    page.step_views(&vec![0], vec![entity.clone(), EntityId::new()]);
    assert_eq!(page.windows.views.len(), 2);
    assert_eq!(page.windows.views[0].id, 1);
    assert_eq!(page.windows.views[1].id, 2);
    assert_eq!(page.windows.next_view_id, 3);
    process(&mut page, CanvasCommand::OpenSnippetReadOnly(entity));
    assert!(page.windows.views[2].read_only);
    process(&mut page, CanvasCommand::OpenSnippetReadOnly(EntityId::new()));
    assert_eq!(page.windows.views.len(), 3);
}

#[test]
fn leaving_is_asked_where_windows_float() {
    let mut page = new_page();
    assert!(!page.windows.step_exit(true, true, false, false));
    assert!(page.windows.root_exit_pending);
    assert!(!page.windows.step_exit(true, false, true, false));
    assert!(!page.windows.root_exit_pending);
    assert!(!page.windows.step_exit(false, true, false, true));
    assert!(!page.windows.root_exit_pending);
    assert!(page.windows.step_exit(true, true, false, true));
}

#[test]
fn search_windows_open_what_is_found() {
    let mut page = new_page();
    process(&mut page, CanvasCommand::OpenSearch);
    page.windows.search.filter = "WELCOME".to_owned();
    assert!(page.windows.search.take_focus());
    let found = page.windows.search.step(&page.all_snippets, true, true, false, None).unwrap();
    assert_eq!(page.all_snippets.get(&found).unwrap().title, "floatdea");
    assert!(!page.windows.search.open);
    process(&mut page, CanvasCommand::OpenSearch);
    assert!(page.windows.search.step(&page.all_snippets, true, false, true, None).is_none());
    assert!(!page.windows.search.open);
}

#[test]
fn folders_open_through_an_effect() {
    let mut page = new_page();
    let folder = add_folder(&mut page);
    let effects = process(&mut page, CanvasCommand::OpenFolder(folder.clone()));
    assert!(matches!(&effects[0], Effect::LoadFolder(id) if id == &folder));
    show_folder(&mut page, &folder);
    assert!(process(&mut page, CanvasCommand::OpenFolder(folder.clone())).is_empty());
    process(&mut page, CanvasCommand::CloseFolder(folder.clone()));
    assert!(!page.boards.folder_views.contains_key(&folder));
}

#[test]
fn slots_and_rows_are_counted() {
    assert_eq!(first_free_slot(&vec![true, true, false, true]), Some(2));
    assert_eq!(first_free_slot(&vec![true]), None);
    assert!(desired_rows("a\nb\nc") >= desired_rows("a"));
}

#[test]
fn ai_boxes_take_links_even_from_moves() {
    let mut page = new_page();
    let ai_box = create_ai_box_in_root(&mut page);
    let root = page.boards.root.container_id.clone();
    let before = members(&page, &root);
    let (entity_id, reference_id) = root_first_snippet(&page);
    let dragged = payload(&page, reference_id, ReferenceTarget::Snippet(entity_id));

    assert!(page.apply_drop(&ai_box, None, &dragged, true, point(24.0, 24.0)).0);
    let entry = clip_root_first_entry(&page, ClipboardSemantics::Move);
    assert!(page.paste_clipboard(&ai_box, &entry, point(24.0, 24.0)).0);

    assert_eq!(members(&page, &root), before);
    let sources = &page.workspace.containers.get(&ai_box).unwrap().members;
    assert_eq!(sources.len(), 2);
    assert!(sources.iter().all(|card| matches!(card.role, MemberRole::Source)));
}

#[test]
fn conversation_cards_are_neither_pasted_nor_dropped() {
    let mut page = new_page();
    let folder = add_folder(&mut page);
    let target = ReferenceTarget::Conversation(ConversationId::new());
    let dragged = payload(&page, ReferenceId::new(), target.clone());
    let mut entry = clip_root_first_entry(&page, ClipboardSemantics::Link);
    entry.target = target;

    assert!(!page.paste_clipboard(&folder, &entry, point(24.0, 24.0)).0);
    assert!(!page.apply_drop(&folder, None, &dragged, false, point(24.0, 24.0)).0);
    assert_eq!(members(&page, &folder), 0);
}
