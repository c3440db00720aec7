//! The page as it opens.
use crate::app::board::{are_cards_of, load_container_canvas, members_or_none, shown_members,
    ContainerCanvas};
use crate::app::boards::Boards;
use crate::app::page::{Chat, HomePage, Windows};
use crate::data::ai::types::AiBoxData;
use crate::data::ids::{is_compact_id, ContainerId, EntityId};
use crate::data::layout::{ContainerLayout, Point};
use crate::data::model::Snippet;
use crate::data::settings::Settings;
use crate::data::workspace::{Container, ContainerKind, Workspace};
use crate::idmap::{IdMap, Identifier};
use vstd::prelude::*;

verus! {

/// A snippet with this text.
pub open spec fn is_starter(snippet: Snippet, title: Seq<char>, content: Seq<char>) -> bool {
    is_compact_id(snippet.id@) && snippet.title@ == title && snippet.content@ == content
}

fn starter(title: &str, content: &str) -> (r: Snippet)
    ensures
        is_starter(r, title@, content@),
{
    Snippet { id: EntityId::new(), title: title.to_owned(), content: content.to_owned() }
}

/// The snippets of an empty folder.
pub fn starter_snippets() -> (r: Vec<Snippet>)
    ensures
        r@.len() == 3,
        is_starter(r@[0], "hello"@, "hello, world!"@),
        is_starter(r@[1], "floatdea"@, "Welcome to floatdea!"@),
        is_starter(
            r@[2],
            "help"@,
            "Right-click for relevant operations.\n\nDouble-click on a card to open it. Drag cards to move them."@,
        ),
{
    let mut snippets: Vec<Snippet> = Vec::new();
    snippets.push(starter("hello", "hello, world!"));
    snippets.push(starter("floatdea", "Welcome to floatdea!"));
    snippets.push(
        starter(
            "help",
            "Right-click for relevant operations.\n\nDouble-click on a card to open it. Drag cards to move them.",
        ),
    );
    snippets
}

/// The AI workspaces among containers.
pub open spec fn boxes_among(entries: Seq<(ContainerId, Container)>) -> Seq<ContainerId>
    decreases entries.len(),
{
    if entries.len() == 0 {
        Seq::empty()
    } else {
        let rest = boxes_among(entries.drop_last());
        if entries.last().1.kind == ContainerKind::AiWorkspace {
            rest.push(entries.last().1.id)
        } else {
            rest
        }
    }
}

/// The AI workspaces, whose data has to be read.
pub fn ai_box_ids(workspace: &Workspace) -> (r: Vec<ContainerId>)
    ensures
        r@ == boxes_among(workspace.containers.order()),
{
    let ghost all = workspace.containers.order();
    let mut boxes: Vec<ContainerId> = Vec::new();
    let mut i: usize = 0;
    assert(boxes@ =~= boxes_among(all.take(0)));
    while i < workspace.containers.len()
        invariant
            i <= all.len(),
            all == workspace.containers.order(),
            boxes@ == boxes_among(all.take(i as int)),
        decreases all.len() - i,
    {
        let container = workspace.containers.value_at(i);
        proof {
            assert(all.take(i + 1).drop_last() =~= all.take(i as int));
            assert(all.take(i + 1).last() == all[i as int]);
        }
        if container.kind == ContainerKind::AiWorkspace {
            boxes.push(container.id.clone());
        }
        i = i + 1;
    }
    assert(all.take(i as int) =~= all);
    boxes
}

/// The map that a list of entries stands for. Of entries with the same identifier
/// the last one counts.
pub open spec fn collected<K: Identifier, V>(entries: Seq<(K, V)>) -> Map<Seq<char>, V>
    decreases entries.len(),
{
    if entries.len() == 0 {
        Map::empty()
    } else {
        collected(entries.drop_last()).insert(entries.last().0.text(), entries.last().1)
    }
}

/// Collects entries in a map.
pub fn collect<K: Identifier, V>(entries: Vec<(K, V)>) -> (r: IdMap<K, V>)
    ensures
        r.wf(),
        r@ == collected(entries@),
{
    let ghost all = entries@;
    let mut rest = entries;
    let mut map: IdMap<K, V> = IdMap::new();
    let ghost mut n: int = 0;
    while rest.len() > 0
        invariant
            0 <= n <= all.len(),
            rest@ == all.skip(n),
            map.wf(),
            map@ == collected(all.take(n)),
        decreases rest@.len(),
    {
        proof {
            assert(all.take(n + 1).drop_last() =~= all.take(n));
            assert(all.take(n + 1).last() == all[n]);
            assert(rest@[0] == all[n]);
        }
        let (key, value) = rest.remove(0);
        map.insert(key, value);
        proof {
            n = n + 1;
            assert(rest@ =~= all.skip(n));
        }
    }
    assert(all.take(n) =~= all);
    map
}

/// Snippets under their identifiers.
pub open spec fn by_id(snippets: Seq<Snippet>) -> Seq<(EntityId, Snippet)> {
    snippets.map_values(|snippet: Snippet| (snippet.id, snippet))
}

/// Nothing is being dragged or edited on a canvas.
pub open spec fn is_at_rest(canvas: ContainerCanvas) -> bool {
    &&& canvas.dragging is None
    &&& canvas.dragging_text is None
    &&& canvas.editing_text is None
    &&& !canvas.edit_focus_requested
    &&& canvas.menu_anchor is None
}

/// No window and no dialog is open.
pub open spec fn nothing_open(windows: Windows) -> bool {
    &&& windows.views@.len() == 0
    &&& windows.next_view_id == 0
    &&& windows.pending_delete is None
    &&& windows.rename_dialog.pending is None
    &&& !windows.search.open
    &&& windows.clipboard is None
    &&& !windows.settings_open
    &&& !windows.root_exit_pending
}

/// No conversation is open, and no turn is running.
pub open spec fn is_idle(chat: Chat) -> bool {
    &&& chat.open is None
    &&& chat.input@.len() == 0
    &&& chat.active_turn is None
    &&& chat.streaming@.len() == 0
    &&& chat.snapshots@.len() == 0
}

impl HomePage {
    /// The page of a workspace, with what was read of it: its snippets, the data of
    /// its AI workspaces and the layout of its root. `slots` holds a place for each
    /// member of the root that has none in the layout.
    pub fn new(
        snippets: Vec<Snippet>,
        workspace: Workspace,
        boxes: Vec<(ContainerId, AiBoxData)>,
        settings: Settings,
        layout: ContainerLayout,
        slots: &Vec<Point>,
    ) -> (r: Self)
        requires
            slots@.len() >= members_or_none(workspace, workspace.root@).len(),
        ensures
            r.all_snippets.wf(),
            r.all_snippets@ == collected(by_id(snippets@)),
            r.workspace == workspace,
            r.ai_boxes.wf(),
            r.ai_boxes@ == collected(boxes@),
            r.settings == settings,
            r.boards.root.container_id == workspace.root,
            are_cards_of(
                r.boards.root.items@,
                shown_members(
                    members_or_none(workspace, workspace.root@),
                    r.all_snippets@,
                    workspace,
                ),
                layout.items@,
                slots@,
            ),
            r.boards.root.texts@ == layout.texts@,
            r.boards.root.layout == layout,
            is_at_rest(r.boards.root),
            r.boards.folder_views.wf(),
            r.boards.folder_views@ == Map::<Seq<char>, ContainerCanvas>::empty(),
            nothing_open(r.windows),
            r.consumed_drops@.len() == 0,
            is_idle(r.chat),
    {
        let ghost all = snippets@;
        let mut rest = snippets;
        let mut pairs: Vec<(EntityId, Snippet)> = Vec::new();
        let ghost mut n: int = 0;
        while rest.len() > 0
            invariant
                0 <= n <= all.len(),
                rest@ == all.skip(n),
                pairs@ == by_id(all.take(n)),
            decreases rest@.len(),
        {
            assert(rest@[0] == all[n]);
            let snippet = rest.remove(0);
            pairs.push((snippet.id.clone(), snippet));
            proof {
                assert(pairs@ =~= by_id(all.take(n + 1)));
                n = n + 1;
                assert(rest@ =~= all.skip(n));
            }
        }
        assert(all.take(n) =~= all);
        let all_snippets = collect(pairs);
        let root = load_container_canvas(
            &workspace,
            &all_snippets,
            workspace.root.clone(),
            layout,
            slots,
        );
        HomePage {
            all_snippets,
            workspace,
            ai_boxes: collect(boxes),
            boards: Boards { root, folder_views: IdMap::new() },
            windows: Windows::new(),
            consumed_drops: Vec::new(),
            settings,
            chat: Chat {
                open: None,
                input: String::new(),
                active_turn: None,
                streaming: String::new(),
                snapshots: Vec::new(),
            },
        }
    }
}

/// The AI workspaces are all containers of that kind, in order.
pub proof fn every_ai_box_is_loaded(entries: Seq<(ContainerId, Container)>) -> (at: Seq<int>)
    ensures
        at.len() == boxes_among(entries).len(),
        forall|j: int|
            #![trigger at[j]]
            0 <= j < at.len() ==> 0 <= at[j] < entries.len() && entries[at[j]].1.kind == ContainerKind::AiWorkspace && boxes_among(entries)[j] == entries[at[j]].1.id,
        forall|i: int, j: int| 0 <= i < j < at.len() ==> at[i] < at[j],
        forall|k: int|
            #![trigger entries[k]]
            0 <= k < entries.len() && entries[k].1.kind == ContainerKind::AiWorkspace ==> at.contains(k),
    decreases entries.len(),
{
    if entries.len() == 0 {
        Seq::empty()
    } else {
        let front = entries.drop_last();
        let before = every_ai_box_is_loaded(front);
        let n = entries.len() - 1;
        let taken = entries.last().1.kind == ContainerKind::AiWorkspace;
        let at = if taken {
            before.push(n)
        } else {
            before
        };
        assert forall|j: int|
            #![trigger at[j]]
            0 <= j < at.len() implies 0 <= at[j] < entries.len() && entries[at[j]].1.kind == ContainerKind::AiWorkspace && boxes_among(entries)[j] == entries[at[j]].1.id by {
            if j < before.len() {
                assert(at[j] == before[j]);
                assert(front[before[j]] == entries[at[j]]);
            }
        }
        assert forall|k: int|
            #![trigger entries[k]]
            0 <= k < entries.len() && entries[k].1.kind == ContainerKind::AiWorkspace implies at.contains(k) by {
            if k < n {
                assert(front[k] == entries[k]);
                let j = choose|j: int| 0 <= j < before.len() && before[j] == k;
                assert(at[j] == k);
            } else {
                assert(at[before.len() as int] == n);
            }
        }
        at
    }
}

/// A map that is collected from a list holds every entry of the list, unless a later
/// one has the same identifier, and nothing else.
pub proof fn collecting_keeps_entries<K: Identifier, V>(entries: Seq<(K, V)>, i: int)
    requires
        0 <= i < entries.len(),
        forall|j: int|
            i < j < entries.len() ==> (#[trigger] entries[j]).0.text() != entries[i].0.text(),
    ensures
        collected(entries).contains_key(entries[i].0.text()),
        collected(entries)[entries[i].0.text()] == entries[i].1,
    decreases entries.len(),
{
    if i < entries.len() - 1 {
        let front = entries.drop_last();
        assert(entries[entries.len() - 1].0.text() != entries[i].0.text());
        assert forall|j: int| i < j < front.len() implies (#[trigger] front[j]).0.text()
            != front[i].0.text() by {
            assert(front[j] == entries[j]);
        }
        collecting_keeps_entries(front, i);
    }
}

/// Each key of a collected map is the identifier of an entry.
pub proof fn collecting_adds_nothing<K: Identifier, V>(entries: Seq<(K, V)>, key: Seq<char>) -> (i:
    int)
    requires
        collected(entries).contains_key(key),
    ensures
        0 <= i < entries.len(),
        entries[i].0.text() == key,
    decreases entries.len(),
{
    if entries.last().0.text() == key {
        entries.len() - 1
    } else {
        collecting_adds_nothing(entries.drop_last(), key)
    }
}

} // verus!
