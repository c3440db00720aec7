//! The page: all that is open, and what commands do to it.
use crate::app::board::{load_container_canvas, are_cards_of, members_or_none, shown_members,
    CanvasItem};
use crate::app::boards::{lost_snippet, Boards};
use crate::app::cards::{clipboard_valid_for, drop_valid_for, may_drop, may_link, may_paste};
use crate::app::commands::{ClipboardEntry, ClipboardSemantics, DragPayload, Effect, PendingDelete,
    RenameTarget, Viewport};
use crate::app::view::{SnippetView, ViewMode};
use crate::data::ai::types::{deduplicated, now_unix, AiBoxData, Conversation, Message, SourceRef,
    SourceTarget};
use crate::data::ai::worker::TurnIdentity;
use crate::data::ids::{ContainerId, ConversationId, EntityId, ReferenceId};
use crate::data::layout::{ContainerLayout, Point};
use crate::data::model::Snippet;
use crate::data::settings::{Settings, WindowMode};
use crate::data::workspace::{with_members, without_reference, without_snippet, ContainerKind,
    MemberRole, Reference, ReferenceTarget, Workspace};
use crate::idmap::IdMap;
use crate::lists::retain;
use vstd::prelude::*;

verus! {

/// The search window.
#[derive(Debug)]
pub struct SearchState {
    pub open: bool,
    pub filter: String,
    /// The filter is to get the focus.
    pub focus_requested: bool,
    /// The window that it was opened in, and is drawn in.
    pub origin: Viewport,
}

/// The dialog that asks for a new title.
#[derive(Debug)]
pub struct RenameDialog {
    pub pending: Option<RenameTarget>,
    pub buffer: String,
    /// The field already has the focus.
    pub focus_requested: bool,
}

/// Windows and dialogs.
#[derive(Debug)]
pub struct Windows {
    pub views: Vec<SnippetView>,
    pub next_view_id: u64,
    pub pending_delete: Option<PendingDelete>,
    pub rename_dialog: RenameDialog,
    pub search: SearchState,
    pub clipboard: Option<ClipboardEntry>,
    pub settings_open: bool,
    /// The user was asked whether to leave.
    pub root_exit_pending: bool,
}

/// The open conversation.
#[derive(Debug)]
pub struct Chat {
    /// The AI workspace and the conversation.
    pub open: Option<(ContainerId, ConversationId)>,
    pub input: String,
    /// The turn that is running.
    pub active_turn: Option<TurnIdentity>,
    /// What the running turn has answered so far.
    pub streaming: String,
    /// The sources of the running turn, as they were when it was sent.
    pub snapshots: Vec<SourceRef>,
}

/// The page.
pub struct HomePage {
    pub all_snippets: IdMap<EntityId, Snippet>,
    pub workspace: Workspace,
    pub ai_boxes: IdMap<ContainerId, AiBoxData>,
    pub boards: Boards,
    pub windows: Windows,
    /// Cards that another canvas took in this frame.
    pub consumed_drops: Vec<(ContainerId, ReferenceId)>,
    pub settings: Settings,
    pub chat: Chat,
}

/// The position, or the free place if there is none.
pub open spec fn place_for(position: Option<Point>, slot: Point) -> Point {
    match position {
        Some(p) => p,
        None => slot,
    }
}

/// The position, or the free place if there is none.
pub fn chosen_place(position: Option<Point>, slot: Point) -> (r: Point)
    ensures
        r == place_for(position, slot),
{
    match position {
        Some(p) => p,
        None => slot,
    }
}

/// The layout of a canvas is to be saved, if it is open.
pub open spec fn layout_effect(open: bool, container: ContainerId) -> Seq<Effect> {
    if open {
        seq![Effect::SaveLayout(container)]
    } else {
        Seq::empty()
    }
}

/// The cards of a reference were taken out of a container, if there is one.
pub open spec fn removed_card(
    after: Workspace,
    before: Workspace,
    owner: Seq<char>,
    reference: Seq<char>,
) -> bool {
    if before.has_container(owner) {
        after.changed_members(
            before,
            owner,
            before.members_of(owner).filter(without_reference(reference)),
        )
    } else {
        after == before
    }
}

/// The container was taken out, and so was the card that led to it.
pub open spec fn deleted_container(
    after: Workspace,
    before: Workspace,
    owner: Seq<char>,
    reference: Seq<char>,
    container: Seq<char>,
) -> bool {
    &&& after.same_frame(before)
    &&& after.containers@.dom() == before.containers@.dom().remove(container)
    &&& forall|c: Seq<char>| #[trigger]
        after.containers@.contains_key(c) ==> if c == owner {
            with_members(
                before.containers@[c],
                after.containers@[c],
                before.members_of(c).filter(without_reference(reference)),
            )
        } else {
            after.containers@[c] == before.containers@[c]
        }
}

pub open spec fn other_entity(entity: Seq<char>) -> spec_fn(SnippetView) -> bool {
    |view: SnippetView| view.entity_id@ != entity
}

/// The dialogs of a window that is gone are closed.
pub open spec fn forgot_viewport(after: Windows, before: Windows, viewport: Viewport) -> bool {
    &&& after == (Windows {
        rename_dialog: after.rename_dialog,
        search: after.search,
        ..before
    })
    &&& after.rename_dialog == (RenameDialog {
        pending: match before.rename_dialog.pending {
            Some(target) => if target.origin_of().same(&viewport) {
                None
            } else {
                Some(target)
            },
            None => None,
        },
        ..before.rename_dialog
    })
    &&& after.search == (SearchState {
        open: before.search.open && !before.search.origin.same(&viewport),
        ..before.search
    })
}

impl Windows {
    /// Nothing is open.
    pub fn new() -> (r: Self)
        ensures
            r.views@ == Seq::<SnippetView>::empty(),
            r.next_view_id == 0,
            r.pending_delete is None,
            r.rename_dialog.pending is None,
            r.rename_dialog.buffer@ == Seq::<char>::empty(),
            !r.rename_dialog.focus_requested,
            !r.search.open,
            r.search.filter@ == Seq::<char>::empty(),
            !r.search.focus_requested,
            r.search.origin is Root,
            r.clipboard is None,
            !r.settings_open,
            !r.root_exit_pending,
    {
        Windows {
            views: Vec::new(),
            next_view_id: 0,
            pending_delete: None,
            rename_dialog: RenameDialog {
                pending: None,
                buffer: String::new(),
                focus_requested: false,
            },
            search: SearchState {
                open: false,
                filter: String::new(),
                focus_requested: false,
                origin: Viewport::Root,
            },
            clipboard: None,
            settings_open: false,
            root_exit_pending: false,
        }
    }

    /// Closes the rename dialog of a window that is gone.
    pub fn clear_rename_for_viewport(&mut self, viewport: &Viewport)
        ensures
            *final(self) == (Windows { rename_dialog: final(self).rename_dialog, ..*old(self) }),
            final(self).rename_dialog == (RenameDialog {
                pending: match old(self).rename_dialog.pending {
                    Some(target) => if target.origin_of().same(viewport) {
                        None
                    } else {
                        Some(target)
                    },
                    None => None,
                },
                ..old(self).rename_dialog
            }),
    {
        let gone = match &self.rename_dialog.pending {
            Some(target) => *target.origin() == *viewport,
            None => false,
        };
        if gone {
            self.rename_dialog.pending = None;
        }
    }

    /// Closes the search window of a window that is gone.
    pub fn clear_search_for_viewport(&mut self, viewport: &Viewport)
        ensures
            *final(self) == (Windows {
                search: SearchState {
                    open: old(self).search.open && !old(self).search.origin.same(viewport),
                    ..old(self).search
                },
                ..*old(self)
            }),
    {
        if self.search.open && self.search.origin == *viewport {
            self.search.open = false;
        }
    }

    /// Closes the dialogs about a folder: they may have been opened elsewhere.
    pub fn clear_dialog_for_folder(&mut self, container: &ContainerId)
        ensures
            *final(self) == (Windows {
                rename_dialog: RenameDialog {
                    pending: match old(self).rename_dialog.pending {
                        Some(target) => match target {
                            RenameTarget::Folder { id, .. } => if id@ == container@ {
                                None
                            } else {
                                Some(target)
                            },
                            _ => Some(target),
                        },
                        None => None,
                    },
                    ..old(self).rename_dialog
                },
                pending_delete: match old(self).pending_delete {
                    Some(pending) => if pending.target.is_container(container@) {
                        None
                    } else {
                        Some(pending)
                    },
                    None => None,
                },
                ..*old(self)
            }),
    {
        let renaming = match &self.rename_dialog.pending {
            Some(RenameTarget::Folder { id, .. }) => *id == *container,
            _ => false,
        };
        if renaming {
            self.rename_dialog.pending = None;
        }
        let deleting = match &self.pending_delete {
            Some(pending) => match &pending.target {
                ReferenceTarget::Container(id) => *id == *container,
                _ => false,
            },
            None => false,
        };
        if deleting {
            self.pending_delete = None;
        }
    }
}

/// A view was opened.
pub open spec fn opened_view(
    after: Windows,
    before: Windows,
    entity: EntityId,
    mode: ViewMode,
    read_only: bool,
) -> bool {
    &&& after == (Windows {
        views: after.views,
        next_view_id: (before.next_view_id + 1) as u64,
        clipboard: None,
        ..before
    })
    &&& after.views@.len() == before.views@.len() + 1
    &&& after.views@ == before.views@.push(after.views@.last())
    &&& after.views@.last().is_fresh(before.next_view_id, entity, mode, read_only)
}

/// A snippet without content opens in the editor, others in the preview.
pub open spec fn opening_mode(snippets: Map<Seq<char>, Snippet>, entity: Seq<char>) -> ViewMode {
    if snippets.contains_key(entity) && snippets[entity].content@.len() == 0 {
        ViewMode::Source
    } else {
        ViewMode::Preview
    }
}

/// The folder window is gone, and what it had open with it.
pub open spec fn closed_folder(
    after: HomePage,
    before: HomePage,
    container: ContainerId,
) -> bool {
    let viewport = Viewport::Folder(container);
    let w = before.windows;
    let gone = match w.pending_delete {
        Some(pending) => pending.origin.same(&viewport) || (before.settings.window_mode
            == WindowMode::Floating && pending.target.is_container(container@)),
        None => false,
    };
    let renaming = match w.rename_dialog.pending {
        Some(target) => target.origin_of().same(&viewport) || (before.settings.window_mode
            == WindowMode::Floating && (target matches RenameTarget::Folder { id, .. } && id@
            == container@)),
        None => false,
    };
    &&& after == (HomePage { windows: after.windows, boards: after.boards, ..before })
    &&& after.boards.root == before.boards.root
    &&& after.boards.folder_views@ == before.boards.folder_views@.remove(container@)
    &&& after.windows == (Windows {
        rename_dialog: RenameDialog {
            pending: if renaming {
                None
            } else {
                w.rename_dialog.pending
            },
            ..w.rename_dialog
        },
        search: SearchState {
            open: w.search.open && !w.search.origin.same(&viewport),
            ..w.search
        },
        pending_delete: if gone {
            None
        } else {
            w.pending_delete
        },
        ..w
    })
}

/// A card was taken off: out of the container, and off its canvas.
pub open spec fn dropped_card(
    after: HomePage,
    before: HomePage,
    effects: Seq<Effect>,
    owner: ContainerId,
    reference: Seq<char>,
) -> bool {
    &&& after == (HomePage { workspace: after.workspace, boards: after.boards, ..before })
    &&& removed_card(after.workspace, before.workspace, owner@, reference)
    &&& after.boards.without(before.boards, owner@, reference)
    &&& effects == seq![Effect::SaveWorkspace] + layout_effect(
        before.boards.is_open(owner@),
        owner,
    )
}

/// The layouts of all open canvases are to be saved.
pub open spec fn all_layouts(boards: Boards) -> Seq<Effect> {
    seq![Effect::SaveLayout(boards.root.container_id)] + Seq::new(
        boards.folder_views.order().len(),
        |i: int| Effect::SaveLayout(boards.folder_views.order()[i].0),
    )
}

/// A snippet was deleted: its file, its cards everywhere, and its views.
pub open spec fn deleted_snippet(
    after: HomePage,
    before: HomePage,
    effects: Seq<Effect>,
    entity: EntityId,
) -> bool {
    &&& after == (HomePage {
        all_snippets: after.all_snippets,
        workspace: after.workspace,
        boards: after.boards,
        windows: after.windows,
        ..before
    })
    &&& after.all_snippets@ == before.all_snippets@.remove(entity@)
    &&& after.workspace.same_frame(before.workspace)
    &&& after.workspace.containers@.dom() == before.workspace.containers@.dom()
    &&& forall|c: Seq<char>| #[trigger]
        after.workspace.containers@.contains_key(c) ==> with_members(
            before.workspace.containers@[c],
            after.workspace.containers@[c],
            before.workspace.members_of(c).filter(without_snippet(entity@)),
        )
    &&& lost_snippet(after.boards.root, before.boards.root, entity@)
    &&& after.boards.folder_views@.dom() == before.boards.folder_views@.dom()
    &&& forall|c: Seq<char>| #[trigger]
        after.boards.folder_views@.contains_key(c) ==> lost_snippet(
            after.boards.folder_views@[c],
            before.boards.folder_views@[c],
            entity@,
        )
    &&& after.windows == (Windows {
        views: after.windows.views,
        pending_delete: None,
        ..before.windows
    })
    &&& after.windows.views@ == before.windows.views@.filter(other_entity(entity@))
    &&& effects == (if before.all_snippets@.contains_key(entity@) {
        seq![
            Effect::RemoveSnippetFile {
                id: entity,
                title: before.all_snippets@[entity@].title,
            },
        ]
    } else {
        Seq::empty()
    }) + seq![Effect::SaveWorkspace] + all_layouts(before.boards)
}

/// A container was deleted with its last card. Its AI data goes along; nothing
/// that it held is touched.
pub open spec fn deleted_folder(
    after: HomePage,
    before: HomePage,
    effects: Seq<Effect>,
    owner: ContainerId,
    reference: Seq<char>,
    container: ContainerId,
) -> bool {
    let viewport = Viewport::Folder(container);
    let was_ai = before.workspace.ai_box(container@);
    &&& after == (HomePage {
        workspace: after.workspace,
        ai_boxes: after.ai_boxes,
        boards: after.boards,
        windows: after.windows,
        ..before
    })
    &&& deleted_container(
        after.workspace,
        before.workspace,
        owner@,
        reference,
        container@,
    )
    &&& after.ai_boxes@ == if was_ai {
        before.ai_boxes@.remove(container@)
    } else {
        before.ai_boxes@
    }
    &&& exists|mid: Boards| #[trigger]
        mid.without(before.boards, owner@, reference) && after.boards.root == mid.root
            && after.boards.folder_views@ == mid.folder_views@.remove(container@)
    &&& forgot_viewport(
        after.windows,
        (Windows { pending_delete: None, ..before.windows }),
        viewport,
    )
    &&& effects == seq![Effect::SaveWorkspace] + (if was_ai {
        seq![Effect::RemoveBox(container)]
    } else {
        Seq::empty()
    }) + layout_effect(before.boards.is_open(owner@), owner)
}

/// A deletion was confirmed.
pub open spec fn confirmed(
    after: HomePage,
    before: HomePage,
    effects: Seq<Effect>,
    pending: PendingDelete,
) -> bool {
    match pending.target {
        ReferenceTarget::Snippet(entity) => deleted_snippet(after, before, effects, entity),
        ReferenceTarget::Container(container) => deleted_folder(
            after,
            before,
            effects,
            pending.owner,
            pending.reference@,
            container,
        ),
        _ => {
            &&& after == (HomePage {
                windows: Windows { pending_delete: None, ..before.windows },
                ..before
            })
            &&& effects == Seq::<Effect>::empty()
        },
    }
}

/// A card was put into a container and onto its canvas.
pub open spec fn put_card(
    after: HomePage,
    before: HomePage,
    effects: Seq<Effect>,
    owner: ContainerId,
    reference: ReferenceId,
    target: ReferenceTarget,
    role: MemberRole,
    position: Point,
) -> bool {
    let item = CanvasItem {
        reference_id: reference,
        target,
        role,
        position,
        size: Point { x: crate::app::board::CARD_WIDTH, y: crate::app::board::CARD_HEIGHT },
    };
    &&& after == (HomePage { workspace: after.workspace, boards: after.boards, ..before })
    &&& after.workspace.added_card(before.workspace, owner@, reference@, target, role)
    &&& after.boards.took(before.boards, owner@, item)
    &&& effects == seq![Effect::SaveWorkspace] + layout_effect(
        before.boards.is_open(owner@),
        owner,
    )
}

/// An AI workspace was created, and its card put into `owner` if there is such a
/// container.
pub open spec fn new_ai_box(
    after: HomePage,
    before: HomePage,
    effects: Seq<Effect>,
    owner: ContainerId,
    position: Point,
    mid: HomePage,
    container: ContainerId,
    reference: ReferenceId,
) -> bool {
    &&& mid == (HomePage { workspace: mid.workspace, ..before })
    &&& mid.workspace.added_container(
        before.workspace,
        container@,
        "AI Box"@,
        ContainerKind::AiWorkspace,
    )
    &&& if mid.workspace.has_container(owner@) {
        put_card(
            after,
            mid,
            effects,
            owner,
            reference,
            ReferenceTarget::Container(container),
            MemberRole::Normal,
            position,
        )
    } else {
        after == mid && effects == Seq::<Effect>::empty()
    }
}

/// The sources that the cards of an AI workspace stand for.
pub open spec fn source_targets(members: Seq<Reference>) -> Seq<SourceTarget>
    decreases members.len(),
{
    if members.len() == 0 {
        Seq::empty()
    } else {
        let rest = source_targets(members.drop_last());
        let last = members.last();
        if last.role == MemberRole::Source {
            match last.target {
                ReferenceTarget::Snippet(id) => rest.push(SourceTarget::Snippet(id)),
                ReferenceTarget::Container(id) => rest.push(SourceTarget::Container(id)),
                ReferenceTarget::ExternalFile(file) => rest.push(
                    SourceTarget::ExternalFile(file.id),
                ),
                _ => rest,
            }
        } else {
            rest
        }
    }
}

/// The data of an AI workspace: what is known of it, or else what was loaded.
pub open spec fn known_box(
    boxes: Map<Seq<char>, AiBoxData>,
    ai_box: Seq<char>,
    loaded: AiBoxData,
) -> AiBoxData {
    if boxes.contains_key(ai_box) {
        boxes[ai_box]
    } else {
        loaded
    }
}

/// A conversation was put into the data of an AI workspace.
pub open spec fn added_conversation(
    after: AiBoxData,
    before: AiBoxData,
    conversation: ConversationId,
    sources: Seq<SourceTarget>,
    now: u64,
) -> bool {
    let c = after.conversations@[conversation@];
    &&& after.same_box(before)
    &&& after.conversations@ == before.conversations@.insert(conversation@, c)
    &&& c.id == conversation
    &&& c.title@ == "New Conversation"@
    &&& !c.temporary
    &&& c.sources@ == sources
    &&& c.messages@ == Seq::<Message>::empty()
    &&& c.created_at == now
    &&& c.updated_at == now
    &&& c.model is None
}

/// A conversation was created in an AI workspace, with the sources of its cards,
/// and a card for it was put there.
pub open spec fn new_conversation(
    after: HomePage,
    before: HomePage,
    effects: Seq<Effect>,
    ai_box: ContainerId,
    position: Point,
    loaded: AiBoxData,
    conversation: ConversationId,
    now: u64,
    mid: HomePage,
    reference: ReferenceId,
) -> bool {
    let data = known_box(before.ai_boxes@, ai_box@, loaded);
    if data.conversations@.contains_key(conversation@) {
        &&& after == (HomePage { ai_boxes: after.ai_boxes, ..before })
        &&& after.ai_boxes@ == before.ai_boxes@.insert(ai_box@, data)
        &&& effects == Seq::<Effect>::empty()
    } else {
        &&& mid == (HomePage { ai_boxes: mid.ai_boxes, ..before })
        &&& mid.ai_boxes@ == before.ai_boxes@.insert(ai_box@, mid.ai_boxes@[ai_box@])
        &&& added_conversation(
            mid.ai_boxes@[ai_box@],
            data,
            conversation,
            deduplicated(source_targets(members_or_none(before.workspace, ai_box@))),
            now,
        )
        &&& if before.workspace.has_container(ai_box@) {
            &&& effects.len() > 0
            &&& effects[0] == Effect::SaveBox(ai_box)
            &&& put_card(
                after,
                mid,
                effects.skip(1),
                ai_box,
                reference,
                ReferenceTarget::Conversation(conversation),
                MemberRole::Conversation,
                position,
            )
        } else {
            after == mid && effects == seq![Effect::SaveBox(ai_box)]
        }
    }
}

/// Where the first card of a conversation stands.
pub open spec fn conversation_card(members: Seq<Reference>, conversation: Seq<char>, i: int) -> int
    decreases members.len() - i,
{
    if !(0 <= i < members.len()) {
        members.len() as int
    } else if members[i].target matches ReferenceTarget::Conversation(id) && id@ == conversation {
        i
    } else {
        conversation_card(members, conversation, i + 1)
    }
}

/// A conversation was deleted, with its card. Sources and outputs stay.
pub open spec fn deleted_conversation(
    after: HomePage,
    before: HomePage,
    effects: Seq<Effect>,
    ai_box: ContainerId,
    conversation: Seq<char>,
) -> bool {
    let members = members_or_none(before.workspace, ai_box@);
    let at = conversation_card(members, conversation, 0);
    let known = before.ai_boxes@.contains_key(ai_box@);
    &&& after == (HomePage {
        ai_boxes: after.ai_boxes,
        workspace: after.workspace,
        boards: after.boards,
        ..before
    })
    &&& if known {
        let data = after.ai_boxes@[ai_box@];
        &&& after.ai_boxes@ == before.ai_boxes@.insert(ai_box@, data)
        &&& data.same_box(before.ai_boxes@[ai_box@])
        &&& data.conversations@ == before.ai_boxes@[ai_box@].conversations@.remove(conversation)
    } else {
        after.ai_boxes == before.ai_boxes
    }
    &&& if at < members.len() {
        &&& removed_card(after.workspace, before.workspace, ai_box@, members[at].id@)
        &&& after.boards.without(before.boards, ai_box@, members[at].id@)
    } else {
        after.workspace == before.workspace && after.boards == before.boards
    }
    &&& effects == (if known {
        seq![Effect::SaveBox(ai_box)]
    } else {
        Seq::empty()
    }) + (if at < members.len() {
        seq![Effect::SaveWorkspace] + layout_effect(before.boards.is_open(ai_box@), ai_box)
    } else {
        Seq::empty()
    })
}

/// The role of a card that is linked into a container.
pub open spec fn linked_role(workspace: Workspace, container: Seq<char>) -> MemberRole {
    if workspace.ai_box(container) {
        MemberRole::Source
    } else {
        MemberRole::Normal
    }
}

/// A card was linked into a container, and the card that it came from was taken
/// out if `from` tells so.
pub open spec fn relinked(
    after: Workspace,
    before: Workspace,
    container: Seq<char>,
    reference: Seq<char>,
    target: ReferenceTarget,
    role: MemberRole,
    from: Option<(Seq<char>, Seq<char>)>,
) -> bool {
    match from {
        None => after.added_card(before, container, reference, target, role),
        Some((source, old_reference)) => exists|mid: Workspace| #[trigger]
            mid.added_card(before, container, reference, target, role) && removed_card(
                after,
                mid,
                source,
                old_reference,
            ),
    }
}

/// The same on the canvases.
pub open spec fn reboarded(
    after: Boards,
    before: Boards,
    container: Seq<char>,
    item: CanvasItem,
    from: Option<(Seq<char>, Seq<char>)>,
) -> bool {
    match from {
        None => after.took(before, container, item),
        Some((source, old_reference)) => exists|mid: Boards| #[trigger]
            mid.took(before, container, item) && after.gave(mid, source, old_reference),
    }
}

/// The card that is taken out when a card is moved.
pub open spec fn moved_from(
    moving: bool,
    source: Seq<char>,
    reference: Seq<char>,
) -> Option<(Seq<char>, Seq<char>)> {
    if moving {
        Some((source, reference))
    } else {
        None
    }
}

/// A card was linked or moved into a container.
pub open spec fn transferred(
    after: HomePage,
    before: HomePage,
    container: ContainerId,
    target: ReferenceTarget,
    position: Point,
    from: Option<(Seq<char>, Seq<char>)>,
    reference: ReferenceId,
) -> bool {
    let role = linked_role(before.workspace, container@);
    let item = CanvasItem {
        reference_id: reference,
        target,
        role,
        position,
        size: Point { x: crate::app::board::CARD_WIDTH, y: crate::app::board::CARD_HEIGHT },
    };
    &&& after == (HomePage { workspace: after.workspace, boards: after.boards, ..before })
    &&& relinked(
        after.workspace,
        before.workspace,
        container@,
        reference@,
        target,
        role,
        from,
    )
    &&& reboarded(after.boards, before.boards, container@, item, from)
}

/// A card was linked or moved into a container, under a new reference.
pub open spec fn transferred_somehow(
    after: HomePage,
    before: HomePage,
    container: ContainerId,
    target: ReferenceTarget,
    position: Point,
    from: Option<(Seq<char>, Seq<char>)>,
) -> bool {
    exists|reference: ReferenceId| #[trigger]
        transferred(after, before, container, target, position, from, reference)
}

/// A card was linked or moved into a container, under a new reference. If the
/// container is not open, its place has to be stored.
pub open spec fn landed(
    after: HomePage,
    before: HomePage,
    effects: Seq<Effect>,
    container: ContainerId,
    target: ReferenceTarget,
    position: Point,
    from: Option<(Seq<char>, Seq<char>)>,
    source_effects: Seq<Effect>,
) -> bool {
    exists|reference: ReferenceId|
        {
            &&& #[trigger] transferred(
                after,
                before,
                container,
                target,
                position,
                from,
                reference,
            )
            &&& effects == seq![
                if before.boards.is_open(container@) {
                    Effect::SaveLayout(container)
                } else {
                    Effect::StorePlacement { container, reference, position }
                },
            ] + source_effects + seq![Effect::SaveWorkspace]
        }
}

/// A picked up card was pasted. Into an AI workspace it is always linked.
pub open spec fn pasted(
    after: HomePage,
    before: HomePage,
    ok: bool,
    effects: Seq<Effect>,
    container: ContainerId,
    entry: ClipboardEntry,
    slot: Point,
) -> bool {
    let moving = entry.semantics == ClipboardSemantics::Move && !before.workspace.ai_box(
        container@,
    );
    let source = entry.source_container;
    &&& ok == (may_paste(entry, container@, before.all_snippets@, before.workspace)
        && before.workspace.has_container(container@))
    &&& !ok ==> after == before && effects == Seq::<Effect>::empty()
    &&& ok ==> {
        &&& transferred_somehow(
            after,
            before,
            container,
            entry.target,
            slot,
            moved_from(moving, source@, entry.reference_id@),
        )
        &&& effects == layout_effect(before.boards.is_open(container@), container) + layout_effect(
            moving && before.boards.is_open(source@),
            source,
        ) + seq![Effect::SaveWorkspace]
    }
}

/// A dragged card was let go over a container. Into an AI workspace it is always
/// linked.
pub open spec fn dropped(
    after: HomePage,
    before: HomePage,
    ok: bool,
    effects: Seq<Effect>,
    container: ContainerId,
    position: Point,
    payload: DragPayload,
    move_semantics: bool,
) -> bool {
    let moving = move_semantics && !before.workspace.ai_box(container@);
    let source = payload.source_container;
    &&& ok == (may_drop(
        payload,
        container@,
        before.all_snippets@,
        before.workspace,
        move_semantics,
    ) && before.workspace.has_container(container@))
    &&& !ok ==> after == before && effects == Seq::<Effect>::empty()
    &&& ok ==> landed(
        after,
        before,
        effects,
        container,
        payload.target,
        position,
        moved_from(moving, source@, payload.reference_id@),
        layout_effect(moving && before.boards.is_open(source@), source),
    )
}

impl HomePage {
    /// The windows float inside the main window.
    pub fn floating_windows(&self) -> (r: bool)
        ensures
            r == (self.settings.window_mode == WindowMode::Floating),
    {
        self.settings.window_mode == WindowMode::Floating
    }

    /// Opens a snippet. What was picked up is put down.
    pub fn open_view(&mut self, entity: EntityId)
        requires
            old(self).windows.next_view_id < u64::MAX,
        ensures
            *final(self) == (HomePage { windows: final(self).windows, ..*old(self) }),
            opened_view(
                final(self).windows,
                old(self).windows,
                entity,
                opening_mode(old(self).all_snippets@, entity@),
                false,
            ),
    {
        self.windows.clipboard = None;
        let id = self.windows.next_view_id;
        self.windows.next_view_id = id + 1;
        let mode = match self.all_snippets.get(&entity) {
            Some(snippet) => if snippet.content.as_str().is_empty() {
                ViewMode::Source
            } else {
                ViewMode::Preview
            },
            None => ViewMode::Preview,
        };
        self.windows.views.push(SnippetView::new(id, entity, mode, false));
        assert(self.windows.views@ =~= old(self).windows.views@.push(self.windows.views@.last()));
    }

    /// Opens a snippet to be read only, if there is one.
    pub fn open_read_only_view(&mut self, entity: EntityId)
        requires
            old(self).windows.next_view_id < u64::MAX,
        ensures
            *final(self) == (HomePage { windows: final(self).windows, ..*old(self) }),
            if old(self).all_snippets@.contains_key(entity@) {
                opened_view(
                    final(self).windows,
                    old(self).windows,
                    entity,
                    ViewMode::Preview,
                    true,
                )
            } else {
                final(self).windows == old(self).windows
            },
    {
        if !self.all_snippets.contains_key(&entity) {
            return;
        }
        self.windows.clipboard = None;
        let id = self.windows.next_view_id;
        self.windows.next_view_id = id + 1;
        self.windows.views.push(SnippetView::new(id, entity, ViewMode::Preview, true));
        assert(self.windows.views@ =~= old(self).windows.views@.push(self.windows.views@.last()));
    }

    /// Opens the canvas of a folder with its layout, unless it is open. `slots`
    /// holds a place for each member that has none in the layout.
    pub fn open_folder(
        &mut self,
        container: &ContainerId,
        layout: ContainerLayout,
        slots: &Vec<Point>,
    )
        requires
            slots@.len() >= members_or_none(old(self).workspace, container@).len(),
        ensures
            *final(self) == (HomePage { boards: final(self).boards, ..*old(self) }),
            final(self).boards.root == old(self).boards.root,
            if old(self).boards.folder_views@.contains_key(container@) {
                final(self).boards == old(self).boards
            } else {
                let canvas = final(self).boards.folder_views@[container@];
                &&& final(self).boards.folder_views@ == old(self).boards.folder_views@.insert(
                    container@,
                    canvas,
                )
                &&& canvas.container_id == *container
                &&& are_cards_of(
                    canvas.items@,
                    shown_members(
                        members_or_none(old(self).workspace, container@),
                        old(self).all_snippets@,
                        old(self).workspace,
                    ),
                    layout.items@,
                    slots@,
                )
                &&& canvas.texts@ == layout.texts@
                &&& canvas.layout == layout
            },
    {
        if self.boards.folder_views.contains_key(container) {
            return;
        }
        let canvas = load_container_canvas(
            &self.workspace,
            &self.all_snippets,
            container.clone(),
            layout,
            slots,
        );
        self.boards.folder_views.insert(container.clone(), canvas);
    }

    /// Takes a card off without touching what it points at.
    pub fn remove_reference_only(&mut self, owner: &ContainerId, reference: &ReferenceId) -> (r: Vec<
        Effect,
    >)
        ensures
            dropped_card(*final(self), *old(self), r@, *owner, reference@),
    {
        let _ = self.workspace.remove_reference(owner, reference);
        let mut effects: Vec<Effect> = Vec::new();
        effects.push(Effect::SaveWorkspace);
        if self.boards.remove_reference(owner, reference) {
            effects.push(Effect::SaveLayout(owner.clone()));
        }
        assert(effects@ =~= seq![Effect::SaveWorkspace] + layout_effect(
            old(self).boards.is_open(owner@),
            *owner,
        ));
        effects
    }

    /// Closes the window of a folder.
    pub fn close_folder(&mut self, container: &ContainerId)
        ensures
            closed_folder(*final(self), *old(self), *container),
    {
        let viewport = Viewport::Folder(container.clone());
        self.windows.clear_rename_for_viewport(&viewport);
        self.windows.clear_search_for_viewport(&viewport);
        if self.floating_windows() {
            self.windows.clear_dialog_for_folder(container);
        }
        let gone = match &self.windows.pending_delete {
            Some(pending) => pending.origin == viewport,
            None => false,
        };
        if gone {
            self.windows.pending_delete = None;
        }
        let _ = self.boards.folder_views.remove(container);
    }

    fn delete_snippet(&mut self, entity: &EntityId) -> (r: Vec<Effect>)
        ensures
            deleted_snippet(*final(self), *old(self), r@, *entity),
    {
        let mut effects: Vec<Effect> = Vec::new();
        match self.all_snippets.get(entity) {
            Some(snippet) => {
                effects.push(
                    Effect::RemoveSnippetFile {
                        id: entity.clone(),
                        title: snippet.title.clone(),
                    },
                );
            },
            None => {},
        }
        effects.push(Effect::SaveWorkspace);
        let ghost head = effects@;
        assert(head =~= (if old(self).all_snippets@.contains_key(entity@) {
            seq![
                Effect::RemoveSnippetFile {
                    id: *entity,
                    title: old(self).all_snippets@[entity@].title,
                },
            ]
        } else {
            Seq::empty()
        }) + seq![Effect::SaveWorkspace]);
        self.workspace.remove_entity_references(entity);
        let ghost boards = self.boards;
        self.boards.remove_entity(entity);
        effects.push(Effect::SaveLayout(self.boards.root.container_id.clone()));
        let ghost keys = boards.folder_views.order();
        let mut i: usize = 0;
        assert(effects@ =~= head + all_layouts(boards).take(1));
        while i < self.boards.folder_views.len()
            invariant
                i <= keys.len(),
                keys == boards.folder_views.order(),
                self.boards.folder_views.order().len() == keys.len(),
                forall|j: int|
                    0 <= j < keys.len() ==> (#[trigger] self.boards.folder_views.order()[j]).0
                        == keys[j].0,
                effects@ == head + all_layouts(boards).take(i + 1),
            decreases keys.len() - i,
        {
            effects.push(Effect::SaveLayout(self.boards.folder_views.key_at(i).clone()));
            proof {
                let all = all_layouts(boards);
                assert(self.boards.folder_views.order()[i as int].0 == keys[i as int].0);
                assert(all[i + 1] == Effect::SaveLayout(keys[i as int].0));
                assert(effects@ =~= head + all.take(i + 2));
            }
            i = i + 1;
        }
        proof {
            assert(all_layouts(boards).take(i + 1) =~= all_layouts(boards));
        }
        let _ = self.all_snippets.remove(entity);
        let keep = |view: &SnippetView| -> (b: bool)
            ensures
                b == (other_entity(entity@))(*view),
            { view.entity_id != *entity };
        retain(&mut self.windows.views, keep, Ghost(other_entity(entity@)));
        self.windows.pending_delete = None;
        effects
    }

    fn delete_folder(
        &mut self,
        owner: &ContainerId,
        reference: &ReferenceId,
        container: &ContainerId,
    ) -> (r: Vec<Effect>)
        ensures
            deleted_folder(*final(self), *old(self), r@, *owner, reference@, *container),
    {
        let mut effects: Vec<Effect> = Vec::new();
        let was_ai = self.workspace.is_ai_box(container);
        let _ = self.workspace.remove_reference(owner, reference);
        let _ = self.workspace.containers.remove(container);
        proof {
            let after = self.workspace;
            let before = old(self).workspace;
            assert(after.containers@.dom() =~= before.containers@.dom().remove(container@));
        }
        effects.push(Effect::SaveWorkspace);
        if was_ai {
            let _ = self.ai_boxes.remove(container);
            effects.push(Effect::RemoveBox(container.clone()));
        }
        if self.boards.remove_reference(owner, reference) {
            effects.push(Effect::SaveLayout(owner.clone()));
        }
        let ghost mid = self.boards;
        let viewport = Viewport::Folder(container.clone());
        self.windows.clear_rename_for_viewport(&viewport);
        self.windows.clear_search_for_viewport(&viewport);
        let _ = self.boards.folder_views.remove(container);
        self.windows.pending_delete = None;
        proof {
            assert(mid.without(old(self).boards, owner@, reference@));
            assert(effects@ =~= seq![Effect::SaveWorkspace] + (if was_ai {
                seq![Effect::RemoveBox(*container)]
            } else {
                Seq::empty()
            }) + layout_effect(old(self).boards.is_open(owner@), *owner));
        }
        effects
    }

    /// Deletes what the last card points at: a snippet or a container.
    pub fn confirm_delete(&mut self, pending: &PendingDelete) -> (r: Vec<Effect>)
        ensures
            confirmed(*final(self), *old(self), r@, *pending),
    {
        match &pending.target {
            ReferenceTarget::Snippet(entity) => self.delete_snippet(entity),
            ReferenceTarget::Container(container) => self.delete_folder(
                &pending.owner,
                &pending.reference,
                container,
            ),
            _ => {
                self.windows.pending_delete = None;
                Vec::new()
            },
        }
    }

    /// Puts the card of a reference that was added onto its canvas.
    pub fn board_card(
        &mut self,
        owner: &ContainerId,
        reference: ReferenceId,
        target: ReferenceTarget,
        role: MemberRole,
        position: Point,
    ) -> (r: Vec<Effect>)
        ensures
            *final(self) == (HomePage { boards: final(self).boards, ..*old(self) }),
            final(self).boards.took(
                old(self).boards,
                owner@,
                (CanvasItem {
                    reference_id: reference,
                    target,
                    role,
                    position,
                    size: Point {
                        x: crate::app::board::CARD_WIDTH,
                        y: crate::app::board::CARD_HEIGHT,
                    },
                }),
            ),
            r@ == seq![Effect::SaveWorkspace] + layout_effect(
                old(self).boards.is_open(owner@),
                *owner,
            ),
    {
        let mut effects: Vec<Effect> = Vec::new();
        effects.push(Effect::SaveWorkspace);
        let item = CanvasItem::new(reference, target, role, position);
        if self.boards.take_card(owner, item) {
            effects.push(Effect::SaveLayout(owner.clone()));
        }
        assert(effects@ =~= seq![Effect::SaveWorkspace] + layout_effect(
            old(self).boards.is_open(owner@),
            *owner,
        ));
        effects
    }

    /// Creates an AI workspace, with a card in `owner`.
    pub fn create_ai_box(&mut self, owner: &ContainerId, position: Option<Point>, slot: Point) -> (r:
        Vec<Effect>)
        ensures
            exists|mid: HomePage, container: ContainerId, reference: ReferenceId| #[trigger]
                new_ai_box(
                    *final(self),
                    *old(self),
                    r@,
                    *owner,
                    place_for(position, slot),
                    mid,
                    container,
                    reference,
                ),
    {
        let container = self.workspace.create_ai_box("AI Box");
        let ghost mid = *self;
        match self.workspace.add_container_reference(owner, container.clone()) {
            Ok(reference) => {
                let effects = self.board_card(
                    owner,
                    reference.clone(),
                    ReferenceTarget::Container(container.clone()),
                    MemberRole::Normal,
                    chosen_place(position, slot),
                );
                assert(new_ai_box(
                    *self,
                    *old(self),
                    effects@,
                    *owner,
                    place_for(position, slot),
                    mid,
                    container,
                    reference,
                ));
                effects
            },
            Err(_) => {
                let effects: Vec<Effect> = Vec::new();
                let ghost reference: ReferenceId = arbitrary();
                assert(new_ai_box(
                    *self,
                    *old(self),
                    effects@,
                    *owner,
                    place_for(position, slot),
                    mid,
                    container,
                    reference,
                ));
                effects
            },
        }
    }

    /// The sources of a new conversation: those that the cards of the AI
    /// workspace stand for, each once.
    pub fn initial_conversation_sources(&self, ai_box: &ContainerId) -> (r: Vec<SourceTarget>)
        ensures
            r@ == deduplicated(source_targets(members_or_none(self.workspace, ai_box@))),
    {
        let mut found: Vec<SourceTarget> = Vec::new();
        match self.workspace.containers.get(ai_box) {
            Some(container) => {
                let members = &container.members;
                let mut i: usize = 0;
                assert(members@.take(0) =~= Seq::<Reference>::empty());
                while i < members.len()
                    invariant
                        i <= members@.len(),
                        found@ == source_targets(members@.take(i as int)),
                    decreases members@.len() - i,
                {
                    proof {
                        assert(members@.take(i + 1).drop_last() =~= members@.take(i as int));
                        assert(members@.take(i + 1).last() == members@[i as int]);
                    }
                    if members[i].role == MemberRole::Source {
                        match &members[i].target {
                            ReferenceTarget::Snippet(id) => {
                                found.push(SourceTarget::Snippet(id.clone()));
                            },
                            ReferenceTarget::Container(id) => {
                                found.push(SourceTarget::Container(id.clone()));
                            },
                            ReferenceTarget::ExternalFile(file) => {
                                found.push(SourceTarget::ExternalFile(file.id.clone()));
                            },
                            _ => {},
                        }
                    }
                    i = i + 1;
                }
                assert(members@.take(i as int) =~= members@);
            },
            None => {},
        }
        crate::data::ai::types::dedup_sources(found)
    }

    /// Creates a conversation under a new identifier. `loaded` is the stored data
    /// of the AI workspace, for the case that nothing is known of it yet.
    pub fn create_conversation(
        &mut self,
        ai_box: &ContainerId,
        position: Option<Point>,
        slot: Point,
        loaded: AiBoxData,
    ) -> (r: Vec<Effect>)
        ensures
            exists|
                conversation: ConversationId,
                now: u64,
                mid: HomePage,
                reference: ReferenceId,
            | #[trigger]
                new_conversation(
                    *final(self),
                    *old(self),
                    r@,
                    *ai_box,
                    place_for(position, slot),
                    loaded,
                    conversation,
                    now,
                    mid,
                    reference,
                ),
    {
        self.create_conversation_as(
            ai_box,
            position,
            slot,
            loaded,
            ConversationId::new(),
            now_unix(),
        )
    }

    /// Creates a conversation under a given identifier at a given time.
    pub fn create_conversation_as(
        &mut self,
        ai_box: &ContainerId,
        position: Option<Point>,
        slot: Point,
        loaded: AiBoxData,
        conversation: ConversationId,
        now: u64,
    ) -> (r: Vec<Effect>)
        ensures
            exists|mid: HomePage, reference: ReferenceId| #[trigger]
                new_conversation(
                    *final(self),
                    *old(self),
                    r@,
                    *ai_box,
                    place_for(position, slot),
                    loaded,
                    conversation,
                    now,
                    mid,
                    reference,
                ),
    {
        let ghost place = place_for(position, slot);
        let sources = self.initial_conversation_sources(ai_box);
        proof {
            crate::data::ai::types::deduplicated_keeps_keys(
                source_targets(members_or_none(self.workspace, ai_box@)),
            );
            deduplicated_twice(source_targets(members_or_none(self.workspace, ai_box@)));
        }
        if !self.ai_boxes.contains_key(ai_box) {
            self.ai_boxes.insert(ai_box.clone(), loaded);
        }
        let ghost known = self.ai_boxes@;
        proof {
            assert(known =~= old(self).ai_boxes@.insert(
                ai_box@,
                known_box(old(self).ai_boxes@, ai_box@, loaded),
            ));
        }
        let made = match self.ai_boxes.get_mut(ai_box) {
            Some(data) => data.create_conversation(
                conversation.clone(),
                "New Conversation",
                false,
                sources,
                now,
            ),
            None => false,
        };
        let mut effects: Vec<Effect> = Vec::new();
        let ghost mid = *self;
        if !made {
            let ghost reference: ReferenceId = arbitrary();
            proof {
                assert(self.ai_boxes@ =~= known);
                assert(new_conversation(
                    *self,
                    *old(self),
                    effects@,
                    *ai_box,
                    place,
                    loaded,
                    conversation,
                    now,
                    mid,
                    reference,
                ));
            }
            return effects;
        }
        proof {
            assert(mid.ai_boxes@ =~= old(self).ai_boxes@.insert(ai_box@, mid.ai_boxes@[ai_box@]));
        }
        effects.push(Effect::SaveBox(ai_box.clone()));
        match self.workspace.add_conversation_card(ai_box, conversation.clone()) {
            Ok(reference) => {
                let mut rest = self.board_card(
                    ai_box,
                    reference.clone(),
                    ReferenceTarget::Conversation(conversation.clone()),
                    MemberRole::Conversation,
                    chosen_place(position, slot),
                );
                let ghost tail = rest@;
                effects.append(&mut rest);
                proof {
                    assert(effects@.skip(1) =~= tail);
                    assert(new_conversation(
                        *self,
                        *old(self),
                        effects@,
                        *ai_box,
                        place,
                        loaded,
                        conversation,
                        now,
                        mid,
                        reference,
                    ));
                }
            },
            Err(_) => {
                let ghost reference: ReferenceId = arbitrary();
                proof {
                    assert(effects@ =~= seq![Effect::SaveBox(*ai_box)]);
                    assert(new_conversation(
                        *self,
                        *old(self),
                        effects@,
                        *ai_box,
                        place,
                        loaded,
                        conversation,
                        now,
                        mid,
                        reference,
                    ));
                }
            },
        }
        effects
    }

    /// Links a snippet, container or file as a source of an AI workspace.
    pub fn link_ai_source(
        &mut self,
        ai_box: &ContainerId,
        target: ReferenceTarget,
        position: Option<Point>,
        slot: Point,
    ) -> (r: Vec<Effect>)
        ensures
            if old(self).workspace.has_container(ai_box@) {
                exists|reference: ReferenceId| #[trigger]
                    put_card(
                        *final(self),
                        *old(self),
                        r@,
                        *ai_box,
                        reference,
                        target,
                        MemberRole::Source,
                        place_for(position, slot),
                    )
            } else {
                *final(self) == *old(self) && r@ == Seq::<Effect>::empty()
            },
    {
        match self.workspace.add_source_reference(ai_box, target.clone()) {
            Ok(reference) => {
                let effects = self.board_card(
                    ai_box,
                    reference.clone(),
                    target.clone(),
                    MemberRole::Source,
                    chosen_place(position, slot),
                );
                assert(put_card(
                    *self,
                    *old(self),
                    effects@,
                    *ai_box,
                    reference,
                    target,
                    MemberRole::Source,
                    place_for(position, slot),
                ));
                effects
            },
            Err(_) => Vec::new(),
        }
    }

    /// Takes a source card off an AI workspace. What it stands for stays, even if
    /// this was its last card.
    pub fn remove_ai_source(&mut self, ai_box: &ContainerId, reference: &ReferenceId) -> (r: Vec<
        Effect,
    >)
        ensures
            dropped_card(*final(self), *old(self), r@, *ai_box, reference@),
    {
        self.remove_reference_only(ai_box, reference)
    }

    fn find_conversation_card(
        &self,
        ai_box: &ContainerId,
        conversation: &ConversationId,
    ) -> (r: Option<ReferenceId>)
        ensures
            ({
                let members = members_or_none(self.workspace, ai_box@);
                let at = conversation_card(members, conversation@, 0);
                match r {
                    Some(id) => at < members.len() && id == members[at].id,
                    None => at >= members.len(),
                }
            }),
    {
        match self.workspace.containers.get(ai_box) {
            Some(container) => {
                let members = &container.members;
                let mut i: usize = 0;
                while i < members.len()
                    invariant
                        i <= members@.len(),
                        members@ == members_or_none(self.workspace, ai_box@),
                        conversation_card(members@, conversation@, 0) == conversation_card(
                            members@,
                            conversation@,
                            i as int,
                        ),
                    decreases members@.len() - i,
                {
                    let hit = match &members[i].target {
                        ReferenceTarget::Conversation(id) => *id == *conversation,
                        _ => false,
                    };
                    if hit {
                        return Some(members[i].id.clone());
                    }
                    i = i + 1;
                }
                None
            },
            None => None,
        }
    }

    /// Deletes a conversation and its card.
    pub fn delete_conversation(&mut self, ai_box: &ContainerId, conversation: &ConversationId) -> (r:
        Vec<Effect>)
        ensures
            deleted_conversation(*final(self), *old(self), r@, *ai_box, conversation@),
    {
        let card = self.find_conversation_card(ai_box, conversation);
        let mut effects: Vec<Effect> = Vec::new();
        match self.ai_boxes.get_mut(ai_box) {
            Some(data) => {
                let _ = data.delete_conversation(conversation);
                effects.push(Effect::SaveBox(ai_box.clone()));
            },
            None => {},
        }
        match card {
            Some(reference) => {
                let mut rest = self.remove_reference_only(ai_box, &reference);
                effects.append(&mut rest);
            },
            None => {},
        }
        proof {
            let members = members_or_none(old(self).workspace, ai_box@);
            let at = conversation_card(members, conversation@, 0);
            assert(effects@ =~= (if old(self).ai_boxes@.contains_key(ai_box@) {
                seq![Effect::SaveBox(*ai_box)]
            } else {
                Seq::empty()
            }) + (if at < members.len() {
                seq![Effect::SaveWorkspace] + layout_effect(
                    old(self).boards.is_open(ai_box@),
                    *ai_box,
                )
            } else {
                Seq::empty()
            }));
        }
        effects
    }

    /// Links a card into a container: as a source of an AI workspace, or as an
    /// ordinary card.
    fn link_card(&mut self, container: &ContainerId, target: &ReferenceTarget) -> (r: Option<
        ReferenceId,
    >)
        requires
            may_link(
                *target,
                container@,
                old(self).all_snippets@,
                old(self).workspace,
            ),
        ensures
            *final(self) == (HomePage { workspace: final(self).workspace, ..*old(self) }),
            match r {
                Some(reference) => old(self).workspace.has_container(container@)
                    && final(self).workspace.added_card(
                    old(self).workspace,
                    container@,
                    reference@,
                    *target,
                    linked_role(old(self).workspace, container@),
                ),
                None => !old(self).workspace.has_container(container@) && *final(self) == *old(
                    self,
                ),
            },
    {
        if self.workspace.is_ai_box(container) {
            return match self.workspace.add_source_reference(container, target.clone()) {
                Ok(reference) => Some(reference),
                Err(_) => None,
            };
        }
        let result = match target {
            ReferenceTarget::Snippet(id) => self.workspace.add_snippet_reference(
                container,
                id.clone(),
            ),
            ReferenceTarget::Container(id) => self.workspace.add_container_reference(
                container,
                id.clone(),
            ),
            ReferenceTarget::ExternalFile(file) => self.workspace.add_external_file_reference(
                container,
                file.clone(),
            ),
            _ => {
                return None;
            },
        };
        match result {
            Ok(reference) => Some(reference),
            Err(_) => None,
        }
    }

    /// Pastes a picked up card into a container. Returns whether it could, and
    /// what is left to be done.
    pub fn paste_clipboard(&mut self, container: &ContainerId, entry: &ClipboardEntry, slot: Point) -> (r:
        (bool, Vec<Effect>))
        ensures
            pasted(*final(self), *old(self), r.0, r.1@, *container, *entry, slot),
    {
        if !clipboard_valid_for(entry, container, &self.all_snippets, &self.workspace) {
            return (false, Vec::new());
        }
        let is_ai_box = self.workspace.is_ai_box(container);
        let moving = entry.semantics == ClipboardSemantics::Move && !is_ai_box;
        let reference = match self.link_card(container, &entry.target) {
            Some(reference) => reference,
            None => {
                return (false, Vec::new());
            },
        };
        let ghost linked = self.workspace;
        let role = if is_ai_box {
            MemberRole::Source
        } else {
            MemberRole::Normal
        };
        let mut effects: Vec<Effect> = Vec::new();
        let item = CanvasItem::new(reference.clone(), entry.target.clone(), role, slot);
        let ghost card = item;
        if self.boards.take_card(container, item) {
            effects.push(Effect::SaveLayout(container.clone()));
        }
        let ghost taken = self.boards;
        if moving {
            let _ = self.workspace.remove_reference(&entry.source_container, &entry.reference_id);
            if self.boards.give_card(&entry.source_container, &entry.reference_id) {
                effects.push(Effect::SaveLayout(entry.source_container.clone()));
            }
        }
        effects.push(Effect::SaveWorkspace);
        proof {
            let ghost before = *old(self);
            assert(taken.took(before.boards, container@, card));
            if moving {
                assert(linked.added_card(
                    before.workspace,
                    container@,
                    reference@,
                    entry.target,
                    role,
                ));
                open_stays_open(taken, before.boards, container@, card);
            }
            let from = moved_from(moving, entry.source_container@, entry.reference_id@);
            assert(transferred(
                *self,
                before,
                *container,
                entry.target,
                slot,
                from,
                reference,
            ));
            assert(effects@ =~= layout_effect(before.boards.is_open(container@), *container)
                + layout_effect(
                moving && before.boards.is_open(entry.source_container@),
                entry.source_container,
            ) + seq![Effect::SaveWorkspace]);
        }
        (true, effects)
    }

    /// Lets a dragged card go over a container. Returns whether it could, and
    /// what is left to be done.
    pub fn apply_drop(
        &mut self,
        container: &ContainerId,
        position: Option<Point>,
        payload: &DragPayload,
        move_semantics: bool,
        slot: Point,
    ) -> (r: (bool, Vec<Effect>))
        ensures
            dropped(
                *final(self),
                *old(self),
                r.0,
                r.1@,
                *container,
                place_for(position, slot),
                *payload,
                move_semantics,
            ),
    {
        if !drop_valid_for(
            payload,
            container,
            &self.all_snippets,
            &self.workspace,
            move_semantics,
        ) {
            return (false, Vec::new());
        }
        let is_ai_box = self.workspace.is_ai_box(container);
        let moving = move_semantics && !is_ai_box;
        let reference = match self.link_card(container, &payload.target) {
            Some(reference) => reference,
            None => {
                return (false, Vec::new());
            },
        };
        let ghost linked = self.workspace;
        let role = if is_ai_box {
            MemberRole::Source
        } else {
            MemberRole::Normal
        };
        let place = chosen_place(position, slot);
        let mut effects: Vec<Effect> = Vec::new();
        let item = CanvasItem::new(reference.clone(), payload.target.clone(), role, place);
        let ghost card = item;
        if self.boards.take_card(container, item) {
            effects.push(Effect::SaveLayout(container.clone()));
        } else {
            effects.push(
                Effect::StorePlacement {
                    container: container.clone(),
                    reference: reference.clone(),
                    position: place,
                },
            );
        }
        let ghost taken = self.boards;
        if moving {
            let _ = self.workspace.remove_reference(
                &payload.source_container,
                &payload.reference_id,
            );
            if self.boards.give_card(&payload.source_container, &payload.reference_id) {
                effects.push(Effect::SaveLayout(payload.source_container.clone()));
            }
        }
        effects.push(Effect::SaveWorkspace);
        proof {
            let ghost before = *old(self);
            assert(taken.took(before.boards, container@, card));
            if moving {
                assert(linked.added_card(
                    before.workspace,
                    container@,
                    reference@,
                    payload.target,
                    role,
                ));
                open_stays_open(taken, before.boards, container@, card);
            }
            let from = moved_from(moving, payload.source_container@, payload.reference_id@);
            assert(transferred(
                *self,
                before,
                *container,
                payload.target,
                place,
                from,
                reference,
            ));
            assert(effects@ =~= seq![
                if before.boards.is_open(container@) {
                    Effect::SaveLayout(*container)
                } else {
                    Effect::StorePlacement { container: *container, reference, position: place }
                },
            ] + layout_effect(
                moving && before.boards.is_open(payload.source_container@),
                payload.source_container,
            ) + seq![Effect::SaveWorkspace]);
        }
        (true, effects)
    }
}

/// Putting a card on a canvas opens and closes none.
proof fn open_stays_open(after: Boards, before: Boards, container: Seq<char>, item: CanvasItem)
    requires
        after.took(before, container, item),
    ensures
        forall|c: Seq<char>| #[trigger] after.is_open(c) == before.is_open(c),
{
}

/// What is listed once stays as it is when duplicates are left out again.
proof fn deduplicated_twice(sources: Seq<SourceTarget>)
    ensures
        deduplicated(deduplicated(sources)) == deduplicated(sources),
{
    let once = deduplicated(sources);
    crate::data::ai::types::deduplicated_keeps_keys(sources);
    distinct_stays(once);
}

proof fn distinct_stays(sources: Seq<SourceTarget>)
    requires
        crate::data::ai::types::distinct_sources(sources),
    ensures
        deduplicated(sources) == sources,
    decreases sources.len(),
{
    if sources.len() > 0 {
        let rest = sources.drop_last();
        assert forall|i: int, j: int| 0 <= i < j < rest.len() implies (#[trigger] rest[i]).key()
            != (#[trigger] rest[j]).key() by {
            assert(sources[i] == rest[i]);
            assert(sources[j] == rest[j]);
        }
        distinct_stays(rest);
        if crate::data::ai::types::bound(rest, sources.last().key()) {
            let i = choose|i: int|
                0 <= i < rest.len() && (#[trigger] rest[i]).key() == sources.last().key();
            assert(sources[i] == rest[i]);
            assert(sources[sources.len() - 1] == sources.last());
        }
        assert(rest.push(sources.last()) =~= sources);
    }
}

/// The sources of an AI workspace are what its source cards stand for, all of them and
/// in order: notes, folders and files.
pub proof fn sources_are_all_linked_cards(members: Seq<Reference>) -> (at: Seq<int>)
    ensures
        at.len() == source_targets(members).len(),
        forall|j: int|
            #![trigger at[j]]
            0 <= j < at.len() ==> 0 <= at[j] < members.len() && members[at[j]].role == MemberRole::Source && (members[at[j]].target is Snippet || members[at[j]].target is Container || members[at[j]].target is ExternalFile) && source_targets(members)[j] == (match members[at[j]].target {
                ReferenceTarget::Snippet(id) => SourceTarget::Snippet(id),
                ReferenceTarget::Container(id) => SourceTarget::Container(id),
                ReferenceTarget::ExternalFile(file) => SourceTarget::ExternalFile(file.id),
                _ => arbitrary(),
            }),
        forall|i: int, j: int| 0 <= i < j < at.len() ==> at[i] < at[j],
        forall|k: int|
            #![trigger members[k]]
            0 <= k < members.len() && members[k].role == MemberRole::Source && (members[k].target is Snippet || members[k].target is Container || members[k].target is ExternalFile) ==> at.contains(k),
    decreases members.len(),
{
    if members.len() == 0 {
        Seq::empty()
    } else {
        let front = members.drop_last();
        let before = sources_are_all_linked_cards(front);
        let n = members.len() - 1;
        let taken = members.last().role == MemberRole::Source && (members.last().target is Snippet || members.last().target is Container || members.last().target is ExternalFile);
        let at = if taken {
            before.push(n)
        } else {
            before
        };
        assert forall|j: int|
            #![trigger at[j]]
            0 <= j < at.len() implies 0 <= at[j] < members.len() && members[at[j]].role == MemberRole::Source && (members[at[j]].target is Snippet || members[at[j]].target is Container || members[at[j]].target is ExternalFile) && source_targets(members)[j] == (match members[at[j]].target {
                ReferenceTarget::Snippet(id) => SourceTarget::Snippet(id),
                ReferenceTarget::Container(id) => SourceTarget::Container(id),
                ReferenceTarget::ExternalFile(file) => SourceTarget::ExternalFile(file.id),
                _ => arbitrary(),
            }) by {
            if j < before.len() {
                assert(at[j] == before[j]);
                assert(front[before[j]] == members[at[j]]);
            }
        }
        assert forall|k: int|
            #![trigger members[k]]
            0 <= k < members.len() && members[k].role == MemberRole::Source && (members[k].target is Snippet || members[k].target is Container || members[k].target is ExternalFile) implies at.contains(k) by {
            if k < n {
                assert(front[k] == members[k]);
                let j = choose|j: int| 0 <= j < before.len() && before[j] == k;
                assert(at[j] == k);
            } else {
                assert(at[before.len() as int] == n);
            }
        }
        at
    }
}

/// The card of a conversation is the first one that points at it.
pub proof fn conversation_cards_are_found(members: Seq<Reference>, conversation: Seq<char>, i: int)
    requires
        0 <= i <= members.len(),
    ensures
        i <= conversation_card(members, conversation, i) <= members.len(),
        forall|k: int| #![trigger members[k]] i <= k < conversation_card(members, conversation, i) ==> !((members[k].target is Conversation && members[k].target->Conversation_0@ == conversation)),
        conversation_card(members, conversation, i) < members.len() ==> (members[conversation_card(members, conversation, i)].target is Conversation && members[conversation_card(members, conversation, i)].target->Conversation_0@ == conversation),
    decreases members.len() - i,
{
    if i < members.len() && !((members[i].target is Conversation && members[i].target->Conversation_0@ == conversation)) {
        conversation_cards_are_found(members, conversation, i + 1);
    }
}

} // verus!
