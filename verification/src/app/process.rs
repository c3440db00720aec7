//! Commands of the user, and what a frame does to the page.
use crate::app::boards::retitled_file;
use crate::app::cards::{count_of, reference_count};
use crate::app::commands::{CanvasCommand, DragPayload, Effect, PendingDelete, RenameTarget,
    Viewport};
use crate::app::page::{closed_folder, confirmed, deleted_conversation, dropped, dropped_card,
    new_ai_box, new_conversation, opened_view, opening_mode, pasted, place_for, put_card, Chat,
    HomePage, RenameDialog, SearchState, Windows};
use crate::app::view::ViewMode;
use crate::data::ai::types::AiBoxData;
use crate::data::ids::{ContainerId, ConversationId, EntityId, ExternalFileId, ReferenceId};
use crate::data::layout::Point;
use crate::data::model::Snippet;
use crate::data::storage::{SnippetStore, StorageError};
use crate::data::workspace::{file_renamed, ExternalFileRef, MemberRole, ReferenceTarget,
    SpecialKind, Workspace};
use crate::text::{trim, trimmed};
use vstd::prelude::*;

verus! {

/// How a snippet gets a new title.
#[derive(Debug)]
pub enum RenamePlan {
    /// It does not.
    Refused,
    /// Nothing has to be done about its file.
    Keep,
    /// Its file has to be moved.
    Move { from: String, to: String },
}

/// A snippet with a new title.
pub open spec fn is_retitled(after: Snippet, before: Snippet, title: Seq<char>) -> bool {
    after.id == before.id && after.content == before.content && after.title@ == title
}

/// A snippet got a new title.
pub open spec fn renamed_snippet(
    after: HomePage,
    before: HomePage,
    ok: bool,
    id: Seq<char>,
    title: Seq<char>,
    moved: bool,
) -> bool {
    &&& ok == (title.len() > 0 && before.all_snippets@.contains_key(id) && moved)
    &&& !ok ==> after == before
    &&& ok ==> {
        let snippet = after.all_snippets@[id];
        &&& after == (HomePage { all_snippets: after.all_snippets, ..before })
        &&& after.all_snippets@ == before.all_snippets@.insert(id, snippet)
        &&& is_retitled(snippet, before.all_snippets@[id], title)
    }
}

/// A container got a new title.
pub open spec fn renamed_folder(
    after: HomePage,
    before: HomePage,
    ok: bool,
    effects: Seq<Effect>,
    id: Seq<char>,
    title: Seq<char>,
) -> bool {
    &&& ok == (title.len() > 0 && before.workspace.has_container(id))
    &&& !ok ==> after == before && effects == Seq::<Effect>::empty()
    &&& ok ==> {
        &&& after == (HomePage { workspace: after.workspace, ..before })
        &&& after.workspace.retitled(before.workspace, id, title)
        &&& effects == seq![Effect::SaveWorkspace]
    }
}

/// A conversation got a new title.
pub open spec fn renamed_conversation(
    after: HomePage,
    before: HomePage,
    ok: bool,
    effects: Seq<Effect>,
    ai_box: ContainerId,
    id: Seq<char>,
    title: Seq<char>,
) -> bool {
    let boxes = before.ai_boxes@;
    &&& ok == (trimmed(title).len() > 0 && boxes.contains_key(ai_box@)
        && boxes[ai_box@].conversations@.contains_key(id))
    &&& after == (HomePage { ai_boxes: after.ai_boxes, ..before })
    &&& !ok ==> after.ai_boxes@ == boxes && effects == Seq::<Effect>::empty()
    &&& ok ==> {
        let data = after.ai_boxes@[ai_box@];
        &&& after.ai_boxes@ == boxes.insert(ai_box@, data)
        &&& data.changed(boxes[ai_box@], id)
        &&& data.conversations@[id].same_but_title(boxes[ai_box@].conversations@[id])
        &&& data.conversations@[id].title@ == trimmed(title)
        &&& effects == seq![Effect::SaveBox(ai_box)]
    }
}

/// An external file got a new title, on all cards.
pub open spec fn renamed_file(
    after: HomePage,
    before: HomePage,
    ok: bool,
    effects: Seq<Effect>,
    id: Seq<char>,
    title: Seq<char>,
) -> bool {
    &&& ok == (title.len() > 0)
    &&& !ok ==> after == before && effects == Seq::<Effect>::empty()
    &&& ok ==> {
        &&& after == (HomePage { workspace: after.workspace, boards: after.boards, ..before })
        &&& after.workspace.same_frame(before.workspace)
        &&& after.workspace.containers@.dom() == before.workspace.containers@.dom()
        &&& forall|c: Seq<char>| #[trigger]
            after.workspace.containers@.contains_key(c) ==> file_renamed(
                after.workspace.containers@[c],
                before.workspace.containers@[c],
                id,
                title,
            )
        &&& retitled_file(after.boards.root, before.boards.root, id, title)
        &&& after.boards.folder_views@.dom() == before.boards.folder_views@.dom()
        &&& forall|c: Seq<char>| #[trigger]
            after.boards.folder_views@.contains_key(c) ==> retitled_file(
                after.boards.folder_views@[c],
                before.boards.folder_views@[c],
                id,
                title,
            )
        &&& effects == seq![Effect::SaveWorkspace]
    }
}

/// What is renamed got a new title.
pub open spec fn retitled(
    after: HomePage,
    before: HomePage,
    ok: bool,
    effects: Seq<Effect>,
    target: RenameTarget,
    title: Seq<char>,
    moved: bool,
) -> bool {
    match target {
        RenameTarget::Snippet { id, .. } => renamed_snippet(after, before, ok, id@, title, moved)
            && effects == Seq::<Effect>::empty(),
        RenameTarget::Folder { id, .. } => renamed_folder(after, before, ok, effects, id@, title),
        RenameTarget::Conversation { ai_box, id, .. } => renamed_conversation(
            after,
            before,
            ok,
            effects,
            ai_box,
            id@,
            title,
        ),
        RenameTarget::ExternalFile { id, .. } => renamed_file(
            after,
            before,
            ok,
            effects,
            id@,
            title,
        ),
    }
}

/// The dialog about a title was confirmed: what it asks about gets the title, and
/// the dialog closes if that could be done.
pub open spec fn applied_rename(
    after: HomePage,
    before: HomePage,
    effects: Seq<Effect>,
    target: RenameTarget,
    moved: bool,
) -> bool {
    let dialog = before.windows.rename_dialog;
    if dialog.pending matches Some(pending) && pending.same(&target) {
        exists|mid: HomePage, ok: bool|
            {
                &&& #[trigger] retitled(
                    mid,
                    before,
                    ok,
                    effects,
                    target,
                    trimmed(dialog.buffer@),
                    moved,
                )
                &&& after == (HomePage {
                    windows: Windows {
                        rename_dialog: RenameDialog {
                            pending: if ok {
                                None
                            } else {
                                dialog.pending
                            },
                            ..dialog
                        },
                        ..before.windows
                    },
                    ..mid
                })
            }
    } else {
        after == before && effects == Seq::<Effect>::empty()
    }
}

/// The dialog asks for a new title, beginning with the old one.
pub open spec fn asks_title(
    after: HomePage,
    before: HomePage,
    target: RenameTarget,
    title: Seq<char>,
) -> bool {
    &&& after == (HomePage {
        windows: Windows { rename_dialog: after.windows.rename_dialog, ..before.windows },
        ..before
    })
    &&& after.windows.rename_dialog.pending == Some(target)
    &&& after.windows.rename_dialog.buffer@ == title
    &&& !after.windows.rename_dialog.focus_requested
}

/// The title of the first file of this identifier.
pub open spec fn file_title(files: Seq<ExternalFileRef>, id: Seq<char>) -> Option<Seq<char>>
    decreases files.len(),
{
    if files.len() == 0 {
        None
    } else if files[0].id@ == id {
        Some(files[0].title@)
    } else {
        file_title(files.skip(1), id)
    }
}

/// The removal of a card has to be confirmed: it is the last one, and what it
/// stands for goes with it. A file stays where it is.
pub open spec fn asks_first(workspace: Workspace, target: ReferenceTarget) -> bool {
    target !is ExternalFile && count_of(workspace.containers.order(), target) == 1
}

/// What a command does.
pub open spec fn processed(
    after: HomePage,
    before: HomePage,
    effects: Seq<Effect>,
    command: CanvasCommand,
    origin: Viewport,
    slot: Point,
    loaded: AiBoxData,
) -> bool {
    let nothing = after == before && effects == Seq::<Effect>::empty();
    match command {
        CanvasCommand::OpenSnippet(id) => {
            &&& effects == Seq::<Effect>::empty()
            &&& after == (HomePage { windows: after.windows, ..before })
            &&& opened_view(
                after.windows,
                before.windows,
                id,
                opening_mode(before.all_snippets@, id@),
                false,
            )
        },
        CanvasCommand::OpenSnippetReadOnly(id) => {
            &&& effects == Seq::<Effect>::empty()
            &&& after == (HomePage { windows: after.windows, ..before })
            &&& if before.all_snippets@.contains_key(id@) {
                opened_view(after.windows, before.windows, id, ViewMode::Preview, true)
            } else {
                after.windows == before.windows
            }
        },
        CanvasCommand::OpenFolder(id) => {
            &&& after == before
            &&& effects == if before.boards.folder_views@.contains_key(id@) {
                Seq::empty()
            } else {
                seq![Effect::LoadFolder(id)]
            }
        },
        CanvasCommand::OpenSpecial(SpecialKind::Settings) => {
            &&& effects == Seq::<Effect>::empty()
            &&& after == (HomePage {
                windows: Windows { settings_open: true, ..before.windows },
                ..before
            })
        },
        CanvasCommand::OpenSearch => {
            &&& effects == Seq::<Effect>::empty()
            &&& after == (HomePage {
                windows: Windows {
                    search: SearchState {
                        open: true,
                        origin,
                        focus_requested: true,
                        ..before.windows.search
                    },
                    ..before.windows
                },
                ..before
            })
        },
        CanvasCommand::DeleteReference { owner, reference, target } => if asks_first(
            before.workspace,
            target,
        ) {
            &&& effects == Seq::<Effect>::empty()
            &&& after == (HomePage {
                windows: Windows {
                    pending_delete: Some(PendingDelete { owner, reference, target, origin }),
                    ..before.windows
                },
                ..before
            })
        } else {
            dropped_card(after, before, effects, owner, reference@)
        },
        CanvasCommand::CloseFolder(id) => closed_folder(after, before, id) && effects == Seq::<
            Effect,
        >::empty(),
        CanvasCommand::RenameSnippet(id) => {
            &&& effects == Seq::<Effect>::empty()
            &&& if before.all_snippets@.contains_key(id@) {
                asks_title(
                    after,
                    before,
                    RenameTarget::Snippet { id, origin },
                    before.all_snippets@[id@].title@,
                )
            } else {
                after == before
            }
        },
        CanvasCommand::RenameFolder(id) => {
            &&& effects == Seq::<Effect>::empty()
            &&& if before.workspace.has_container(id@) {
                asks_title(
                    after,
                    before,
                    RenameTarget::Folder { id, origin },
                    before.workspace.containers@[id@].title@,
                )
            } else {
                after == before
            }
        },
        CanvasCommand::RenameExternalFile(id) => {
            &&& effects == Seq::<Effect>::empty()
            &&& match file_title(
                crate::app::cards::files_of(before.workspace.containers.order()),
                id@,
            ) {
                Some(title) => asks_title(
                    after,
                    before,
                    RenameTarget::ExternalFile { id, origin },
                    title,
                ),
                None => after == before,
            }
        },
        CanvasCommand::RenameConversation { ai_box, conversation, origin: asked } => {
            &&& effects == Seq::<Effect>::empty()
            &&& if before.ai_boxes@.contains_key(ai_box@)
                && before.ai_boxes@[ai_box@].conversations@.contains_key(conversation@) {
                asks_title(
                    after,
                    before,
                    RenameTarget::Conversation { ai_box, id: conversation, origin: asked },
                    before.ai_boxes@[ai_box@].conversations@[conversation@].title@,
                )
            } else {
                after == before
            }
        },
        CanvasCommand::ApplyRename { target, moved } => applied_rename(
            after,
            before,
            effects,
            target,
            moved,
        ),
        CanvasCommand::ConfirmDelete(pending) => if before.windows.pending_delete matches Some(p)
            && p.same(&pending) {
            confirmed(after, before, effects, pending)
        } else {
            nothing
        },
        CanvasCommand::PasteClipboard { container, entry } => exists|mid: HomePage, ok: bool|
            {
                &&& #[trigger] pasted(mid, before, ok, effects, container, entry, slot)
                &&& after == (HomePage {
                    windows: Windows {
                        clipboard: if ok {
                            None
                        } else {
                            before.windows.clipboard
                        },
                        ..before.windows
                    },
                    ..mid
                })
            },
        CanvasCommand::DropOnCanvas { container, position, payload, move_semantics } => landed_drop(
            after,
            before,
            effects,
            container,
            place_for(position, slot),
            payload,
            move_semantics,
        ),
        CanvasCommand::OpenConversation { ai_box, conversation } => {
            &&& effects == Seq::<Effect>::empty()
            &&& after == (HomePage {
                chat: Chat { open: Some((ai_box, conversation)), ..before.chat },
                ..before
            })
        },
        CanvasCommand::NewAiBox { owner, position } => made_ai_box(
            after,
            before,
            effects,
            owner,
            place_for(position, slot),
        ),
        CanvasCommand::NewConversation { ai_box, position } => made_conversation(
            after,
            before,
            effects,
            ai_box,
            place_for(position, slot),
            loaded,
        ),
        CanvasCommand::LinkAiSource { ai_box, target, position } => linked_source(
            after,
            before,
            effects,
            ai_box,
            target,
            place_for(position, slot),
        ),
        CanvasCommand::RemoveAiSource { ai_box, reference } => dropped_card(
            after,
            before,
            effects,
            ai_box,
            reference@,
        ),
        CanvasCommand::DeleteConversation { ai_box, conversation } => deleted_conversation(
            after,
            before,
            effects,
            ai_box,
            conversation@,
        ),
        CanvasCommand::OpenExternalFile(file) => after == before && effects == seq![
            Effect::OpenExternally(file),
        ],
        CanvasCommand::OpenFileInsertDialog(container) => after == before && effects == seq![
            Effect::AskForFile(container),
        ],
    }
}

/// A dragged card was let go. If a container took it, that is noted.
pub open spec fn landed_drop(
    after: HomePage,
    before: HomePage,
    effects: Seq<Effect>,
    container: ContainerId,
    position: Point,
    payload: DragPayload,
    move_semantics: bool,
) -> bool {
    exists|mid: HomePage, ok: bool|
        {
            &&& #[trigger] dropped(
                mid,
                before,
                ok,
                effects,
                container,
                position,
                payload,
                move_semantics,
            )
            &&& after == (HomePage { consumed_drops: after.consumed_drops, ..mid })
            &&& after.consumed_drops@ == if ok {
                before.consumed_drops@.push((payload.source_container, payload.reference_id))
            } else {
                before.consumed_drops@
            }
        }
}

/// An AI workspace was created.
pub open spec fn made_ai_box(
    after: HomePage,
    before: HomePage,
    effects: Seq<Effect>,
    owner: ContainerId,
    position: Point,
) -> bool {
    exists|mid: HomePage, container: ContainerId, reference: ReferenceId| #[trigger]
        new_ai_box(after, before, effects, owner, position, mid, container, reference)
}

/// A conversation was created.
pub open spec fn made_conversation(
    after: HomePage,
    before: HomePage,
    effects: Seq<Effect>,
    ai_box: ContainerId,
    position: Point,
    loaded: AiBoxData,
) -> bool {
    exists|conversation: ConversationId, now: u64, mid: HomePage, reference: ReferenceId| #[trigger]
        new_conversation(
            after,
            before,
            effects,
            ai_box,
            position,
            loaded,
            conversation,
            now,
            mid,
            reference,
        )
}

/// A source was linked into an AI workspace, if there is one.
pub open spec fn linked_source(
    after: HomePage,
    before: HomePage,
    effects: Seq<Effect>,
    ai_box: ContainerId,
    target: ReferenceTarget,
    position: Point,
) -> bool {
    if before.workspace.has_container(ai_box@) {
        exists|reference: ReferenceId| #[trigger]
            put_card(
                after,
                before,
                effects,
                ai_box,
                reference,
                target,
                MemberRole::Source,
                position,
            )
    } else {
        after == before && effects == Seq::<Effect>::empty()
    }
}

impl HomePage {
    /// How a snippet gets a new title: whether its file has to be moved.
    pub fn plan_rename(&self, store: &SnippetStore, id: &EntityId, title: &str) -> (r: RenamePlan)
        ensures
            ({
                let known = self.all_snippets@.contains_key(id@);
                let from = store.path_text(self.all_snippets@[id@].title@, id@);
                let to = store.path_text(title@, id@);
                match r {
                    RenamePlan::Refused => title@.len() == 0 || !known || from is Err || to is Err,
                    RenamePlan::Keep => title@.len() > 0 && known && from is Ok && to is Ok && from
                        == to,
                    RenamePlan::Move { from: a, to: b } => title@.len() > 0 && known && from == Ok::<
                        Seq<char>,
                        StorageError,
                    >(a@) && to == Ok::<Seq<char>, StorageError>(b@) && a@ != b@,
                }
            }),
    {
        if title.is_empty() {
            return RenamePlan::Refused;
        }
        match self.all_snippets.get(id) {
            Some(snippet) => match store.rename(id, &snippet.title, title) {
                Ok(Some((from, to))) => RenamePlan::Move { from, to },
                Ok(None) => RenamePlan::Keep,
                Err(_) => RenamePlan::Refused,
            },
            None => RenamePlan::Refused,
        }
    }

    /// Gives a snippet a new title, once its file was moved.
    pub fn rename_snippet(&mut self, id: &EntityId, title: &str, moved: bool) -> (r: bool)
        ensures
            renamed_snippet(*final(self), *old(self), r, id@, title@, moved),
    {
        if title.is_empty() || !moved {
            return false;
        }
        match self.all_snippets.get_mut(id) {
            Some(snippet) => {
                snippet.title = title.to_owned();
                true
            },
            None => false,
        }
    }

    /// Gives a container a new title.
    pub fn rename_folder(&mut self, id: &ContainerId, title: &str) -> (r: (bool, Vec<Effect>))
        ensures
            renamed_folder(*final(self), *old(self), r.0, r.1@, id@, title@),
    {
        let mut effects: Vec<Effect> = Vec::new();
        if title.is_empty() {
            return (false, effects);
        }
        if self.workspace.rename_container(id, title) {
            effects.push(Effect::SaveWorkspace);
            assert(effects@ =~= seq![Effect::SaveWorkspace]);
            (true, effects)
        } else {
            (false, effects)
        }
    }

    /// Gives a conversation a new title.
    pub fn rename_conversation(&mut self, ai_box: &ContainerId, id: &ConversationId, title: &str) -> (r:
        (bool, Vec<Effect>))
        ensures
            renamed_conversation(*final(self), *old(self), r.0, r.1@, *ai_box, id@, title@),
    {
        let mut effects: Vec<Effect> = Vec::new();
        let title = trim(title);
        if title.as_str().is_empty() {
            return (false, effects);
        }
        let ok = match self.ai_boxes.get_mut(ai_box) {
            Some(data) => data.rename_conversation(id, &title),
            None => false,
        };
        if ok {
            effects.push(Effect::SaveBox(ai_box.clone()));
            assert(effects@ =~= seq![Effect::SaveBox(*ai_box)]);
        } else {
            assert(self.ai_boxes@ =~= old(self).ai_boxes@);
        }
        (ok, effects)
    }

    /// Gives an external file a new title, on all cards.
    pub fn rename_external_file(&mut self, id: &ExternalFileId, title: &str) -> (r: (
        bool,
        Vec<Effect>,
    ))
        ensures
            renamed_file(*final(self), *old(self), r.0, r.1@, id@, title@),
    {
        let mut effects: Vec<Effect> = Vec::new();
        if title.is_empty() {
            return (false, effects);
        }
        self.workspace.rename_file(id, title);
        self.boards.rename_file(id, title);
        effects.push(Effect::SaveWorkspace);
        assert(effects@ =~= seq![Effect::SaveWorkspace]);
        (true, effects)
    }

    fn retitle(&mut self, target: &RenameTarget, title: &str, moved: bool) -> (r: (
        bool,
        Vec<Effect>,
    ))
        ensures
            retitled(*final(self), *old(self), r.0, r.1@, *target, title@, moved),
    {
        match target {
            RenameTarget::Snippet { id, .. } => (
                self.rename_snippet(id, title, moved),
                Vec::new(),
            ),
            RenameTarget::Folder { id, .. } => self.rename_folder(id, title),
            RenameTarget::Conversation { ai_box, id, .. } => self.rename_conversation(
                ai_box,
                id,
                title,
            ),
            RenameTarget::ExternalFile { id, .. } => self.rename_external_file(id, title),
        }
    }

    /// Gives the title of the dialog to what it asks about. `moved` tells that the
    /// file of a snippet was moved.
    pub fn apply_rename(&mut self, target: &RenameTarget, moved: bool) -> (r: Vec<Effect>)
        ensures
            applied_rename(*final(self), *old(self), r@, *target, moved),
    {
        let asked = match &self.windows.rename_dialog.pending {
            Some(pending) => *pending == *target,
            None => false,
        };
        if !asked {
            return Vec::new();
        }
        let title = trim(&self.windows.rename_dialog.buffer);
        let (ok, effects) = self.retitle(target, &title, moved);
        let ghost mid = *self;
        proof {
            assert(retitled(
                mid,
                *old(self),
                ok,
                effects@,
                *target,
                trimmed(old(self).windows.rename_dialog.buffer@),
                moved,
            ));
            assert(mid.windows == old(self).windows);
        }
        if ok {
            self.windows.rename_dialog.pending = None;
        }
        effects
    }

    fn ask_title(&mut self, target: RenameTarget, title: String)
        ensures
            asks_title(*final(self), *old(self), target, title@),
    {
        self.windows.rename_dialog.buffer = title;
        self.windows.rename_dialog.pending = Some(target);
        self.windows.rename_dialog.focus_requested = false;
    }

    /// The title of an external file, as its first card has it.
    pub fn title_of_file(&self, id: &ExternalFileId) -> (r: Option<String>)
        ensures
            match r {
                Some(title) => file_title(
                    crate::app::cards::files_of(self.workspace.containers.order()),
                    id@,
                ) == Some(title@),
                None => file_title(
                    crate::app::cards::files_of(self.workspace.containers.order()),
                    id@,
                ) is None,
            },
    {
        let files = crate::app::cards::external_files(&self.workspace);
        let ghost all = files@;
        let mut i: usize = 0;
        assert(files@.skip(0) =~= files@);
        while i < files.len()
            invariant
                i <= files@.len(),
                files@ == all,
                all == crate::app::cards::files_of(self.workspace.containers.order()),
                file_title(all, id@) == file_title(all.skip(i as int), id@),
            decreases files@.len() - i,
        {
            proof {
                assert(all.skip(i as int)[0] == all[i as int]);
                assert(all.skip(i as int).skip(1) =~= all.skip(i + 1));
            }
            if files[i].id == *id {
                return Some(files[i].title.clone());
            }
            i = i + 1;
        }
        assert(all.skip(i as int).len() == 0);
        None
    }

    /// Does what a command of the window `origin` asks for. `slot` is a free place
    /// on the canvas that the command is about, `loaded` the stored data of its AI
    /// workspace. Returns what is left to be done.
    pub fn process_command(
        &mut self,
        command: CanvasCommand,
        origin: Viewport,
        slot: Point,
        loaded: AiBoxData,
    ) -> (r: Vec<Effect>)
        requires
            old(self).windows.next_view_id < u64::MAX,
        ensures
            processed(*final(self), *old(self), r@, command, origin, slot, loaded),
    {
        match command {
            CanvasCommand::OpenSnippet(id) => {
                self.open_view(id);
                Vec::new()
            },
            CanvasCommand::OpenSnippetReadOnly(id) => {
                self.open_read_only_view(id);
                Vec::new()
            },
            CanvasCommand::OpenFolder(id) => {
                let mut effects: Vec<Effect> = Vec::new();
                if !self.boards.folder_views.contains_key(&id) {
                    effects.push(Effect::LoadFolder(id));
                    assert(effects@ =~= seq![Effect::LoadFolder(id)]);
                }
                effects
            },
            CanvasCommand::OpenSpecial(kind) => {
                match kind {
                    SpecialKind::Settings => {
                        self.windows.settings_open = true;
                    },
                }
                Vec::new()
            },
            CanvasCommand::OpenSearch => {
                self.windows.search.open = true;
                self.windows.search.origin = origin;
                self.windows.search.focus_requested = true;
                Vec::new()
            },
            CanvasCommand::DeleteReference { owner, reference, target } => {
                let is_file = match &target {
                    ReferenceTarget::ExternalFile(_) => true,
                    _ => false,
                };
                if !is_file && reference_count(&self.workspace, &target) == 1 {
                    self.windows.pending_delete = Some(
                        PendingDelete { owner, reference, target, origin },
                    );
                    Vec::new()
                } else {
                    self.remove_reference_only(&owner, &reference)
                }
            },
            CanvasCommand::CloseFolder(id) => {
                self.close_folder(&id);
                Vec::new()
            },
            CanvasCommand::RenameSnippet(id) => {
                let title = match self.all_snippets.get(&id) {
                    Some(snippet) => snippet.title.clone(),
                    None => {
                        return Vec::new();
                    },
                };
                self.ask_title(RenameTarget::Snippet { id, origin }, title);
                Vec::new()
            },
            CanvasCommand::RenameFolder(id) => {
                let title = match self.workspace.containers.get(&id) {
                    Some(container) => container.title.clone(),
                    None => {
                        return Vec::new();
                    },
                };
                self.ask_title(RenameTarget::Folder { id, origin }, title);
                Vec::new()
            },
            CanvasCommand::RenameExternalFile(id) => {
                match self.title_of_file(&id) {
                    Some(title) => {
                        self.ask_title(RenameTarget::ExternalFile { id, origin }, title);
                    },
                    None => {},
                }
                Vec::new()
            },
            CanvasCommand::RenameConversation { ai_box, conversation, origin: asked } => {
                let title = match self.ai_boxes.get(&ai_box) {
                    Some(data) => match data.get(&conversation) {
                        Some(c) => c.title.clone(),
                        None => {
                            return Vec::new();
                        },
                    },
                    None => {
                        return Vec::new();
                    },
                };
                self.ask_title(
                    RenameTarget::Conversation { ai_box, id: conversation, origin: asked },
                    title,
                );
                Vec::new()
            },
            CanvasCommand::ApplyRename { target, moved } => self.apply_rename(&target, moved),
            CanvasCommand::ConfirmDelete(pending) => {
                let asked = match &self.windows.pending_delete {
                    Some(p) => *p == pending,
                    None => false,
                };
                if asked {
                    self.confirm_delete(&pending)
                } else {
                    Vec::new()
                }
            },
            CanvasCommand::PasteClipboard { container, entry } => {
                let (ok, effects) = self.paste_clipboard(&container, &entry, slot);
                let ghost mid = *self;
                proof {
                    assert(pasted(mid, *old(self), ok, effects@, container, entry, slot));
                    assert(mid.windows == old(self).windows);
                }
                if ok {
                    self.windows.clipboard = None;
                }
                effects
            },
            CanvasCommand::DropOnCanvas { container, position, payload, move_semantics } => {
                let (ok, effects) = self.apply_drop(
                    &container,
                    position,
                    &payload,
                    move_semantics,
                    slot,
                );
                let ghost mid = *self;
                proof {
                    assert(dropped(
                        mid,
                        *old(self),
                        ok,
                        effects@,
                        container,
                        place_for(position, slot),
                        payload,
                        move_semantics,
                    ));
                    assert(mid.consumed_drops == old(self).consumed_drops);
                }
                if ok {
                    self.consumed_drops.push((payload.source_container, payload.reference_id));
                }
                effects
            },
            CanvasCommand::OpenConversation { ai_box, conversation } => {
                self.chat.open = Some((ai_box, conversation));
                Vec::new()
            },
            CanvasCommand::NewAiBox { owner, position } => self.create_ai_box(
                &owner,
                position,
                slot,
            ),
            CanvasCommand::NewConversation { ai_box, position } => self.create_conversation(
                &ai_box,
                position,
                slot,
                loaded,
            ),
            CanvasCommand::LinkAiSource { ai_box, target, position } => self.link_ai_source(
                &ai_box,
                target,
                position,
                slot,
            ),
            CanvasCommand::RemoveAiSource { ai_box, reference } => self.remove_ai_source(
                &ai_box,
                &reference,
            ),
            CanvasCommand::DeleteConversation { ai_box, conversation } => self.delete_conversation(
                &ai_box,
                &conversation,
            ),
            CanvasCommand::OpenExternalFile(file) => {
                let mut effects: Vec<Effect> = Vec::new();
                effects.push(Effect::OpenExternally(file));
                assert(effects@ =~= seq![Effect::OpenExternally(file)]);
                effects
            },
            CanvasCommand::OpenFileInsertDialog(container) => {
                let mut effects: Vec<Effect> = Vec::new();
                effects.push(Effect::AskForFile(container));
                assert(effects@ =~= seq![Effect::AskForFile(container)]);
                effects
            },
        }
    }
}

/// The title of a file is that of the first file of its identifier. Returns where that
/// file stands, or the number of files.
pub proof fn files_keep_their_titles(files: Seq<ExternalFileRef>, id: Seq<char>) -> (k: int)
    ensures
        0 <= k <= files.len(),
        forall|i: int| 0 <= i < k ==> (#[trigger] files[i]).id@ != id,
        k < files.len() ==> files[k].id@ == id && file_title(files, id) == Some(files[k].title@),
        k == files.len() ==> file_title(files, id) is None,
    decreases files.len(),
{
    if files.len() == 0 || files[0].id@ == id {
        0
    } else {
        let rest = files.skip(1);
        let k = files_keep_their_titles(rest, id) + 1;
        assert forall|i: int| 0 <= i < k implies (#[trigger] files[i]).id@ != id by {
            if i > 0 {
                assert(rest[i - 1] == files[i]);
            }
        }
        if k < files.len() {
            assert(rest[k - 1] == files[k]);
        }
        k
    }
}

} // verus!
