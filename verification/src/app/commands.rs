//! What the user asks for on a canvas, and what is carried from one canvas to
//! another.
use crate::data::ids::{ContainerId, ConversationId, EntityId, ExternalFileId, ReferenceId};
use crate::data::layout::Point;
use crate::data::model::Snippet;
use crate::data::workspace::{ExternalFileRef, ReferenceTarget, SpecialKind};
use vstd::prelude::*;

verus! {

/// A window of the operating system.
#[derive(Debug)]
pub enum Viewport {
    /// The main window.
    Root,
    /// The window of a folder.
    Folder(ContainerId),
    /// The window of a view.
    View(u64),
}

impl Clone for Viewport {
    fn clone(&self) -> (r: Self)
        ensures
            r == *self,
    {
        match self {
            Viewport::Root => Viewport::Root,
            Viewport::Folder(id) => Viewport::Folder(id.clone()),
            Viewport::View(id) => Viewport::View(*id),
        }
    }
}

impl Viewport {
    /// The same window.
    pub open spec fn same(&self, other: &Self) -> bool {
        match (*self, *other) {
            (Viewport::Root, Viewport::Root) => true,
            (Viewport::Folder(a), Viewport::Folder(b)) => a@ == b@,
            (Viewport::View(a), Viewport::View(b)) => a == b,
            _ => false,
        }
    }
}

impl PartialEq for Viewport {
    fn eq(&self, other: &Self) -> (r: bool) {
        match (self, other) {
            (Viewport::Root, Viewport::Root) => true,
            (Viewport::Folder(a), Viewport::Folder(b)) => *a == *b,
            (Viewport::View(a), Viewport::View(b)) => *a == *b,
            _ => false,
        }
    }
}

impl Eq for Viewport {

}

impl vstd::std_specs::cmp::PartialEqSpecImpl for Viewport {
    open spec fn obeys_eq_spec() -> bool {
        true
    }

    open spec fn eq_spec(&self, other: &Self) -> bool {
        self.same(other)
    }
}

/// What pasting does.
#[derive(Clone, Copy, Debug, PartialEq, Eq, Structural)]
pub enum ClipboardSemantics {
    /// A new card is made; the old one stays.
    Link,
    /// The card is moved.
    Move,
}

/// A card that was picked up.
#[derive(Debug)]
pub struct ClipboardEntry {
    pub source_container: ContainerId,
    pub reference_id: ReferenceId,
    pub target: ReferenceTarget,
    pub semantics: ClipboardSemantics,
    /// The window where it was picked up. Its status is shown there.
    pub origin: Viewport,
}

impl Clone for ClipboardEntry {
    fn clone(&self) -> (r: Self)
        ensures
            r == *self,
    {
        ClipboardEntry {
            source_container: self.source_container.clone(),
            reference_id: self.reference_id.clone(),
            target: self.target.clone(),
            semantics: self.semantics,
            origin: self.origin.clone(),
        }
    }
}

/// A card that is dragged over canvases.
#[derive(Debug)]
pub struct DragPayload {
    pub source_container: ContainerId,
    pub reference_id: ReferenceId,
    pub target: ReferenceTarget,
}

impl Clone for DragPayload {
    fn clone(&self) -> (r: Self)
        ensures
            r == *self,
    {
        DragPayload {
            source_container: self.source_container.clone(),
            reference_id: self.reference_id.clone(),
            target: self.target.clone(),
        }
    }
}

/// The removal of a last card, which takes its target along and so has to be
/// confirmed.
#[derive(Debug)]
pub struct PendingDelete {
    pub owner: ContainerId,
    pub reference: ReferenceId,
    pub target: ReferenceTarget,
    /// The window that asks.
    pub origin: Viewport,
}

impl PendingDelete {
    /// The same removal, asked for in the same window.
    pub open spec fn same(&self, other: &Self) -> bool {
        &&& self.owner@ == other.owner@
        &&& self.reference@ == other.reference@
        &&& self.target.same(&other.target)
        &&& self.origin.same(&other.origin)
    }
}

impl Clone for PendingDelete {
    fn clone(&self) -> (r: Self)
        ensures
            r == *self,
    {
        PendingDelete {
            owner: self.owner.clone(),
            reference: self.reference.clone(),
            target: self.target.clone(),
            origin: self.origin.clone(),
        }
    }
}

impl PartialEq for PendingDelete {
    fn eq(&self, other: &Self) -> (r: bool) {
        self.owner == other.owner && self.reference == other.reference && self.target
            == other.target && self.origin == other.origin
    }
}

impl Eq for PendingDelete {

}

impl vstd::std_specs::cmp::PartialEqSpecImpl for PendingDelete {
    open spec fn obeys_eq_spec() -> bool {
        true
    }

    open spec fn eq_spec(&self, other: &Self) -> bool {
        self.same(other)
    }
}

/// What gets a new title.
#[allow(inconsistent_fields)]
#[derive(Debug)]
pub enum RenameTarget {
    Snippet { id: EntityId, origin: Viewport },
    Folder { id: ContainerId, origin: Viewport },
    Conversation { ai_box: ContainerId, id: ConversationId, origin: Viewport },
    ExternalFile { id: ExternalFileId, origin: Viewport },
}

impl RenameTarget {
    pub open spec fn origin_of(&self) -> Viewport {
        match *self {
            RenameTarget::Snippet { origin, .. } => origin,
            RenameTarget::Folder { origin, .. } => origin,
            RenameTarget::Conversation { origin, .. } => origin,
            RenameTarget::ExternalFile { origin, .. } => origin,
        }
    }

    /// The window that asks for the title.
    pub fn origin(&self) -> (r: &Viewport)
        ensures
            *r == self.origin_of(),
    {
        match self {
            RenameTarget::Snippet { origin, .. } => origin,
            RenameTarget::Folder { origin, .. } => origin,
            RenameTarget::Conversation { origin, .. } => origin,
            RenameTarget::ExternalFile { origin, .. } => origin,
        }
    }

    /// A text that tells targets apart, to keep the state of their dialogs apart.
    pub open spec fn key_text(&self) -> Seq<char> {
        match *self {
            RenameTarget::Snippet { id, .. } => "snippet:"@ + id@,
            RenameTarget::Folder { id, .. } => "folder:"@ + id@,
            RenameTarget::Conversation { id, .. } => "conversation:"@ + id@,
            RenameTarget::ExternalFile { id, .. } => "file:"@ + id@,
        }
    }

    /// A text that tells targets apart.
    pub fn key(&self) -> (r: String)
        ensures
            r@ == self.key_text(),
    {
        match self {
            RenameTarget::Snippet { id, .. } => crate::text::join2("snippet:", id.as_str()),
            RenameTarget::Folder { id, .. } => crate::text::join2("folder:", id.as_str()),
            RenameTarget::Conversation { id, .. } => crate::text::join2(
                "conversation:",
                id.as_str(),
            ),
            RenameTarget::ExternalFile { id, .. } => crate::text::join2("file:", id.as_str()),
        }
    }

    /// The same target, asked for in the same window.
    pub open spec fn same(&self, other: &Self) -> bool {
        match (*self, *other) {
            (
                RenameTarget::Snippet { id: a, origin: x },
                RenameTarget::Snippet { id: b, origin: y },
            ) => a@ == b@ && x.same(&y),
            (
                RenameTarget::Folder { id: a, origin: x },
                RenameTarget::Folder { id: b, origin: y },
            ) => a@ == b@ && x.same(&y),
            (
                RenameTarget::Conversation { ai_box: p, id: a, origin: x },
                RenameTarget::Conversation { ai_box: q, id: b, origin: y },
            ) => p@ == q@ && a@ == b@ && x.same(&y),
            (
                RenameTarget::ExternalFile { id: a, origin: x },
                RenameTarget::ExternalFile { id: b, origin: y },
            ) => a@ == b@ && x.same(&y),
            _ => false,
        }
    }
}

impl Clone for RenameTarget {
    fn clone(&self) -> (r: Self)
        ensures
            r == *self,
    {
        match self {
            RenameTarget::Snippet { id, origin } => RenameTarget::Snippet {
                id: id.clone(),
                origin: origin.clone(),
            },
            RenameTarget::Folder { id, origin } => RenameTarget::Folder {
                id: id.clone(),
                origin: origin.clone(),
            },
            RenameTarget::Conversation { ai_box, id, origin } => RenameTarget::Conversation {
                ai_box: ai_box.clone(),
                id: id.clone(),
                origin: origin.clone(),
            },
            RenameTarget::ExternalFile { id, origin } => RenameTarget::ExternalFile {
                id: id.clone(),
                origin: origin.clone(),
            },
        }
    }
}

impl PartialEq for RenameTarget {
    fn eq(&self, other: &Self) -> (r: bool) {
        match (self, other) {
            (
                RenameTarget::Snippet { id: a, origin: x },
                RenameTarget::Snippet { id: b, origin: y },
            ) => *a == *b && *x == *y,
            (
                RenameTarget::Folder { id: a, origin: x },
                RenameTarget::Folder { id: b, origin: y },
            ) => *a == *b && *x == *y,
            (
                RenameTarget::Conversation { ai_box: p, id: a, origin: x },
                RenameTarget::Conversation { ai_box: q, id: b, origin: y },
            ) => *p == *q && *a == *b && *x == *y,
            (
                RenameTarget::ExternalFile { id: a, origin: x },
                RenameTarget::ExternalFile { id: b, origin: y },
            ) => *a == *b && *x == *y,
            _ => false,
        }
    }
}

impl Eq for RenameTarget {

}

impl vstd::std_specs::cmp::PartialEqSpecImpl for RenameTarget {
    open spec fn obeys_eq_spec() -> bool {
        true
    }

    open spec fn eq_spec(&self, other: &Self) -> bool {
        self.same(other)
    }
}

/// What the user asks for on a canvas.
#[allow(inconsistent_fields)]
#[derive(Debug)]
pub enum CanvasCommand {
    OpenSnippet(EntityId),
    OpenFolder(ContainerId),
    OpenSpecial(SpecialKind),
    OpenSearch,
    /// Remove a card. The last one of a target has to be confirmed.
    DeleteReference { owner: ContainerId, reference: ReferenceId, target: ReferenceTarget },
    CloseFolder(ContainerId),
    RenameSnippet(EntityId),
    RenameFolder(ContainerId),
    RenameExternalFile(ExternalFileId),
    RenameConversation { ai_box: ContainerId, conversation: ConversationId, origin: Viewport },
    /// Give the new title. `moved` tells that the file of a snippet could be
    /// moved.
    ApplyRename { target: RenameTarget, moved: bool },
    ConfirmDelete(PendingDelete),
    PasteClipboard { container: ContainerId, entry: ClipboardEntry },
    /// Let a card go over a canvas, or over the card of a folder, where it has no
    /// position of its own.
    DropOnCanvas {
        container: ContainerId,
        position: Option<Point>,
        payload: DragPayload,
        move_semantics: bool,
    },
    OpenConversation { ai_box: ContainerId, conversation: ConversationId },
    NewAiBox { owner: ContainerId, position: Option<Point> },
    NewConversation { ai_box: ContainerId, position: Option<Point> },
    LinkAiSource { ai_box: ContainerId, target: ReferenceTarget, position: Option<Point> },
    RemoveAiSource { ai_box: ContainerId, reference: ReferenceId },
    DeleteConversation { ai_box: ContainerId, conversation: ConversationId },
    OpenSnippetReadOnly(EntityId),
    OpenExternalFile(ExternalFileRef),
    OpenFileInsertDialog(ContainerId),
}

/// What is left to be done outside after a command.
#[derive(Debug)]
pub enum Effect {
    SaveWorkspace,
    /// Write the layout of an open canvas.
    SaveLayout(ContainerId),
    /// Put a card into the stored layout of a container that is not open.
    StorePlacement { container: ContainerId, reference: ReferenceId, position: Point },
    /// Write the file of a snippet.
    SaveSnippet(Snippet),
    /// Remove the file of a snippet.
    RemoveSnippetFile { id: EntityId, title: String },
    /// Write the data of an AI workspace.
    SaveBox(ContainerId),
    /// Remove the data of an AI workspace.
    RemoveBox(ContainerId),
    /// Open a file with another program.
    OpenExternally(ExternalFileRef),
    /// Ask for a file to put on a canvas.
    AskForFile(ContainerId),
    /// Open the canvas of a folder: its layout has to be read first.
    LoadFolder(ContainerId),
}

} // verus!
