//! What cards show, what can be done with them, and where they may go.
use crate::app::board::{place_of, shown_members, shown_members_bound, target_resolves};
use crate::app::commands::{CanvasCommand, ClipboardEntry, ClipboardSemantics, DragPayload,
    PendingDelete, Viewport};
use crate::data::ai::types::AiBoxData;
use crate::data::ids::{ContainerId, ConversationId, EntityId, ExternalFileId, ReferenceId};
use crate::data::layout::{ContainerLayout, Point};
use crate::data::model::Snippet;
use crate::data::workspace::{Container, ContainerKind, ExternalFileRef, MemberRole, Reference,
    ReferenceTarget, Workspace};
use crate::idmap::IdMap;
use crate::text::{decimal, decimal_text, join, join2, join3, joined, joined_holds_each, lines,
    lines_of, texts};
use vstd::prelude::*;

verus! {

/// The look of a card.
#[derive(Clone, Copy, Debug, PartialEq, Eq, Structural)]
pub enum ItemKind {
    Snippet,
    Folder,
    Special,
    /// An AI workspace, which looks different from a folder.
    AiBox,
    Conversation,
    ExternalFile,
    Image,
}

/// The title of a conversation, as the data of its AI workspace tells it.
pub open spec fn conversation_title(
    ai: Map<Seq<char>, AiBoxData>,
    container: Seq<char>,
    id: Seq<char>,
) -> Seq<char> {
    if ai.contains_key(container) && ai[container].conversations@.contains_key(id) {
        ai[container].conversations@[id].title@
    } else {
        "Conversation"@
    }
}

/// Title and look of a card, if its target is there.
pub open spec fn titled(
    container: Seq<char>,
    target: ReferenceTarget,
    snippets: Map<Seq<char>, Snippet>,
    workspace: Workspace,
    ai: Map<Seq<char>, AiBoxData>,
) -> Option<(Seq<char>, ItemKind)> {
    match target {
        ReferenceTarget::Snippet(id) => if snippets.contains_key(id@) {
            Some((snippets[id@].title@, ItemKind::Snippet))
        } else {
            None
        },
        ReferenceTarget::Container(id) => if workspace.has_container(id@) {
            Some(
                (
                    workspace.containers@[id@].title@,
                    if workspace.ai_box(id@) {
                        ItemKind::AiBox
                    } else {
                        ItemKind::Folder
                    },
                ),
            )
        } else {
            None
        },
        ReferenceTarget::Special(special) => Some((special.label_text(), ItemKind::Special)),
        ReferenceTarget::ExternalFile(file) => Some((file.title@, ItemKind::ExternalFile)),
        ReferenceTarget::Conversation(id) => Some(
            (conversation_title(ai, container, id@), ItemKind::Conversation),
        ),
        ReferenceTarget::Image(id) => if workspace.images@.contains_key(id@) {
            Some((workspace.images@[id@].title@, ItemKind::Image))
        } else {
            None
        },
    }
}

/// Title and look of a card. A card without a title is not shown.
pub open spec fn label_of(
    container: Seq<char>,
    target: ReferenceTarget,
    snippets: Map<Seq<char>, Snippet>,
    workspace: Workspace,
    ai: Map<Seq<char>, AiBoxData>,
) -> Option<(Seq<char>, ItemKind)> {
    match titled(container, target, snippets, workspace, ai) {
        Some((title, kind)) => if title.len() == 0 {
            None
        } else {
            Some((title, kind))
        },
        None => None,
    }
}

fn find_title(
    container: &ContainerId,
    target: &ReferenceTarget,
    snippets: &IdMap<EntityId, Snippet>,
    workspace: &Workspace,
    ai: &IdMap<ContainerId, AiBoxData>,
) -> (r: Option<(String, ItemKind)>)
    ensures
        match r {
            Some((title, kind)) => titled(container@, *target, snippets@, *workspace, ai@) == Some(
                (title@, kind),
            ),
            None => titled(container@, *target, snippets@, *workspace, ai@) is None,
        },
{
    match target {
        ReferenceTarget::Snippet(id) => match snippets.get(id) {
            Some(snippet) => Some((snippet.title.clone(), ItemKind::Snippet)),
            None => None,
        },
        ReferenceTarget::Container(id) => match workspace.containers.get(id) {
            Some(inner) => if inner.kind == ContainerKind::AiWorkspace {
                Some((inner.title.clone(), ItemKind::AiBox))
            } else {
                Some((inner.title.clone(), ItemKind::Folder))
            },
            None => None,
        },
        ReferenceTarget::Special(special) => Some(
            (special.label().to_owned(), ItemKind::Special),
        ),
        ReferenceTarget::ExternalFile(file) => Some(
            (file.title.clone(), ItemKind::ExternalFile),
        ),
        ReferenceTarget::Conversation(id) => {
            let title = match ai.get(container) {
                Some(data) => match data.conversations.get(id) {
                    Some(conversation) => conversation.title.clone(),
                    None => "Conversation".to_owned(),
                },
                None => "Conversation".to_owned(),
            };
            Some((title, ItemKind::Conversation))
        },
        ReferenceTarget::Image(id) => match workspace.images.get(id) {
            Some(image) => Some((image.title.clone(), ItemKind::Image)),
            None => None,
        },
    }
}

/// Title and look of a card on the canvas of `container`, if it is shown.
pub fn item_label(
    container: &ContainerId,
    target: &ReferenceTarget,
    snippets: &IdMap<EntityId, Snippet>,
    workspace: &Workspace,
    ai: &IdMap<ContainerId, AiBoxData>,
) -> (r: Option<(String, ItemKind)>)
    ensures
        match r {
            Some((title, kind)) => label_of(container@, *target, snippets@, *workspace, ai@)
                == Some((title@, kind)),
            None => label_of(container@, *target, snippets@, *workspace, ai@) is None,
        },
{
    match find_title(container, target, snippets, workspace, ai) {
        Some((title, kind)) => if title.as_str().is_empty() {
            None
        } else {
            Some((title, kind))
        },
        None => None,
    }
}

/// What stands in front of the title of a card.
pub open spec fn label_prefix(kind: ItemKind) -> Seq<char> {
    match kind {
        ItemKind::Folder => "📁 "@,
        ItemKind::Special => "⚙ "@,
        ItemKind::AiBox => "AI "@,
        ItemKind::ExternalFile => "📄 "@,
        _ => ""@,
    }
}

/// The text of a card.
pub fn card_label(kind: ItemKind, title: &str) -> (r: String)
    ensures
        r@ == label_prefix(kind) + title@,
{
    let prefix: &str = match kind {
        ItemKind::Folder => "📁 ",
        ItemKind::Special => "⚙ ",
        ItemKind::AiBox => "AI ",
        ItemKind::ExternalFile => "📄 ",
        _ => "",
    };
    join2(prefix, title)
}

/// The tag of a role.
pub open spec fn tag_of(role: MemberRole) -> Seq<char> {
    match role {
        MemberRole::Source => "LINK · READ-ONLY"@,
        MemberRole::Output => "OUTPUT"@,
        MemberRole::Conversation => "CONVERSATION"@,
        _ => ""@,
    }
}

/// The tag of a role, or an empty text.
pub fn role_tag(role: MemberRole) -> (r: &'static str)
    ensures
        r@ == tag_of(role),
{
    match role {
        MemberRole::Source => "LINK · READ-ONLY",
        MemberRole::Output => "OUTPUT",
        MemberRole::Conversation => "CONVERSATION",
        _ => "",
    }
}

/// The tag that a card shows: only cards on the canvas of an AI workspace show
/// one.
pub fn card_tag(in_ai_box: bool, role: MemberRole) -> (r: Option<&'static str>)
    ensures
        match r {
            Some(tag) => in_ai_box && tag@ == tag_of(role) && (role == MemberRole::Source || role
                == MemberRole::Output || role == MemberRole::Conversation),
            None => !in_ai_box || role == MemberRole::Normal || role == MemberRole::Draft,
        },
{
    if !in_ai_box {
        return None;
    }
    match role {
        MemberRole::Normal => None,
        MemberRole::Draft => None,
        _ => Some(role_tag(role)),
    }
}

/// How many cards of the list point at `target`.
pub open spec fn count_in(members: Seq<Reference>, target: ReferenceTarget) -> nat
    decreases members.len(),
{
    if members.len() == 0 {
        0
    } else {
        count_in(members.drop_last(), target) + (if members.last().target.same(&target) {
            1nat
        } else {
            0nat
        })
    }
}

/// How many cards of the containers point at `target`.
pub open spec fn count_of(
    containers: Seq<(ContainerId, Container)>,
    target: ReferenceTarget,
) -> nat
    decreases containers.len(),
{
    if containers.len() == 0 {
        0
    } else {
        count_of(containers.drop_last(), target) + count_in(
            containers.last().1.members@,
            target,
        )
    }
}

/// How many cards of the workspace point at `target`, as far as a machine word
/// can tell.
pub fn reference_count(workspace: &Workspace, target: &ReferenceTarget) -> (r: usize)
    ensures
        r == if count_of(workspace.containers.order(), *target) <= usize::MAX {
            count_of(workspace.containers.order(), *target) as int
        } else {
            usize::MAX as int
        },
{
    let ghost all = workspace.containers.order();
    let mut count: usize = 0;
    let ghost mut total: nat = 0;
    let mut i: usize = 0;
    assert(all.take(0) =~= Seq::empty());
    while i < workspace.containers.len()
        invariant
            i <= all.len(),
            all == workspace.containers.order(),
            total == count_of(all.take(i as int), *target),
            count == if total <= usize::MAX {
                total as int
            } else {
                usize::MAX as int
            },
        decreases all.len() - i,
    {
        let members = &workspace.containers.value_at(i).members;
        let mut k: usize = 0;
        let ghost before = total;
        proof {
            assert(all.take(i + 1).drop_last() =~= all.take(i as int));
            assert(all.take(i + 1).last() == all[i as int]);
            assert(members@.take(0) =~= Seq::<Reference>::empty());
        }
        while k < members.len()
            invariant
                k <= members@.len(),
                total == before + count_in(members@.take(k as int), *target),
                count == if total <= usize::MAX {
                    total as int
                } else {
                    usize::MAX as int
                },
            decreases members@.len() - k,
        {
            proof {
                assert(members@.take(k + 1).drop_last() =~= members@.take(k as int));
                assert(members@.take(k + 1).last() == members@[k as int]);
            }
            if members[k].target == *target {
                if count < usize::MAX {
                    count = count + 1;
                }
                proof {
                    total = total + 1;
                }
            }
            k = k + 1;
        }
        assert(members@.take(k as int) =~= members@);
        i = i + 1;
    }
    assert(all.take(i as int) =~= all);
    count
}

/// What a card is previewed as.
#[derive(Debug)]
pub enum PreviewTarget {
    Snippet(EntityId),
    Folder(ContainerId),
    AiBox(ContainerId),
    Conversation(ConversationId),
    ExternalFile(ExternalFileId),
}

impl Clone for PreviewTarget {
    fn clone(&self) -> (r: Self)
        ensures
            r == *self,
    {
        match self {
            PreviewTarget::Snippet(id) => PreviewTarget::Snippet(id.clone()),
            PreviewTarget::Folder(id) => PreviewTarget::Folder(id.clone()),
            PreviewTarget::AiBox(id) => PreviewTarget::AiBox(id.clone()),
            PreviewTarget::Conversation(id) => PreviewTarget::Conversation(id.clone()),
            PreviewTarget::ExternalFile(id) => PreviewTarget::ExternalFile(id.clone()),
        }
    }
}

impl PreviewTarget {
    /// The same target.
    pub open spec fn same(&self, other: &Self) -> bool {
        match (*self, *other) {
            (PreviewTarget::Snippet(a), PreviewTarget::Snippet(b)) => a@ == b@,
            (PreviewTarget::Folder(a), PreviewTarget::Folder(b)) => a@ == b@,
            (PreviewTarget::AiBox(a), PreviewTarget::AiBox(b)) => a@ == b@,
            (PreviewTarget::Conversation(a), PreviewTarget::Conversation(b)) => a@ == b@,
            (PreviewTarget::ExternalFile(a), PreviewTarget::ExternalFile(b)) => a@ == b@,
            _ => false,
        }
    }
}

impl PartialEq for PreviewTarget {
    fn eq(&self, other: &Self) -> (r: bool) {
        match (self, other) {
            (PreviewTarget::Snippet(a), PreviewTarget::Snippet(b)) => *a == *b,
            (PreviewTarget::Folder(a), PreviewTarget::Folder(b)) => *a == *b,
            (PreviewTarget::AiBox(a), PreviewTarget::AiBox(b)) => *a == *b,
            (PreviewTarget::Conversation(a), PreviewTarget::Conversation(b)) => *a == *b,
            (PreviewTarget::ExternalFile(a), PreviewTarget::ExternalFile(b)) => *a == *b,
            _ => false,
        }
    }
}

impl Eq for PreviewTarget {

}

impl vstd::std_specs::cmp::PartialEqSpecImpl for PreviewTarget {
    open spec fn obeys_eq_spec() -> bool {
        true
    }

    open spec fn eq_spec(&self, other: &Self) -> bool {
        self.same(other)
    }
}

/// What the card of a target is previewed as. Built-in items and images have no
/// preview.
pub fn preview_target(target: &ReferenceTarget, workspace: &Workspace) -> (r: Option<PreviewTarget>)
    ensures
        r == match *target {
            ReferenceTarget::Snippet(id) => Some(PreviewTarget::Snippet(id)),
            ReferenceTarget::Container(id) => Some(
                if workspace.ai_box(id@) {
                    PreviewTarget::AiBox(id)
                } else {
                    PreviewTarget::Folder(id)
                },
            ),
            ReferenceTarget::Conversation(id) => Some(PreviewTarget::Conversation(id)),
            ReferenceTarget::ExternalFile(file) => Some(PreviewTarget::ExternalFile(file.id)),
            _ => None,
        },
{
    match target {
        ReferenceTarget::Snippet(id) => Some(PreviewTarget::Snippet(id.clone())),
        ReferenceTarget::Container(id) => if workspace.is_ai_box(id) {
            Some(PreviewTarget::AiBox(id.clone()))
        } else {
            Some(PreviewTarget::Folder(id.clone()))
        },
        ReferenceTarget::Conversation(id) => Some(PreviewTarget::Conversation(id.clone())),
        ReferenceTarget::ExternalFile(file) => Some(PreviewTarget::ExternalFile(file.id.clone())),
        ReferenceTarget::Special(_) => None,
        ReferenceTarget::Image(_) => None,
    }
}

/// The preview that comes up over a card. There is one for all canvases.
#[derive(Debug)]
pub struct HoverPreview {
    pub target: Option<PreviewTarget>,
    /// The canvas that the card is on.
    pub canvas: Option<ContainerId>,
    pub visible: bool,
}

/// What changed about the preview.
#[derive(Clone, Copy, Debug, PartialEq, Eq, Structural)]
pub enum HoverChange {
    /// A new card: the clock starts, and the preview goes to that card.
    Claimed,
    /// The same card: the preview follows it.
    Followed,
    /// The preview is gone.
    Dismissed,
    /// Nothing.
    Untouched,
}

impl HoverPreview {
    /// No preview.
    pub open spec fn is_idle(&self) -> bool {
        self.target is None && self.canvas is None && !self.visible
    }

    pub fn new() -> (r: Self)
        ensures
            r.is_idle(),
    {
        HoverPreview { target: None, canvas: None, visible: false }
    }

    /// The preview belongs to the canvas.
    pub open spec fn owned_by(&self, canvas: Seq<char>) -> bool {
        self.canvas matches Some(c) && c@ == canvas
    }

    /// Takes note of what the pointer is over on a canvas. `instant` asks for the
    /// preview at once, `elapsed` tells that the pointer has rested long enough,
    /// `over_popup` that it is over the preview itself. A preview of another
    /// canvas is left alone, unless the pointer is over another card.
    pub fn hover(
        &mut self,
        canvas: &ContainerId,
        card: Option<PreviewTarget>,
        instant: bool,
        elapsed: bool,
        over_popup: bool,
    ) -> (r: HoverChange)
        ensures
            match card {
                Some(target) => if !(old(self).target matches Some(t) && t.same(&target)) {
                    &&& r == HoverChange::Claimed
                    &&& *final(self) == (HoverPreview {
                        target: Some(target),
                        canvas: Some(*canvas),
                        visible: instant,
                    })
                } else if old(self).owned_by(canvas@) {
                    &&& r == HoverChange::Followed
                    &&& *final(self) == (HoverPreview {
                        visible: old(self).visible || instant || elapsed,
                        ..*old(self)
                    })
                } else {
                    r == HoverChange::Untouched && *final(self) == *old(self)
                },
                None => if old(self).owned_by(canvas@) && !(old(self).visible && over_popup) {
                    r == HoverChange::Dismissed && final(self).is_idle()
                } else {
                    r == HoverChange::Untouched && *final(self) == *old(self)
                },
            },
    {
        let owned = match &self.canvas {
            Some(c) => *c == *canvas,
            None => false,
        };
        match card {
            Some(target) => {
                let known = match &self.target {
                    Some(t) => *t == target,
                    None => false,
                };
                if !known {
                    self.target = Some(target);
                    self.canvas = Some(canvas.clone());
                    self.visible = instant;
                    HoverChange::Claimed
                } else if owned {
                    self.visible = self.visible || instant || elapsed;
                    HoverChange::Followed
                } else {
                    HoverChange::Untouched
                }
            },
            None => {
                if owned && !(self.visible && over_popup) {
                    self.target = None;
                    self.canvas = None;
                    self.visible = false;
                    HoverChange::Dismissed
                } else {
                    HoverChange::Untouched
                }
            },
        }
    }

    /// The preview is drawn on this canvas.
    pub fn shown_on(&self, canvas: &ContainerId) -> (r: bool)
        ensures
            r == (self.visible && self.owned_by(canvas@)),
    {
        self.visible && match &self.canvas {
            Some(c) => *c == *canvas,
            None => false,
        }
    }
}

/// How many lines of a snippet a preview shows.
pub const PREVIEW_LINES: usize = 30;

/// The first lines of a text.
pub open spec fn first_lines(text: Seq<char>, n: int) -> Seq<char> {
    let all = lines_of(text);
    joined(
        if all.len() <= n {
            all
        } else {
            all.take(n)
        },
        "\n"@,
    )
}

/// The first lines of a snippet, as its preview shows them.
pub fn snippet_preview(content: &str) -> (r: String)
    ensures
        r@ == first_lines(content@, PREVIEW_LINES as int),
{
    let mut shown = lines(content);
    let ghost all = texts(shown@);
    if shown.len() > PREVIEW_LINES {
        shown.truncate(PREVIEW_LINES);
        assert(texts(shown@) =~= all.take(PREVIEW_LINES as int));
    }
    join(&shown, "\n")
}

/// The first AI workspace that has the conversation, from index `i` on.
pub open spec fn box_with(
    boxes: Seq<(ContainerId, AiBoxData)>,
    conversation: Seq<char>,
    i: int,
) -> int
    decreases boxes.len() - i,
{
    if !(0 <= i < boxes.len()) {
        boxes.len() as int
    } else if boxes[i].1.conversations@.contains_key(conversation) {
        i
    } else {
        box_with(boxes, conversation, i + 1)
    }
}

/// The preview of a conversation: how many sources and messages it has.
pub open spec fn conversation_summary(sources: nat, messages: nat) -> Seq<char> {
    decimal_text(sources) + " sources · "@ + decimal_text(messages) + " messages"@
}

/// The preview of a conversation, if one of the AI workspaces has it.
pub fn conversation_preview(ai: &IdMap<ContainerId, AiBoxData>, conversation: &ConversationId) -> (r:
    Option<String>)
    ensures
        ({
            let k = box_with(ai.order(), conversation@, 0);
            if k < ai.order().len() {
                let c = ai.order()[k].1.conversations@[conversation@];
                r matches Some(text) && text@ == conversation_summary(
                    c.sources@.len(),
                    c.messages@.len(),
                )
            } else {
                r is None
            }
        }),
{
    let mut i: usize = 0;
    while i < ai.len()
        invariant
            i <= ai.order().len(),
            box_with(ai.order(), conversation@, 0) == box_with(
                ai.order(),
                conversation@,
                i as int,
            ),
        decreases ai.order().len() - i,
    {
        match ai.value_at(i).conversations.get(conversation) {
            Some(c) => {
                let front = join2(&decimal(c.sources.len() as u64), " sources · ");
                return Some(join3(&front, &decimal(c.messages.len() as u64), " messages"));
            },
            None => {},
        }
        i = i + 1;
    }
    None
}

/// The external files that the cards of a list point at.
pub open spec fn files_in(members: Seq<Reference>) -> Seq<ExternalFileRef>
    decreases members.len(),
{
    if members.len() == 0 {
        Seq::empty()
    } else {
        let rest = files_in(members.drop_last());
        match members.last().target {
            ReferenceTarget::ExternalFile(file) => rest.push(file),
            _ => rest,
        }
    }
}

/// The external files that the cards of the containers point at.
pub open spec fn files_of(containers: Seq<(ContainerId, Container)>) -> Seq<ExternalFileRef>
    decreases containers.len(),
{
    if containers.len() == 0 {
        Seq::empty()
    } else {
        files_of(containers.drop_last()) + files_in(containers.last().1.members@)
    }
}

/// The external files that the cards of the workspace point at.
pub fn external_files(workspace: &Workspace) -> (r: Vec<ExternalFileRef>)
    ensures
        r@ == files_of(workspace.containers.order()),
{
    let ghost all = workspace.containers.order();
    let mut r: Vec<ExternalFileRef> = Vec::new();
    let mut i: usize = 0;
    assert(all.take(0) =~= Seq::empty());
    while i < workspace.containers.len()
        invariant
            i <= all.len(),
            all == workspace.containers.order(),
            r@ == files_of(all.take(i as int)),
        decreases all.len() - i,
    {
        let members = &workspace.containers.value_at(i).members;
        let mut k: usize = 0;
        let ghost before = r@;
        proof {
            assert(all.take(i + 1).drop_last() =~= all.take(i as int));
            assert(all.take(i + 1).last() == all[i as int]);
            assert(members@.take(0) =~= Seq::<Reference>::empty());
            assert(before + files_in(members@.take(0)) =~= before);
        }
        while k < members.len()
            invariant
                k <= members@.len(),
                r@ == before + files_in(members@.take(k as int)),
            decreases members@.len() - k,
        {
            proof {
                assert(members@.take(k + 1).drop_last() =~= members@.take(k as int));
                assert(members@.take(k + 1).last() == members@[k as int]);
            }
            match &members[k].target {
                ReferenceTarget::ExternalFile(file) => {
                    let ghost list = files_in(members@.take(k as int));
                    r.push(file.clone());
                    assert((before + list).push(*file) =~= before + list.push(*file));
                },
                _ => {},
            }
            k = k + 1;
        }
        assert(members@.take(k as int) =~= members@);
        i = i + 1;
    }
    assert(all.take(i as int) =~= all);
    r
}

/// A file of this identifier is in the list.
pub open spec fn has_file(files: Seq<ExternalFileRef>, id: Seq<char>) -> bool {
    exists|i: int| 0 <= i < files.len() && (#[trigger] files[i]).id@ == id
}

/// The first file of each identifier.
pub open spec fn distinct_files(files: Seq<ExternalFileRef>) -> Seq<ExternalFileRef>
    decreases files.len(),
{
    if files.len() == 0 {
        Seq::empty()
    } else {
        let rest = distinct_files(files.drop_last());
        if has_file(rest, files.last().id@) {
            rest
        } else {
            rest.push(files.last())
        }
    }
}

fn contains_file(files: &Vec<ExternalFileRef>, id: &ExternalFileId) -> (r: bool)
    ensures
        r == has_file(files@, id@),
{
    let mut i: usize = 0;
    while i < files.len()
        invariant
            i <= files@.len(),
            forall|j: int| 0 <= j < i ==> (#[trigger] files@[j]).id@ != id@,
        decreases files@.len() - i,
    {
        if files[i].id == *id {
            return true;
        }
        i = i + 1;
    }
    false
}

/// The external files that can be linked as sources: each file once.
pub fn linkable_files(workspace: &Workspace) -> (r: Vec<ExternalFileRef>)
    ensures
        r@ == distinct_files(files_of(workspace.containers.order())),
{
    let files = external_files(workspace);
    let mut r: Vec<ExternalFileRef> = Vec::new();
    let mut i: usize = 0;
    assert(files@.take(0) =~= Seq::<ExternalFileRef>::empty());
    while i < files.len()
        invariant
            i <= files@.len(),
            r@ == distinct_files(files@.take(i as int)),
        decreases files@.len() - i,
    {
        proof {
            assert(files@.take(i + 1).drop_last() =~= files@.take(i as int));
            assert(files@.take(i + 1).last() == files@[i as int]);
        }
        if !contains_file(&r, &files[i].id) {
            r.push(files[i].clone());
        }
        i = i + 1;
    }
    assert(files@.take(i as int) =~= files@);
    r
}

/// No two of the files that can be linked share an identifier, and every file
/// of the workspace is among them.
pub proof fn linkable_files_are_distinct(files: Seq<ExternalFileRef>)
    ensures
        forall|i: int, j: int|
            0 <= i < j < distinct_files(files).len() ==> (#[trigger] distinct_files(files)[i]).id@
                != (#[trigger] distinct_files(files)[j]).id@,
        forall|id: Seq<char>| #[trigger] has_file(files, id) == has_file(distinct_files(files), id),
    decreases files.len(),
{
    if files.len() > 0 {
        let cut = files.drop_last();
        linkable_files_are_distinct(cut);
        let rest = distinct_files(cut);
        let all = distinct_files(files);
        assert forall|id: Seq<char>| #[trigger] has_file(files, id) == has_file(all, id) by {
            if has_file(files, id) {
                let i = choose|i: int| 0 <= i < files.len() && (#[trigger] files[i]).id@ == id;
                if i < cut.len() {
                    assert(cut[i] == files[i]);
                    assert(has_file(cut, id));
                    let k = choose|k: int| 0 <= k < rest.len() && (#[trigger] rest[k]).id@ == id;
                    assert(all[k] == rest[k]);
                } else if !has_file(rest, id) {
                    assert(all[all.len() - 1].id@ == id);
                }
            }
            if has_file(all, id) {
                let k = choose|k: int| 0 <= k < all.len() && (#[trigger] all[k]).id@ == id;
                if k < rest.len() {
                    assert(rest[k] == all[k]);
                    assert(has_file(rest, id));
                    assert(has_file(cut, id));
                    let i = choose|i: int| 0 <= i < cut.len() && (#[trigger] cut[i]).id@ == id;
                    assert(files[i] == cut[i]);
                } else {
                    assert(files[files.len() - 1].id@ == id);
                }
            }
        }
        assert forall|i: int, j: int| 0 <= i < j < all.len() implies (#[trigger] all[i]).id@ != (
        #[trigger] all[j]).id@ by {
            assert(all[i] == rest[i]);
            if j < rest.len() {
                assert(all[j] == rest[j]);
            }
        }
    }
}

/// The containers that can be linked as sources of an AI workspace: all but
/// itself.
pub open spec fn linkable(
    containers: Seq<(ContainerId, Container)>,
    own: Seq<char>,
) -> Seq<ContainerId>
    decreases containers.len(),
{
    if containers.len() == 0 {
        Seq::empty()
    } else {
        let rest = linkable(containers.drop_last(), own);
        if containers.last().0@ == own {
            rest
        } else {
            rest.push(containers.last().0)
        }
    }
}

/// The containers that can be linked as sources of an AI workspace: all but
/// itself.
pub fn linkable_folders(workspace: &Workspace, own: &ContainerId) -> (r: Vec<ContainerId>)
    ensures
        r@ == linkable(workspace.containers.order(), own@),
{
    let ghost all = workspace.containers.order();
    let mut r: Vec<ContainerId> = Vec::new();
    let mut i: usize = 0;
    assert(all.take(0) =~= Seq::empty());
    while i < workspace.containers.len()
        invariant
            i <= all.len(),
            all == workspace.containers.order(),
            r@ == linkable(all.take(i as int), own@),
        decreases all.len() - i,
    {
        proof {
            assert(all.take(i + 1).drop_last() =~= all.take(i as int));
            assert(all.take(i + 1).last() == all[i as int]);
        }
        let id = workspace.containers.key_at(i);
        if *id != *own {
            r.push(id.clone());
        }
        i = i + 1;
    }
    assert(all.take(i as int) =~= all);
    r
}

/// The path of the first file of the list that has this identifier.
pub open spec fn path_in(files: Seq<ExternalFileRef>, id: Seq<char>) -> Option<Seq<char>>
    decreases files.len(),
{
    if files.len() == 0 {
        None
    } else if files[0].id@ == id {
        Some(files[0].path@)
    } else {
        path_in(files.skip(1), id)
    }
}

/// The preview of an external file: its path, if a card points at it.
pub fn file_preview(workspace: &Workspace, id: &ExternalFileId) -> (r: Option<String>)
    ensures
        match r {
            Some(path) => path_in(files_of(workspace.containers.order()), id@) == Some(path@),
            None => path_in(files_of(workspace.containers.order()), id@) is None,
        },
{
    let files = external_files(workspace);
    let mut i: usize = 0;
    assert(files@.skip(0) =~= files@);
    while i < files.len()
        invariant
            i <= files@.len(),
            files@ == files_of(workspace.containers.order()),
            path_in(files@, id@) == path_in(files@.skip(i as int), id@),
        decreases files@.len() - i,
    {
        proof {
            assert(files@.skip(i as int)[0] == files@[i as int]);
            assert(files@.skip(i as int).skip(1) =~= files@.skip(i + 1));
        }
        if files[i].id == *id {
            return Some(files[i].path.clone());
        }
        i = i + 1;
    }
    assert(files@.skip(i as int).len() == 0);
    None
}

/// A card of a preview.
#[derive(Debug)]
pub struct PreviewCard {
    pub label: String,
    pub kind: ItemKind,
    pub role: MemberRole,
    pub position: Point,
}

/// The preview card of a member, if it is shown.
pub open spec fn is_preview_card(
    card: PreviewCard,
    container: Seq<char>,
    member: Reference,
    slot: Point,
    layout: ContainerLayout,
    snippets: Map<Seq<char>, Snippet>,
    workspace: Workspace,
    ai: Map<Seq<char>, AiBoxData>,
) -> bool {
    &&& label_of(container, member.target, snippets, workspace, ai) == Some(
        (card.label@, card.kind),
    )
    &&& card.role == member.role
    &&& card.position == place_of(layout.items@, member.id@, slot)
}

/// How many of the first `n` members have a title.
pub open spec fn titled_before(
    container: Seq<char>,
    members: Seq<Reference>,
    n: int,
    snippets: Map<Seq<char>, Snippet>,
    workspace: Workspace,
    ai: Map<Seq<char>, AiBoxData>,
) -> int
    decreases n,
{
    if n <= 0 {
        0
    } else {
        titled_before(container, members, n - 1, snippets, workspace, ai) + (if label_of(
            container,
            members[n - 1].target,
            snippets,
            workspace,
            ai,
        ) is Some {
            1int
        } else {
            0
        })
    }
}

/// The cards of a preview show the members that resolve and have a title, in
/// order. A member without a stored place stands in the slot of its number among
/// those that resolve.
pub open spec fn are_preview_cards(
    cards: Seq<PreviewCard>,
    container: Seq<char>,
    members: Seq<Reference>,
    n: int,
    layout: ContainerLayout,
    slots: Seq<Point>,
    snippets: Map<Seq<char>, Snippet>,
    workspace: Workspace,
    ai: Map<Seq<char>, AiBoxData>,
) -> bool {
    &&& cards.len() == titled_before(container, members, n, snippets, workspace, ai)
    &&& forall|i: int|
        0 <= i < n && label_of(
            container,
            (#[trigger] members[i]).target,
            snippets,
            workspace,
            ai,
        ) is Some ==> is_preview_card(
            cards[titled_before(container, members, i, snippets, workspace, ai)],
            container,
            members[i],
            slots[i],
            layout,
            snippets,
            workspace,
            ai,
        )
}

proof fn titled_before_bound(
    container: Seq<char>,
    members: Seq<Reference>,
    i: int,
    n: int,
    snippets: Map<Seq<char>, Snippet>,
    workspace: Workspace,
    ai: Map<Seq<char>, AiBoxData>,
)
    requires
        0 <= i <= n,
    ensures
        0 <= titled_before(container, members, i, snippets, workspace, ai) <= titled_before(
            container,
            members,
            n,
            snippets,
            workspace,
            ai,
        ),
        i < n && label_of(container, members[i].target, snippets, workspace, ai) is Some
            ==> titled_before(container, members, i, snippets, workspace, ai) < titled_before(
            container,
            members,
            n,
            snippets,
            workspace,
            ai,
        ),
    decreases n,
{
    if i < n {
        titled_before_bound(container, members, i, n - 1, snippets, workspace, ai);
    } else if n > 0 {
        titled_before_bound(container, members, i - 1, n - 1, snippets, workspace, ai);
    }
}

fn shown_list(
    members: &Vec<Reference>,
    snippets: &IdMap<EntityId, Snippet>,
    workspace: &Workspace,
) -> (r: Vec<Reference>)
    ensures
        r@ == shown_members(members@, snippets@, *workspace),
{
    let mut r: Vec<Reference> = Vec::new();
    let mut i: usize = 0;
    assert(members@.take(0) =~= Seq::<Reference>::empty());
    while i < members.len()
        invariant
            i <= members@.len(),
            r@ == shown_members(members@.take(i as int), snippets@, *workspace),
        decreases members@.len() - i,
    {
        proof {
            assert(members@.take(i + 1).drop_last() =~= members@.take(i as int));
            assert(members@.take(i + 1).last() == members@[i as int]);
        }
        if target_resolves(&members[i].target, snippets, workspace) {
            r.push(members[i].clone());
        }
        i = i + 1;
    }
    assert(members@.take(i as int) =~= members@);
    r
}

/// The cards of the preview of a container. `slots` holds a place for each
/// member that has none in the layout.
pub fn container_preview_cards(
    container: &Container,
    layout: &ContainerLayout,
    slots: &Vec<Point>,
    snippets: &IdMap<EntityId, Snippet>,
    workspace: &Workspace,
    ai: &IdMap<ContainerId, AiBoxData>,
) -> (r: Vec<PreviewCard>)
    requires
        slots@.len() >= container.members@.len(),
    ensures
        ({
            let shown = shown_members(container.members@, snippets@, *workspace);
            are_preview_cards(
                r@,
                container.id@,
                shown,
                shown.len() as int,
                *layout,
                slots@,
                snippets@,
                *workspace,
                ai@,
            )
        }),
{
    let members = shown_list(&container.members, snippets, workspace);
    proof {
        shown_members_bound(container.members@, snippets@, *workspace);
    }
    let mut cards: Vec<PreviewCard> = Vec::new();
    let mut i: usize = 0;
    while i < members.len()
        invariant
            i <= members@.len(),
            slots@.len() >= members@.len(),
            are_preview_cards(
                cards@,
                container.id@,
                members@,
                i as int,
                *layout,
                slots@,
                snippets@,
                *workspace,
                ai@,
            ),
        decreases members@.len() - i,
    {
        let ghost before = cards@;
        let member = &members[i];
        match item_label(&container.id, &member.target, snippets, workspace, ai) {
            Some((label, kind)) => {
                let position = match layout.items.get(&member.id) {
                    Some(placement) => placement.position,
                    None => slots[i],
                };
                cards.push(PreviewCard { label, kind, role: member.role, position });
            },
            None => {},
        }
        proof {
            assert forall|j: int|
                0 <= j < i + 1 && label_of(
                    container.id@,
                    (#[trigger] members@[j]).target,
                    snippets@,
                    *workspace,
                    ai@,
                ) is Some implies is_preview_card(
                cards@[titled_before(container.id@, members@, j, snippets@, *workspace, ai@)],
                container.id@,
                members@[j],
                slots@[j],
                *layout,
                snippets@,
                *workspace,
                ai@,
            ) by {
                titled_before_bound(
                    container.id@,
                    members@,
                    j,
                    i as int,
                    snippets@,
                    *workspace,
                    ai@,
                );
                if j < i {
                    let k = titled_before(
                        container.id@,
                        members@,
                        j,
                        snippets@,
                        *workspace,
                        ai@,
                    );
                    assert(cards@[k] == before[k]);
                }
            }
        }
        i = i + 1;
    }
    cards
}

/// The reference may be put into `container`: its target is there and can be
/// linked, and it is not the container itself.
pub open spec fn may_link(
    target: ReferenceTarget,
    container: Seq<char>,
    snippets: Map<Seq<char>, Snippet>,
    workspace: Workspace,
) -> bool {
    match target {
        ReferenceTarget::Snippet(id) => snippets.contains_key(id@),
        ReferenceTarget::Container(id) => workspace.has_container(id@) && id@ != container,
        ReferenceTarget::ExternalFile(_) => true,
        _ => false,
    }
}

fn can_link(
    target: &ReferenceTarget,
    container: &ContainerId,
    snippets: &IdMap<EntityId, Snippet>,
    workspace: &Workspace,
) -> (r: bool)
    ensures
        r == may_link(*target, container@, snippets@, *workspace),
{
    match target {
        ReferenceTarget::Snippet(id) => snippets.contains_key(id),
        ReferenceTarget::Container(id) => workspace.containers.contains_key(id) && *id
            != *container,
        ReferenceTarget::ExternalFile(_) => true,
        _ => false,
    }
}

/// The entry may be pasted into `container`.
pub open spec fn may_paste(
    entry: ClipboardEntry,
    container: Seq<char>,
    snippets: Map<Seq<char>, Snippet>,
    workspace: Workspace,
) -> bool {
    &&& !(entry.semantics == ClipboardSemantics::Move && entry.source_container@ == container)
    &&& may_link(entry.target, container, snippets, workspace)
}

/// Whether an entry may be pasted into `container`.
pub fn clipboard_valid_for(
    entry: &ClipboardEntry,
    container: &ContainerId,
    snippets: &IdMap<EntityId, Snippet>,
    workspace: &Workspace,
) -> (r: bool)
    ensures
        r == may_paste(*entry, container@, snippets@, *workspace),
{
    if entry.semantics == ClipboardSemantics::Move && entry.source_container == *container {
        return false;
    }
    can_link(&entry.target, container, snippets, workspace)
}

/// The dragged card may be let go over `container`.
pub open spec fn may_drop(
    payload: DragPayload,
    container: Seq<char>,
    snippets: Map<Seq<char>, Snippet>,
    workspace: Workspace,
    move_semantics: bool,
) -> bool {
    &&& !(move_semantics && payload.source_container@ == container)
    &&& may_link(payload.target, container, snippets, workspace)
}

/// Whether a dragged card may be let go over `container`.
pub fn drop_valid_for(
    payload: &DragPayload,
    container: &ContainerId,
    snippets: &IdMap<EntityId, Snippet>,
    workspace: &Workspace,
    move_semantics: bool,
) -> (r: bool)
    ensures
        r == may_drop(*payload, container@, snippets@, *workspace, move_semantics),
{
    if move_semantics && payload.source_container == *container {
        return false;
    }
    can_link(&payload.target, container, snippets, workspace)
}

/// The title of what an entry points at, for the user.
pub open spec fn entry_title(
    target: ReferenceTarget,
    snippets: Map<Seq<char>, Snippet>,
    workspace: Workspace,
) -> Seq<char> {
    match target {
        ReferenceTarget::Snippet(id) => if snippets.contains_key(id@) {
            snippets[id@].title@
        } else {
            "?"@
        },
        ReferenceTarget::Container(id) => if workspace.has_container(id@) {
            workspace.containers@[id@].title@
        } else {
            "?"@
        },
        ReferenceTarget::Special(special) => special.label_text(),
        ReferenceTarget::Conversation(_) => "Conversation"@,
        ReferenceTarget::ExternalFile(file) => file.title@,
        ReferenceTarget::Image(id) => if workspace.images@.contains_key(id@) {
            workspace.images@[id@].title@
        } else {
            "?"@
        },
    }
}

fn title_for_entry(
    target: &ReferenceTarget,
    snippets: &IdMap<EntityId, Snippet>,
    workspace: &Workspace,
) -> (r: String)
    ensures
        r@ == entry_title(*target, snippets@, *workspace),
{
    match target {
        ReferenceTarget::Snippet(id) => match snippets.get(id) {
            Some(snippet) => snippet.title.clone(),
            None => "?".to_owned(),
        },
        ReferenceTarget::Container(id) => match workspace.containers.get(id) {
            Some(container) => container.title.clone(),
            None => "?".to_owned(),
        },
        ReferenceTarget::Special(special) => special.label().to_owned(),
        ReferenceTarget::Conversation(_) => "Conversation".to_owned(),
        ReferenceTarget::ExternalFile(file) => file.title.clone(),
        ReferenceTarget::Image(id) => match workspace.images.get(id) {
            Some(image) => image.title.clone(),
            None => "?".to_owned(),
        },
    }
}

/// The text of the menu entry that pastes.
pub fn paste_label(
    entry: &ClipboardEntry,
    snippets: &IdMap<EntityId, Snippet>,
    workspace: &Workspace,
) -> (r: String)
    ensures
        r@ == (if entry.semantics == ClipboardSemantics::Link {
            "Paste (Link)"@
        } else {
            "Paste (Move)"@
        }) + ": "@ + entry_title(entry.target, snippets@, *workspace),
{
    let verb: &str = match entry.semantics {
        ClipboardSemantics::Link => "Paste (Link)",
        ClipboardSemantics::Move => "Paste (Move)",
    };
    join3(verb, ": ", &title_for_entry(&entry.target, snippets, workspace))
}

/// The text of the clipboard status.
pub fn clipboard_status(
    entry: &ClipboardEntry,
    snippets: &IdMap<EntityId, Snippet>,
    workspace: &Workspace,
) -> (r: String)
    ensures
        r@ == "Clipboard: "@ + entry_title(entry.target, snippets@, *workspace) + " ("@ + (
        if entry.semantics == ClipboardSemantics::Link {
            "Link"@
        } else {
            "Move"@
        }) + ") — right-click a canvas → Paste"@,
{
    let verb: &str = match entry.semantics {
        ClipboardSemantics::Link => "Link",
        ClipboardSemantics::Move => "Move",
    };
    let title = title_for_entry(&entry.target, snippets, workspace);
    let front = join3("Clipboard: ", &title, " (");
    join3(&front, verb, ") — right-click a canvas → Paste")
}

/// The clipboard status is shown in the window where the card was picked up. If
/// all canvases share the main window, only the root canvas shows it.
pub fn shows_clipboard_status(
    entry: &ClipboardEntry,
    viewport: &Viewport,
    floating: bool,
    is_root: bool,
) -> (r: bool)
    ensures
        r == (entry.origin.same(viewport) && (!floating || is_root)),
{
    entry.origin == *viewport && (!floating || is_root)
}

/// An entry of the context menu of a card.
#[derive(Clone, Copy, Debug, PartialEq, Eq, Structural)]
pub enum CardChoice {
    OpenReadOnly,
    OpenOriginal,
    OpenExternally,
    RemoveSource,
    OpenConversation,
    RenameConversation,
    DeleteConversation,
    Link,
    Move,
    Rename,
    RenameFile,
    /// Remove the last card of a target.
    Delete,
    /// Remove one of several cards of a target.
    Unlink,
}

/// The context menu of a card. Built-in items have none. In an AI workspace,
/// sources and conversations have menus of their own, which never offer to link,
/// move, rename or delete what they stand for.
pub open spec fn menu_of(
    in_ai_box: bool,
    role: MemberRole,
    target: ReferenceTarget,
    last: bool,
) -> Seq<CardChoice> {
    if target is Special {
        Seq::empty()
    } else if in_ai_box && role == MemberRole::Source {
        match target {
            ReferenceTarget::ExternalFile(_) => seq![
                CardChoice::OpenExternally,
                CardChoice::RemoveSource,
            ],
            ReferenceTarget::Snippet(_) => seq![
                CardChoice::OpenReadOnly,
                CardChoice::OpenOriginal,
                CardChoice::RemoveSource,
            ],
            _ => seq![CardChoice::OpenReadOnly, CardChoice::RemoveSource],
        }
    } else if in_ai_box && role == MemberRole::Conversation {
        seq![
            CardChoice::OpenConversation,
            CardChoice::RenameConversation,
            CardChoice::DeleteConversation,
        ]
    } else {
        let own = match target {
            ReferenceTarget::Snippet(_) => seq![CardChoice::Rename],
            ReferenceTarget::Container(_) => seq![CardChoice::Rename],
            ReferenceTarget::ExternalFile(_) => seq![
                CardChoice::OpenExternally,
                CardChoice::RenameFile,
            ],
            _ => Seq::empty(),
        };
        seq![CardChoice::Link, CardChoice::Move] + own + seq![
            if last {
                CardChoice::Delete
            } else {
                CardChoice::Unlink
            },
        ]
    }
}

/// The context menu of a card. `last` tells that no other card has its target.
pub fn card_menu(in_ai_box: bool, role: MemberRole, target: &ReferenceTarget, last: bool) -> (r: Vec<
    CardChoice,
>)
    ensures
        r@ == menu_of(in_ai_box, role, *target, last),
{
    let mut menu: Vec<CardChoice> = Vec::new();
    match target {
        ReferenceTarget::Special(_) => {
            return menu;
        },
        _ => {},
    }
    if in_ai_box && role == MemberRole::Source {
        match target {
            ReferenceTarget::ExternalFile(_) => {
                menu.push(CardChoice::OpenExternally);
            },
            ReferenceTarget::Snippet(_) => {
                menu.push(CardChoice::OpenReadOnly);
                menu.push(CardChoice::OpenOriginal);
            },
            _ => {
                menu.push(CardChoice::OpenReadOnly);
            },
        }
        menu.push(CardChoice::RemoveSource);
        assert(menu@ =~= menu_of(in_ai_box, role, *target, last));
        return menu;
    }
    if in_ai_box && role == MemberRole::Conversation {
        menu.push(CardChoice::OpenConversation);
        menu.push(CardChoice::RenameConversation);
        menu.push(CardChoice::DeleteConversation);
        assert(menu@ =~= menu_of(in_ai_box, role, *target, last));
        return menu;
    }
    menu.push(CardChoice::Link);
    menu.push(CardChoice::Move);
    match target {
        ReferenceTarget::Snippet(_) => {
            menu.push(CardChoice::Rename);
        },
        ReferenceTarget::Container(_) => {
            menu.push(CardChoice::Rename);
        },
        ReferenceTarget::ExternalFile(_) => {
            menu.push(CardChoice::OpenExternally);
            menu.push(CardChoice::RenameFile);
        },
        _ => {},
    }
    if last {
        menu.push(CardChoice::Delete);
    } else {
        menu.push(CardChoice::Unlink);
    }
    assert(menu@ =~= menu_of(in_ai_box, role, *target, last));
    menu
}

/// Sources of an AI workspace can be opened and unlinked, and nothing else: their
/// menu holds no entry that moves, renames or deletes what they stand for.
pub proof fn sources_stay_read_only(role: MemberRole, target: ReferenceTarget, last: bool, i: int)
    requires
        role == MemberRole::Source,
        0 <= i < menu_of(true, role, target, last).len(),
    ensures
        ({
            let choice = menu_of(true, role, target, last)[i];
            choice == CardChoice::OpenReadOnly || choice == CardChoice::OpenOriginal || choice
                == CardChoice::OpenExternally || choice == CardChoice::RemoveSource
        }),
{
}

/// The text of a menu entry.
pub fn choice_label(choice: CardChoice) -> (r: &'static str)
    ensures
        r@ == match choice {
            CardChoice::OpenReadOnly => "Open Read-only"@,
            CardChoice::OpenOriginal => "Open Original"@,
            CardChoice::OpenExternally => "Open Externally"@,
            CardChoice::RemoveSource => "Remove Source"@,
            CardChoice::OpenConversation => "Open"@,
            CardChoice::RenameConversation => "Rename…"@,
            CardChoice::DeleteConversation => "Delete Conversation"@,
            CardChoice::Link => "Link"@,
            CardChoice::Move => "Move"@,
            CardChoice::Rename => "Rename"@,
            CardChoice::RenameFile => "Rename…"@,
            CardChoice::Delete => "Delete"@,
            CardChoice::Unlink => "Unlink"@,
        },
{
    match choice {
        CardChoice::OpenReadOnly => "Open Read-only",
        CardChoice::OpenOriginal => "Open Original",
        CardChoice::OpenExternally => "Open Externally",
        CardChoice::RemoveSource => "Remove Source",
        CardChoice::OpenConversation => "Open",
        CardChoice::RenameConversation => "Rename…",
        CardChoice::DeleteConversation => "Delete Conversation",
        CardChoice::Link => "Link",
        CardChoice::Move => "Move",
        CardChoice::Rename => "Rename",
        CardChoice::RenameFile => "Rename…",
        CardChoice::Delete => "Delete",
        CardChoice::Unlink => "Unlink",
    }
}

/// What a menu entry of a card leads to.
#[derive(Debug)]
pub enum CardOutcome {
    Command(CanvasCommand),
    /// The card is picked up.
    PickUp(ClipboardEntry),
    Nothing,
}

/// What choosing an entry of the menu of a card leads to.
pub open spec fn outcome_of(
    choice: CardChoice,
    container: ContainerId,
    reference: ReferenceId,
    target: ReferenceTarget,
    origin: Viewport,
) -> CardOutcome {
    match choice {
        CardChoice::OpenReadOnly => match target {
            ReferenceTarget::Snippet(id) => CardOutcome::Command(
                CanvasCommand::OpenSnippetReadOnly(id),
            ),
            ReferenceTarget::Container(id) => CardOutcome::Command(CanvasCommand::OpenFolder(id)),
            _ => CardOutcome::Nothing,
        },
        CardChoice::OpenOriginal => match target {
            ReferenceTarget::Snippet(id) => CardOutcome::Command(CanvasCommand::OpenSnippet(id)),
            _ => CardOutcome::Nothing,
        },
        CardChoice::OpenExternally => match target {
            ReferenceTarget::ExternalFile(file) => CardOutcome::Command(
                CanvasCommand::OpenExternalFile(file),
            ),
            _ => CardOutcome::Nothing,
        },
        CardChoice::RemoveSource => CardOutcome::Command(
            CanvasCommand::RemoveAiSource { ai_box: container, reference },
        ),
        CardChoice::OpenConversation => match target {
            ReferenceTarget::Conversation(id) => CardOutcome::Command(
                CanvasCommand::OpenConversation { ai_box: container, conversation: id },
            ),
            _ => CardOutcome::Nothing,
        },
        CardChoice::RenameConversation => match target {
            ReferenceTarget::Conversation(id) => CardOutcome::Command(
                CanvasCommand::RenameConversation { ai_box: container, conversation: id, origin },
            ),
            _ => CardOutcome::Nothing,
        },
        CardChoice::DeleteConversation => match target {
            ReferenceTarget::Conversation(id) => CardOutcome::Command(
                CanvasCommand::DeleteConversation { ai_box: container, conversation: id },
            ),
            _ => CardOutcome::Nothing,
        },
        CardChoice::Link => CardOutcome::PickUp(
            ClipboardEntry {
                source_container: container,
                reference_id: reference,
                target,
                semantics: ClipboardSemantics::Link,
                origin,
            },
        ),
        CardChoice::Move => CardOutcome::PickUp(
            ClipboardEntry {
                source_container: container,
                reference_id: reference,
                target,
                semantics: ClipboardSemantics::Move,
                origin,
            },
        ),
        CardChoice::Rename => match target {
            ReferenceTarget::Snippet(id) => CardOutcome::Command(CanvasCommand::RenameSnippet(id)),
            ReferenceTarget::Container(id) => CardOutcome::Command(
                CanvasCommand::RenameFolder(id),
            ),
            _ => CardOutcome::Nothing,
        },
        CardChoice::RenameFile => match target {
            ReferenceTarget::ExternalFile(file) => CardOutcome::Command(
                CanvasCommand::RenameExternalFile(file.id),
            ),
            _ => CardOutcome::Nothing,
        },
        CardChoice::Delete => CardOutcome::Command(
            CanvasCommand::DeleteReference { owner: container, reference, target },
        ),
        CardChoice::Unlink => CardOutcome::Command(
            CanvasCommand::DeleteReference { owner: container, reference, target },
        ),
    }
}

/// What choosing an entry of the menu of a card leads to.
pub fn choose_card(
    choice: CardChoice,
    container: &ContainerId,
    reference: &ReferenceId,
    target: &ReferenceTarget,
    origin: Viewport,
) -> (r: CardOutcome)
    ensures
        r == outcome_of(choice, *container, *reference, *target, origin),
{
    match choice {
        CardChoice::OpenReadOnly => match target {
            ReferenceTarget::Snippet(id) => CardOutcome::Command(
                CanvasCommand::OpenSnippetReadOnly(id.clone()),
            ),
            ReferenceTarget::Container(id) => CardOutcome::Command(
                CanvasCommand::OpenFolder(id.clone()),
            ),
            _ => CardOutcome::Nothing,
        },
        CardChoice::OpenOriginal => match target {
            ReferenceTarget::Snippet(id) => CardOutcome::Command(
                CanvasCommand::OpenSnippet(id.clone()),
            ),
            _ => CardOutcome::Nothing,
        },
        CardChoice::OpenExternally => match target {
            ReferenceTarget::ExternalFile(file) => CardOutcome::Command(
                CanvasCommand::OpenExternalFile(file.clone()),
            ),
            _ => CardOutcome::Nothing,
        },
        CardChoice::RemoveSource => CardOutcome::Command(
            CanvasCommand::RemoveAiSource {
                ai_box: container.clone(),
                reference: reference.clone(),
            },
        ),
        CardChoice::OpenConversation => match target {
            ReferenceTarget::Conversation(id) => CardOutcome::Command(
                CanvasCommand::OpenConversation {
                    ai_box: container.clone(),
                    conversation: id.clone(),
                },
            ),
            _ => CardOutcome::Nothing,
        },
        CardChoice::RenameConversation => match target {
            ReferenceTarget::Conversation(id) => CardOutcome::Command(
                CanvasCommand::RenameConversation {
                    ai_box: container.clone(),
                    conversation: id.clone(),
                    origin,
                },
            ),
            _ => CardOutcome::Nothing,
        },
        CardChoice::DeleteConversation => match target {
            ReferenceTarget::Conversation(id) => CardOutcome::Command(
                CanvasCommand::DeleteConversation {
                    ai_box: container.clone(),
                    conversation: id.clone(),
                },
            ),
            _ => CardOutcome::Nothing,
        },
        CardChoice::Link => CardOutcome::PickUp(
            ClipboardEntry {
                source_container: container.clone(),
                reference_id: reference.clone(),
                target: target.clone(),
                semantics: ClipboardSemantics::Link,
                origin,
            },
        ),
        CardChoice::Move => CardOutcome::PickUp(
            ClipboardEntry {
                source_container: container.clone(),
                reference_id: reference.clone(),
                target: target.clone(),
                semantics: ClipboardSemantics::Move,
                origin,
            },
        ),
        CardChoice::Rename => match target {
            ReferenceTarget::Snippet(id) => CardOutcome::Command(
                CanvasCommand::RenameSnippet(id.clone()),
            ),
            ReferenceTarget::Container(id) => CardOutcome::Command(
                CanvasCommand::RenameFolder(id.clone()),
            ),
            _ => CardOutcome::Nothing,
        },
        CardChoice::RenameFile => match target {
            ReferenceTarget::ExternalFile(file) => CardOutcome::Command(
                CanvasCommand::RenameExternalFile(file.id.clone()),
            ),
            _ => CardOutcome::Nothing,
        },
        CardChoice::Delete => CardOutcome::Command(
            CanvasCommand::DeleteReference {
                owner: container.clone(),
                reference: reference.clone(),
                target: target.clone(),
            },
        ),
        CardChoice::Unlink => CardOutcome::Command(
            CanvasCommand::DeleteReference {
                owner: container.clone(),
                reference: reference.clone(),
                target: target.clone(),
            },
        ),
    }
}

/// What a click on a card asks for. Sources of an AI workspace open read-only;
/// images are looked at where they are.
pub fn click_command(
    in_ai_box: bool,
    role: MemberRole,
    container: &ContainerId,
    target: &ReferenceTarget,
) -> (r: Option<CanvasCommand>)
    ensures
        r == match *target {
            ReferenceTarget::Snippet(id) => Some(
                if in_ai_box && role == MemberRole::Source {
                    CanvasCommand::OpenSnippetReadOnly(id)
                } else {
                    CanvasCommand::OpenSnippet(id)
                },
            ),
            ReferenceTarget::Container(id) => Some(CanvasCommand::OpenFolder(id)),
            ReferenceTarget::Special(kind) => Some(CanvasCommand::OpenSpecial(kind)),
            ReferenceTarget::Conversation(id) => Some(
                CanvasCommand::OpenConversation { ai_box: *container, conversation: id },
            ),
            ReferenceTarget::ExternalFile(file) => Some(CanvasCommand::OpenExternalFile(file)),
            ReferenceTarget::Image(_) => None,
        },
{
    match target {
        ReferenceTarget::Snippet(id) => if in_ai_box && role == MemberRole::Source {
            Some(CanvasCommand::OpenSnippetReadOnly(id.clone()))
        } else {
            Some(CanvasCommand::OpenSnippet(id.clone()))
        },
        ReferenceTarget::Container(id) => Some(CanvasCommand::OpenFolder(id.clone())),
        ReferenceTarget::Special(kind) => Some(CanvasCommand::OpenSpecial(*kind)),
        ReferenceTarget::Conversation(id) => Some(
            CanvasCommand::OpenConversation {
                ai_box: container.clone(),
                conversation: id.clone(),
            },
        ),
        ReferenceTarget::ExternalFile(file) => Some(
            CanvasCommand::OpenExternalFile(file.clone()),
        ),
        ReferenceTarget::Image(_) => None,
    }
}

/// The pointer while a card is dragged over a canvas.
#[derive(Clone, Copy, Debug, PartialEq, Eq, Structural)]
pub enum DropCursor {
    /// As it is.
    Plain,
    NotAllowed,
    Move,
    Copy,
}

/// What letting go of a dragged card over a canvas does.
#[derive(Debug)]
pub enum DropAction {
    Nothing,
    /// The card goes into this folder.
    IntoFolder(ContainerId),
    /// The card goes onto the canvas.
    OntoCanvas,
}

/// What a dragged card finds on a canvas.
#[derive(Debug)]
pub struct DropState {
    pub cursor: DropCursor,
    pub action: DropAction,
    /// The canvas itself would take the card.
    pub canvas_accepts: bool,
}

pub open spec fn link_or_move(move_semantics: bool) -> DropCursor {
    if move_semantics {
        DropCursor::Move
    } else {
        DropCursor::Copy
    }
}

/// What a dragged card finds on the canvas of `container`. `hovering` tells that
/// the pointer is over the canvas and nothing covers it there. `folder` is a
/// folder under the pointer that would take the card, `refused` tells that one
/// there would not. A canvas never takes its own cards this way.
pub fn drop_state(
    payload: &DragPayload,
    container: &ContainerId,
    hovering: bool,
    folder: Option<&ContainerId>,
    refused: bool,
    move_semantics: bool,
    snippets: &IdMap<EntityId, Snippet>,
    workspace: &Workspace,
) -> (r: DropState)
    ensures
        ({
            let foreign = payload.source_container@ != container@ && hovering;
            let valid = may_drop(*payload, container@, snippets@, *workspace, move_semantics);
            &&& r.canvas_accepts == (foreign && folder is None && !refused && valid)
            &&& r.cursor == if refused {
                DropCursor::NotAllowed
            } else if folder is Some {
                link_or_move(move_semantics)
            } else if !foreign {
                DropCursor::Plain
            } else if valid {
                link_or_move(move_semantics)
            } else {
                DropCursor::NotAllowed
            }
            &&& match folder {
                Some(id) => r.action == DropAction::IntoFolder(*id),
                None => if r.canvas_accepts {
                    r.action is OntoCanvas
                } else {
                    r.action is Nothing
                },
            }
        }),
{
    let foreign = payload.source_container != *container && hovering;
    let valid = drop_valid_for(payload, container, snippets, workspace, move_semantics);
    let taking = if move_semantics {
        DropCursor::Move
    } else {
        DropCursor::Copy
    };
    let canvas_accepts = foreign && folder.is_none() && !refused && valid;
    let cursor = if refused {
        DropCursor::NotAllowed
    } else if folder.is_some() {
        taking
    } else if !foreign {
        DropCursor::Plain
    } else if valid {
        taking
    } else {
        DropCursor::NotAllowed
    };
    let action = match folder {
        Some(id) => DropAction::IntoFolder(id.clone()),
        None => if canvas_accepts {
            DropAction::OntoCanvas
        } else {
            DropAction::Nothing
        },
    };
    DropState { cursor, action, canvas_accepts }
}

/// Files that are dragged in from outside are announced on this canvas: AI
/// workspaces take none, and if all canvases share the main window the pointer
/// has to be over the canvas.
pub fn announces_files(in_ai_box: bool, pointer_over: bool, floating: bool) -> (r: bool)
    ensures
        r == (!in_ai_box && (pointer_over || !floating)),
{
    !in_ai_box && (pointer_over || !floating)
}

/// Files that are let go are taken by this canvas. All canvases see them in the
/// same frame; the first that takes them has them, and `taken` tells the others.
pub fn takes_files(
    in_ai_box: bool,
    count: usize,
    taken: &mut bool,
    pointer_over: bool,
    pointer_known: bool,
    floating: bool,
) -> (r: bool)
    ensures
        r == (!in_ai_box && count > 0 && !*old(taken) && (pointer_over || !floating
            || !pointer_known)),
        *final(taken) == (*old(taken) || r),
{
    if !in_ai_box && count > 0 && !*taken && (pointer_over || !floating || !pointer_known) {
        *taken = true;
        true
    } else {
        false
    }
}

/// An entry of the context menu of a canvas.
#[derive(Clone, Copy, Debug, PartialEq, Eq, Structural)]
pub enum CanvasChoice {
    Search,
    NewConversation,
    LinkSource,
    NewAiBox,
    Paste,
    /// Pasting is shown but cannot be chosen.
    PasteDisabled,
    NewSnippet,
    NewFolder,
    InsertFile,
    NewText,
    Organize,
}

/// The context menu of a canvas. `paste` tells whether a picked up card may be
/// pasted, if there is one.
pub open spec fn canvas_menu_of(in_ai_box: bool, paste: Option<bool>) -> Seq<CanvasChoice> {
    let own = if in_ai_box {
        seq![CanvasChoice::NewConversation, CanvasChoice::LinkSource]
    } else {
        seq![CanvasChoice::NewAiBox]
    };
    let pasting = match paste {
        Some(true) => seq![CanvasChoice::Paste],
        Some(false) => seq![CanvasChoice::PasteDisabled],
        None => Seq::empty(),
    };
    seq![CanvasChoice::Search] + own + pasting + seq![
        CanvasChoice::NewSnippet,
        CanvasChoice::NewFolder,
        CanvasChoice::InsertFile,
        CanvasChoice::NewText,
        CanvasChoice::Organize,
    ]
}

/// The context menu of a canvas.
pub fn canvas_menu(in_ai_box: bool, paste: Option<bool>) -> (r: Vec<CanvasChoice>)
    ensures
        r@ == canvas_menu_of(in_ai_box, paste),
{
    let mut menu: Vec<CanvasChoice> = Vec::new();
    menu.push(CanvasChoice::Search);
    if in_ai_box {
        menu.push(CanvasChoice::NewConversation);
        menu.push(CanvasChoice::LinkSource);
    } else {
        menu.push(CanvasChoice::NewAiBox);
    }
    match paste {
        Some(valid) => {
            if valid {
                menu.push(CanvasChoice::Paste);
            } else {
                menu.push(CanvasChoice::PasteDisabled);
            }
        },
        None => {},
    }
    menu.push(CanvasChoice::NewSnippet);
    menu.push(CanvasChoice::NewFolder);
    menu.push(CanvasChoice::InsertFile);
    menu.push(CanvasChoice::NewText);
    menu.push(CanvasChoice::Organize);
    assert(menu@ =~= canvas_menu_of(in_ai_box, paste));
    menu
}

/// The question before a last card is removed.
pub open spec fn delete_question_text(title: Seq<char>, kind: Seq<char>) -> Seq<char> {
    "Remove \""@ + title + "\"?\nThis is the last reference, so the "@ + kind
        + " will be removed permanently."@
}

/// The question before a last card is removed, if it can be asked: only snippets
/// and containers that are there are removed with their last card.
pub fn delete_question(
    pending: &PendingDelete,
    snippets: &IdMap<EntityId, Snippet>,
    workspace: &Workspace,
) -> (r: Option<String>)
    ensures
        match pending.target {
            ReferenceTarget::Snippet(id) => if snippets@.contains_key(id@) {
                r matches Some(text) && text@ == delete_question_text(
                    snippets@[id@].title@,
                    "snippet"@,
                )
            } else {
                r is None
            },
            ReferenceTarget::Container(id) => if workspace.has_container(id@) {
                r matches Some(text) && text@ == delete_question_text(
                    workspace.containers@[id@].title@,
                    "folder"@,
                )
            } else {
                r is None
            },
            _ => r is None,
        },
{
    let (title, kind): (String, &str) = match &pending.target {
        ReferenceTarget::Snippet(id) => match snippets.get(id) {
            Some(snippet) => (snippet.title.clone(), "snippet"),
            None => {
                return None;
            },
        },
        ReferenceTarget::Container(id) => match workspace.containers.get(id) {
            Some(container) => (container.title.clone(), "folder"),
            None => {
                return None;
            },
        },
        _ => {
            return None;
        },
    };
    let front = join3("Remove \"", &title, "\"?\nThis is the last reference, so the ");
    Some(join3(&front, kind, " will be removed permanently."))
}

/// The cards of a list that point at a target are counted, each once. `at` tells where
/// they stand.
pub proof fn cards_are_counted(members: Seq<Reference>, target: ReferenceTarget) -> (at: Seq<int>)
    ensures
        at.len() == count_in(members, target),
        forall|j: int|
            #![trigger at[j]]
            0 <= j < at.len() ==> 0 <= at[j] < members.len() && members[at[j]].target.same(&target),
        forall|i: int, j: int| 0 <= i < j < at.len() ==> at[i] < at[j],
        forall|k: int|
            #![trigger members[k]]
            0 <= k < members.len() && members[k].target.same(&target) ==> at.contains(k),
    decreases members.len(),
{
    if members.len() == 0 {
        Seq::empty()
    } else {
        let front = members.drop_last();
        let before = cards_are_counted(front, target);
        let n = members.len() - 1;
        let taken = members.last().target.same(&target);
        let at = if taken {
            before.push(n)
        } else {
            before
        };
        assert forall|j: int|
            #![trigger at[j]]
            0 <= j < at.len() implies 0 <= at[j] < members.len() && members[at[j]].target.same(&target) by {
            if j < before.len() {
                assert(at[j] == before[j]);
                assert(front[before[j]] == members[at[j]]);
            }
        }
        assert forall|k: int|
            #![trigger members[k]]
            0 <= k < members.len() && members[k].target.same(&target) implies at.contains(k) by {
            if k < n {
                assert(front[k] == members[k]);
                let j = choose|j: int| 0 <= j < before.len() && before[j] == k;
                assert(at[j] == k);
            } else {
                assert(at[before.len() as int] == n);
            }
        }
        at
    }
}

/// The files of a list of cards are those that its cards point at, all of them and in
/// order.
pub proof fn cards_lead_to_files(members: Seq<Reference>) -> (at: Seq<int>)
    ensures
        at.len() == files_in(members).len(),
        forall|j: int|
            #![trigger at[j]]
            0 <= j < at.len() ==> 0 <= at[j] < members.len() && members[at[j]].target is ExternalFile && files_in(members)[j] == members[at[j]].target->ExternalFile_0,
        forall|i: int, j: int| 0 <= i < j < at.len() ==> at[i] < at[j],
        forall|k: int|
            #![trigger members[k]]
            0 <= k < members.len() && members[k].target is ExternalFile ==> at.contains(k),
    decreases members.len(),
{
    if members.len() == 0 {
        Seq::empty()
    } else {
        let front = members.drop_last();
        let before = cards_lead_to_files(front);
        let n = members.len() - 1;
        let taken = members.last().target is ExternalFile;
        let at = if taken {
            before.push(n)
        } else {
            before
        };
        assert forall|j: int|
            #![trigger at[j]]
            0 <= j < at.len() implies 0 <= at[j] < members.len() && members[at[j]].target is ExternalFile && files_in(members)[j] == members[at[j]].target->ExternalFile_0 by {
            if j < before.len() {
                assert(at[j] == before[j]);
                assert(front[before[j]] == members[at[j]]);
            }
        }
        assert forall|k: int|
            #![trigger members[k]]
            0 <= k < members.len() && members[k].target is ExternalFile implies at.contains(k) by {
            if k < n {
                assert(front[k] == members[k]);
                let j = choose|j: int| 0 <= j < before.len() && before[j] == k;
                assert(at[j] == k);
            } else {
                assert(at[before.len() as int] == n);
            }
        }
        at
    }
}

/// The containers that can be linked into an AI workspace are all but itself, in order.
pub proof fn other_containers_can_be_linked(containers: Seq<(ContainerId, Container)>, own: Seq<char>) -> (at: Seq<int>)
    ensures
        at.len() == linkable(containers, own).len(),
        forall|j: int|
            #![trigger at[j]]
            0 <= j < at.len() ==> 0 <= at[j] < containers.len() && containers[at[j]].0@ != own && linkable(containers, own)[j] == containers[at[j]].0,
        forall|i: int, j: int| 0 <= i < j < at.len() ==> at[i] < at[j],
        forall|k: int|
            #![trigger containers[k]]
            0 <= k < containers.len() && containers[k].0@ != own ==> at.contains(k),
    decreases containers.len(),
{
    if containers.len() == 0 {
        Seq::empty()
    } else {
        let front = containers.drop_last();
        let before = other_containers_can_be_linked(front, own);
        let n = containers.len() - 1;
        let taken = containers.last().0@ != own;
        let at = if taken {
            before.push(n)
        } else {
            before
        };
        assert forall|j: int|
            #![trigger at[j]]
            0 <= j < at.len() implies 0 <= at[j] < containers.len() && containers[at[j]].0@ != own && linkable(containers, own)[j] == containers[at[j]].0 by {
            if j < before.len() {
                assert(at[j] == before[j]);
                assert(front[before[j]] == containers[at[j]]);
            }
        }
        assert forall|k: int|
            #![trigger containers[k]]
            0 <= k < containers.len() && containers[k].0@ != own implies at.contains(k) by {
            if k < n {
                assert(front[k] == containers[k]);
                let j = choose|j: int| 0 <= j < before.len() && before[j] == k;
                assert(at[j] == k);
            } else {
                assert(at[before.len() as int] == n);
            }
        }
        at
    }
}

/// A conversation is found in the first AI workspace that has it.
pub proof fn conversations_are_found(boxes: Seq<(ContainerId, AiBoxData)>, conversation: Seq<char>, i: int)
    requires
        0 <= i <= boxes.len(),
    ensures
        i <= box_with(boxes, conversation, i) <= boxes.len(),
        forall|k: int| #![trigger boxes[k]] i <= k < box_with(boxes, conversation, i) ==> !(boxes[k].1.conversations@.contains_key(conversation)),
        box_with(boxes, conversation, i) < boxes.len() ==> boxes[box_with(boxes, conversation, i)].1.conversations@.contains_key(conversation),
    decreases boxes.len() - i,
{
    if i < boxes.len() && !(boxes[i].1.conversations@.contains_key(conversation)) {
        conversations_are_found(boxes, conversation, i + 1);
    }
}

/// The cards of the workspace that point at a target are those of all its containers.
pub proof fn counts_are_of_all_containers(
    a: Seq<(ContainerId, Container)>,
    b: Seq<(ContainerId, Container)>,
    target: ReferenceTarget,
)
    ensures
        count_of(a + b, target) == count_of(a, target) + count_of(b, target),
        b.len() == 1 ==> count_of(b, target) == count_in(b[0].1.members@, target),
        b.len() == 0 ==> count_of(b, target) == 0,
    decreases b.len(),
{
    if b.len() > 0 {
        assert((a + b).drop_last() =~= a + b.drop_last());
        assert((a + b).last() == b.last());
        counts_are_of_all_containers(a, b.drop_last(), target);
        if b.len() == 1 {
            assert(b.drop_last().len() == 0);
        }
    } else {
        assert(a + b =~= a);
    }
}

/// The files of the workspace are those of all its containers, one after the other.
pub proof fn files_are_of_all_containers(
    a: Seq<(ContainerId, Container)>,
    b: Seq<(ContainerId, Container)>,
)
    ensures
        files_of(a + b) == files_of(a) + files_of(b),
        b.len() == 1 ==> files_of(b) == files_in(b[0].1.members@),
        b.len() == 0 ==> files_of(b).len() == 0,
    decreases b.len(),
{
    if b.len() > 0 {
        assert((a + b).drop_last() =~= a + b.drop_last());
        assert((a + b).last() == b.last());
        files_are_of_all_containers(a, b.drop_last());
        assert(files_of(a) + files_of(b.drop_last()) + files_in(b.last().1.members@) =~= files_of(a)
            + (files_of(b.drop_last()) + files_in(b.last().1.members@)));
        if b.len() == 1 {
            assert(b.drop_last().len() == 0);
            assert(files_of(b) =~= files_in(b[0].1.members@));
        }
    } else {
        assert(a + b =~= a);
        assert(files_of(a) + files_of(b) =~= files_of(a));
    }
}

/// The preview of a file is the path of the first file of its identifier. Returns
/// where that file stands, or the number of files.
pub proof fn previews_show_the_path(files: Seq<ExternalFileRef>, id: Seq<char>) -> (k: int)
    ensures
        0 <= k <= files.len(),
        forall|i: int| 0 <= i < k ==> (#[trigger] files[i]).id@ != id,
        k < files.len() ==> files[k].id@ == id && path_in(files, id) == Some(files[k].path@),
        k == files.len() ==> path_in(files, id) is None,
    decreases files.len(),
{
    if files.len() == 0 || files[0].id@ == id {
        0
    } else {
        let rest = files.skip(1);
        let k = previews_show_the_path(rest, id) + 1;
        assert forall|i: int| 0 <= i < k implies (#[trigger] files[i]).id@ != id by {
            if i > 0 {
                assert(rest[i - 1] == files[i]);
            }
        }
        if k < files.len() {
            assert(rest[k - 1] == files[k]);
        }
        k
    }
}

/// A card is labelled with the title of what it stands for. Where that is gone, or has
/// no title, there is no label.
pub proof fn labels_are_titles(
    container: Seq<char>,
    target: ReferenceTarget,
    snippets: Map<Seq<char>, Snippet>,
    workspace: Workspace,
    ai: Map<Seq<char>, AiBoxData>,
)
    ensures
        target matches ReferenceTarget::Snippet(id) ==> label_of(
            container,
            target,
            snippets,
            workspace,
            ai,
        ) == if snippets.contains_key(id@) && snippets[id@].title@.len() > 0 {
            Some((snippets[id@].title@, ItemKind::Snippet))
        } else {
            None
        },
        target matches ReferenceTarget::Image(id) ==> label_of(
            container,
            target,
            snippets,
            workspace,
            ai,
        ) == if workspace.images@.contains_key(id@) && workspace.images@[id@].title@.len() > 0 {
            Some((workspace.images@[id@].title@, ItemKind::Image))
        } else {
            None
        },
        target matches ReferenceTarget::ExternalFile(file) ==> label_of(
            container,
            target,
            snippets,
            workspace,
            ai,
        ) == if file.title@.len() > 0 {
            Some((file.title@, ItemKind::ExternalFile))
        } else {
            None
        },
        target matches ReferenceTarget::Container(id) ==> (label_of(
            container,
            target,
            snippets,
            workspace,
            ai,
        ) matches Some((label, kind)) ==> {
            &&& workspace.containers@.contains_key(id@)
            &&& label == workspace.containers@[id@].title@
            &&& kind == ItemKind::AiBox <==> workspace.containers@[id@].kind
                == ContainerKind::AiWorkspace
            &&& kind == ItemKind::Folder <==> workspace.containers@[id@].kind
                != ContainerKind::AiWorkspace
        }),
        target matches ReferenceTarget::Container(id) ==> (label_of(
            container,
            target,
            snippets,
            workspace,
            ai,
        ) is Some <==> workspace.containers@.contains_key(id@)
            && workspace.containers@[id@].title@.len() > 0),
        target matches ReferenceTarget::Conversation(id) ==> ai.contains_key(container)
            && ai[container].conversations@.contains_key(id@)
            && ai[container].conversations@[id@].title@.len() > 0 ==> label_of(
            container,
            target,
            snippets,
            workspace,
            ai,
        ) == Some((ai[container].conversations@[id@].title@, ItemKind::Conversation)),
{
}

/// A preview shows each card that has a label, in order: with that label, its role and
/// its place.
pub proof fn previews_show_every_card(
    cards: Seq<PreviewCard>,
    container: Seq<char>,
    members: Seq<Reference>,
    n: int,
    layout: ContainerLayout,
    slots: Seq<Point>,
    snippets: Map<Seq<char>, Snippet>,
    workspace: Workspace,
    ai: Map<Seq<char>, AiBoxData>,
) -> (at: Seq<int>)
    requires
        0 <= n <= members.len(),
        are_preview_cards(cards, container, members, n, layout, slots, snippets, workspace, ai),
    ensures
        at.len() == cards.len(),
        forall|j: int|
            #![trigger at[j]]
            0 <= j < at.len() ==> {
                &&& 0 <= at[j] < n
                &&& label_of(container, members[at[j]].target, snippets, workspace, ai) == Some(
                    (cards[j].label@, cards[j].kind),
                )
                &&& cards[j].role == members[at[j]].role
                &&& cards[j].position == place_of(
                    layout.items@,
                    members[at[j]].id@,
                    slots[at[j]],
                )
            },
        forall|i: int, j: int| 0 <= i < j < at.len() ==> at[i] < at[j],
        forall|k: int|
            #![trigger members[k]]
            0 <= k < n && label_of(container, members[k].target, snippets, workspace, ai) is Some
                ==> at.contains(k),
    decreases n,
{
    if n == 0 {
        Seq::empty()
    } else {
        let k = titled_before(container, members, n - 1, snippets, workspace, ai);
        titled_before_bound(container, members, n - 1, n - 1, snippets, workspace, ai);
        let labelled = label_of(
            container,
            members[n - 1].target,
            snippets,
            workspace,
            ai,
        ) is Some;
        let shown = if labelled {
            cards.drop_last()
        } else {
            cards
        };
        assert forall|i: int|
            0 <= i < n - 1 && label_of(
                container,
                (#[trigger] members[i]).target,
                snippets,
                workspace,
                ai,
            ) is Some implies is_preview_card(
            shown[titled_before(container, members, i, snippets, workspace, ai)],
            container,
            members[i],
            slots[i],
            layout,
            snippets,
            workspace,
            ai,
        ) by {
            let p = titled_before(container, members, i, snippets, workspace, ai);
            titled_before_bound(container, members, i, n - 1, snippets, workspace, ai);
            assert(shown[p] == cards[p]);
        }
        let before = previews_show_every_card(
            shown,
            container,
            members,
            n - 1,
            layout,
            slots,
            snippets,
            workspace,
            ai,
        );
        let at = if labelled {
            before.push(n - 1)
        } else {
            before
        };
        assert forall|j: int| #![trigger at[j]] 0 <= j < at.len() implies {
            &&& 0 <= at[j] < n
            &&& label_of(container, members[at[j]].target, snippets, workspace, ai) == Some(
                (cards[j].label@, cards[j].kind),
            )
            &&& cards[j].role == members[at[j]].role
            &&& cards[j].position == place_of(layout.items@, members[at[j]].id@, slots[at[j]])
        } by {
            if j < before.len() {
                assert(at[j] == before[j]);
                assert(shown[j] == cards[j]);
            } else {
                assert(is_preview_card(
                    cards[k],
                    container,
                    members[n - 1],
                    slots[n - 1],
                    layout,
                    snippets,
                    workspace,
                    ai,
                ));
            }
        }
        assert forall|m: int|
            #![trigger members[m]]
            0 <= m < n && label_of(container, members[m].target, snippets, workspace, ai) is Some
                implies at.contains(m) by {
            if m < n - 1 {
                let j = choose|j: int| 0 <= j < before.len() && before[j] == m;
                assert(at[j] == m);
            } else {
                assert(at[before.len() as int] == n - 1);
            }
        }
        at
    }
}

/// Of files with the same identifier the first one is offered, and the files that are
/// offered keep their order.
pub proof fn first_files_are_offered(files: Seq<ExternalFileRef>) -> (at: Seq<int>)
    ensures
        at.len() == distinct_files(files).len(),
        forall|j: int|
            #![trigger at[j]]
            0 <= j < at.len() ==> 0 <= at[j] < files.len() && distinct_files(files)[j]
                == files[at[j]],
        forall|i: int, j: int| 0 <= i < j < at.len() ==> at[i] < at[j],
        forall|k: int|
            #![trigger files[k]]
            0 <= k < files.len() ==> at.contains(k) == !has_file(files.take(k), files[k].id@),
    decreases files.len(),
{
    if files.len() == 0 {
        Seq::empty()
    } else {
        let front = files.drop_last();
        let n = files.len() - 1;
        let before = first_files_are_offered(front);
        linkable_files_are_distinct(front);
        let again = has_file(front, files.last().id@);
        let at = if again {
            before
        } else {
            before.push(n)
        };
        assert forall|j: int| #![trigger at[j]] 0 <= j < at.len() implies 0 <= at[j] < files.len()
            && distinct_files(files)[j] == files[at[j]] by {
            if j < before.len() {
                assert(at[j] == before[j]);
                assert(front[before[j]] == files[at[j]]);
            }
        }
        assert forall|k: int| #![trigger files[k]] 0 <= k < files.len() implies at.contains(k)
            == !has_file(files.take(k), files[k].id@) by {
            if k < n {
                assert(front[k] == files[k]);
                assert(front.take(k) =~= files.take(k));
                if before.contains(k) {
                    let j = choose|j: int| 0 <= j < before.len() && before[j] == k;
                    assert(at[j] == k);
                }
                if at.contains(k) {
                    let j = choose|j: int| 0 <= j < at.len() && at[j] == k;
                    assert(before[j] == k);
                }
            } else {
                assert(files.take(k) =~= front);
                if again {
                    if at.contains(n) {
                        let j = choose|j: int| 0 <= j < at.len() && at[j] == n;
                        assert(before[j] == n);
                    }
                } else {
                    assert(at[before.len() as int] == n);
                }
            }
        }
        at
    }
}

/// Each line that a preview has room for is in it, in full.
pub proof fn previews_hold_the_first_lines(text: Seq<char>, n: int, i: int) -> (around: (
    Seq<char>,
    Seq<char>,
))
    requires
        0 <= i < lines_of(text).len(),
        i < n,
    ensures
        first_lines(text, n) == around.0 + lines_of(text)[i] + around.1,
{
    let all = lines_of(text);
    if all.len() <= n {
        joined_holds_each(all, "\n"@, i)
    } else {
        joined_holds_each(all.take(n), "\n"@, i)
    }
}

/// A menu of a card offers nothing that comes to nothing: each of its choices leads to
/// the card, or to what it stands for.
pub proof fn menus_lead_to_the_card(
    in_ai_box: bool,
    role: MemberRole,
    target: ReferenceTarget,
    last: bool,
    container: ContainerId,
    reference: ReferenceId,
    origin: Viewport,
    i: int,
)
    requires
        0 <= i < menu_of(in_ai_box, role, target, last).len(),
        in_ai_box && role == MemberRole::Conversation ==> target is Conversation,
        in_ai_box && role == MemberRole::Source ==> target is Snippet || target is Container
            || target is ExternalFile,
    ensures
        match outcome_of(
            menu_of(in_ai_box, role, target, last)[i],
            container,
            reference,
            target,
            origin,
        ) {
            CardOutcome::Nothing => false,
            CardOutcome::PickUp(entry) => {
                &&& entry.source_container == container
                &&& entry.reference_id == reference
                &&& entry.target == target
                &&& entry.origin == origin
                &&& entry.semantics == ClipboardSemantics::Move <==> menu_of(
                    in_ai_box,
                    role,
                    target,
                    last,
                )[i] == CardChoice::Move
            },
            CardOutcome::Command(command) => match command {
                CanvasCommand::OpenSnippet(id) => target == ReferenceTarget::Snippet(id),
                CanvasCommand::OpenSnippetReadOnly(id) => target == ReferenceTarget::Snippet(id),
                CanvasCommand::RenameSnippet(id) => target == ReferenceTarget::Snippet(id),
                CanvasCommand::OpenFolder(id) => target == ReferenceTarget::Container(id),
                CanvasCommand::RenameFolder(id) => target == ReferenceTarget::Container(id),
                CanvasCommand::OpenExternalFile(file) => target == ReferenceTarget::ExternalFile(
                    file,
                ),
                CanvasCommand::RenameExternalFile(id) => target matches
                    ReferenceTarget::ExternalFile(file) && file.id == id,
                CanvasCommand::OpenConversation { ai_box, conversation } => ai_box == container
                    && target == ReferenceTarget::Conversation(conversation),
                CanvasCommand::RenameConversation { ai_box, conversation, .. } => ai_box
                    == container && target == ReferenceTarget::Conversation(conversation),
                CanvasCommand::DeleteConversation { ai_box, conversation } => ai_box == container
                    && target == ReferenceTarget::Conversation(conversation),
                CanvasCommand::RemoveAiSource { ai_box, reference: r } => ai_box == container && r
                    == reference,
                CanvasCommand::DeleteReference { owner, reference: r, target: t } => owner
                    == container && r == reference && t == target,
                _ => false,
            },
        },
{
}

/// A card that is not a source and not a conversation of an AI workspace can be linked,
/// moved, and then removed: for good if it is the last one, else only the link.
pub proof fn cards_can_be_linked_moved_and_removed(
    in_ai_box: bool,
    role: MemberRole,
    target: ReferenceTarget,
    last: bool,
)
    requires
        !(target is Special),
        !in_ai_box || role != MemberRole::Source && role != MemberRole::Conversation,
    ensures
        ({
            let menu = menu_of(in_ai_box, role, target, last);
            &&& menu.contains(CardChoice::Link)
            &&& menu.contains(CardChoice::Move)
            &&& menu.contains(CardChoice::Delete) <==> last
            &&& menu.contains(CardChoice::Unlink) <==> !last
            &&& menu.contains(CardChoice::Rename) <==> target is Snippet || target is Container
            &&& menu.contains(CardChoice::RenameFile) <==> target is ExternalFile
        }),
{
    let menu = menu_of(in_ai_box, role, target, last);
    let end = menu.len() - 1;
    assert(menu[0] == CardChoice::Link);
    assert(menu[1] == CardChoice::Move);
    assert(menu[end] == if last {
        CardChoice::Delete
    } else {
        CardChoice::Unlink
    });
    if target is Snippet || target is Container {
        assert(menu[2] == CardChoice::Rename);
    }
    if target is ExternalFile {
        assert(menu[2] == CardChoice::OpenExternally);
        assert(menu[3] == CardChoice::RenameFile);
    }
}

/// A card may be put down where what it stands for exists. A container is never put
/// into itself, and nothing is moved to where it is.
pub proof fn cards_are_put_where_they_can_be(
    target: ReferenceTarget,
    source: ContainerId,
    container: ContainerId,
    snippets: Map<Seq<char>, Snippet>,
    workspace: Workspace,
    payload: DragPayload,
    entry: ClipboardEntry,
    move_semantics: bool,
)
    requires
        payload.target == target,
        payload.source_container == source,
        entry.target == target,
        entry.source_container == source,
        move_semantics == (entry.semantics == ClipboardSemantics::Move),
    ensures
        may_drop(payload, container@, snippets, workspace, move_semantics) == may_paste(
            entry,
            container@,
            snippets,
            workspace,
        ),
        may_drop(payload, container@, snippets, workspace, move_semantics) <==> {
            &&& !(move_semantics && source@ == container@)
            &&& target matches ReferenceTarget::Snippet(id) ==> snippets.contains_key(id@)
            &&& target matches ReferenceTarget::Container(id) ==> workspace.has_container(id@)
                && id@ != container@
            &&& target is Snippet || target is Container || target is ExternalFile
        },
{
}

/// The menu of a canvas: a conversation and a source only in an AI workspace, a new AI
/// workspace only outside of one, and pasting exactly if something is on the clipboard.
pub proof fn canvases_offer_what_fits(in_ai_box: bool, paste: Option<bool>)
    ensures
        ({
            let menu = canvas_menu_of(in_ai_box, paste);
            &&& menu.contains(CanvasChoice::NewConversation) <==> in_ai_box
            &&& menu.contains(CanvasChoice::LinkSource) <==> in_ai_box
            &&& menu.contains(CanvasChoice::NewAiBox) <==> !in_ai_box
            &&& menu.contains(CanvasChoice::Paste) <==> paste == Some(true)
            &&& menu.contains(CanvasChoice::PasteDisabled) <==> paste == Some(false)
            &&& menu.contains(CanvasChoice::Search)
            &&& menu.contains(CanvasChoice::NewSnippet)
            &&& menu.contains(CanvasChoice::NewFolder)
            &&& menu.contains(CanvasChoice::InsertFile)
            &&& menu.contains(CanvasChoice::NewText)
            &&& menu.contains(CanvasChoice::Organize)
        }),
{
    let menu = canvas_menu_of(in_ai_box, paste);
    let n = menu.len() as int;
    assert(menu[0] == CanvasChoice::Search);
    if in_ai_box {
        assert(menu[1] == CanvasChoice::NewConversation);
        assert(menu[2] == CanvasChoice::LinkSource);
    } else {
        assert(menu[1] == CanvasChoice::NewAiBox);
    }
    if paste == Some(true) {
        assert(menu[n - 6] == CanvasChoice::Paste);
    }
    if paste == Some(false) {
        assert(menu[n - 6] == CanvasChoice::PasteDisabled);
    }
    assert(menu[n - 5] == CanvasChoice::NewSnippet);
    assert(menu[n - 4] == CanvasChoice::NewFolder);
    assert(menu[n - 3] == CanvasChoice::InsertFile);
    assert(menu[n - 2] == CanvasChoice::NewText);
    assert(menu[n - 1] == CanvasChoice::Organize);
}

/// What is on the clipboard or dragged is named as its card is, where the card has a
/// label. Only a conversation is not called by its title.
pub proof fn entries_are_named_like_cards(
    container: Seq<char>,
    target: ReferenceTarget,
    snippets: Map<Seq<char>, Snippet>,
    workspace: Workspace,
    ai: Map<Seq<char>, AiBoxData>,
)
    requires
        !(target is Conversation),
        label_of(container, target, snippets, workspace, ai) is Some,
    ensures
        label_of(container, target, snippets, workspace, ai) matches Some((label, _)) && label
            == entry_title(target, snippets, workspace),
{
}

} // verus!
