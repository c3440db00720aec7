//! The workspace: containers, the references that they hold, and managed images.
//!
//! Containers form a graph. A reference is an edge from the container that holds
//! it to its target; nothing owns its target, and there are no parent pointers.
use crate::data::ids::{AttachmentId, ContainerId, ConversationId, EntityId, ExternalFileId,
    ReferenceId};
use crate::data::model::Snippet;
use crate::idmap::{ascending, ascending_lookup, entry_map_keys, first_index, same_keys,
    same_keys_ascending, same_keys_lookup, IdMap, Identifier};
use crate::lists::{filter_all, filter_index_bounds, filter_same, retain, thinned, thinned_index,
    thinned_index_bounds, thinned_index_increases};
pub use crate::data::layout::{CanvasText, CardLayout, ContainerLayout};
pub use crate::data::workspace_store::WorkspaceStore;
use vstd::prelude::*;

verus! {

/// Version of the workspace file that is read and written.
pub const WORKSPACE_VERSION: u32 = 1;

/// Version of the layout files that are read and written.
pub const LAYOUT_VERSION: u32 = 1;

/// The kind of a container. Ordinary containers and AI workspaces share the
/// same canvas, layout and references; the kind only selects the member roles
/// and the AI sidecar.
#[derive(Clone, Copy, Debug, PartialEq, Eq, Structural)]
pub enum ContainerKind {
    /// A regular knowledge container.
    Normal,
    /// An AI workspace: linked members are read-only sources, conversation
    /// cards and outputs that the user confirmed.
    AiWorkspace,
}

impl Default for ContainerKind {
    fn default() -> (r: Self)
        ensures
            r == ContainerKind::Normal,
    {
        ContainerKind::Normal
    }
}

/// The role of a member reference inside an AI workspace. Ordinary containers
/// always use `Normal`.
#[derive(Clone, Copy, Debug, PartialEq, Eq, Structural)]
pub enum MemberRole {
    Normal,
    /// A linked, read-only context source. Removing it only unlinks.
    Source,
    /// A confirmed AI answer, saved as a regular snippet.
    Output,
    /// A conversation card.
    Conversation,
    /// A transient AI result that was not saved.
    Draft,
}

impl Default for MemberRole {
    fn default() -> (r: Self)
        ensures
            r == MemberRole::Normal,
    {
        MemberRole::Normal
    }
}

/// A built-in item. It stays in its container: it is never deleted or linked.
#[derive(Clone, Copy, Debug, PartialEq, Eq, Structural)]
pub enum SpecialKind {
    /// Opens the settings page.
    Settings,
}

impl SpecialKind {
    /// The text of the label shown on the card.
    pub open spec fn label_text(&self) -> Seq<char> {
        match self {
            SpecialKind::Settings => "Settings"@,
        }
    }

    /// The label shown on the card.
    pub fn label(&self) -> (r: &'static str)
        ensures
            r@ == self.label_text(),
    {
        match self {
            SpecialKind::Settings => "Settings",
        }
    }
}

/// A link to a file outside the workspace. Only the path and a display title
/// are kept; the file is never copied.
#[derive(Debug)]
pub struct ExternalFileRef {
    /// Shared by all cards that link the same file.
    pub id: ExternalFileId,
    /// Absolute path of the file.
    pub path: String,
    /// Title shown on the card.
    pub title: String,
    /// MIME type; an image type makes the canvas show the file as an image.
    pub media_type: Option<String>,
}

/// Whether two optional texts are the same.
pub open spec fn same_optional_text(a: Option<String>, b: Option<String>) -> bool {
    match (a, b) {
        (Some(x), Some(y)) => x@ == y@,
        (None, None) => true,
        _ => false,
    }
}

/// A copy of an optional text.
pub fn copy_optional_text(a: &Option<String>) -> (r: Option<String>)
    ensures
        r == *a,
{
    match a {
        Some(x) => Some(x.clone()),
        None => None,
    }
}

/// Whether `a` and `b` are the same optional text.
pub fn optional_texts_equal(a: &Option<String>, b: &Option<String>) -> (r: bool)
    ensures
        r == same_optional_text(*a, *b),
{
    match (a, b) {
        (Some(x), Some(y)) => *x == *y,
        (None, None) => true,
        _ => false,
    }
}

impl ExternalFileRef {
    /// Equal in every field.
    pub open spec fn same(&self, other: &Self) -> bool {
        &&& self.id@ == other.id@
        &&& self.path@ == other.path@
        &&& self.title@ == other.title@
        &&& same_optional_text(self.media_type, other.media_type)
    }
}

impl Clone for ExternalFileRef {
    fn clone(&self) -> (r: Self)
        ensures
            r == *self,
    {
        ExternalFileRef {
            id: self.id.clone(),
            path: self.path.clone(),
            title: self.title.clone(),
            media_type: copy_optional_text(&self.media_type),
        }
    }
}

impl PartialEq for ExternalFileRef {
    fn eq(&self, other: &Self) -> (r: bool) {
        self.id == other.id && self.path == other.path && self.title == other.title
            && optional_texts_equal(&self.media_type, &other.media_type)
    }
}

impl Eq for ExternalFileRef {

}

impl vstd::std_specs::cmp::PartialEqSpecImpl for ExternalFileRef {
    open spec fn obeys_eq_spec() -> bool {
        true
    }

    open spec fn eq_spec(&self, other: &Self) -> bool {
        self.same(other)
    }
}

/// How an image is fitted into its rectangle.
#[derive(Clone, Copy, Debug, PartialEq, Eq, Structural)]
pub enum ImageFit {
    /// The whole image is visible.
    Contain,
    /// The image fills the rectangle.
    Cover,
}

impl Default for ImageFit {
    fn default() -> (r: Self)
        ensures
            r == ImageFit::Contain,
    {
        ImageFit::Contain
    }
}

/// A managed image in the workspace's `attachments` directory.
#[derive(Debug, PartialEq, Eq)]
pub struct ImageAttachment {
    pub id: AttachmentId,
    /// `attachments/{id}.{ext}`, relative to the workspace.
    pub relative_path: String,
    /// Display title.
    pub title: String,
    /// MIME type.
    pub media_type: String,
    /// File size in bytes.
    pub byte_len: u64,
    /// SHA-256 of the file content, in hexadecimal.
    pub content_hash: String,
    /// Width and height in pixels.
    pub pixel_size: [u32; 2],
    /// File stem of the source, if known.
    pub original_name: Option<String>,
}

impl Clone for ImageAttachment {
    fn clone(&self) -> (r: Self)
        ensures
            r == *self,
    {
        ImageAttachment {
            id: self.id.clone(),
            relative_path: self.relative_path.clone(),
            title: self.title.clone(),
            media_type: self.media_type.clone(),
            byte_len: self.byte_len,
            content_hash: self.content_hash.clone(),
            pixel_size: self.pixel_size,
            original_name: copy_optional_text(&self.original_name),
        }
    }
}

/// What a reference points at.
#[derive(Debug)]
pub enum ReferenceTarget {
    Snippet(EntityId),
    Container(ContainerId),
    Special(SpecialKind),
    /// A conversation card. The conversation itself lives in the AI sidecar.
    Conversation(ConversationId),
    /// A card that opens an external file.
    ExternalFile(ExternalFileRef),
    /// A managed image shown on the canvas.
    Image(AttachmentId),
}

impl ReferenceTarget {
    /// The same target: the same kind, with the same identifier or file.
    pub open spec fn same(&self, other: &Self) -> bool {
        match (*self, *other) {
            (ReferenceTarget::Snippet(a), ReferenceTarget::Snippet(b)) => a@ == b@,
            (ReferenceTarget::Container(a), ReferenceTarget::Container(b)) => a@ == b@,
            (ReferenceTarget::Special(a), ReferenceTarget::Special(b)) => a == b,
            (ReferenceTarget::Conversation(a), ReferenceTarget::Conversation(b)) => a@ == b@,
            (ReferenceTarget::ExternalFile(a), ReferenceTarget::ExternalFile(b)) => a.same(&b),
            (ReferenceTarget::Image(a), ReferenceTarget::Image(b)) => a@ == b@,
            _ => false,
        }
    }

    /// Points at the snippet `entity`.
    pub open spec fn is_snippet(&self, entity: Seq<char>) -> bool {
        match *self {
            ReferenceTarget::Snippet(id) => id@ == entity,
            _ => false,
        }
    }

    /// Points at the container `container`.
    pub open spec fn is_container(&self, container: Seq<char>) -> bool {
        match *self {
            ReferenceTarget::Container(id) => id@ == container,
            _ => false,
        }
    }
}

impl Clone for ReferenceTarget {
    fn clone(&self) -> (r: Self)
        ensures
            r == *self,
    {
        match self {
            ReferenceTarget::Snippet(id) => ReferenceTarget::Snippet(id.clone()),
            ReferenceTarget::Container(id) => ReferenceTarget::Container(id.clone()),
            ReferenceTarget::Special(kind) => ReferenceTarget::Special(*kind),
            ReferenceTarget::Conversation(id) => ReferenceTarget::Conversation(id.clone()),
            ReferenceTarget::ExternalFile(file) => ReferenceTarget::ExternalFile(file.clone()),
            ReferenceTarget::Image(id) => ReferenceTarget::Image(id.clone()),
        }
    }
}

impl PartialEq for ReferenceTarget {
    fn eq(&self, other: &Self) -> (r: bool) {
        match (self, other) {
            (ReferenceTarget::Snippet(a), ReferenceTarget::Snippet(b)) => *a == *b,
            (ReferenceTarget::Container(a), ReferenceTarget::Container(b)) => *a == *b,
            (ReferenceTarget::Special(a), ReferenceTarget::Special(b)) => *a == *b,
            (ReferenceTarget::Conversation(a), ReferenceTarget::Conversation(b)) => *a == *b,
            (ReferenceTarget::ExternalFile(a), ReferenceTarget::ExternalFile(b)) => *a == *b,
            (ReferenceTarget::Image(a), ReferenceTarget::Image(b)) => *a == *b,
            _ => false,
        }
    }
}

impl Eq for ReferenceTarget {

}

impl vstd::std_specs::cmp::PartialEqSpecImpl for ReferenceTarget {
    open spec fn obeys_eq_spec() -> bool {
        true
    }

    open spec fn eq_spec(&self, other: &Self) -> bool {
        self.same(other)
    }
}

/// A card: an edge from the container that holds it to its target.
#[derive(Debug, PartialEq, Eq)]
pub struct Reference {
    pub id: ReferenceId,
    pub target: ReferenceTarget,
    pub alias: Option<String>,
    pub presentation: ReferencePresentation,
    pub role: MemberRole,
}

impl Clone for Reference {
    fn clone(&self) -> (r: Self)
        ensures
            r == *self,
    {
        Reference {
            id: self.id.clone(),
            target: self.target.clone(),
            alias: copy_optional_text(&self.alias),
            presentation: self.presentation,
            role: self.role,
        }
    }
}

#[derive(Clone, Copy, Debug, PartialEq, Eq, Structural)]
pub enum ReferencePresentation {
    Card,
    Title,
}

impl Default for ReferencePresentation {
    fn default() -> (r: Self)
        ensures
            r == ReferencePresentation::Card,
    {
        ReferencePresentation::Card
    }
}

/// A container and the cards in it.
#[derive(Debug, PartialEq, Eq)]
pub struct Container {
    pub id: ContainerId,
    pub title: String,
    pub kind: ContainerKind,
    pub members: Vec<Reference>,
}

/// A workspace.
pub struct Workspace {
    pub version: u32,
    pub root: ContainerId,
    pub containers: IdMap<ContainerId, Container>,
    pub images: IdMap<AttachmentId, ImageAttachment>,
}

/// What is wrong with a workspace, or with a request to change it.
#[derive(Clone, Copy, Debug, PartialEq, Eq, Structural)]
pub enum WorkspaceError {
    UnsupportedVersion,
    RootMissing,
    KeyMismatch,
    DuplicateReference,
    TargetContainerMissing,
    TargetImageMissing,
    ContainerMissing,
    ImageExists,
    LayoutMismatch,
    UnsupportedLayoutVersion,
}

impl WorkspaceError {
    /// The text of the message for the user.
    pub open spec fn message_text(&self) -> Seq<char> {
        match self {
            WorkspaceError::UnsupportedVersion => "unsupported workspace version"@,
            WorkspaceError::RootMissing => "workspace root container is missing"@,
            WorkspaceError::KeyMismatch => "container map key does not match its id"@,
            WorkspaceError::DuplicateReference => "duplicate reference id"@,
            WorkspaceError::TargetContainerMissing => "reference targets a missing container"@,
            WorkspaceError::TargetImageMissing => "reference targets a missing image attachment"@,
            WorkspaceError::ContainerMissing => "container is missing"@,
            WorkspaceError::ImageExists => "image attachment id already exists"@,
            WorkspaceError::LayoutMismatch => "layout does not match its container"@,
            WorkspaceError::UnsupportedLayoutVersion => "unsupported layout version"@,
        }
    }

    /// The message for the user.
    pub fn message(&self) -> (r: &'static str)
        ensures
            r@ == self.message_text(),
    {
        match self {
            WorkspaceError::UnsupportedVersion => "unsupported workspace version",
            WorkspaceError::RootMissing => "workspace root container is missing",
            WorkspaceError::KeyMismatch => "container map key does not match its id",
            WorkspaceError::DuplicateReference => "duplicate reference id",
            WorkspaceError::TargetContainerMissing => "reference targets a missing container",
            WorkspaceError::TargetImageMissing => "reference targets a missing image attachment",
            WorkspaceError::ContainerMissing => "container is missing",
            WorkspaceError::ImageExists => "image attachment id already exists",
            WorkspaceError::LayoutMismatch => "layout does not match its container",
            WorkspaceError::UnsupportedLayoutVersion => "unsupported layout version",
        }
    }
}


/// The container `after` is `before` with the members `members`.
pub open spec fn with_members(before: Container, after: Container, members: Seq<Reference>) -> bool {
    &&& after.id == before.id
    &&& after.title == before.title
    &&& after.kind == before.kind
    &&& after.members@ == members
}

/// The reference `r` is a new card for `target` with the given identifier and role.
pub open spec fn is_new_card(
    r: Reference,
    id: Seq<char>,
    target: ReferenceTarget,
    role: MemberRole,
) -> bool {
    &&& r.id@ == id
    &&& r.target == target
    &&& r.alias is None
    &&& r.presentation == ReferencePresentation::Card
    &&& r.role == role
}

/// The target with a new title, if it is the file `id`.
pub open spec fn is_renamed_file(
    after: ReferenceTarget,
    before: ReferenceTarget,
    id: Seq<char>,
    title: Seq<char>,
) -> bool {
    match before {
        ReferenceTarget::ExternalFile(file) => if file.id@ == id {
            after matches ReferenceTarget::ExternalFile(f) && f.id == file.id && f.path == file.path
                && f.media_type == file.media_type && f.title@ == title
        } else {
            after == before
        },
        _ => after == before,
    }
}

/// The card with a new title of its target, if that is the file `id`.
pub open spec fn is_renamed_card(
    after: Reference,
    before: Reference,
    id: Seq<char>,
    title: Seq<char>,
) -> bool {
    &&& after.id == before.id
    &&& after.alias == before.alias
    &&& after.presentation == before.presentation
    &&& after.role == before.role
    &&& is_renamed_file(after.target, before.target, id, title)
}

/// The container with a new title of the file `id` on its cards.
pub open spec fn file_renamed(
    after: Container,
    before: Container,
    id: Seq<char>,
    title: Seq<char>,
) -> bool {
    &&& after.id == before.id
    &&& after.title == before.title
    &&& after.kind == before.kind
    &&& after.members@.len() == before.members@.len()
    &&& forall|j: int|
        0 <= j < before.members@.len() ==> is_renamed_card(
            #[trigger] after.members@[j],
            before.members@[j],
            id,
            title,
        )
}

/// The target with a new title, if it is the file `id`.
pub fn rename_target(target: &ReferenceTarget, id: &ExternalFileId, title: &str) -> (r:
    ReferenceTarget)
    ensures
        is_renamed_file(r, *target, id@, title@),
{
    match target {
        ReferenceTarget::ExternalFile(file) => {
            if file.id == *id {
                ReferenceTarget::ExternalFile(
                    ExternalFileRef {
                        id: file.id.clone(),
                        path: file.path.clone(),
                        title: title.to_owned(),
                        media_type: copy_optional_text(&file.media_type),
                    },
                )
            } else {
                target.clone()
            }
        },
        _ => target.clone(),
    }
}

fn rename_file_in(members: &mut Vec<Reference>, id: &ExternalFileId, title: &str)
    ensures
        final(members)@.len() == old(members)@.len(),
        forall|j: int|
            0 <= j < old(members)@.len() ==> is_renamed_card(
                #[trigger] final(members)@[j],
                old(members)@[j],
                id@,
                title@,
            ),
{
    let ghost before = members@;
    let mut i: usize = 0;
    while i < members.len()
        invariant
            i <= before.len(),
            members@.len() == before.len(),
            forall|j: int|
                0 <= j < i ==> is_renamed_card(#[trigger] members@[j], before[j], id@, title@),
            forall|j: int| i <= j < before.len() ==> #[trigger] members@[j] == before[j],
        decreases before.len() - i,
    {
        let member = &members[i];
        let renamed = Reference {
            id: member.id.clone(),
            target: rename_target(&member.target, id, title),
            alias: copy_optional_text(&member.alias),
            presentation: member.presentation,
            role: member.role,
        };
        members.set(i, renamed);
        i = i + 1;
    }
}

/// A card for a built-in item.
pub open spec fn special(kind: SpecialKind) -> spec_fn(Reference) -> bool {
    |member: Reference| member.target == ReferenceTarget::Special(kind)
}

/// Not a card for this built-in item.
pub open spec fn not_special(kind: SpecialKind) -> spec_fn(Reference) -> bool {
    |member: Reference| member.target != ReferenceTarget::Special(kind)
}

/// How many of the cards are for a built-in item.
pub open spec fn special_count(members: Seq<Reference>, kind: SpecialKind) -> nat {
    members.filter(special(kind)).len()
}

/// The first card from `i` on that is for a built-in item, or the number of cards.
pub open spec fn special_index(members: Seq<Reference>, kind: SpecialKind, i: int) -> int
    decreases members.len() - i,
{
    if 0 <= i < members.len() && members[i].target != ReferenceTarget::Special(kind) {
        special_index(members, kind, i + 1)
    } else {
        i
    }
}

/// The cards without those for a built-in item that come after the first one.
pub open spec fn one_special(members: Seq<Reference>, kind: SpecialKind) -> Seq<Reference> {
    let first = special_index(members, kind, 0);
    members.take(first + 1) + members.skip(first + 1).filter(not_special(kind))
}

proof fn special_index_bounds(members: Seq<Reference>, kind: SpecialKind, i: int)
    requires
        0 <= i <= members.len(),
    ensures
        i <= special_index(members, kind, i) <= members.len(),
        forall|j: int|
            i <= j < special_index(members, kind, i) ==> (#[trigger] members[j]).target
                != ReferenceTarget::Special(kind),
        special_index(members, kind, i) < members.len() ==> members[special_index(
            members,
            kind,
            i,
        )].target == ReferenceTarget::Special(kind),
    decreases members.len() - i,
{
    if i < members.len() && members[i].target != ReferenceTarget::Special(kind) {
        special_index_bounds(members, kind, i + 1);
    }
}

/// Where none is for the built-in item the count is zero.
proof fn no_special(members: Seq<Reference>, kind: SpecialKind)
    requires
        forall|i: int|
            0 <= i < members.len() ==> (#[trigger] members[i]).target != ReferenceTarget::Special(
                kind,
            ),
    ensures
        special_count(members, kind) == 0,
{
    members.lemma_all_neg_filter_empty(special(kind));
}

/// The count of cards up to the first one for the built-in item, and behind it.
proof fn special_split(front: Seq<Reference>, rest: Seq<Reference>, kind: SpecialKind)
    requires
        front.len() > 0,
        front.last().target == ReferenceTarget::Special(kind),
        forall|i: int|
            0 <= i < front.len() - 1 ==> (#[trigger] front[i]).target != ReferenceTarget::Special(
                kind,
            ),
    ensures
        special_count(front + rest, kind) == 1 + special_count(rest, kind),
{
    let head = front.drop_last();
    no_special(head, kind);
    assert(front =~= head.push(front.last()));
    head.lemma_filter_push(front.last(), special(kind));
    Seq::filter_distributes_over_add(front, rest, special(kind));
}

/// How many cards there are for the built-in item is told by the first two of them.
proof fn special_counts(members: Seq<Reference>, kind: SpecialKind)
    ensures
        ({
            let first = special_index(members, kind, 0);
            let second = special_index(members, kind, first + 1);
            &&& first == members.len() <==> special_count(members, kind) == 0
            &&& first < members.len() ==> (second == members.len() <==> special_count(members, kind)
                == 1)
        }),
{
    special_index_bounds(members, kind, 0);
    let first = special_index(members, kind, 0);
    if first == members.len() {
        no_special(members, kind);
    } else {
        let front = members.take(first + 1);
        let rest = members.skip(first + 1);
        assert(members =~= front + rest);
        special_split(front, rest, kind);
        special_index_bounds(members, kind, first + 1);
        let second = special_index(members, kind, first + 1);
        if second == members.len() {
            assert forall|i: int| 0 <= i < rest.len() implies (#[trigger] rest[i]).target
                != ReferenceTarget::Special(kind) by {
                assert(rest[i] == members[first + 1 + i]);
            }
            no_special(rest, kind);
        } else {
            assert(rest[second - first - 1] == members[second]);
            rest.lemma_filter_contains(special(kind), second - first - 1);
        }
    }
}

proof fn one_special_is_one(members: Seq<Reference>, kind: SpecialKind)
    requires
        special_index(members, kind, 0) < members.len(),
    ensures
        special_count(one_special(members, kind), kind) == 1,
{
    special_index_bounds(members, kind, 0);
    let first = special_index(members, kind, 0);
    let front = members.take(first + 1);
    let rest = members.skip(first + 1).filter(not_special(kind));
    assert forall|i: int| 0 <= i < rest.len() implies (#[trigger] rest[i]).target
        != ReferenceTarget::Special(kind) by {
        members.skip(first + 1).lemma_filter_pred(not_special(kind), i);
        assert((not_special(kind))(rest[i]));
    }
    no_special(rest, kind);
    special_split(front, rest, kind);
}

/// Whether a card is for a built-in item.
fn is_special_card(member: &Reference, kind: SpecialKind) -> (r: bool)
    ensures
        r == (member.target == ReferenceTarget::Special(kind)),
{
    match &member.target {
        ReferenceTarget::Special(k) => *k == kind,
        _ => false,
    }
}

/// The first card from `from` on that is for a built-in item, or their number.
fn find_special(members: &Vec<Reference>, kind: SpecialKind, from: usize) -> (r: usize)
    requires
        from <= members@.len(),
    ensures
        r == special_index(members@, kind, from as int),
        r <= members@.len(),
{
    let mut i: usize = from;
    while i < members.len() && !is_special_card(&members[i], kind)
        invariant
            from <= i <= members@.len(),
            special_index(members@, kind, from as int) == special_index(members@, kind, i as int),
        decreases members@.len() - i,
    {
        i = i + 1;
    }
    i
}

impl Workspace {
    /// The maps are in order.
    pub open spec fn wf(&self) -> bool {
        self.containers.wf() && self.images.wf()
    }

    /// Whether the workspace has a container of this identifier.
    pub open spec fn has_container(&self, id: Seq<char>) -> bool {
        self.containers@.contains_key(id)
    }

    /// The members of a container.
    pub open spec fn members_of(&self, id: Seq<char>) -> Seq<Reference> {
        self.containers@[id].members@
    }

    /// Everything but the containers is as in `before`.
    pub open spec fn same_frame(&self, before: Self) -> bool {
        &&& self.version == before.version
        &&& self.root == before.root
        &&& self.images == before.images
    }

    /// `self` is `before` with another list of members in one container.
    pub open spec fn changed_members(
        &self,
        before: Self,
        container: Seq<char>,
        members: Seq<Reference>,
    ) -> bool {
        &&& self.same_frame(before)
        &&& before.has_container(container)
        &&& self.containers@ == before.containers@.insert(container, self.containers@[container])
        &&& with_members(before.containers@[container], self.containers@[container], members)
    }

    /// `self` is `before` with a card for `target` added at the end of a container.
    pub open spec fn added_card(
        &self,
        before: Self,
        container: Seq<char>,
        id: Seq<char>,
        target: ReferenceTarget,
        role: MemberRole,
    ) -> bool {
        let members = self.members_of(container);
        &&& self.changed_members(before, container, members)
        &&& members.len() == before.members_of(container).len() + 1
        &&& members == before.members_of(container).push(members.last())
        &&& is_new_card(members.last(), id, target, role)
    }

    /// `self` is `before` with an empty container put in.
    pub open spec fn added_container(
        &self,
        before: Self,
        id: Seq<char>,
        title: Seq<char>,
        kind: ContainerKind,
    ) -> bool {
        &&& self.same_frame(before)
        &&& self.containers@ == before.containers@.insert(id, self.containers@[id])
        &&& self.containers@[id].id@ == id
        &&& self.containers@[id].title@ == title
        &&& self.containers@[id].kind == kind
        &&& self.members_of(id) == Seq::<Reference>::empty()
    }

    /// The workspace whose only container is an empty root of this identifier.
    pub fn empty_with(root: ContainerId) -> (r: Self)
        ensures
            r.wf(),
            r.version == WORKSPACE_VERSION,
            r.root == root,
            r.images@ == Map::<Seq<char>, ImageAttachment>::empty(),
            r.containers@.dom() == set![root@],
            r.containers@[root@].id == root,
            r.containers@[root@].title@ == "Home"@,
            r.containers@[root@].kind == ContainerKind::Normal,
            r.members_of(root@) == Seq::<Reference>::empty(),
            r.valid(),
    {
        let container = Container {
            id: root.clone(),
            title: "Home".to_owned(),
            kind: ContainerKind::Normal,
            members: Vec::new(),
        };
        let ghost home = container;
        let mut containers: IdMap<ContainerId, Container> = IdMap::new();
        containers.insert(root.clone(), container);
        let r = Workspace { version: WORKSPACE_VERSION, root, containers, images: IdMap::new() };
        proof {
            assert(r.containers@.dom() =~= set![root@]);
            assert forall|i: int, j: int| r.is_place(i, j) implies r.fault_at(i, j) is None by {
                entry_map_keys(r.containers.order(), r.containers.order()[i].0@);
                ascending_lookup(r.containers.order(), i);
                assert(r.containers@.dom().contains(r.containers.order()[i].0@));
            }
        }
        r
    }

    /// A workspace whose only container is an empty root.
    pub fn empty() -> (r: Self)
        ensures
            r.wf(),
            r.valid(),
            r.version == WORKSPACE_VERSION,
            r.images@ == Map::<Seq<char>, ImageAttachment>::empty(),
            r.containers@.dom() == set![r.root@],
            r.containers@[r.root@].id == r.root,
            r.containers@[r.root@].title@ == "Home"@,
            r.containers@[r.root@].kind == ContainerKind::Normal,
            r.members_of(r.root@) == Seq::<Reference>::empty(),
    {
        Workspace::empty_with(ContainerId::new())
    }

    /// The root container.
    pub fn root(&self) -> (r: &Container)
        requires
            self.has_container(self.root@),
        ensures
            *r == self.containers@[self.root@],
    {
        self.containers.get(&self.root).unwrap()
    }

    /// Puts an empty container under `id`.
    pub fn put_container(&mut self, id: ContainerId, title: &str, kind: ContainerKind)
        ensures
            final(self).added_container(*old(self), id@, title@, kind),
            old(self).wf() ==> final(self).wf(),
    {
        let container = Container {
            id: id.clone(),
            title: title.to_owned(),
            kind,
            members: Vec::new(),
        };
        let ghost text = id@;
        self.containers.insert(id, container);
        assert(self.containers@ =~= old(self).containers@.insert(text, self.containers@[text]));
    }

    /// Creates an empty container under a fresh identifier, and returns it.
    pub fn create_container(&mut self, title: &str) -> (r: ContainerId)
        ensures
            crate::data::ids::is_compact_id(r@),
            final(self).added_container(*old(self), r@, title@, ContainerKind::Normal),
            old(self).wf() ==> final(self).wf(),
    {
        let id = ContainerId::new();
        self.put_container(id.clone(), title, ContainerKind::Normal);
        id
    }

    /// Creates an empty AI workspace under a fresh identifier, and returns it.
    pub fn create_ai_box(&mut self, title: &str) -> (r: ContainerId)
        ensures
            crate::data::ids::is_compact_id(r@),
            final(self).added_container(*old(self), r@, title@, ContainerKind::AiWorkspace),
            old(self).wf() ==> final(self).wf(),
    {
        let id = ContainerId::new();
        self.put_container(id.clone(), title, ContainerKind::AiWorkspace);
        id
    }

    /// Is there such a container, and is it an AI workspace?
    pub open spec fn ai_box(&self, container: Seq<char>) -> bool {
        self.has_container(container) && self.containers@[container].kind
            == ContainerKind::AiWorkspace
    }

    /// Whether `container` exists and is an AI workspace.
    pub fn is_ai_box(&self, container: &ContainerId) -> (r: bool)
        ensures
            r == self.ai_box(container@),
    {
        match self.containers.get(container) {
            Some(c) => c.kind == ContainerKind::AiWorkspace,
            None => false,
        }
    }

    /// Adds a card with the given identifier at the end of a container.
    pub fn push_reference(
        &mut self,
        container: &ContainerId,
        id: ReferenceId,
        target: ReferenceTarget,
        role: MemberRole,
    ) -> (r: Result<(), WorkspaceError>)
        ensures
            r is Ok <==> old(self).has_container(container@),
            r is Ok ==> final(self).added_card(*old(self), container@, id@, target, role),
            r is Err ==> r == Err::<(), WorkspaceError>(WorkspaceError::ContainerMissing)
                && *final(self) == *old(self),
            old(self).wf() ==> final(self).wf(),
    {
        match self.containers.get_mut(container) {
            Some(c) => {
                c.members.push(
                    Reference {
                        id,
                        target,
                        alias: None,
                        presentation: ReferencePresentation::Card,
                        role,
                    },
                );
            },
            None => {
                return Err(WorkspaceError::ContainerMissing);
            },
        }
        proof {
            let text = container@;
            assert(self.containers@ =~= old(self).containers@.insert(text, self.containers@[text]));
            let members = self.members_of(text);
            assert(members =~= old(self).members_of(text).push(members.last()));
        }
        Ok(())
    }

    /// Adds a card with a fresh identifier, and returns that.
    fn add_reference_with_role(
        &mut self,
        container: &ContainerId,
        target: ReferenceTarget,
        role: MemberRole,
    ) -> (r: Result<ReferenceId, WorkspaceError>)
        ensures
            r is Ok <==> old(self).has_container(container@),
            r is Ok ==> crate::data::ids::is_compact_id(r->Ok_0@) && final(self).added_card(
                *old(self),
                container@,
                r->Ok_0@,
                target,
                role,
            ),
            r is Err ==> r->Err_0 == WorkspaceError::ContainerMissing && *final(self) == *old(self),
            old(self).wf() ==> final(self).wf(),
    {
        let id = ReferenceId::new();
        match self.push_reference(container, id.clone(), target, role) {
            Ok(()) => Ok(id),
            Err(error) => Err(error),
        }
    }

    fn add_reference(&mut self, container: &ContainerId, target: ReferenceTarget) -> (r: Result<
        ReferenceId,
        WorkspaceError,
    >)
        ensures
            r is Ok <==> old(self).has_container(container@),
            r is Ok ==> crate::data::ids::is_compact_id(r->Ok_0@) && final(self).added_card(
                *old(self),
                container@,
                r->Ok_0@,
                target,
                MemberRole::Normal,
            ),
            r is Err ==> r->Err_0 == WorkspaceError::ContainerMissing && *final(self) == *old(self),
            old(self).wf() ==> final(self).wf(),
    {
        self.add_reference_with_role(container, target, MemberRole::Normal)
    }

    /// Adds a read-only source of an AI box.
    pub fn add_source_reference(&mut self, container: &ContainerId, target: ReferenceTarget) -> (r: Result<
        ReferenceId,
        WorkspaceError,
    >)
        ensures
            r is Ok <==> old(self).has_container(container@),
            r is Ok ==> crate::data::ids::is_compact_id(r->Ok_0@) && final(self).added_card(
                *old(self),
                container@,
                r->Ok_0@,
                target,
                MemberRole::Source,
            ),
            r is Err ==> *final(self) == *old(self) && r->Err_0 == WorkspaceError::ContainerMissing,
            old(self).wf() ==> final(self).wf(),
    {
        self.add_reference_with_role(container, target, MemberRole::Source)
    }

    /// Adds a conversation card.
    pub fn add_conversation_card(&mut self, container: &ContainerId, conversation: ConversationId) -> (r: Result<
        ReferenceId,
        WorkspaceError,
    >)
        ensures
            r is Ok <==> old(self).has_container(container@),
            r is Ok ==> crate::data::ids::is_compact_id(r->Ok_0@) && final(self).added_card(
                *old(self),
                container@,
                r->Ok_0@,
                ReferenceTarget::Conversation(conversation),
                MemberRole::Conversation,
            ),
            r is Err ==> *final(self) == *old(self) && r->Err_0 == WorkspaceError::ContainerMissing,
            old(self).wf() ==> final(self).wf(),
    {
        self.add_reference_with_role(container, ReferenceTarget::Conversation(conversation), MemberRole::Conversation)
    }

    /// Adds a saved answer of an AI box.
    pub fn add_output_reference(&mut self, container: &ContainerId, entity: EntityId) -> (r: Result<
        ReferenceId,
        WorkspaceError,
    >)
        ensures
            r is Ok <==> old(self).has_container(container@),
            r is Ok ==> crate::data::ids::is_compact_id(r->Ok_0@) && final(self).added_card(
                *old(self),
                container@,
                r->Ok_0@,
                ReferenceTarget::Snippet(entity),
                MemberRole::Output,
            ),
            r is Err ==> *final(self) == *old(self) && r->Err_0 == WorkspaceError::ContainerMissing,
            old(self).wf() ==> final(self).wf(),
    {
        self.add_reference_with_role(container, ReferenceTarget::Snippet(entity), MemberRole::Output)
    }

    /// Adds a card for a snippet.
    pub fn add_snippet_reference(&mut self, container: &ContainerId, entity: EntityId) -> (r: Result<
        ReferenceId,
        WorkspaceError,
    >)
        ensures
            r is Ok <==> old(self).has_container(container@),
            r is Ok ==> crate::data::ids::is_compact_id(r->Ok_0@) && final(self).added_card(
                *old(self),
                container@,
                r->Ok_0@,
                ReferenceTarget::Snippet(entity),
                MemberRole::Normal,
            ),
            r is Err ==> *final(self) == *old(self) && r->Err_0 == WorkspaceError::ContainerMissing,
            old(self).wf() ==> final(self).wf(),
    {
        self.add_reference(container, ReferenceTarget::Snippet(entity))
    }

    /// Adds a card for a container, which has to exist.
    pub fn add_container_reference(&mut self, container: &ContainerId, target: ContainerId) -> (r: Result<
        ReferenceId,
        WorkspaceError,
    >)
        ensures
            r is Ok <==> old(self).has_container(container@) && old(self).has_container(target@),
            r is Ok ==> crate::data::ids::is_compact_id(r->Ok_0@) && final(self).added_card(
                *old(self),
                container@,
                r->Ok_0@,
                ReferenceTarget::Container(target),
                MemberRole::Normal,
            ),
            r is Err ==> *final(self) == *old(self) && r->Err_0 == (if old(self).has_container(target@) {
                    WorkspaceError::ContainerMissing
                } else {
                    WorkspaceError::TargetContainerMissing
                }),
            old(self).wf() ==> final(self).wf(),
    {
        if !self.containers.contains_key(&target) {
            return Err(WorkspaceError::TargetContainerMissing);
        }
        self.add_reference(container, ReferenceTarget::Container(target))
    }

    /// Adds a card for an external file.
    pub fn add_external_file_reference(&mut self, container: &ContainerId, file: ExternalFileRef) -> (r: Result<
        ReferenceId,
        WorkspaceError,
    >)
        ensures
            r is Ok <==> old(self).has_container(container@),
            r is Ok ==> crate::data::ids::is_compact_id(r->Ok_0@) && final(self).added_card(
                *old(self),
                container@,
                r->Ok_0@,
                ReferenceTarget::ExternalFile(file),
                MemberRole::Normal,
            ),
            r is Err ==> *final(self) == *old(self) && r->Err_0 == WorkspaceError::ContainerMissing,
            old(self).wf() ==> final(self).wf(),
    {
        self.add_reference(container, ReferenceTarget::ExternalFile(file))
    }

    /// Adds a reference to a registered image.
    pub fn add_image_reference(&mut self, container: &ContainerId, image: AttachmentId) -> (r: Result<
        ReferenceId,
        WorkspaceError,
    >)
        ensures
            r is Ok <==> old(self).has_container(container@) && old(self).images@.contains_key(image@),
            r is Ok ==> crate::data::ids::is_compact_id(r->Ok_0@) && final(self).added_card(
                *old(self),
                container@,
                r->Ok_0@,
                ReferenceTarget::Image(image),
                MemberRole::Normal,
            ),
            r is Err ==> *final(self) == *old(self) && r->Err_0 == (if old(self).images@.contains_key(image@) {
                    WorkspaceError::ContainerMissing
                } else {
                    WorkspaceError::TargetImageMissing
                }),
            old(self).wf() ==> final(self).wf(),
    {
        if !self.images.contains_key(&image) {
            return Err(WorkspaceError::TargetImageMissing);
        }
        self.add_reference(container, ReferenceTarget::Image(image))
    }

    /// Adds a card for a built-in item.
    pub fn add_special_reference(&mut self, container: &ContainerId, kind: SpecialKind) -> (r: Result<
        ReferenceId,
        WorkspaceError,
    >)
        ensures
            r is Ok <==> old(self).has_container(container@),
            r is Ok ==> crate::data::ids::is_compact_id(r->Ok_0@) && final(self).added_card(
                *old(self),
                container@,
                r->Ok_0@,
                ReferenceTarget::Special(kind),
                MemberRole::Normal,
            ),
            r is Err ==> *final(self) == *old(self) && r->Err_0 == WorkspaceError::ContainerMissing,
            old(self).wf() ==> final(self).wf(),
    {
        self.add_reference(container, ReferenceTarget::Special(kind))
    }

    /// Registers an image under its own identifier, unless that is taken.
    pub fn add_image(&mut self, image: ImageAttachment) -> (r: Result<AttachmentId, WorkspaceError>)
        ensures
            r is Ok <==> !old(self).images@.contains_key(image.id@),
            r is Ok ==> {
                &&& r->Ok_0 == image.id
                &&& final(self).images@ == old(self).images@.insert(image.id@, image)
                &&& final(self).version == old(self).version
                &&& final(self).root == old(self).root
                &&& final(self).containers == old(self).containers
            },
            r is Err ==> r->Err_0 == WorkspaceError::ImageExists && *final(self) == *old(self),
            old(self).wf() ==> final(self).wf(),
    {
        let id = image.id.clone();
        if self.images.contains_key(&id) {
            return Err(WorkspaceError::ImageExists);
        }
        self.images.insert(id.clone(), image);
        Ok(id)
    }

    /// Removes the cards of this identifier from a container.
    pub fn remove_reference(&mut self, container: &ContainerId, reference: &ReferenceId) -> (r: Result<
        (),
        WorkspaceError,
    >)
        ensures
            r is Ok <==> old(self).has_container(container@),
            r is Ok ==> final(self).changed_members(
                *old(self),
                container@,
                old(self).members_of(container@).filter(without_reference(reference@)),
            ),
            r is Err ==> r->Err_0 == WorkspaceError::ContainerMissing && *final(self) == *old(self),
            old(self).wf() ==> final(self).wf(),
    {
        match self.containers.get_mut(container) {
            Some(c) => {
                let keep = |member: &Reference| -> (b: bool)
                    ensures
                        b == (member.id@ != reference@),
                    { member.id != *reference };
                retain(&mut c.members, keep, Ghost(without_reference(reference@)));
            },
            None => {
                return Err(WorkspaceError::ContainerMissing);
            },
        }
        proof {
            let text = container@;
            assert(self.containers@ =~= old(self).containers@.insert(text, self.containers@[text]));
        }
        Ok(())
    }

    /// `self` is `before` with another title of one container.
    pub open spec fn retitled(&self, before: Self, container: Seq<char>, title: Seq<char>) -> bool {
        let c = self.containers@[container];
        &&& self.same_frame(before)
        &&& before.has_container(container)
        &&& self.containers@ == before.containers@.insert(container, c)
        &&& c.id == before.containers@[container].id
        &&& c.kind == before.containers@[container].kind
        &&& c.members == before.containers@[container].members
        &&& c.title@ == title
    }

    /// Gives a container a new title. Returns whether there is one.
    pub fn rename_container(&mut self, container: &ContainerId, title: &str) -> (r: bool)
        ensures
            r == old(self).has_container(container@),
            r ==> final(self).retitled(*old(self), container@, title@),
            !r ==> *final(self) == *old(self),
            old(self).wf() ==> final(self).wf(),
    {
        match self.containers.get_mut(container) {
            Some(c) => {
                c.title = title.to_owned();
                true
            },
            None => false,
        }
    }

    /// Gives an external file a new title on all cards that point at it.
    pub fn rename_file(&mut self, id: &ExternalFileId, title: &str)
        ensures
            final(self).same_frame(*old(self)),
            final(self).containers@.dom() == old(self).containers@.dom(),
            forall|c: Seq<char>| #[trigger]
                final(self).containers@.contains_key(c) ==> file_renamed(
                    final(self).containers@[c],
                    old(self).containers@[c],
                    id@,
                    title@,
                ),
            old(self).wf() ==> final(self).wf(),
    {
        let ghost before = self.containers.order();
        let mut i: usize = 0;
        while i < self.containers.len()
            invariant
                i <= before.len(),
                before == old(self).containers.order(),
                self.same_frame(*old(self)),
                same_keys(before, self.containers.order()),
                forall|j: int|
                    0 <= j < i ==> file_renamed(
                        #[trigger] self.containers.order()[j].1,
                        before[j].1,
                        id@,
                        title@,
                    ),
                forall|j: int|
                    i <= j < before.len() ==> #[trigger] self.containers.order()[j] == before[j],
            decreases before.len() - i,
        {
            let ghost here = self.containers.order();
            let c = self.containers.value_at_mut(i);
            rename_file_in(&mut c.members, id, title);
            assert(here[i as int] == before[i as int]);
            i = i + 1;
        }
        proof {
            let after = self.containers.order();
            assert forall|c: Seq<char>| #[trigger]
                self.containers@.contains_key(c) implies file_renamed(
                self.containers@[c],
                old(self).containers@[c],
                id@,
                title@,
            ) by {
                same_keys_lookup(before, after, c);
                assert(self.containers.order()[first_index(before, c)].1 == self.containers@[c]);
            }
            assert forall|c: Seq<char>|
                self.containers@.contains_key(c) == old(self).containers@.contains_key(c) by {
                same_keys_lookup(before, after, c);
            }
            assert(self.containers@.dom() =~= old(self).containers@.dom());
            if ascending(before) {
                same_keys_ascending(before, after);
            }
        }
    }

    /// Adds a card for a snippet to the root.
    pub fn add_snippet_to_root(&mut self, entity: EntityId) -> (r: ReferenceId)
        requires
            old(self).has_container(old(self).root@),
        ensures
            crate::data::ids::is_compact_id(r@),
            final(self).added_card(
                *old(self),
                old(self).root@,
                r@,
                ReferenceTarget::Snippet(entity),
                MemberRole::Normal,
            ),
            old(self).wf() ==> final(self).wf(),
    {
        let root = self.root.clone();
        match self.add_snippet_reference(&root, entity) {
            Ok(id) => id,
            Err(_) => {
                assert(false);
                ReferenceId::new()
            },
        }
    }

    /// Adds a card for a container to the root.
    pub fn add_container_to_root(&mut self, container: ContainerId) -> (r: ReferenceId)
        requires
            old(self).has_container(old(self).root@),
            old(self).has_container(container@),
        ensures
            crate::data::ids::is_compact_id(r@),
            final(self).added_card(
                *old(self),
                old(self).root@,
                r@,
                ReferenceTarget::Container(container),
                MemberRole::Normal,
            ),
            old(self).wf() ==> final(self).wf(),
    {
        let root = self.root.clone();
        match self.add_container_reference(&root, container) {
            Ok(id) => id,
            Err(_) => {
                assert(false);
                ReferenceId::new()
            },
        }
    }

    /// Adds a card for a built-in item to the root.
    pub fn add_special_to_root(&mut self, kind: SpecialKind) -> (r: ReferenceId)
        requires
            old(self).has_container(old(self).root@),
        ensures
            crate::data::ids::is_compact_id(r@),
            final(self).added_card(
                *old(self),
                old(self).root@,
                r@,
                ReferenceTarget::Special(kind),
                MemberRole::Normal,
            ),
            old(self).wf() ==> final(self).wf(),
    {
        let root = self.root.clone();
        match self.add_special_reference(&root, kind) {
            Ok(id) => id,
            Err(_) => {
                assert(false);
                ReferenceId::new()
            },
        }
    }

    /// Makes sure that `container` holds exactly one card for `kind`: one is added
    /// if there is none, and of several only the first stays. Returns whether one
    /// was added.
    pub fn ensure_special(&mut self, container: &ContainerId, kind: SpecialKind) -> (r: Result<
        bool,
        WorkspaceError,
    >)
        ensures
            exists|id: Seq<char>|
                crate::data::ids::is_compact_id(id) && #[trigger] final(self).ensured_special(
                    *old(self),
                    r,
                    container@,
                    kind,
                    id,
                ),
            old(self).wf() ==> final(self).wf(),
    {
        self.ensure_special_as(container, kind, ReferenceId::new())
    }

    /// The outcome of making sure that a container holds exactly one card for
    /// `kind`. A card that is added has the identifier `id`.
    pub open spec fn ensured_special(
        &self,
        before: Self,
        r: Result<bool, WorkspaceError>,
        container: Seq<char>,
        kind: SpecialKind,
        id: Seq<char>,
    ) -> bool {
        let members = before.members_of(container);
        if !before.has_container(container) {
            r == Err::<bool, WorkspaceError>(WorkspaceError::ContainerMissing) && *self == before
        } else {
            &&& r == Ok::<bool, WorkspaceError>(special_count(members, kind) == 0)
            &&& special_count(self.members_of(container), kind) == 1
            &&& if special_count(members, kind) == 0 {
                self.added_card(
                    before,
                    container,
                    id,
                    ReferenceTarget::Special(kind),
                    MemberRole::Normal,
                )
            } else if special_count(members, kind) == 1 {
                *self == before
            } else {
                self.changed_members(before, container, one_special(members, kind))
            }
        }
    }

    /// [`ensure_special`](Self::ensure_special) with the identifier of a card that
    /// is added.
    pub fn ensure_special_as(
        &mut self,
        container: &ContainerId,
        kind: SpecialKind,
        id: ReferenceId,
    ) -> (r: Result<bool, WorkspaceError>)
        ensures
            final(self).ensured_special(*old(self), r, container@, kind, id@),
            old(self).wf() ==> final(self).wf(),
    {
        let (first, second, size) = match self.containers.get(container) {
            Some(c) => {
                let first = find_special(&c.members, kind, 0);
                let size = c.members.len();
                let second = if first < size {
                    find_special(&c.members, kind, first + 1)
                } else {
                    size
                };
                (first, second, size)
            },
            None => {
                return Err(WorkspaceError::ContainerMissing);
            },
        };
        let ghost members = self.members_of(container@);
        proof {
            special_counts(members, kind);
            special_index_bounds(members, kind, 0);
        }
        if second < size {
            if let Some(c) = self.containers.get_mut(container) {
                let mut rest = c.members.split_off(first + 1);
                let keep = |member: &Reference| -> (b: bool)
                    ensures
                        b == (not_special(kind))(*member),
                    { !is_special_card(member, kind) };
                retain(&mut rest, keep, Ghost(not_special(kind)));
                c.members.append(&mut rest);
            }
            proof {
                let text = container@;
                assert(members.subrange(0, first + 1) =~= members.take(first + 1));
                assert(members.subrange(first + 1, members.len() as int) =~= members.skip(
                    first + 1,
                ));
                assert(self.containers@ =~= old(self).containers@.insert(
                    text,
                    self.containers@[text],
                ));
                one_special_is_one(members, kind);
            }
            return Ok(false);
        }
        if first < size {
            return Ok(false);
        }
        match self.push_reference(
            container,
            id,
            ReferenceTarget::Special(kind),
            MemberRole::Normal,
        ) {
            Ok(()) => {
                proof {
                    let added = self.members_of(container@);
                    members.lemma_filter_push(added.last(), special(kind));
                    assert(added == members.push(added.last()));
                }
                Ok(true)
            },
            Err(error) => Err(error),
        }
    }

    /// Removes every card that points at a snippet. All else stays.
    pub fn remove_entity_references(&mut self, entity: &EntityId)
        ensures
            final(self).same_frame(*old(self)),
            final(self).containers@.dom() == old(self).containers@.dom(),
            forall|c: Seq<char>| #[trigger]
                final(self).containers@.contains_key(c) ==> with_members(
                    old(self).containers@[c],
                    final(self).containers@[c],
                    old(self).members_of(c).filter(without_snippet(entity@)),
                ),
            old(self).wf() ==> final(self).wf(),
    {
        let ghost before = self.containers.order();
        let mut i: usize = 0;
        while i < self.containers.len()
            invariant
                i <= before.len(),
                self.same_frame(*old(self)),
                same_keys(before, self.containers.order()),
                forall|j: int|
                    0 <= j < i ==> with_members(
                        before[j].1,
                        #[trigger] self.containers.order()[j].1,
                        before[j].1.members@.filter(without_snippet(entity@)),
                    ),
                forall|j: int| i <= j < before.len() ==> #[trigger] self.containers.order()[j] == before[j],
            decreases before.len() - i,
        {
            let ghost here = self.containers.order();
            let c = self.containers.value_at_mut(i);
            let keep = |member: &Reference| -> (b: bool)
                ensures
                    b == (without_snippet(entity@))(*member),
                {
                    match &member.target {
                        ReferenceTarget::Snippet(id) => *id != *entity,
                        _ => true,
                    }
                };
            retain(&mut c.members, keep, Ghost(without_snippet(entity@)));
            assert(here[i as int] == before[i as int]);
            i = i + 1;
        }
        proof {
            let after = self.containers.order();
            assert forall|c: Seq<char>| #[trigger]
                self.containers@.contains_key(c) implies with_members(
                old(self).containers@[c],
                self.containers@[c],
                old(self).members_of(c).filter(without_snippet(entity@)),
            ) by {
                same_keys_lookup(before, after, c);
                assert(self.containers.order()[first_index(before, c)].1 == self.containers@[c]);
            }
            assert forall|c: Seq<char>|
                self.containers@.contains_key(c) == old(self).containers@.contains_key(c) by {
                same_keys_lookup(before, after, c);
            }
            assert(self.containers@.dom() =~= old(self).containers@.dom());
            if ascending(before) {
                same_keys_ascending(before, after);
            }
        }
    }

    /// A place that validation looks at: the container at `i` itself for
    /// `j == 0`, its member `j - 1` for `j > 0`.
    pub open spec fn is_place(&self, i: int, j: int) -> bool {
        0 <= i < self.containers.order().len() && 0 <= j
            <= self.containers.order()[i].1.members@.len()
    }

    /// Validation looks at the place `(a, b)` before it looks at `(i, j)`.
    pub open spec fn comes_before(a: int, b: int, i: int, j: int) -> bool {
        a < i || (a == i && b < j)
    }

    /// The reference at a place with `j > 0`.
    pub open spec fn reference_at(&self, i: int, j: int) -> Reference {
        self.containers.order()[i].1.members@[j - 1]
    }

    /// An earlier place holds a reference of the same identifier.
    pub open spec fn repeated_at(&self, i: int, j: int) -> bool {
        exists|a: int, b: int| #[trigger]
            self.is_place(a, b) && b > 0 && Self::comes_before(a, b, i, j) && self.reference_at(
                a,
                b,
            ).id@ == self.reference_at(i, j).id@
    }

    /// What is wrong at a place, if anything.
    pub open spec fn fault_at(&self, i: int, j: int) -> Option<WorkspaceError> {
        if j == 0 {
            if self.containers.order()[i].0@ != self.containers.order()[i].1.id@ {
                Some(WorkspaceError::KeyMismatch)
            } else {
                None
            }
        } else if self.repeated_at(i, j) {
            Some(WorkspaceError::DuplicateReference)
        } else {
            match self.reference_at(i, j).target {
                ReferenceTarget::Container(target) => if self.has_container(target@) {
                    None
                } else {
                    Some(WorkspaceError::TargetContainerMissing)
                },
                ReferenceTarget::Image(image) => if self.images@.contains_key(image@) {
                    None
                } else {
                    Some(WorkspaceError::TargetImageMissing)
                },
                _ => None,
            }
        }
    }

    /// A workspace that can be saved and loaded.
    pub open spec fn valid(&self) -> bool {
        &&& self.version == WORKSPACE_VERSION
        &&& self.has_container(self.root@)
        &&& forall|i: int, j: int| #[trigger] self.is_place(i, j) ==> self.fault_at(i, j) is None
    }

    /// Validation refuses the workspace with this error.
    pub open spec fn refused_with(&self, error: WorkspaceError) -> bool {
        if self.version != WORKSPACE_VERSION {
            error == WorkspaceError::UnsupportedVersion
        } else if !self.has_container(self.root@) {
            error == WorkspaceError::RootMissing
        } else {
            exists|i: int, j: int| #[trigger]
                self.is_place(i, j) && self.fault_at(i, j) == Some(error) && forall|a: int, b: int|
                 #[trigger]
                    self.is_place(a, b) && Self::comes_before(a, b, i, j) ==> self.fault_at(
                        a,
                        b,
                    ) is None
        }
    }

    /// Whether a reference before the place `(i, j)` has the identifier `id`.
    fn seen_before(&self, i: usize, j: usize, id: &ReferenceId) -> (r: bool)
        requires
            self.is_place(i as int, j as int),
        ensures
            r == exists|a: int, b: int| #[trigger]
                self.is_place(a, b) && b > 0 && Self::comes_before(a, b, i as int, j as int)
                    && self.reference_at(a, b).id@ == id@,
    {
        let mut a: usize = 0;
        while a < self.containers.len() && a <= i
            invariant
                self.is_place(i as int, j as int),
                a <= i + 1,
                forall|x: int, y: int| #[trigger]
                    self.is_place(x, y) && x < a && y > 0 && Self::comes_before(
                        x,
                        y,
                        i as int,
                        j as int,
                    ) ==> self.reference_at(x, y).id@ != id@,
            decreases i + 1 - a,
        {
            let members = &self.containers.value_at(a).members;
            let mut k: usize = 0;
            while k < members.len() && (a < i || k + 1 < j)
                invariant
                    k <= members@.len(),
                    a <= i < self.containers.order().len(),
                    *members == self.containers.order()[a as int].1.members,
                    self.is_place(i as int, j as int),
                    forall|x: int, y: int| #[trigger]
                        self.is_place(x, y) && (x < a || (x == a && y <= k)) && y > 0
                            && Self::comes_before(x, y, i as int, j as int) ==> self.reference_at(
                            x,
                            y,
                        ).id@ != id@,
                decreases members@.len() - k,
            {
                if members[k].id == *id {
                    assert(self.is_place(a as int, k + 1));
                    assert(self.reference_at(a as int, k + 1).id@ == id@);
                    return true;
                }
                k = k + 1;
            }
            a = a + 1;
        }
        false
    }

    /// Checks that the workspace is valid. The error is that of the first fault.
    pub fn validate(&self) -> (r: Result<(), WorkspaceError>)
        ensures
            r is Ok <==> self.valid(),
            r is Err ==> self.refused_with(r->Err_0),
    {
        if self.version != WORKSPACE_VERSION {
            return Err(WorkspaceError::UnsupportedVersion);
        }
        if !self.containers.contains_key(&self.root) {
            return Err(WorkspaceError::RootMissing);
        }
        let mut i: usize = 0;
        while i < self.containers.len()
            invariant
                i <= self.containers.order().len(),
                self.version == WORKSPACE_VERSION,
                self.has_container(self.root@),
                forall|a: int, b: int| #[trigger]
                    self.is_place(a, b) && a < i ==> self.fault_at(a, b) is None,
            decreases self.containers.order().len() - i,
        {
            let container = self.containers.value_at(i);
            assert(self.is_place(i as int, 0));
            if *self.containers.key_at(i) != container.id {
                assert(self.fault_at(i as int, 0) == Some(WorkspaceError::KeyMismatch));
                return Err(WorkspaceError::KeyMismatch);
            }
            let mut k: usize = 0;
            while k < container.members.len()
                invariant
                    i < self.containers.order().len(),
                    *container == self.containers.order()[i as int].1,
                    k <= container.members@.len(),
                    self.version == WORKSPACE_VERSION,
                    self.has_container(self.root@),
                    forall|a: int, b: int| #[trigger]
                        self.is_place(a, b) && (a < i || (a == i && b <= k)) ==> self.fault_at(
                            a,
                            b,
                        ) is None,
                decreases container.members@.len() - k,
            {
                let reference = &container.members[k];
                assert(self.is_place(i as int, k + 1));
                assert(self.reference_at(i as int, k + 1) == *reference);
                if self.seen_before(i, k + 1, &reference.id) {
                    assert(self.fault_at(i as int, k + 1) == Some(
                        WorkspaceError::DuplicateReference,
                    ));
                    return Err(WorkspaceError::DuplicateReference);
                }
                if let ReferenceTarget::Container(target) = &reference.target {
                    if !self.containers.contains_key(target) {
                        assert(self.fault_at(i as int, k + 1) == Some(
                            WorkspaceError::TargetContainerMissing,
                        ));
                        return Err(WorkspaceError::TargetContainerMissing);
                    }
                }
                if let ReferenceTarget::Image(image) = &reference.target {
                    if !self.images.contains_key(image) {
                        assert(self.fault_at(i as int, k + 1) == Some(
                            WorkspaceError::TargetImageMissing,
                        ));
                        return Err(WorkspaceError::TargetImageMissing);
                    }
                }
                k = k + 1;
            }
            i = i + 1;
        }
        Ok(())
    }
}

/// Not the reference of this identifier.
pub open spec fn without_reference(id: Seq<char>) -> spec_fn(Reference) -> bool {
    |member: Reference| member.id@ != id
}

/// Not a reference to this snippet.
pub open spec fn without_snippet(entity: Seq<char>) -> spec_fn(Reference) -> bool {
    |member: Reference| !member.target.is_snippet(entity)
}


impl Workspace {
    /// There is a card at index `i` of container `c`.
    pub open spec fn has_card(&self, c: Seq<char>, i: int) -> bool {
        self.has_container(c) && 0 <= i < self.members_of(c).len()
    }

    /// The target of a card exists, as far as the workspace knows of it.
    pub open spec fn target_exists(&self, target: ReferenceTarget) -> bool {
        match target {
            ReferenceTarget::Container(id) => self.has_container(id@),
            ReferenceTarget::Image(id) => self.images@.contains_key(id@),
            _ => true,
        }
    }

    /// Every container is filed under its own identifier, no two cards share an
    /// identifier, and the containers and images that cards point at exist.
    pub open spec fn consistent(&self) -> bool {
        &&& forall|c: Seq<char>| #[trigger]
            self.has_container(c) ==> self.containers@[c].id@ == c
        &&& forall|c: Seq<char>, i: int, d: Seq<char>, j: int|
            #![trigger self.has_card(c, i), self.has_card(d, j)]
            self.has_card(c, i) && self.has_card(d, j) && self.members_of(c)[i].id@
                == self.members_of(d)[j].id@ ==> c == d && i == j
        &&& forall|c: Seq<char>, i: int| #[trigger]
            self.has_card(c, i) ==> self.target_exists(self.members_of(c)[i].target)
    }

    /// No card has this identifier.
    pub open spec fn unused_reference(&self, id: Seq<char>) -> bool {
        forall|c: Seq<char>, i: int| #[trigger]
            self.has_card(c, i) ==> self.members_of(c)[i].id@ != id
    }
}

/// A workspace is valid exactly when it has the supported version and a root,
/// and is consistent.
pub proof fn valid_means_consistent(w: Workspace)
    requires
        w.wf(),
    ensures
        w.valid() <==> w.version == WORKSPACE_VERSION && w.has_container(w.root@)
            && w.consistent(),
{
    let order = w.containers.order();
    assert forall|c: Seq<char>| #[trigger] w.has_container(c) implies exists|i: int|
        0 <= i < order.len() && (#[trigger] order[i]).0@ == c && order[i].1 == w.containers@[c] by {
        entry_map_keys(order, c);
        let i = choose|i: int| 0 <= i < order.len() && (#[trigger] order[i]).0.text() == c;
        ascending_lookup(order, i);
        assert(order[i].0@ == c);
    }
    assert forall|i: int| 0 <= i < order.len() implies w.has_container((#[trigger] order[i]).0@)
        && w.containers@[order[i].0@] == order[i].1 by {
        ascending_lookup(order, i);
    }
    if w.valid() {
        assert forall|c: Seq<char>| #[trigger]
            w.has_container(c) implies w.containers@[c].id@ == c by {
            let i = choose|i: int|
                0 <= i < order.len() && (#[trigger] order[i]).0@ == c && order[i].1
                    == w.containers@[c];
            assert(w.is_place(i, 0));
        }
        assert forall|c: Seq<char>, k: int, d: Seq<char>, l: int|
            #![trigger w.has_card(c, k), w.has_card(d, l)]
            w.has_card(c, k) && w.has_card(d, l) && w.members_of(c)[k].id@ == w.members_of(
                d,
            )[l].id@ implies c == d && k == l by {
            assert(w.has_container(c) && w.has_container(d));
            let i = choose|i: int|
                0 <= i < order.len() && (#[trigger] order[i]).0@ == c && order[i].1
                    == w.containers@[c];
            let j = choose|j: int|
                0 <= j < order.len() && (#[trigger] order[j]).0@ == d && order[j].1
                    == w.containers@[d];
            assert(w.is_place(i, k + 1));
            assert(w.is_place(j, l + 1));
            if Workspace::comes_before(i, k + 1, j, l + 1) {
                assert(w.repeated_at(j, l + 1));
            } else if Workspace::comes_before(j, l + 1, i, k + 1) {
                assert(w.repeated_at(i, k + 1));
            }
        }
        assert forall|c: Seq<char>, k: int| #[trigger] w.has_card(c, k) implies w.target_exists(
            w.members_of(c)[k].target,
        ) by {
            assert(w.has_container(c));
            let i = choose|i: int|
                0 <= i < order.len() && (#[trigger] order[i]).0@ == c && order[i].1
                    == w.containers@[c];
            assert(w.is_place(i, k + 1));
        }
    }
    if w.version == WORKSPACE_VERSION && w.has_container(w.root@) && w.consistent() {
        assert forall|i: int, j: int| #[trigger] w.is_place(i, j) implies w.fault_at(
            i,
            j,
        ) is None by {
            let c = order[i].0@;
            assert(w.has_container(c));
            if j > 0 {
                assert(w.has_card(c, j - 1));
                if w.repeated_at(i, j) {
                    let (a, b) = choose|a: int, b: int| #[trigger]
                        w.is_place(a, b) && b > 0 && Workspace::comes_before(a, b, i, j)
                            && w.reference_at(a, b).id@ == w.reference_at(i, j).id@;
                    let d = order[a].0@;
                    assert(w.has_card(d, b - 1));
                    if a < i {
                        crate::text::text_less_irreflexive(c);
                        assert(crate::text::text_less(order[a].0.text(), order[i].0.text()));
                    }
                }
            }
        }
    }
}

/// Adding a card under an unused identifier for a target that exists keeps a
/// workspace consistent.
pub proof fn added_card_keeps_consistent(
    before: Workspace,
    after: Workspace,
    container: Seq<char>,
    id: Seq<char>,
    target: ReferenceTarget,
    role: MemberRole,
)
    requires
        before.consistent(),
        before.unused_reference(id),
        before.target_exists(target),
        after.added_card(before, container, id, target, role),
    ensures
        after.consistent(),
{
    let n = before.members_of(container).len() as int;
    assert forall|c: Seq<char>| after.has_container(c) == #[trigger] before.has_container(c) by {}
    assert forall|c: Seq<char>, i: int| #[trigger] after.has_card(c, i) implies (if c == container
        && i == n {
        after.members_of(c)[i].id@ == id && after.members_of(c)[i].target == target
    } else {
        before.has_card(c, i) && after.members_of(c)[i] == before.members_of(c)[i]
    }) by {
        assert(before.has_container(c));
    }
    assert forall|c: Seq<char>| #[trigger] after.has_container(c) implies after.containers@[c].id@
        == c by {
        assert(before.has_container(c));
    }
    assert forall|c: Seq<char>, i: int| #[trigger] after.has_card(c, i) implies after.target_exists(
        after.members_of(c)[i].target,
    ) by {
        match after.members_of(c)[i].target {
            ReferenceTarget::Container(t) => {
                assert(before.has_container(t@));
            },
            _ => {},
        }
    }
    assert forall|c: Seq<char>, i: int, d: Seq<char>, j: int|
        #![trigger after.has_card(c, i), after.has_card(d, j)]
        after.has_card(c, i) && after.has_card(d, j) && after.members_of(c)[i].id@
            == after.members_of(d)[j].id@ implies c == d && i == j by {
        if !(c == container && i == n) {
            assert(before.has_card(c, i));
        }
        if !(d == container && j == n) {
            assert(before.has_card(d, j));
        }
    }
}

/// Leaving out cards keeps a workspace consistent.
pub proof fn thinning_keeps_consistent(before: Workspace, after: Workspace)
    requires
        before.consistent(),
        after.same_frame(before),
        after.containers@.dom() == before.containers@.dom(),
        forall|c: Seq<char>| #[trigger]
            before.has_container(c) ==> after.containers@[c].id == before.containers@[c].id
                && thinned(before.members_of(c), after.members_of(c)),
    ensures
        after.consistent(),
{
    assert forall|c: Seq<char>| #[trigger] after.has_container(c) implies before.has_container(
        c,
    ) by {
        assert(after.containers@.dom().contains(c));
    }
    assert forall|c: Seq<char>| #[trigger] before.has_container(c) implies after.has_container(
        c,
    ) by {
        assert(before.containers@.dom().contains(c));
    }
    assert forall|c: Seq<char>, i: int| #[trigger] after.has_card(c, i) implies before.has_card(
        c,
        thinned_index(before.members_of(c), after.members_of(c), i),
    ) && before.members_of(c)[thinned_index(before.members_of(c), after.members_of(c), i)]
        == after.members_of(c)[i] by {
        assert(before.has_container(c));
        thinned_index_bounds(before.members_of(c), after.members_of(c), i);
    }
    assert forall|c: Seq<char>, i: int| #[trigger] after.has_card(c, i) implies after.target_exists(
        after.members_of(c)[i].target,
    ) by {
        let k = thinned_index(before.members_of(c), after.members_of(c), i);
        assert(before.has_card(c, k));
        match after.members_of(c)[i].target {
            ReferenceTarget::Container(t) => {
                assert(before.has_container(t@));
            },
            _ => {},
        }
    }
    assert forall|c: Seq<char>, i: int, d: Seq<char>, j: int|
        #![trigger after.has_card(c, i), after.has_card(d, j)]
        after.has_card(c, i) && after.has_card(d, j) && after.members_of(c)[i].id@
            == after.members_of(d)[j].id@ implies c == d && i == j by {
        let k = thinned_index(before.members_of(c), after.members_of(c), i);
        let l = thinned_index(before.members_of(d), after.members_of(d), j);
        assert(before.has_card(c, k) && before.has_card(d, l));
        if i < j {
            thinned_index_increases(before.members_of(c), after.members_of(c), i, j);
        }
        if j < i {
            thinned_index_increases(before.members_of(c), after.members_of(c), j, i);
        }
    }
}

/// Leaving out all but the first card for a built-in item keeps a workspace
/// consistent.
pub proof fn one_special_keeps_consistent(
    before: Workspace,
    after: Workspace,
    container: Seq<char>,
    kind: SpecialKind,
)
    requires
        before.consistent(),
        special_count(before.members_of(container), kind) > 0,
        after.changed_members(
            before,
            container,
            one_special(before.members_of(container), kind),
        ),
    ensures
        after.consistent(),
{
    let members = before.members_of(container);
    special_counts(members, kind);
    special_index_bounds(members, kind, 0);
    let first = special_index(members, kind, 0);
    let id = members[first].id@;
    let keep = |m: Reference| m.target != ReferenceTarget::Special(kind) || m.id@ == id;
    let front = members.take(first + 1);
    let rest = members.skip(first + 1);
    assert(members =~= front + rest);
    Seq::filter_distributes_over_add(front, rest, keep);
    filter_all(front, keep);
    assert(before.has_card(container, first));
    assert forall|i: int| 0 <= i < rest.len() implies keep(#[trigger] rest[i]) == (not_special(
        kind,
    ))(rest[i]) by {
        assert(rest[i] == members[first + 1 + i]);
        assert(before.has_card(container, first + 1 + i));
    }
    filter_same(rest, keep, not_special(kind));
    assert(one_special(members, kind) == members.filter(keep));
    assert(after.containers@.dom() =~= before.containers@.dom());
    thinning_keeps_consistent(before, after);
}

/// Removing a card keeps a workspace consistent, and the container holds no
/// card of that identifier any more.
pub proof fn removed_card_keeps_consistent(
    before: Workspace,
    after: Workspace,
    container: Seq<char>,
    id: Seq<char>,
)
    requires
        before.consistent(),
        after.changed_members(
            before,
            container,
            before.members_of(container).filter(without_reference(id)),
        ),
    ensures
        after.consistent(),
        forall|i: int| #[trigger]
            after.has_card(container, i) ==> after.members_of(container)[i].id@ != id,
{
    assert(before.has_container(container));
    assert(after.containers@.dom() =~= before.containers@.dom());
    thinning_keeps_consistent(before, after);
    assert forall|i: int| #[trigger] after.has_card(container, i) implies after.members_of(
        container,
    )[i].id@ != id by {
        filter_index_bounds(before.members_of(container), without_reference(id), i);
    }
}

/// Adding a card and removing it again gives the members that were there,
/// unless the identifier was in use in the container.
pub proof fn add_then_remove_restores(
    before: Workspace,
    added: Workspace,
    after: Workspace,
    container: Seq<char>,
    id: Seq<char>,
    target: ReferenceTarget,
    role: MemberRole,
)
    requires
        added.added_card(before, container, id, target, role),
        after.changed_members(
            added,
            container,
            added.members_of(container).filter(without_reference(id)),
        ),
        forall|i: int|
            0 <= i < before.members_of(container).len() ==> (#[trigger] before.members_of(
                container,
            )[i]).id@ != id,
    ensures
        after.members_of(container) == before.members_of(container),
        after.same_frame(before),
        forall|c: Seq<char>| c != container && #[trigger] before.has_container(c)
            ==> after.containers@[c] == before.containers@[c],
{
    let members = before.members_of(container);
    let card = added.members_of(container).last();
    members.lemma_filter_push(card, without_reference(id));
    filter_all(members, without_reference(id));
}

/// Creating a container under an unused identifier keeps a workspace consistent.
pub proof fn added_container_keeps_consistent(
    before: Workspace,
    after: Workspace,
    id: Seq<char>,
    title: Seq<char>,
    kind: ContainerKind,
)
    requires
        before.consistent(),
        !before.has_container(id),
        after.added_container(before, id, title, kind),
    ensures
        after.consistent(),
{
    assert forall|c: Seq<char>, i: int| #[trigger] after.has_card(c, i) implies before.has_card(
        c,
        i,
    ) && after.members_of(c) == before.members_of(c) by {}
    assert forall|c: Seq<char>| #[trigger] after.has_container(c) implies after.containers@[c].id@
        == c by {
        if c != id {
            assert(before.has_container(c));
        }
    }
    assert forall|c: Seq<char>, i: int| #[trigger] after.has_card(c, i) implies after.target_exists(
        after.members_of(c)[i].target,
    ) by {
        assert(before.has_card(c, i));
    }
    assert forall|c: Seq<char>, i: int, d: Seq<char>, j: int|
        #![trigger after.has_card(c, i), after.has_card(d, j)]
        after.has_card(c, i) && after.has_card(d, j) && after.members_of(c)[i].id@
            == after.members_of(d)[j].id@ implies c == d && i == j by {
        assert(before.has_card(c, i) && before.has_card(d, j));
    }
}

/// After the references to a snippet are removed the workspace is still
/// consistent, no card points at the snippet, and every other card is there.
pub proof fn removed_entity_is_gone(before: Workspace, after: Workspace, entity: Seq<char>)
    requires
        before.consistent(),
        after.same_frame(before),
        after.containers@.dom() == before.containers@.dom(),
        forall|c: Seq<char>| #[trigger]
            after.containers@.contains_key(c) ==> with_members(
                before.containers@[c],
                after.containers@[c],
                before.members_of(c).filter(without_snippet(entity)),
            ),
    ensures
        after.consistent(),
        forall|c: Seq<char>, i: int| #[trigger]
            after.has_card(c, i) ==> !after.members_of(c)[i].target.is_snippet(entity),
        forall|c: Seq<char>, i: int| #[trigger]
            before.has_card(c, i) && !before.members_of(c)[i].target.is_snippet(entity)
                ==> after.members_of(c).contains(before.members_of(c)[i]),
{
    let keep = without_snippet(entity);
    assert forall|c: Seq<char>| #[trigger] before.has_container(c) implies after.containers@[c].id
        == before.containers@[c].id && thinned(before.members_of(c), after.members_of(c)) by {
        assert(before.containers@.dom().contains(c));
        assert(after.containers@.contains_key(c));
        assert(after.members_of(c) == before.members_of(c).filter(keep));
    }
    thinning_keeps_consistent(before, after);
    assert forall|c: Seq<char>, i: int| #[trigger] after.has_card(c, i) implies !after.members_of(
        c,
    )[i].target.is_snippet(entity) by {
        assert(after.containers@.contains_key(c));
        filter_index_bounds(before.members_of(c), keep, i);
    }
    assert forall|c: Seq<char>, i: int| #[trigger]
        before.has_card(c, i) && !before.members_of(c)[i].target.is_snippet(
            entity,
        ) implies after.members_of(c).contains(before.members_of(c)[i]) by {
        assert(before.containers@.dom().contains(c));
        assert(after.containers@.contains_key(c));
        before.members_of(c).lemma_filter_contains(keep, i);
    }
}

/// Where a built-in item has more than one card, the first one stays, and so does
/// every card for something else, in its order.
pub proof fn the_first_special_card_stays(
    front: Seq<Reference>,
    card: Reference,
    back: Seq<Reference>,
    kind: SpecialKind,
)
    requires
        card.target == ReferenceTarget::Special(kind),
        forall|i: int|
            0 <= i < front.len() ==> (#[trigger] front[i]).target != ReferenceTarget::Special(kind),
    ensures
        one_special(front + seq![card] + back, kind) == front + seq![card] + back.filter(
            |m: Reference| m.target != ReferenceTarget::Special(kind),
        ),
{
    let all = front + seq![card] + back;
    special_index_bounds(all, kind, 0);
    let first = special_index(all, kind, 0);
    assert(all[front.len() as int] == card);
    if first < front.len() {
        assert(all[first] == front[first]);
    }
    assert(first == front.len());
    assert(all.take(first + 1) =~= front + seq![card]);
    assert(all.skip(first + 1) =~= back);
    assert(not_special(kind) =~= |m: Reference| m.target != ReferenceTarget::Special(kind));
}

} // verus!
