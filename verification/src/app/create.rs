//! New cards: snippets, folders and files.
use crate::app::board::{CanvasItem, CARD_HEIGHT, CARD_WIDTH};
use crate::app::commands::Effect;
use crate::app::page::{chosen_place, layout_effect, place_for, HomePage};
use crate::data::ids::{is_compact_id, ContainerId, EntityId, ExternalFileId, ReferenceId};
use crate::data::layout::Point;
use crate::data::model::Snippet;
use crate::data::paths::{file_stem, file_stem_text};
use crate::data::workspace::{ContainerKind, ExternalFileRef, MemberRole, ReferenceTarget};
use vstd::prelude::*;

verus! {

/// A card was put into a container and, if that is open, at a place of its canvas.
pub open spec fn placed_card(
    after: HomePage,
    before: HomePage,
    owner: ContainerId,
    reference: ReferenceId,
    target: ReferenceTarget,
    role: MemberRole,
    position: Point,
) -> bool {
    let item = CanvasItem {
        reference_id: reference,
        target,
        role,
        position,
        size: Point { x: CARD_WIDTH, y: CARD_HEIGHT },
    };
    &&& after == (HomePage { workspace: after.workspace, boards: after.boards, ..before })
    &&& after.workspace.added_card(before.workspace, owner@, reference@, target, role)
    &&& after.boards.placed(before.boards, owner@, item)
}

/// What is to be saved after a card was put into a container.
pub open spec fn card_effects(before: HomePage, owner: ContainerId) -> Seq<Effect> {
    seq![Effect::SaveWorkspace] + layout_effect(before.boards.is_open(owner@), owner)
}

/// An empty snippet was made, and a card for it put into `owner`. It is kept only
/// if there is such a container, but its file is written in any case.
pub open spec fn new_snippet(
    after: HomePage,
    before: HomePage,
    effects: Seq<Effect>,
    owner: ContainerId,
    position: Point,
    snippet: Snippet,
    reference: ReferenceId,
) -> bool {
    &&& is_compact_id(snippet.id@)
    &&& snippet.title@ == "Untitled"@
    &&& snippet.content@ == Seq::<char>::empty()
    &&& if before.workspace.has_container(owner@) {
        &&& placed_card(
            (HomePage { all_snippets: before.all_snippets, ..after }),
            before,
            owner,
            reference,
            ReferenceTarget::Snippet(snippet.id),
            MemberRole::Normal,
            position,
        )
        &&& after.all_snippets@ == before.all_snippets@.insert(snippet.id@, snippet)
        &&& effects == seq![Effect::SaveSnippet(snippet)] + card_effects(before, owner)
    } else {
        after == before && effects == seq![Effect::SaveSnippet(snippet)]
    }
}

/// An empty folder was made, and a card for it put into `owner` if there is such a
/// container.
pub open spec fn new_folder(
    after: HomePage,
    before: HomePage,
    effects: Seq<Effect>,
    owner: ContainerId,
    position: Point,
    mid: HomePage,
    container: ContainerId,
    reference: ReferenceId,
) -> bool {
    &&& mid == (HomePage { workspace: mid.workspace, ..before })
    &&& mid.workspace.added_container(
        before.workspace,
        container@,
        "New Folder"@,
        ContainerKind::Normal,
    )
    &&& if mid.workspace.has_container(owner@) {
        &&& placed_card(
            after,
            mid,
            owner,
            reference,
            ReferenceTarget::Container(container),
            MemberRole::Normal,
            position,
        )
        &&& effects == card_effects(mid, owner)
    } else {
        after == mid && effects == Seq::<Effect>::empty()
    }
}

/// The title of a file: its name without extension.
pub open spec fn title_of_path(path: Seq<char>) -> Seq<char> {
    match file_stem_text(path) {
        Some(stem) => stem,
        None => path,
    }
}

/// The role of a file in a container: a source, in an AI workspace.
pub open spec fn file_role(before: HomePage, owner: Seq<char>) -> MemberRole {
    if before.workspace.has_container(owner) && before.workspace.containers@[owner].kind
        == ContainerKind::AiWorkspace {
        MemberRole::Source
    } else {
        MemberRole::Normal
    }
}

/// A card for a file was put into `owner`, if there is such a container.
pub open spec fn new_file(
    after: HomePage,
    before: HomePage,
    effects: Seq<Effect>,
    owner: ContainerId,
    path: Seq<char>,
    position: Point,
    file: ExternalFileRef,
    reference: ReferenceId,
) -> bool {
    &&& is_compact_id(file.id@)
    &&& file.path@ == path
    &&& file.title@ == title_of_path(path)
    &&& file.media_type is None
    &&& if before.workspace.has_container(owner@) {
        &&& placed_card(
            after,
            before,
            owner,
            reference,
            ReferenceTarget::ExternalFile(file),
            file_role(before, owner@),
            position,
        )
        &&& effects == card_effects(before, owner)
    } else {
        after == before && effects == Seq::<Effect>::empty()
    }
}

impl HomePage {
    fn place_on_board(
        &mut self,
        owner: &ContainerId,
        reference: ReferenceId,
        target: ReferenceTarget,
        role: MemberRole,
        position: Point,
    ) -> (r: Vec<Effect>)
        ensures
            *final(self) == (HomePage { boards: final(self).boards, ..*old(self) }),
            final(self).boards.placed(
                old(self).boards,
                owner@,
                (CanvasItem {
                    reference_id: reference,
                    target,
                    role,
                    position,
                    size: Point { x: CARD_WIDTH, y: CARD_HEIGHT },
                }),
            ),
            r@ == card_effects(*old(self), *owner),
    {
        let mut effects: Vec<Effect> = Vec::new();
        effects.push(Effect::SaveWorkspace);
        let item = CanvasItem::new(reference, target, role, position);
        if self.boards.place(owner, item) {
            effects.push(Effect::SaveLayout(owner.clone()));
        }
        assert(effects@ =~= card_effects(*old(self), *owner));
        effects
    }

    /// Makes an empty snippet with a card in `owner`, at `position` or at the free
    /// place `slot`.
    pub fn create_snippet(&mut self, owner: &ContainerId, position: Option<Point>, slot: Point) -> (r:
        Vec<Effect>)
        ensures
            exists|snippet: Snippet, reference: ReferenceId| #[trigger]
                new_snippet(
                    *final(self),
                    *old(self),
                    r@,
                    *owner,
                    place_for(position, slot),
                    snippet,
                    reference,
                ),
    {
        let snippet = Snippet {
            id: EntityId::new(),
            title: "Untitled".to_owned(),
            content: String::new(),
        };
        let ghost made = snippet;
        let mut effects: Vec<Effect> = Vec::new();
        effects.push(Effect::SaveSnippet(snippet.clone()));
        match self.workspace.add_snippet_reference(owner, snippet.id.clone()) {
            Ok(reference) => {
                let mut saves = self.place_on_board(
                    owner,
                    reference.clone(),
                    ReferenceTarget::Snippet(snippet.id.clone()),
                    MemberRole::Normal,
                    chosen_place(position, slot),
                );
                effects.append(&mut saves);
                self.all_snippets.insert(snippet.id.clone(), snippet);
                assert(effects@ =~= seq![Effect::SaveSnippet(made)] + card_effects(
                    *old(self),
                    *owner,
                ));
                assert(new_snippet(
                    *self,
                    *old(self),
                    effects@,
                    *owner,
                    place_for(position, slot),
                    made,
                    reference,
                ));
                effects
            },
            Err(_) => {
                let ghost reference: ReferenceId = arbitrary();
                assert(effects@ =~= seq![Effect::SaveSnippet(made)]);
                assert(new_snippet(
                    *self,
                    *old(self),
                    effects@,
                    *owner,
                    place_for(position, slot),
                    made,
                    reference,
                ));
                effects
            },
        }
    }

    /// Makes an empty folder with a card in `owner`, at `position` or at the free
    /// place `slot`.
    pub fn create_folder(&mut self, owner: &ContainerId, position: Option<Point>, slot: Point) -> (r:
        Vec<Effect>)
        ensures
            exists|mid: HomePage, container: ContainerId, reference: ReferenceId| #[trigger]
                new_folder(
                    *final(self),
                    *old(self),
                    r@,
                    *owner,
                    place_for(position, slot),
                    mid,
                    container,
                    reference,
                ),
    {
        let container = self.workspace.create_container("New Folder");
        let ghost mid = *self;
        match self.workspace.add_container_reference(owner, container.clone()) {
            Ok(reference) => {
                let effects = self.place_on_board(
                    owner,
                    reference.clone(),
                    ReferenceTarget::Container(container.clone()),
                    MemberRole::Normal,
                    chosen_place(position, slot),
                );
                assert(new_folder(
                    *self,
                    *old(self),
                    effects@,
                    *owner,
                    place_for(position, slot),
                    mid,
                    container,
                    reference,
                ));
                effects
            },
            Err(_) => {
                let effects: Vec<Effect> = Vec::new();
                let ghost reference: ReferenceId = arbitrary();
                assert(new_folder(
                    *self,
                    *old(self),
                    effects@,
                    *owner,
                    place_for(position, slot),
                    mid,
                    container,
                    reference,
                ));
                effects
            },
        }
    }

    /// Puts a card for the file at `path` into `owner`, at `position` or at the free
    /// place `slot`. The file itself is left alone.
    pub fn create_external_file(
        &mut self,
        owner: &ContainerId,
        path: &str,
        position: Option<Point>,
        slot: Point,
    ) -> (r: Vec<Effect>)
        ensures
            exists|file: ExternalFileRef, reference: ReferenceId| #[trigger]
                new_file(
                    *final(self),
                    *old(self),
                    r@,
                    *owner,
                    path@,
                    place_for(position, slot),
                    file,
                    reference,
                ),
    {
        let title = match file_stem(path) {
            Some(stem) => stem,
            None => path.to_owned(),
        };
        let file = ExternalFileRef {
            id: ExternalFileId::new(),
            path: path.to_owned(),
            title,
            media_type: None,
        };
        let in_ai_box = self.workspace.is_ai_box(owner);
        let role = if in_ai_box {
            MemberRole::Source
        } else {
            MemberRole::Normal
        };
        let target = ReferenceTarget::ExternalFile(file.clone());
        let result = if in_ai_box {
            self.workspace.add_source_reference(owner, target.clone())
        } else {
            self.workspace.add_external_file_reference(owner, file.clone())
        };
        match result {
            Ok(reference) => {
                let effects = self.place_on_board(
                    owner,
                    reference.clone(),
                    target,
                    role,
                    chosen_place(position, slot),
                );
                assert(new_file(
                    *self,
                    *old(self),
                    effects@,
                    *owner,
                    path@,
                    place_for(position, slot),
                    file,
                    reference,
                ));
                effects
            },
            Err(_) => {
                let effects: Vec<Effect> = Vec::new();
                let ghost reference: ReferenceId = arbitrary();
                assert(new_file(
                    *self,
                    *old(self),
                    effects@,
                    *owner,
                    path@,
                    place_for(position, slot),
                    file,
                    reference,
                ));
                effects
            },
        }
    }
}

/// A new snippet is an empty note. It is kept and saved, and gets a card at the end of
/// the container that it was made in, at the given place. Everything else stays.
pub proof fn new_snippets_are_empty(
    after: HomePage,
    before: HomePage,
    effects: Seq<Effect>,
    owner: ContainerId,
    position: Point,
    snippet: Snippet,
    reference: ReferenceId,
    other: Seq<char>,
)
    requires
        new_snippet(after, before, effects, owner, position, snippet, reference),
        before.workspace.has_container(owner@),
    ensures
        after.all_snippets@.contains_key(snippet.id@),
        after.all_snippets@[snippet.id@].title@ == "Untitled"@,
        after.all_snippets@[snippet.id@].content@.len() == 0,
        other != snippet.id@ && before.all_snippets@.contains_key(other)
            ==> after.all_snippets@.contains_key(other) && after.all_snippets@[other]
            == before.all_snippets@[other],
        after.workspace.members_of(owner@).len() > 0,
        after.workspace.members_of(owner@).drop_last() == before.workspace.members_of(owner@),
        after.workspace.members_of(owner@).last().id@ == reference@,
        after.workspace.members_of(owner@).last().target == ReferenceTarget::Snippet(snippet.id),
        after.workspace.members_of(owner@).last().role == MemberRole::Normal,
        other != owner@ && before.workspace.has_container(other)
            ==> after.workspace.has_container(other) && after.workspace.containers@[other]
            == before.workspace.containers@[other],
        before.boards.is_open(owner@) ==> {
            let canvas = after.boards.canvas(owner@);
            &&& canvas.items@.len() > 0
            &&& canvas.items@.last().reference_id == reference
            &&& canvas.items@.last().position == position
            &&& canvas.layout.items@[reference@].position == position
            &&& effects.contains(Effect::SaveLayout(owner))
        },
        effects.contains(Effect::SaveSnippet(snippet)),
        effects.contains(Effect::SaveWorkspace),
{
    assert(after.workspace.members_of(owner@).drop_last() =~= before.workspace.members_of(owner@));
    assert(effects[0] == Effect::SaveSnippet(snippet));
    assert(effects[1] == Effect::SaveWorkspace);
    if before.boards.is_open(owner@) {
        assert(effects[2] == Effect::SaveLayout(owner));
    }
}

/// A new folder is an empty container, with a card at the end of the container that it
/// was made in. Everything else stays.
pub proof fn new_folders_are_empty(
    after: HomePage,
    before: HomePage,
    effects: Seq<Effect>,
    owner: ContainerId,
    position: Point,
    mid: HomePage,
    container: ContainerId,
    reference: ReferenceId,
    other: Seq<char>,
)
    requires
        new_folder(after, before, effects, owner, position, mid, container, reference),
        before.workspace.has_container(owner@),
        owner@ != container@,
    ensures
        after.workspace.has_container(container@),
        after.workspace.containers@[container@].title@ == "New Folder"@,
        after.workspace.containers@[container@].kind == ContainerKind::Normal,
        after.workspace.members_of(container@).len() == 0,
        after.workspace.members_of(owner@).len() > 0,
        after.workspace.members_of(owner@).drop_last() == before.workspace.members_of(owner@),
        after.workspace.members_of(owner@).last().target == ReferenceTarget::Container(container),
        other != owner@ && other != container@ && before.workspace.has_container(other)
            ==> after.workspace.has_container(other) && after.workspace.containers@[other]
            == before.workspace.containers@[other],
        after.all_snippets == before.all_snippets,
        after.ai_boxes == before.ai_boxes,
        effects.contains(Effect::SaveWorkspace),
{
    assert(after.workspace.members_of(owner@).drop_last() =~= before.workspace.members_of(owner@));
    assert(effects[0] == Effect::SaveWorkspace);
}

/// A file that is added keeps its path and is titled after its name. In an AI workspace
/// it is a source. It gets a card at the end, and everything else stays.
pub proof fn new_files_keep_their_path(
    after: HomePage,
    before: HomePage,
    effects: Seq<Effect>,
    owner: ContainerId,
    path: Seq<char>,
    position: Point,
    file: ExternalFileRef,
    reference: ReferenceId,
    other: Seq<char>,
)
    requires
        new_file(after, before, effects, owner, path, position, file, reference),
        before.workspace.has_container(owner@),
    ensures
        file.path@ == path,
        file_stem_text(path) matches Some(stem) ==> file.title@ == stem,
        file_stem_text(path) is None ==> file.title@ == path,
        after.workspace.members_of(owner@).len() > 0,
        after.workspace.members_of(owner@).drop_last() == before.workspace.members_of(owner@),
        after.workspace.members_of(owner@).last().target == ReferenceTarget::ExternalFile(file),
        after.workspace.members_of(owner@).last().role == MemberRole::Source
            <==> before.workspace.containers@[owner@].kind == ContainerKind::AiWorkspace,
        other != owner@ && before.workspace.has_container(other)
            ==> after.workspace.has_container(other) && after.workspace.containers@[other]
            == before.workspace.containers@[other],
        after.all_snippets == before.all_snippets,
        effects.contains(Effect::SaveWorkspace),
{
    assert(after.workspace.members_of(owner@).drop_last() =~= before.workspace.members_of(owner@));
    assert(effects[0] == Effect::SaveWorkspace);
}

} // verus!
