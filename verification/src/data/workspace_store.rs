//! The files of a workspace and its layouts.
//!
//! A store knows where the files are and what has to hold of what is in them.
//! Reading and writing them is left to the caller.
use crate::data::ids::{is_compact_id, ContainerId, ReferenceId};
use crate::data::layout::ContainerLayout;
use crate::data::model::Snippet;
use crate::data::paths::{join_path, joined_path};
use crate::data::workspace::{added_card_keeps_consistent, is_new_card, one_special,
    one_special_keeps_consistent, special_count, valid_means_consistent, ContainerKind,
    ImageAttachment, MemberRole, Reference, ReferenceTarget, SpecialKind, Workspace, WorkspaceError,
    LAYOUT_VERSION, WORKSPACE_VERSION};
use crate::idmap::ascending_lookup;
use crate::text::join2;
use vstd::prelude::*;

verus! {

/// The files of one workspace, under a root directory.
#[derive(Debug)]
pub struct WorkspaceStore {
    root: String,
}

/// The first `n` members are new cards for the first `n` snippets.
pub open spec fn snippet_cards(members: Seq<Reference>, snippets: Seq<Snippet>, n: int) -> bool {
    forall|i: int|
        0 <= i < n ==> is_new_card(
            #[trigger] members[i],
            members[i].id@,
            ReferenceTarget::Snippet(snippets[i].id),
            MemberRole::Normal,
        )
}

/// A new workspace: its root holds one card for each snippet, in order, and the
/// settings card.
pub open spec fn is_initial(w: Workspace, snippets: Seq<Snippet>) -> bool {
    let members = w.members_of(w.root@);
    &&& w.version == WORKSPACE_VERSION
    &&& w.containers@.dom() == set![w.root@]
    &&& w.containers@[w.root@].id@ == w.root@
    &&& w.containers@[w.root@].title@ == "Home"@
    &&& w.containers@[w.root@].kind == ContainerKind::Normal
    &&& w.images@ == Map::<Seq<char>, ImageAttachment>::empty()
    &&& members.len() == snippets.len() + 1
    &&& snippet_cards(members, snippets, snippets.len() as int)
    &&& is_new_card(
        members.last(),
        members.last().id@,
        ReferenceTarget::Special(SpecialKind::Settings),
        MemberRole::Normal,
    )
}

/// Identifiers, as texts.
pub open spec fn card_views(cards: Seq<ReferenceId>) -> Seq<Seq<char>> {
    cards.map_values(|id: ReferenceId| id@)
}

/// The cards of the root have these identifiers.
pub open spec fn has_ids(w: Workspace, ids: Seq<Seq<char>>) -> bool {
    let members = w.members_of(w.root@);
    members.len() == ids.len() && forall|i: int|
        0 <= i < members.len() ==> (#[trigger] members[i]).id@ == ids[i]
}

/// How many settings cards the root holds.
pub open spec fn settings_cards(w: Workspace) -> nat {
    special_count(w.members_of(w.root@), SpecialKind::Settings)
}

/// The outcome of loading a workspace, with the identifiers that are used where
/// a container or a card has to be made: of the root, of the cards of the
/// snippets, and of the settings card.
pub open spec fn initialized(
    r: Result<(Workspace, bool), WorkspaceError>,
    snippets: Seq<Snippet>,
    stored: Option<Workspace>,
    root: Seq<char>,
    cards: Seq<Seq<char>>,
    settings: Seq<char>,
) -> bool {
    match stored {
        None => if cards.push(settings).no_duplicates() {
            &&& r is Ok
            &&& r->Ok_0.1
            &&& r->Ok_0.0.valid()
            &&& r->Ok_0.0.root@ == root
            &&& is_initial(r->Ok_0.0, snippets)
            &&& has_ids(r->Ok_0.0, cards.push(settings))
        } else {
            r == Err::<(Workspace, bool), WorkspaceError>(WorkspaceError::DuplicateReference)
        },
        Some(w) => if !w.valid() {
            r is Err && w.refused_with(r->Err_0)
        } else if settings_cards(w) == 1 {
            r == Ok::<(Workspace, bool), WorkspaceError>((w, false))
        } else if settings_cards(w) > 1 {
            &&& w.wf() ==> r is Ok
            &&& r is Ok ==> {
                &&& !r->Ok_0.1
                &&& r->Ok_0.0.valid()
                &&& r->Ok_0.0.changed_members(
                    w,
                    w.root@,
                    one_special(w.members_of(w.root@), SpecialKind::Settings),
                )
            }
        } else {
            &&& w.wf() ==> (r is Ok <==> w.unused_reference(settings))
            &&& r is Ok ==> {
                &&& r->Ok_0.1
                &&& r->Ok_0.0.valid()
                &&& r->Ok_0.0.added_card(
                    w,
                    w.root@,
                    settings,
                    ReferenceTarget::Special(SpecialKind::Settings),
                    MemberRole::Normal,
                )
            }
            &&& w.wf() && r is Err ==> r->Err_0 == WorkspaceError::DuplicateReference
        },
    }
}

impl WorkspaceStore {
    /// The root directory.
    pub closed spec fn root_text(&self) -> Seq<char> {
        self.root@
    }

    /// The store under `root`. The caller creates `.floatdea/layout` there.
    pub fn open(root: &str) -> (r: Self)
        ensures
            r.root_text() == root@,
    {
        WorkspaceStore { root: root.to_owned() }
    }

    /// The path of the workspace file.
    pub fn workspace_path(&self) -> (r: String)
        ensures
            r@ == joined_path(self.root_text(), "workspace.json"@),
    {
        join_path(&self.root, "workspace.json")
    }

    /// The directory of the layout files.
    pub fn layout_dir(&self) -> (r: String)
        ensures
            r@ == joined_path(self.root_text(), ".floatdea/layout"@),
    {
        join_path(&self.root, ".floatdea/layout")
    }

    /// The path of the layout file of a container.
    pub fn layout_path(&self, container: &ContainerId) -> (r: String)
        ensures
            r@ == joined_path(
                joined_path(self.root_text(), ".floatdea/layout"@),
                container@ + ".json"@,
            ),
    {
        let name = join2(container.as_str(), ".json");
        join_path(&self.layout_dir(), &name)
    }

    /// The workspace to work with, and whether it has to be saved. `stored` is
    /// what the workspace file holds, if there is one.
    ///
    /// A stored workspace has to be valid. Without one, a new workspace holds a
    /// card for each snippet. Either way the root gets its settings card if it
    /// has none, and keeps one if it has several. The identifiers of new cards
    /// rest on chance: one that is already in use makes the workspace invalid,
    /// which is reported.
    pub fn load_or_initialize(
        &self,
        snippets: &Vec<Snippet>,
        stored: Option<Workspace>,
    ) -> (r: Result<(Workspace, bool), WorkspaceError>)
        ensures
            exists|root: Seq<char>, cards: Seq<Seq<char>>, settings: Seq<char>|
                {
                    &&& is_compact_id(root)
                    &&& cards.len() == snippets@.len()
                    &&& forall|i: int| 0 <= i < cards.len() ==> is_compact_id(#[trigger] cards[i])
                    &&& is_compact_id(settings)
                    &&& #[trigger] initialized(r, snippets@, stored, root, cards, settings)
                },
    {
        let mut cards: Vec<ReferenceId> = Vec::new();
        while cards.len() < snippets.len()
            invariant
                cards@.len() <= snippets@.len(),
                forall|i: int| 0 <= i < cards@.len() ==> is_compact_id((#[trigger] cards@[i])@),
            decreases snippets@.len() - cards@.len(),
        {
            cards.push(ReferenceId::new());
        }
        self.initialize_with(snippets, stored, ContainerId::new(), cards, ReferenceId::new())
    }

    /// A new workspace with a card for each snippet, under these identifiers.
    fn with_cards(snippets: &Vec<Snippet>, root: ContainerId, cards: Vec<ReferenceId>) -> (r:
        Workspace)
        requires
            cards@.len() == snippets@.len(),
        ensures
            r.wf(),
            r.version == WORKSPACE_VERSION,
            r.root@ == root@,
            r.images@ == Map::<Seq<char>, ImageAttachment>::empty(),
            r.containers@.dom() == set![root@],
            r.containers@[root@].id@ == root@,
            r.containers@[root@].title@ == "Home"@,
            r.containers@[root@].kind == ContainerKind::Normal,
            snippet_cards(r.members_of(root@), snippets@, snippets@.len() as int),
            has_ids(r, card_views(cards@)),
    {
        let mut w = Workspace::empty_with(root.clone());
        let ghost name = root@;
        let mut i: usize = 0;
        while i < snippets.len()
            invariant
                i <= snippets@.len() == cards@.len(),
                name == root@,
                w.wf(),
                w.version == WORKSPACE_VERSION,
                w.root@ == name,
                w.images@ == Map::<Seq<char>, ImageAttachment>::empty(),
                w.containers@.dom() == set![name],
                w.containers@[name].id@ == name,
                w.containers@[name].title@ == "Home"@,
                w.containers@[name].kind == ContainerKind::Normal,
                w.members_of(name).len() == i,
                snippet_cards(w.members_of(name), snippets@, i as int),
                forall|k: int| 0 <= k < i ==> (#[trigger] w.members_of(name)[k]).id@ == cards@[k]@,
            decreases snippets@.len() - i,
        {
            assert(w.containers@.dom().contains(name));
            let ghost before = w;
            let _ = w.push_reference(
                &root,
                cards[i].clone(),
                ReferenceTarget::Snippet(snippets[i].id.clone()),
                MemberRole::Normal,
            );
            proof {
                assert(w.containers@.dom() =~= before.containers@.dom());
                assert forall|k: int| 0 <= k < i implies #[trigger] w.members_of(name)[k]
                    == before.members_of(name)[k] by {}
                assert(w.members_of(name)[i as int] == w.members_of(name).last());
            }
            i = i + 1;
        }
        w
    }

    /// [`load_or_initialize`](Self::load_or_initialize) with the identifiers of the
    /// containers and cards that may have to be made.
    pub fn initialize_with(
        &self,
        snippets: &Vec<Snippet>,
        stored: Option<Workspace>,
        root: ContainerId,
        cards: Vec<ReferenceId>,
        settings: ReferenceId,
    ) -> (r: Result<(Workspace, bool), WorkspaceError>)
        requires
            cards@.len() == snippets@.len(),
        ensures
            initialized(r, snippets@, stored, root@, card_views(cards@), settings@),
    {
        let fresh = stored.is_none();
        let mut workspace = match stored {
            Some(w) => match w.validate() {
                Ok(()) => w,
                Err(error) => {
                    return Err(error);
                },
            },
            None => Self::with_cards(snippets, root, cards),
        };
        let home = workspace.root.clone();
        let ghost before = workspace;
        let ghost id = settings@;
        proof {
            if fresh {
                assert(before.containers@.dom().contains(home@));
                no_settings(before, snippets@);
            }
        }
        let added = match workspace.ensure_special_as(&home, SpecialKind::Settings, settings) {
            Ok(added) => added,
            Err(error) => {
                return Err(error);
            },
        };
        proof {
            if fresh {
                made_anew(before, workspace, snippets@, card_views(cards@), id);
            } else if before.wf() {
                made_complete(before, workspace, id);
            }
        }
        match workspace.validate() {
            Ok(()) => Ok((workspace, added)),
            Err(error) => {
                proof {
                    if fresh {
                        only_duplicates(workspace, error);
                    } else if before.wf() && added {
                        special_only_duplicates(before, workspace, error);
                    }
                }
                Err(error)
            },
        }
    }

    /// Checks that a workspace may be saved. Returns the path to write it to.
    pub fn save(&self, workspace: &Workspace) -> (r: Result<String, WorkspaceError>)
        ensures
            r is Ok <==> workspace.valid(),
            r is Ok ==> r->Ok_0@ == joined_path(self.root_text(), "workspace.json"@),
            r is Err ==> workspace.refused_with(r->Err_0),
    {
        match workspace.validate() {
            Ok(()) => Ok(self.workspace_path()),
            Err(error) => Err(error),
        }
    }

    /// The layout of a container. `stored` is what its layout file holds, if
    /// there is one; it has to be the layout of that container.
    pub fn load_layout(&self, container: &ContainerId, stored: Option<ContainerLayout>) -> (r: Result<
        ContainerLayout,
        WorkspaceError,
    >)
        ensures
            match stored {
                None => {
                    &&& r is Ok
                    &&& r->Ok_0.version == LAYOUT_VERSION
                    &&& r->Ok_0.container == *container
                    &&& r->Ok_0.items.wf()
                    &&& r->Ok_0.items@ == Map::<
                        Seq<char>,
                        crate::data::layout::CardLayout,
                    >::empty()
                    &&& r->Ok_0.texts@ == Seq::<crate::data::layout::CanvasText>::empty()
                },
                Some(layout) => r == (if layout.version == LAYOUT_VERSION && layout.container@
                    == container@ {
                    Ok::<ContainerLayout, WorkspaceError>(layout)
                } else {
                    Err::<ContainerLayout, WorkspaceError>(WorkspaceError::LayoutMismatch)
                }),
            },
    {
        match stored {
            None => Ok(ContainerLayout::empty(container.clone())),
            Some(layout) => {
                if layout.version != LAYOUT_VERSION || layout.container != *container {
                    Err(WorkspaceError::LayoutMismatch)
                } else {
                    Ok(layout)
                }
            },
        }
    }

    /// Checks that a layout may be saved. Returns the path to write it to.
    pub fn save_layout(&self, layout: &ContainerLayout) -> (r: Result<String, WorkspaceError>)
        ensures
            r is Ok <==> layout.version == LAYOUT_VERSION,
            r is Ok ==> r->Ok_0@ == joined_path(
                joined_path(self.root_text(), ".floatdea/layout"@),
                layout.container@ + ".json"@,
            ),
            r is Err ==> r->Err_0 == WorkspaceError::UnsupportedLayoutVersion,
    {
        if layout.version != LAYOUT_VERSION {
            return Err(WorkspaceError::UnsupportedLayoutVersion);
        }
        Ok(self.layout_path(&layout.container))
    }
}

/// A new workspace has no settings card yet.
proof fn no_settings(w: Workspace, snippets: Seq<Snippet>)
    requires
        w.members_of(w.root@).len() == snippets.len(),
        snippet_cards(w.members_of(w.root@), snippets, snippets.len() as int),
    ensures
        settings_cards(w) == 0,
{
    let members = w.members_of(w.root@);
    let p = crate::data::workspace::special(SpecialKind::Settings);
    assert forall|i: int| 0 <= i < members.len() implies !p(#[trigger] members[i]) by {}
    members.lemma_all_neg_filter_empty(p);
}

/// A new workspace with its settings card is valid exactly if no identifier is
/// used twice.
proof fn made_anew(
    before: Workspace,
    after: Workspace,
    snippets: Seq<Snippet>,
    cards: Seq<Seq<char>>,
    settings: Seq<char>,
)
    requires
        cards.len() == snippets.len(),
        before.version == WORKSPACE_VERSION,
        before.images@ == Map::<Seq<char>, ImageAttachment>::empty(),
        before.containers@.dom() == set![before.root@],
        before.containers@[before.root@].id@ == before.root@,
        before.containers@[before.root@].title@ == "Home"@,
        before.containers@[before.root@].kind == ContainerKind::Normal,
        snippet_cards(before.members_of(before.root@), snippets, snippets.len() as int),
        has_ids(before, cards),
        after.wf(),
        after.added_card(
            before,
            before.root@,
            settings,
            ReferenceTarget::Special(SpecialKind::Settings),
            MemberRole::Normal,
        ),
    ensures
        is_initial(after, snippets),
        has_ids(after, cards.push(settings)),
        after.containers@.dom() == set![after.root@],
        after.valid() <==> cards.push(settings).no_duplicates(),
{
    let root = before.root@;
    let members = after.members_of(root);
    let ids = cards.push(settings);
    assert(before.containers@.dom().contains(root));
    assert(after.containers@.dom() =~= before.containers@.dom());
    assert forall|k: int| 0 <= k < snippets.len() implies #[trigger] members[k]
        == before.members_of(root)[k] by {}
    assert forall|k: int| 0 <= k < members.len() implies (#[trigger] members[k]).id@ == ids[k] by {
        if k < snippets.len() {
            assert(members[k] == before.members_of(root)[k]);
        }
    }
    valid_means_consistent(after);
    assert(after.containers@.dom().contains(root));
    assert forall|c: Seq<char>| #[trigger] after.has_container(c) implies c == root by {
        assert(after.containers@.dom().contains(c));
    }
    if ids.no_duplicates() {
        assert forall|c: Seq<char>, i: int, d: Seq<char>, j: int|
            #![trigger after.has_card(c, i), after.has_card(d, j)]
            after.has_card(c, i) && after.has_card(d, j) && after.members_of(c)[i].id@
                == after.members_of(d)[j].id@ implies c == d && i == j by {
            assert(ids[i] == ids[j]);
        }
        assert forall|c: Seq<char>, i: int| #[trigger]
            after.has_card(c, i) implies after.target_exists(after.members_of(c)[i].target) by {}
        assert(after.consistent());
    }
    if after.consistent() {
        assert forall|i: int, j: int| 0 <= i < ids.len() && 0 <= j < ids.len() && i
            != j implies ids[i] != ids[j] by {
            assert(after.has_card(root, i) && after.has_card(root, j));
        }
    }
}

/// A valid workspace stays valid with exactly one settings card, unless the one
/// that was added has an identifier that is in use.
proof fn made_complete(before: Workspace, after: Workspace, settings: Seq<char>)
    requires
        before.wf(),
        before.valid(),
        after.wf(),
        after.ensured_special(
            before,
            Ok::<bool, WorkspaceError>(settings_cards(before) == 0),
            before.root@,
            SpecialKind::Settings,
            settings,
        ),
    ensures
        settings_cards(before) > 0 ==> after.valid(),
        settings_cards(before) == 0 ==> (after.valid() <==> before.unused_reference(settings)),
{
    let root = before.root@;
    valid_means_consistent(before);
    valid_means_consistent(after);
    assert(before.has_container(root));
    if settings_cards(before) == 0 {
        let target = ReferenceTarget::Special(SpecialKind::Settings);
        assert(after.has_container(root));
        if before.unused_reference(settings) {
            added_card_keeps_consistent(
                before,
                after,
                root,
                settings,
                target,
                MemberRole::Normal,
            );
        }
        if after.consistent() {
            let n = before.members_of(root).len() as int;
            assert(after.has_card(root, n));
            assert forall|c: Seq<char>, i: int| #[trigger]
                before.has_card(c, i) implies before.members_of(c)[i].id@ != settings by {
                assert(after.has_container(c));
                assert(after.has_card(c, i));
                assert(after.members_of(c)[i] == before.members_of(c)[i]);
            }
        }
    } else if settings_cards(before) > 1 {
        assert(after.has_container(root));
        one_special_keeps_consistent(before, after, root, SpecialKind::Settings);
    }
}

/// A workspace of one container that points at no container or image can only
/// be refused for a repeated identifier.
proof fn only_duplicates(w: Workspace, error: WorkspaceError)
    requires
        w.wf(),
        w.version == WORKSPACE_VERSION,
        w.containers@.dom() == set![w.root@],
        w.containers@[w.root@].id@ == w.root@,
        forall|i: int|
            0 <= i < w.members_of(w.root@).len() ==> ((#[trigger] w.members_of(
                w.root@,
            )[i]).target is Snippet || w.members_of(w.root@)[i].target is Special),
        w.refused_with(error),
    ensures
        error == WorkspaceError::DuplicateReference,
{
    assert(w.containers@.dom().contains(w.root@));
    let (i, j) = choose|i: int, j: int| #[trigger]
        w.is_place(i, j) && w.fault_at(i, j) == Some(error);
    ascending_lookup(w.containers.order(), i);
    assert(w.containers@.dom().contains(w.containers.order()[i].0@));
    if j > 0 {
        assert(w.reference_at(i, j) == w.members_of(w.root@)[j - 1]);
    }
}

/// A valid workspace to which a settings card was added can only be refused for
/// a repeated identifier.
proof fn special_only_duplicates(before: Workspace, after: Workspace, error: WorkspaceError)
    requires
        before.wf(),
        before.valid(),
        after.wf(),
        after.added_card(
            before,
            before.root@,
            after.members_of(before.root@).last().id@,
            ReferenceTarget::Special(SpecialKind::Settings),
            MemberRole::Normal,
        ),
        after.refused_with(error),
    ensures
        error == WorkspaceError::DuplicateReference,
{
    valid_means_consistent(before);
    assert(before.has_container(before.root@));
    let (i, j) = choose|i: int, j: int| #[trigger]
        after.is_place(i, j) && after.fault_at(i, j) == Some(error);
    ascending_lookup(after.containers.order(), i);
    let c = after.containers.order()[i].0@;
    assert(after.has_container(c));
    assert(before.has_container(c));
    if j > 0 {
        assert(after.reference_at(i, j) == after.members_of(c)[j - 1]);
        if before.has_card(c, j - 1) {
            match before.members_of(c)[j - 1].target {
                ReferenceTarget::Container(t) => {
                    assert(before.has_container(t@));
                },
                _ => {},
            }
        }
    }
}

/// A new workspace shows each snippet on a card of its own, in order, and then the
/// settings. It has no other container than the root.
pub proof fn new_workspaces_show_every_snippet(
    r: Result<(Workspace, bool), WorkspaceError>,
    snippets: Seq<Snippet>,
    root: Seq<char>,
    cards: Seq<Seq<char>>,
    settings: Seq<char>,
)
    requires
        initialized(r, snippets, None, root, cards, settings),
        cards.push(settings).no_duplicates(),
        cards.len() == snippets.len(),
    ensures
        r is Ok,
        ({
            let w = r->Ok_0.0;
            let members = w.members_of(root);
            &&& w.root@ == root
            &&& forall|c: Seq<char>| #[trigger] w.has_container(c) <==> c == root
            &&& w.containers@[root].title@ == "Home"@
            &&& members.len() == snippets.len() + 1
            &&& forall|i: int|
                0 <= i < snippets.len() ==> {
                    &&& (#[trigger] members[i]).id@ == cards[i]
                    &&& members[i].target == ReferenceTarget::Snippet(snippets[i].id)
                    &&& members[i].alias is None
                }
            &&& members[snippets.len() as int].id@ == settings
            &&& members[snippets.len() as int].target == ReferenceTarget::Special(
                SpecialKind::Settings,
            )
        }),
{
    let w = r->Ok_0.0;
    assert forall|c: Seq<char>| #[trigger] w.has_container(c) <==> c == root by {
        assert(w.containers@.contains_key(c) <==> w.containers@.dom().contains(c));
    }
}

/// A stored workspace that is valid keeps its containers and its cards: at most the
/// settings card is added at the end of the root, or settings cards behind the first
/// one go.
pub proof fn stored_workspaces_are_kept(
    r: Result<(Workspace, bool), WorkspaceError>,
    snippets: Seq<Snippet>,
    w: Workspace,
    root: Seq<char>,
    cards: Seq<Seq<char>>,
    settings: Seq<char>,
)
    requires
        initialized(r, snippets, Some(w), root, cards, settings),
        w.valid(),
        r is Ok,
    ensures
        r->Ok_0.0.root@ == w.root@,
        r->Ok_0.0.images == w.images,
        forall|c: Seq<char>| #[trigger] w.has_container(c) <==> r->Ok_0.0.has_container(c),
        forall|c: Seq<char>| #[trigger]
            w.has_container(c) && c != w.root@ ==> r->Ok_0.0.containers@[c] == w.containers@[c],
        special_count(w.members_of(w.root@), SpecialKind::Settings) == 0 ==> {
            let members = r->Ok_0.0.members_of(w.root@);
            &&& r->Ok_0.1
            &&& members.drop_last() == w.members_of(w.root@)
            &&& members.len() > 0
            &&& members.last().id@ == settings
            &&& members.last().target == ReferenceTarget::Special(SpecialKind::Settings)
        },
        special_count(w.members_of(w.root@), SpecialKind::Settings) > 0 ==> !r->Ok_0.1,
        special_count(w.members_of(w.root@), SpecialKind::Settings) == 1 ==> r->Ok_0.0 == w,
{
    let after = r->Ok_0.0;
    if settings_cards(w) == 0 {
        assert(after.members_of(w.root@).drop_last() =~= w.members_of(w.root@));
    }
}

/// A stored workspace that is not valid is not taken.
pub proof fn broken_workspaces_are_refused(
    r: Result<(Workspace, bool), WorkspaceError>,
    snippets: Seq<Snippet>,
    w: Workspace,
    root: Seq<char>,
    cards: Seq<Seq<char>>,
    settings: Seq<char>,
)
    requires
        initialized(r, snippets, Some(w), root, cards, settings),
        !w.valid(),
    ensures
        r is Err,
        w.version != WORKSPACE_VERSION ==> r->Err_0 == WorkspaceError::UnsupportedVersion,
        w.version == WORKSPACE_VERSION && !w.has_container(w.root@) ==> r->Err_0
            == WorkspaceError::RootMissing,
{
}

} // verus!
