//! The open canvases: that of the root, and those of folders.
use crate::app::board::{other_snippet, snippet_cards, CanvasItem, ContainerCanvas};
use crate::data::ids::{ContainerId, EntityId, ExternalFileId, ReferenceId};
use crate::data::workspace::{is_renamed_file, rename_target, ReferenceTarget};
use crate::idmap::{ascending, first_index, same_keys, same_keys_ascending, same_keys_lookup, IdMap};
use vstd::prelude::*;

verus! {

/// The open canvases.
pub struct Boards {
    pub root: ContainerCanvas,
    pub folder_views: IdMap<ContainerId, ContainerCanvas>,
}

/// The cards of a snippet were taken off a canvas.
pub open spec fn lost_snippet(
    after: ContainerCanvas,
    before: ContainerCanvas,
    entity: Seq<char>,
) -> bool {
    &&& after.same_but_cards(before)
    &&& after.items@ == before.items@.filter(other_snippet(entity))
    &&& after.layout.items@ == before.layout.items@.remove_keys(
        snippet_cards(before.items@, entity),
    )
}

/// An external file got a new title on a canvas.
pub open spec fn retitled_file(
    after: ContainerCanvas,
    before: ContainerCanvas,
    id: Seq<char>,
    title: Seq<char>,
) -> bool {
    &&& after.same_but_cards(before)
    &&& after.layout == before.layout
    &&& after.items@.len() == before.items@.len()
    &&& forall|j: int|
        0 <= j < before.items@.len() ==> {
            &&& (#[trigger] after.items@[j]).reference_id == before.items@[j].reference_id
            &&& after.items@[j].role == before.items@[j].role
            &&& after.items@[j].position == before.items@[j].position
            &&& after.items@[j].size == before.items@[j].size
            &&& is_renamed_file(after.items@[j].target, before.items@[j].target, id, title)
        }
}

fn rename_file_on(canvas: &mut ContainerCanvas, id: &ExternalFileId, title: &str)
    ensures
        retitled_file(*final(canvas), *old(canvas), id@, title@),
{
    let ghost before = canvas.items@;
    let mut i: usize = 0;
    while i < canvas.items.len()
        invariant
            i <= before.len(),
            before == old(canvas).items@,
            canvas.same_but_cards(*old(canvas)),
            canvas.layout == old(canvas).layout,
            canvas.items@.len() == before.len(),
            forall|j: int|
                0 <= j < i ==> {
                    &&& (#[trigger] canvas.items@[j]).reference_id == before[j].reference_id
                    &&& canvas.items@[j].role == before[j].role
                    &&& canvas.items@[j].position == before[j].position
                    &&& canvas.items@[j].size == before[j].size
                    &&& is_renamed_file(canvas.items@[j].target, before[j].target, id@, title@)
                },
            forall|j: int| i <= j < before.len() ==> #[trigger] canvas.items@[j] == before[j],
        decreases before.len() - i,
    {
        let item = &canvas.items[i];
        let renamed = CanvasItem {
            reference_id: item.reference_id.clone(),
            target: rename_target(&item.target, id, title),
            role: item.role,
            position: item.position,
            size: item.size,
        };
        canvas.items.set(i, renamed);
        i = i + 1;
    }
}

impl Boards {
    /// The container has an open canvas.
    pub open spec fn is_open(&self, container: Seq<char>) -> bool {
        container == self.root.container_id@ || self.folder_views@.contains_key(container)
    }

    /// The canvas of a container.
    pub open spec fn canvas(&self, container: Seq<char>) -> ContainerCanvas {
        if container == self.root.container_id@ {
            self.root
        } else {
            self.folder_views@[container]
        }
    }

    /// Only the canvas of `container` changed.
    pub open spec fn same_but(&self, before: Self, container: Seq<char>) -> bool {
        if container == before.root.container_id@ {
            self.folder_views == before.folder_views && self.root.container_id
                == before.root.container_id
        } else {
            self.root == before.root && self.folder_views@ == before.folder_views@.insert(
                container,
                self.folder_views@[container],
            )
        }
    }

    /// A card was put on the canvas of `container`, if that is open.
    pub open spec fn took(&self, before: Self, container: Seq<char>, item: CanvasItem) -> bool {
        if before.is_open(container) {
            self.same_but(before, container) && self.canvas(container).took(
                before.canvas(container),
                item,
            )
        } else {
            *self == before
        }
    }

    /// The cards of a reference were taken off the canvas of `container`, if that
    /// is open, and its layout is up to date.
    pub open spec fn gave(&self, before: Self, container: Seq<char>, reference: Seq<char>) -> bool {
        if before.is_open(container) {
            self.same_but(before, container) && self.canvas(container).gave(
                before.canvas(container),
                reference,
            )
        } else {
            *self == before
        }
    }

    /// The cards of a reference were taken off the canvas of `container`, if that
    /// is open.
    pub open spec fn without(
        &self,
        before: Self,
        container: Seq<char>,
        reference: Seq<char>,
    ) -> bool {
        if before.is_open(container) {
            self.same_but(before, container) && self.canvas(container).without(
                before.canvas(container),
                reference,
            )
        } else {
            *self == before
        }
    }

    /// A card was put on the canvas of `container`, if that is open. The places of
    /// the other cards in the layout are left alone.
    pub open spec fn placed(&self, before: Self, container: Seq<char>, item: CanvasItem) -> bool {
        if before.is_open(container) {
            self.same_but(before, container) && self.canvas(container).placed(
                before.canvas(container),
                item,
            )
        } else {
            *self == before
        }
    }

    /// Puts a card on the canvas of a container, if that is open. Returns whether
    /// it is.
    pub fn place(&mut self, container: &ContainerId, item: CanvasItem) -> (r: bool)
        ensures
            r == old(self).is_open(container@),
            final(self).placed(*old(self), container@, item),
    {
        if *container == self.root.container_id {
            self.root.place(item);
            true
        } else {
            match self.folder_views.get_mut(container) {
                Some(canvas) => {
                    canvas.place(item);
                    true
                },
                None => false,
            }
        }
    }

    /// The canvas of a container, if it is open.
    pub fn get(&self, container: &ContainerId) -> (r: Option<&ContainerCanvas>)
        ensures
            r == if self.is_open(container@) {
                Some(&self.canvas(container@))
            } else {
                None
            },
    {
        if *container == self.root.container_id {
            Some(&self.root)
        } else {
            self.folder_views.get(container)
        }
    }

    /// Puts a card on the canvas of a container, if that is open. Returns whether
    /// it is.
    pub fn take_card(&mut self, container: &ContainerId, item: CanvasItem) -> (r: bool)
        ensures
            r == old(self).is_open(container@),
            final(self).took(*old(self), container@, item),
    {
        if *container == self.root.container_id {
            self.root.take_card(item);
            true
        } else {
            match self.folder_views.get_mut(container) {
                Some(canvas) => {
                    canvas.take_card(item);
                    true
                },
                None => false,
            }
        }
    }

    /// Takes the cards of a reference off the canvas of a container, if that is
    /// open, and brings its layout up to date. Returns whether it is.
    pub fn give_card(&mut self, container: &ContainerId, reference: &ReferenceId) -> (r: bool)
        ensures
            r == old(self).is_open(container@),
            final(self).gave(*old(self), container@, reference@),
    {
        if *container == self.root.container_id {
            self.root.give_card(reference);
            true
        } else {
            match self.folder_views.get_mut(container) {
                Some(canvas) => {
                    canvas.give_card(reference);
                    true
                },
                None => false,
            }
        }
    }

    /// Takes the cards of a reference off the canvas of a container, if that is
    /// open. Returns whether it is.
    pub fn remove_reference(&mut self, container: &ContainerId, reference: &ReferenceId) -> (r: bool)
        ensures
            r == old(self).is_open(container@),
            final(self).without(*old(self), container@, reference@),
    {
        if *container == self.root.container_id {
            self.root.remove_reference(reference);
            true
        } else {
            match self.folder_views.get_mut(container) {
                Some(canvas) => {
                    canvas.remove_reference(reference);
                    true
                },
                None => false,
            }
        }
    }

    /// Gives an external file a new title on all canvases.
    pub fn rename_file(&mut self, id: &ExternalFileId, title: &str)
        ensures
            retitled_file(final(self).root, old(self).root, id@, title@),
            final(self).folder_views@.dom() == old(self).folder_views@.dom(),
            forall|c: Seq<char>| #[trigger]
                final(self).folder_views@.contains_key(c) ==> retitled_file(
                    final(self).folder_views@[c],
                    old(self).folder_views@[c],
                    id@,
                    title@,
                ),
            old(self).folder_views.wf() ==> final(self).folder_views.wf(),
    {
        rename_file_on(&mut self.root, id, title);
        let ghost before = self.folder_views.order();
        let mut i: usize = 0;
        while i < self.folder_views.len()
            invariant
                i <= before.len(),
                before == old(self).folder_views.order(),
                retitled_file(self.root, old(self).root, id@, title@),
                same_keys(before, self.folder_views.order()),
                forall|j: int|
                    0 <= j < i ==> retitled_file(
                        #[trigger] self.folder_views.order()[j].1,
                        before[j].1,
                        id@,
                        title@,
                    ),
                forall|j: int|
                    i <= j < before.len() ==> #[trigger] self.folder_views.order()[j] == before[j],
            decreases before.len() - i,
        {
            let ghost here = self.folder_views.order();
            let canvas = self.folder_views.value_at_mut(i);
            rename_file_on(canvas, id, title);
            assert(here[i as int] == before[i as int]);
            i = i + 1;
        }
        proof {
            let after = self.folder_views.order();
            assert forall|c: Seq<char>| #[trigger]
                self.folder_views@.contains_key(c) implies retitled_file(
                self.folder_views@[c],
                old(self).folder_views@[c],
                id@,
                title@,
            ) by {
                same_keys_lookup(before, after, c);
                assert(self.folder_views.order()[first_index(before, c)].1
                    == self.folder_views@[c]);
            }
            assert forall|c: Seq<char>|
                self.folder_views@.contains_key(c) == old(self).folder_views@.contains_key(c) by {
                same_keys_lookup(before, after, c);
            }
            assert(self.folder_views@.dom() =~= old(self).folder_views@.dom());
            if ascending(before) {
                same_keys_ascending(before, after);
            }
        }
    }

    /// Takes the cards of a snippet off all canvases.
    pub fn remove_entity(&mut self, entity: &EntityId)
        ensures
            lost_snippet(final(self).root, old(self).root, entity@),
            final(self).folder_views@.dom() == old(self).folder_views@.dom(),
            forall|c: Seq<char>| #[trigger]
                final(self).folder_views@.contains_key(c) ==> lost_snippet(
                    final(self).folder_views@[c],
                    old(self).folder_views@[c],
                    entity@,
                ),
            final(self).folder_views.order().len() == old(self).folder_views.order().len(),
            forall|i: int|
                0 <= i < old(self).folder_views.order().len() ==> (
                #[trigger] final(self).folder_views.order()[i]).0
                    == old(self).folder_views.order()[i].0,
            old(self).folder_views.wf() ==> final(self).folder_views.wf(),
    {
        self.root.remove_entity(entity);
        let ghost before = self.folder_views.order();
        let mut i: usize = 0;
        while i < self.folder_views.len()
            invariant
                i <= before.len(),
                before == old(self).folder_views.order(),
                lost_snippet(self.root, old(self).root, entity@),
                same_keys(before, self.folder_views.order()),
                forall|j: int|
                    0 <= j < i ==> lost_snippet(
                        #[trigger] self.folder_views.order()[j].1,
                        before[j].1,
                        entity@,
                    ),
                forall|j: int|
                    0 <= j < before.len() ==> (#[trigger] self.folder_views.order()[j]).0
                        == before[j].0,
                forall|j: int|
                    i <= j < before.len() ==> #[trigger] self.folder_views.order()[j] == before[j],
            decreases before.len() - i,
        {
            let ghost here = self.folder_views.order();
            let canvas = self.folder_views.value_at_mut(i);
            canvas.remove_entity(entity);
            assert(here[i as int] == before[i as int]);
            i = i + 1;
        }
        proof {
            let after = self.folder_views.order();
            assert forall|c: Seq<char>| #[trigger]
                self.folder_views@.contains_key(c) implies lost_snippet(
                self.folder_views@[c],
                old(self).folder_views@[c],
                entity@,
            ) by {
                same_keys_lookup(before, after, c);
                assert(self.folder_views.order()[first_index(before, c)].1
                    == self.folder_views@[c]);
            }
            assert forall|c: Seq<char>|
                self.folder_views@.contains_key(c) == old(self).folder_views@.contains_key(c) by {
                same_keys_lookup(before, after, c);
            }
            assert(self.folder_views@.dom() =~= old(self).folder_views@.dom());
            if ascending(before) {
                same_keys_ascending(before, after);
            }
        }
    }
}

/// A deleted snippet leaves its canvas: all of its cards go, with their places, and
/// every other card stays.
pub proof fn snippets_leave_their_canvases(
    after: ContainerCanvas,
    before: ContainerCanvas,
    entity: Seq<char>,
    k: int,
)
    requires
        lost_snippet(after, before, entity),
    ensures
        forall|i: int|
            0 <= i < after.items@.len() ==> !((#[trigger] after.items@[i]).target matches
                ReferenceTarget::Snippet(id) && id@ == entity),
        0 <= k < before.items@.len() && !(before.items@[k].target matches ReferenceTarget::Snippet(
            id,
        ) && id@ == entity) ==> after.items@.contains(before.items@[k]),
        0 <= k < before.items@.len() && (before.items@[k].target matches ReferenceTarget::Snippet(
            id,
        ) && id@ == entity) ==> !after.layout.items@.contains_key(before.items@[k].reference_id@),
        after.texts == before.texts,
{
    let kept = before.items@.filter(other_snippet(entity));
    assert forall|i: int| 0 <= i < kept.len() implies !((#[trigger] kept[i]).target matches
        ReferenceTarget::Snippet(id) && id@ == entity) by {
        before.items@.lemma_filter_pred(other_snippet(entity), i);
    }
    if 0 <= k < before.items@.len() {
        if before.items@[k].target.is_snippet(entity) {
            assert(snippet_cards(before.items@, entity).contains(before.items@[k].reference_id@));
        } else {
            before.items@.lemma_filter_contains(other_snippet(entity), k);
        }
    }
}

/// What happens to the cards of one container leaves every other canvas as it is. Where
/// the container is not open, no canvas changes at all.
pub proof fn other_canvases_stay(
    after: Boards,
    before: Boards,
    container: Seq<char>,
    item: CanvasItem,
    reference: Seq<char>,
    other: Seq<char>,
)
    requires
        after.took(before, container, item) || after.placed(before, container, item) || after.gave(
            before,
            container,
            reference,
        ) || after.without(before, container, reference),
    ensures
        container != before.root.container_id@ && !before.folder_views@.contains_key(container)
            ==> after == before,
        other != container && before.is_open(other) ==> after.is_open(other) && after.canvas(other)
            == before.canvas(other),
        before.is_open(container) ==> after.is_open(container),
{
}

} // verus!
