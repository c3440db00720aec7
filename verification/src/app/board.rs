//! Canvases: the cards and texts of an open container, and how they move.
use crate::data::ids::{ContainerId, EntityId, ReferenceId, TextId};
use crate::data::layout::{CanvasText, CardLayout, ContainerLayout, Point};
use crate::data::model::Snippet;
use crate::data::workspace::{MemberRole, Reference, ReferenceTarget, Workspace};
use crate::idmap::IdMap;
use crate::lists::retain;
use crate::text::lines;
use vstd::prelude::*;

verus! {

/// Width of a card, 150 points, as the bit pattern of a single-precision number.
pub const CARD_WIDTH: u32 = 0x4316_0000;

/// Height of a card before it was laid out, 25 points, as the bit pattern of a
/// single-precision number.
pub const CARD_HEIGHT: u32 = 0x41C8_0000;

/// How many places are tried for a new card.
pub const SLOT_COUNT: usize = 640;

/// Places for new cards stand in rows of this length.
pub const SLOTS_PER_ROW: usize = 16;

/// A card on a canvas.
#[derive(Debug)]
pub struct CanvasItem {
    pub reference_id: ReferenceId,
    pub target: ReferenceTarget,
    pub role: MemberRole,
    pub position: Point,
    pub size: Point,
}

impl CanvasItem {
    /// A card that was not laid out yet.
    pub open spec fn is_fresh(
        &self,
        reference_id: ReferenceId,
        target: ReferenceTarget,
        role: MemberRole,
        position: Point,
    ) -> bool {
        *self == (CanvasItem {
            reference_id,
            target,
            role,
            position,
            size: Point { x: CARD_WIDTH, y: CARD_HEIGHT },
        })
    }

    pub fn new(
        reference_id: ReferenceId,
        target: ReferenceTarget,
        role: MemberRole,
        position: Point,
    ) -> (r: Self)
        ensures
            r.is_fresh(reference_id, target, role, position),
    {
        CanvasItem {
            reference_id,
            target,
            role,
            position,
            size: Point { x: CARD_WIDTH, y: CARD_HEIGHT },
        }
    }
}

/// A card that is being dragged.
#[derive(Debug)]
pub struct DragState {
    /// Which card of the canvas it is.
    pub index: usize,
    pub start_position: Point,
    /// The card would overlap something where it is now.
    pub invalid: bool,
    pub reference_id: ReferenceId,
    /// Where the pointer holds the card.
    pub grab_offset: Point,
}

impl Clone for DragState {
    fn clone(&self) -> (r: Self)
        ensures
            r == *self,
    {
        DragState {
            index: self.index,
            start_position: self.start_position,
            invalid: self.invalid,
            reference_id: self.reference_id.clone(),
            grab_offset: self.grab_offset,
        }
    }
}

/// A text that is being dragged.
#[derive(Clone, Copy, Debug, PartialEq, Eq)]
pub struct TextDrag {
    pub index: usize,
    pub start_position: Point,
    /// The text would overlap something where it is now.
    pub invalid: bool,
}

/// The canvas of an open container.
pub struct ContainerCanvas {
    pub container_id: ContainerId,
    pub items: Vec<CanvasItem>,
    /// Texts belong to their canvas. They cannot be linked or moved elsewhere.
    pub texts: Vec<CanvasText>,
    pub layout: ContainerLayout,
    pub dragging: Option<DragState>,
    pub dragging_text: Option<TextDrag>,
    /// The text that is being edited.
    pub editing_text: Option<TextId>,
    /// The editor already has the focus.
    pub edit_focus_requested: bool,
    /// Where the context menu was opened: new things go there.
    pub menu_anchor: Option<Point>,
}

/// What becomes of a card that is let go.
#[derive(Clone, Copy, Debug, PartialEq, Eq, Structural)]
pub enum Release {
    /// Nothing yet: the pointer is over another window.
    Kept,
    /// The card stays where it is. The layout is to be saved.
    Placed,
    /// The card is back where it was, since it would overlap something.
    Refused,
    /// The card goes into a folder on the same canvas, and stands where it was.
    /// The layout is to be saved.
    IntoFolder,
}

/// The placements `items` with those of the cards put in.
pub open spec fn with_positions(
    items: Map<Seq<char>, CardLayout>,
    cards: Seq<CanvasItem>,
) -> Map<Seq<char>, CardLayout>
    decreases cards.len(),
{
    if cards.len() == 0 {
        items
    } else {
        with_positions(items, cards.drop_last()).insert(
            cards.last().reference_id@,
            CardLayout::plain(cards.last().position),
        )
    }
}

/// Each card is placed where it stands, unless a later card is of the same
/// reference.
pub proof fn positions_are_kept(
    items: Map<Seq<char>, CardLayout>,
    cards: Seq<CanvasItem>,
    i: int,
)
    requires
        0 <= i < cards.len(),
        forall|j: int| i < j < cards.len() ==> cards[j].reference_id@ != cards[i].reference_id@,
    ensures
        with_positions(items, cards).contains_key(cards[i].reference_id@),
        with_positions(items, cards)[cards[i].reference_id@] == CardLayout::plain(
            cards[i].position,
        ),
    decreases cards.len(),
{
    if i < cards.len() - 1 {
        assert(cards.last().reference_id@ != cards[i].reference_id@);
        positions_are_kept(items, cards.drop_last(), i);
    }
}

pub open spec fn other_reference(reference: Seq<char>) -> spec_fn(CanvasItem) -> bool {
    |item: CanvasItem| item.reference_id@ != reference
}

pub open spec fn other_snippet(entity: Seq<char>) -> spec_fn(CanvasItem) -> bool {
    |item: CanvasItem| !item.target.is_snippet(entity)
}

pub open spec fn other_text(text: Seq<char>) -> spec_fn(CanvasText) -> bool {
    |item: CanvasText| item.id@ != text
}

/// The identifiers of the cards of a snippet.
pub open spec fn snippet_cards(cards: Seq<CanvasItem>, entity: Seq<char>) -> Set<Seq<char>> {
    Set::new(
        |id: Seq<char>|
            exists|i: int|
                0 <= i < cards.len() && (#[trigger] cards[i]).target.is_snippet(entity)
                    && cards[i].reference_id@ == id,
    )
}

/// The dragged card is on the canvas, and its drag is over.
pub open spec fn moves_home(canvas: ContainerCanvas, alive: bool) -> bool {
    match canvas.dragging {
        Some(drag) => !alive && drag.index < canvas.items@.len()
            && canvas.items@[drag.index as int].reference_id@ == drag.reference_id@,
        None => false,
    }
}

/// A drag that left the canvas is over: a card that no other canvas took is back
/// where it was.
pub open spec fn drop_ended(
    after: ContainerCanvas,
    before: ContainerCanvas,
    alive: bool,
    consumed: bool,
) -> bool {
    match before.dragging {
        None => after == before,
        Some(drag) => if alive {
            after == before
        } else {
            let present = moves_home(before, alive);
            let items = if present && !consumed {
                before.items@.update(
                    drag.index as int,
                    (CanvasItem {
                        position: drag.start_position,
                        ..before.items@[drag.index as int]
                    }),
                )
            } else {
                before.items@
            };
            &&& after.dragging is None
            &&& after.container_id == before.container_id
            &&& after.texts == before.texts
            &&& after.items@ == items
            &&& after.layout.version == before.layout.version
            &&& after.layout.container == before.layout.container
            &&& after.dragging_text == before.dragging_text
            &&& after.editing_text == before.editing_text
            &&& after.edit_focus_requested == before.edit_focus_requested
            &&& after.menu_anchor == before.menu_anchor
            &&& if present {
                &&& after.layout.items@ == with_positions(before.layout.items@, items)
                &&& after.layout.texts@ == before.texts@
            } else {
                after.layout == before.layout
            }
        },
    }
}

impl ContainerCanvas {
    /// Nothing but the cards and their placements changed.
    pub open spec fn same_but_cards(&self, before: Self) -> bool {
        &&& self.container_id == before.container_id
        &&& self.texts == before.texts
        &&& self.layout.version == before.layout.version
        &&& self.layout.container == before.layout.container
        &&& self.layout.texts == before.layout.texts
        &&& self.dragging == before.dragging
        &&& self.dragging_text == before.dragging_text
        &&& self.editing_text == before.editing_text
        &&& self.edit_focus_requested == before.edit_focus_requested
        &&& self.menu_anchor == before.menu_anchor
    }

    /// The layout was brought up to date with the cards and texts of `before`.
    pub open spec fn settled(&self, before: Self) -> bool {
        &&& self.container_id == before.container_id
        &&& self.items == before.items
        &&& self.texts == before.texts
        &&& self.layout.version == before.layout.version
        &&& self.layout.container == before.layout.container
        &&& self.layout.items@ == with_positions(before.layout.items@, before.items@)
        &&& self.layout.texts@ == before.texts@
        &&& self.dragging == before.dragging
        &&& self.dragging_text == before.dragging_text
        &&& self.editing_text == before.editing_text
        &&& self.edit_focus_requested == before.edit_focus_requested
        &&& self.menu_anchor == before.menu_anchor
    }

    /// A card was put on the canvas.
    pub open spec fn placed(&self, before: Self, item: CanvasItem) -> bool {
        &&& self.same_but_cards(before)
        &&& self.items@ == before.items@.push(item)
        &&& self.layout.items@ == before.layout.items@.insert(
            item.reference_id@,
            CardLayout::plain(item.position),
        )
    }

    /// The cards of a reference were taken off the canvas.
    pub open spec fn without(&self, before: Self, reference: Seq<char>) -> bool {
        &&& self.same_but_cards(before)
        &&& self.items@ == before.items@.filter(other_reference(reference))
        &&& self.layout.items@ == before.layout.items@.remove(reference)
    }

    /// Nothing but the cards and the layout changed, and the texts of the layout
    /// are up to date.
    pub open spec fn same_but_layout(&self, before: Self) -> bool {
        &&& self.container_id == before.container_id
        &&& self.texts == before.texts
        &&& self.layout.version == before.layout.version
        &&& self.layout.container == before.layout.container
        &&& self.layout.texts@ == before.texts@
        &&& self.dragging == before.dragging
        &&& self.dragging_text == before.dragging_text
        &&& self.editing_text == before.editing_text
        &&& self.edit_focus_requested == before.edit_focus_requested
        &&& self.menu_anchor == before.menu_anchor
    }

    /// A card was put on the canvas, and the layout is up to date.
    pub open spec fn took(&self, before: Self, item: CanvasItem) -> bool {
        &&& self.same_but_layout(before)
        &&& self.items@ == before.items@.push(item)
        &&& self.layout.items@ == with_positions(
            before.layout.items@.insert(item.reference_id@, CardLayout::plain(item.position)),
            before.items@.push(item),
        )
    }

    /// The cards of a reference were taken off, and the layout is up to date.
    pub open spec fn gave(&self, before: Self, reference: Seq<char>) -> bool {
        &&& self.same_but_layout(before)
        &&& self.items@ == before.items@.filter(other_reference(reference))
        &&& self.layout.items@ == with_positions(
            before.layout.items@.remove(reference),
            before.items@.filter(other_reference(reference)),
        )
    }

    /// Puts a card on the canvas and brings the layout up to date.
    pub fn take_card(&mut self, item: CanvasItem)
        ensures
            final(self).took(*old(self), item),
    {
        self.place(item);
        self.save_layout();
    }

    /// Takes the cards of a reference off the canvas and brings the layout up to
    /// date.
    pub fn give_card(&mut self, reference: &ReferenceId)
        ensures
            final(self).gave(*old(self), reference@),
    {
        self.remove_reference(reference);
        self.save_layout();
    }

    /// Brings the layout up to date with the cards and texts.
    pub fn save_layout(&mut self)
        ensures
            final(self).settled(*old(self)),
    {
        let mut i: usize = 0;
        let ghost items = self.layout.items@;
        assert(self.items@.take(0) =~= Seq::<CanvasItem>::empty());
        while i < self.items.len()
            invariant
                i <= self.items@.len(),
                self.same_but_cards(*old(self)),
                self.items == old(self).items,
                items == old(self).layout.items@,
                self.layout.items@ == with_positions(items, self.items@.take(i as int)),
            decreases self.items@.len() - i,
        {
            proof {
                assert(self.items@.take(i + 1).drop_last() =~= self.items@.take(i as int));
                assert(self.items@.take(i + 1).last() == self.items@[i as int]);
            }
            let placement = CardLayout::at(self.items[i].position);
            let id = self.items[i].reference_id.clone();
            self.layout.items.insert(id, placement);
            i = i + 1;
        }
        assert(self.items@.take(i as int) =~= self.items@);
        self.layout.texts = copy_canvas_texts(&self.texts);
    }

    /// Puts a card on the canvas.
    pub fn place(&mut self, item: CanvasItem)
        ensures
            final(self).placed(*old(self), item),
    {
        let placement = CardLayout::at(item.position);
        let id = item.reference_id.clone();
        self.items.push(item);
        self.layout.items.insert(id, placement);
    }

    /// Takes the cards of a reference off the canvas.
    pub fn remove_reference(&mut self, reference: &ReferenceId)
        ensures
            final(self).without(*old(self), reference@),
    {
        let keep = |item: &CanvasItem| -> (b: bool)
            ensures
                b == (other_reference(reference@))(*item),
            { item.reference_id != *reference };
        retain(&mut self.items, keep, Ghost(other_reference(reference@)));
        let _ = self.layout.items.remove(reference);
    }

    /// Takes the cards of a snippet off the canvas.
    pub fn remove_entity(&mut self, entity: &EntityId)
        ensures
            final(self).same_but_cards(*old(self)),
            final(self).items@ == old(self).items@.filter(other_snippet(entity@)),
            final(self).layout.items@ == old(self).layout.items@.remove_keys(
                snippet_cards(old(self).items@, entity@),
            ),
    {
        let ghost all = self.items@;
        let ghost items = self.layout.items@;
        let mut i: usize = 0;
        proof {
            assert(snippet_cards(all.take(0), entity@) =~= Set::empty());
            assert(items.remove_keys(snippet_cards(all.take(0), entity@)) =~= items);
        }
        while i < self.items.len()
            invariant
                i <= all.len(),
                self.items@ == all,
                self.items == old(self).items,
                self.same_but_cards(*old(self)),
                self.layout.items@ == items.remove_keys(
                    snippet_cards(all.take(i as int), entity@),
                ),
            decreases all.len() - i,
        {
            let ghost before = snippet_cards(all.take(i as int), entity@);
            let ghost after = snippet_cards(all.take(i + 1), entity@);
            let hit = match &self.items[i].target {
                ReferenceTarget::Snippet(id) => *id == *entity,
                _ => false,
            };
            proof {
                let cut = all.take(i as int);
                let next = all.take(i + 1);
                assert forall|id: Seq<char>| after.contains(id) == (before.contains(id) || (hit
                    && all[i as int].reference_id@ == id)) by {
                    if after.contains(id) {
                        let k = choose|k: int|
                            0 <= k < next.len() && (#[trigger] next[k]).target.is_snippet(entity@)
                                && next[k].reference_id@ == id;
                        if k < i {
                            assert(cut[k] == next[k]);
                        }
                    }
                    if before.contains(id) {
                        let k = choose|k: int|
                            0 <= k < cut.len() && (#[trigger] cut[k]).target.is_snippet(entity@)
                                && cut[k].reference_id@ == id;
                        assert(next[k] == cut[k]);
                    }
                    if hit && all[i as int].reference_id@ == id {
                        assert(next[i as int] == all[i as int]);
                    }
                }
            }
            if hit {
                let id = self.items[i].reference_id.clone();
                let _ = self.layout.items.remove(&id);
                assert(items.remove_keys(before).remove(id@) =~= items.remove_keys(after));
            } else {
                assert(items.remove_keys(before) =~= items.remove_keys(after));
            }
            i = i + 1;
        }
        assert(all.take(i as int) =~= all);
        let keep = |item: &CanvasItem| -> (b: bool)
            ensures
                b == (other_snippet(entity@))(*item),
            {
                match &item.target {
                    ReferenceTarget::Snippet(id) => *id != *entity,
                    _ => true,
                }
            };
        retain(&mut self.items, keep, Ghost(other_snippet(entity@)));
    }

    /// Puts the cards into columns of `rows` cards: the first card of a column
    /// is at the top. `xs` holds where the columns stand, `ys` where the rows
    /// stand. The layout is brought up to date.
    pub fn organize(&mut self, rows: usize, xs: &Vec<u32>, ys: &Vec<u32>)
        requires
            rows > 0,
            old(self).items@.len() > 0 ==> xs@.len() > (old(self).items@.len() - 1) / (rows as int),
            ys@.len() >= rows || ys@.len() >= old(self).items@.len(),
        ensures
            final(self).items@.len() == old(self).items@.len(),
            forall|i: int|
                0 <= i < old(self).items@.len() ==> #[trigger] final(self).items@[i] == (CanvasItem {
                    position: Point { x: xs@[i / (rows as int)], y: ys@[i % (rows as int)] },
                    ..old(self).items@[i]
                }),
            final(self).settled((ContainerCanvas { items: final(self).items, ..*old(self) })),
    {
        self.arrange(rows, xs, ys);
        assert(*self == (ContainerCanvas { items: self.items, ..*old(self) }));
        self.save_layout();
    }

    fn arrange(&mut self, rows: usize, xs: &Vec<u32>, ys: &Vec<u32>)
        requires
            rows > 0,
            old(self).items@.len() > 0 ==> xs@.len() > (old(self).items@.len() - 1) / (rows as int),
            ys@.len() >= rows || ys@.len() >= old(self).items@.len(),
        ensures
            final(self).items@.len() == old(self).items@.len(),
            forall|i: int|
                0 <= i < old(self).items@.len() ==> #[trigger] final(self).items@[i] == (CanvasItem {
                    position: Point { x: xs@[i / (rows as int)], y: ys@[i % (rows as int)] },
                    ..old(self).items@[i]
                }),
            final(self).same_but_cards(*old(self)),
            final(self).layout == old(self).layout,
    {
        let ghost all = self.items@;
        let mut i: usize = 0;
        while i < self.items.len()
            invariant
                rows > 0,
                i <= all.len(),
                all == old(self).items@,
                self.items@.len() == all.len(),
                all.len() > 0 ==> xs@.len() > (all.len() - 1) / (rows as int),
                ys@.len() >= rows || ys@.len() >= all.len(),
                self.same_but_cards(*old(self)),
                self.layout == old(self).layout,
                forall|j: int| i <= j < all.len() ==> #[trigger] self.items@[j] == all[j],
                forall|j: int|
                    0 <= j < i ==> #[trigger] self.items@[j] == (CanvasItem {
                        position: Point { x: xs@[j / (rows as int)], y: ys@[j % (rows as int)] },
                        ..all[j]
                    }),
            decreases all.len() - i,
        {
            proof {
                vstd::arithmetic::div_mod::lemma_div_is_ordered(
                    i as int,
                    all.len() - 1,
                    rows as int,
                );
                vstd::arithmetic::div_mod::lemma_mod_bound(i as int, rows as int);
                vstd::arithmetic::div_mod::lemma_mod_decreases(i as nat, rows as nat);
                vstd::arithmetic::div_mod::lemma_div_pos_is_pos(i as int, rows as int);
            }
            let column = i / rows;
            let row = i % rows;
            let position = Point { x: xs[column], y: ys[row] };
            let old_item = &self.items[i];
            let item = CanvasItem {
                reference_id: old_item.reference_id.clone(),
                target: old_item.target.clone(),
                role: old_item.role,
                position,
                size: old_item.size,
            };
            self.items.set(i, item);
            i = i + 1;
        }
    }

    /// Begins to drag a card.
    pub fn begin_drag(&mut self, index: usize, grab_offset: Point)
        requires
            index < old(self).items@.len(),
        ensures
            *final(self) == (ContainerCanvas { dragging: final(self).dragging, ..*old(self) }),
            final(self).dragging == Some(
                DragState {
                    index,
                    start_position: old(self).items@[index as int].position,
                    invalid: false,
                    reference_id: old(self).items@[index as int].reference_id,
                    grab_offset,
                },
            ),
    {
        self.dragging = Some(
            DragState {
                index,
                start_position: self.items[index].position,
                invalid: false,
                reference_id: self.items[index].reference_id.clone(),
                grab_offset,
            },
        );
    }

    /// Moves a card.
    pub fn move_card(&mut self, index: usize, position: Point)
        requires
            index < old(self).items@.len(),
        ensures
            final(self).same_but_cards(*old(self)),
            final(self).layout == old(self).layout,
            final(self).items@ == old(self).items@.update(
                index as int,
                (CanvasItem { position, ..old(self).items@[index as int] }),
            ),
    {
        let item = &self.items[index];
        let moved = CanvasItem {
            reference_id: item.reference_id.clone(),
            target: item.target.clone(),
            role: item.role,
            position,
            size: item.size,
        };
        self.items.set(index, moved);
    }

    /// Lets go of the dragged card. `over_canvas` tells that the pointer is over
    /// this canvas and nothing covers it there, `folder` is the card of a folder
    /// that would take the dragged card.
    pub fn release(&mut self, over_canvas: bool, folder: Option<usize>) -> (r: Release)
        requires
            old(self).dragging matches Some(drag) && drag.index < old(self).items@.len(),
        ensures
            ({
                let drag = old(self).dragging->0;
                let on_folder = over_canvas && folder is Some && folder->0 != drag.index;
                let home = old(self).items@.update(
                    drag.index as int,
                    (CanvasItem {
                        position: drag.start_position,
                        ..old(self).items@[drag.index as int]
                    }),
                );
                if !over_canvas {
                    r == Release::Kept && *final(self) == *old(self)
                } else {
                    &&& final(self).dragging is None
                    &&& final(self).container_id == old(self).container_id
                    &&& final(self).texts == old(self).texts
                    &&& final(self).layout.version == old(self).layout.version
                    &&& final(self).layout.container == old(self).layout.container
                    &&& final(self).dragging_text == old(self).dragging_text
                    &&& final(self).editing_text == old(self).editing_text
                    &&& final(self).edit_focus_requested == old(self).edit_focus_requested
                    &&& final(self).menu_anchor == old(self).menu_anchor
                    &&& if on_folder {
                        &&& r == Release::IntoFolder
                        &&& final(self).items@ == home
                        &&& final(self).layout.items@ == with_positions(
                            old(self).layout.items@,
                            home,
                        )
                        &&& final(self).layout.texts@ == old(self).texts@
                    } else if drag.invalid {
                        &&& r == Release::Refused
                        &&& final(self).items@ == home
                        &&& final(self).layout == old(self).layout
                    } else {
                        &&& r == Release::Placed
                        &&& final(self).items == old(self).items
                        &&& final(self).layout.items@ == with_positions(
                            old(self).layout.items@,
                            old(self).items@,
                        )
                        &&& final(self).layout.texts@ == old(self).texts@
                    }
                }
            }),
    {
        if !over_canvas {
            return Release::Kept;
        }
        let drag = match self.dragging.take() {
            Some(drag) => drag,
            None => {
                return Release::Kept;
            },
        };
        let on_folder = match folder {
            Some(index) => index != drag.index,
            None => false,
        };
        if on_folder {
            self.move_card(drag.index, drag.start_position);
            self.save_layout();
            Release::IntoFolder
        } else if drag.invalid {
            self.move_card(drag.index, drag.start_position);
            Release::Refused
        } else {
            self.save_layout();
            Release::Placed
        }
    }

    /// Ends a drag that left this canvas, once it is over: `alive` tells that it
    /// is not, `consumed` that another canvas took the card. A card that nobody
    /// took goes back. Returns whether the layout is to be saved.
    pub fn finalize_drop(&mut self, alive: bool, consumed: bool) -> (r: bool)
        ensures
            drop_ended(*final(self), *old(self), alive, consumed),
            r == moves_home(*old(self), alive),
    {
        let drag = match &self.dragging {
            Some(drag) => drag.clone(),
            None => {
                return false;
            },
        };
        if alive {
            return false;
        }
        let present = drag.index < self.items.len() && self.items[drag.index].reference_id
            == drag.reference_id;
        self.dragging = None;
        if present {
            if !consumed {
                self.move_card(drag.index, drag.start_position);
            }
            self.save_layout();
        }
        present
    }

    /// Puts an empty text under a given identifier on the canvas and begins to
    /// edit it.
    pub fn put_text(&mut self, id: TextId, position: Point)
        ensures
            ({
                let texts = final(self).texts@;
                &&& texts == old(self).texts@.push(texts.last())
                &&& texts.last().id == id
                &&& texts.last().position == position
                &&& texts.last().text@ == Seq::<char>::empty()
                &&& texts.last().color is None
                &&& final(self).layout.texts@ == texts
            }),
            final(self).editing_text == Some(id),
            !final(self).edit_focus_requested,
            final(self).container_id == old(self).container_id,
            final(self).items == old(self).items,
            final(self).layout.items@ == with_positions(old(self).layout.items@, old(self).items@),
            final(self).layout.version == old(self).layout.version,
            final(self).layout.container == old(self).layout.container,
            final(self).dragging == old(self).dragging,
            final(self).dragging_text == old(self).dragging_text,
            final(self).menu_anchor == old(self).menu_anchor,
    {
        let text = CanvasText { id: id.clone(), position, text: String::new(), color: None };
        self.texts.push(text);
        self.editing_text = Some(id);
        self.edit_focus_requested = false;
        self.save_layout();
        proof {
            let texts = self.texts@;
            assert(texts =~= old(self).texts@.push(texts.last()));
        }
    }

    /// Puts an empty text on the canvas and begins to edit it. The layout is to
    /// be saved.
    pub fn create_text(&mut self, position: Point)
        ensures
            ({
                let texts = final(self).texts@;
                &&& texts == old(self).texts@.push(texts.last())
                &&& crate::data::ids::is_compact_id(texts.last().id@)
                &&& texts.last().position == position
                &&& texts.last().text@ == Seq::<char>::empty()
                &&& texts.last().color is None
                &&& final(self).layout.texts@ == texts
                &&& final(self).editing_text == Some(texts.last().id)
            }),
            !final(self).edit_focus_requested,
            final(self).container_id == old(self).container_id,
            final(self).items == old(self).items,
            final(self).layout.items@ == with_positions(old(self).layout.items@, old(self).items@),
            final(self).dragging == old(self).dragging,
            final(self).dragging_text == old(self).dragging_text,
            final(self).menu_anchor == old(self).menu_anchor,
    {
        self.put_text(TextId::new(), position);
    }

    /// Takes a text off the canvas. The layout is to be saved.
    pub fn delete_text(&mut self, text: &TextId)
        ensures
            final(self).texts@ == old(self).texts@.filter(other_text(text@)),
            final(self).editing_text == (match old(self).editing_text {
                Some(id) => if id@ == text@ {
                    None
                } else {
                    Some(id)
                },
                None => None,
            }),
            final(self).layout.texts@ == final(self).texts@,
            final(self).layout.items@ == with_positions(old(self).layout.items@, old(self).items@),
            final(self).container_id == old(self).container_id,
            final(self).items == old(self).items,
            final(self).dragging == old(self).dragging,
            final(self).dragging_text == old(self).dragging_text,
            final(self).edit_focus_requested == old(self).edit_focus_requested,
            final(self).menu_anchor == old(self).menu_anchor,
    {
        let keep = |item: &CanvasText| -> (b: bool)
            ensures
                b == (other_text(text@))(*item),
            { item.id != *text };
        retain(&mut self.texts, keep, Ghost(other_text(text@)));
        let edited = match &self.editing_text {
            Some(id) => *id == *text,
            None => false,
        };
        if edited {
            self.editing_text = None;
        }
        self.save_layout();
    }

    /// Begins to edit a text.
    pub fn edit_text(&mut self, text: TextId)
        ensures
            *final(self) == (ContainerCanvas {
                editing_text: Some(text),
                edit_focus_requested: false,
                ..*old(self)
            }),
    {
        self.editing_text = Some(text);
        self.edit_focus_requested = false;
    }

    /// What happens to the editor of a text in a frame: it closes on escape or a
    /// click elsewhere, and the layout is then to be saved. Otherwise it gets the
    /// focus, once. Returns whether it closed, and whether it asks for the focus.
    pub fn step_editor(&mut self, escaped: bool, clicked_outside: bool) -> (r: (bool, bool))
        ensures
            if escaped || clicked_outside {
                &&& r == (true, false)
                &&& final(self).settled(
                    (ContainerCanvas { editing_text: None, ..*old(self) }),
                )
            } else {
                &&& r == (false, !old(self).edit_focus_requested)
                &&& *final(self) == (ContainerCanvas { edit_focus_requested: true, ..*old(self) })
            },
    {
        if escaped || clicked_outside {
            self.editing_text = None;
            self.save_layout();
            (true, false)
        } else {
            let ask = !self.edit_focus_requested;
            self.edit_focus_requested = true;
            (false, ask)
        }
    }

    /// Begins to drag a text.
    pub fn begin_text_drag(&mut self, index: usize)
        requires
            index < old(self).texts@.len(),
        ensures
            *final(self) == (ContainerCanvas {
                dragging_text: Some(
                    TextDrag {
                        index,
                        start_position: old(self).texts@[index as int].position,
                        invalid: false,
                    },
                ),
                ..*old(self)
            }),
    {
        self.dragging_text = Some(
            TextDrag { index, start_position: self.texts[index].position, invalid: false },
        );
    }

    /// Moves a text. `invalid` tells that it overlaps something there.
    pub fn move_text(&mut self, index: usize, position: Point, invalid: bool)
        requires
            index < old(self).texts@.len(),
        ensures
            final(self).texts@ == old(self).texts@.update(
                index as int,
                (CanvasText { position, ..old(self).texts@[index as int] }),
            ),
            final(self).dragging_text == (match old(self).dragging_text {
                Some(drag) => Some((TextDrag { invalid, ..drag })),
                None => None,
            }),
            final(self).container_id == old(self).container_id,
            final(self).items == old(self).items,
            final(self).layout == old(self).layout,
            final(self).dragging == old(self).dragging,
            final(self).editing_text == old(self).editing_text,
            final(self).edit_focus_requested == old(self).edit_focus_requested,
            final(self).menu_anchor == old(self).menu_anchor,
    {
        let old_text = &self.texts[index];
        let text = CanvasText {
            id: old_text.id.clone(),
            position,
            text: old_text.text.clone(),
            color: old_text.color,
        };
        self.texts.set(index, text);
        match self.dragging_text {
            Some(drag) => {
                self.dragging_text = Some(
                    TextDrag { index: drag.index, start_position: drag.start_position, invalid },
                );
            },
            None => {},
        }
    }

    /// Lets go of the dragged text. One that overlaps something goes back. The
    /// layout is to be saved.
    pub fn release_text(&mut self)
        requires
            old(self).dragging_text matches Some(drag) && drag.index < old(self).texts@.len(),
        ensures
            ({
                let drag = old(self).dragging_text->0;
                final(self).texts@ == if drag.invalid {
                    old(self).texts@.update(
                        drag.index as int,
                        (CanvasText {
                            position: drag.start_position,
                            ..old(self).texts@[drag.index as int]
                        }),
                    )
                } else {
                    old(self).texts@
                }
            }),
            final(self).dragging_text is None,
            final(self).layout.texts@ == final(self).texts@,
            final(self).layout.items@ == with_positions(old(self).layout.items@, old(self).items@),
            final(self).container_id == old(self).container_id,
            final(self).items == old(self).items,
            final(self).dragging == old(self).dragging,
            final(self).editing_text == old(self).editing_text,
            final(self).edit_focus_requested == old(self).edit_focus_requested,
            final(self).menu_anchor == old(self).menu_anchor,
    {
        match self.dragging_text {
            Some(drag) => {
                if drag.invalid {
                    self.move_text(drag.index, drag.start_position, true);
                }
                self.dragging_text = None;
            },
            None => {},
        }
        self.save_layout();
    }
}

fn copy_canvas_texts(list: &Vec<CanvasText>) -> (r: Vec<CanvasText>)
    ensures
        r@ == list@,
{
    let mut r: Vec<CanvasText> = Vec::new();
    let mut i: usize = 0;
    while i < list.len()
        invariant
            i <= list@.len(),
            r@ == list@.take(i as int),
        decreases list@.len() - i,
    {
        assert(list@.take(i + 1) =~= list@.take(i as int).push(list@[i as int]));
        r.push(list[i].clone());
        i = i + 1;
    }
    assert(list@.take(i as int) =~= list@);
    r
}

/// What a reference points at is there: cards of missing snippets and containers
/// are not shown.
pub open spec fn resolves(
    target: ReferenceTarget,
    snippets: Map<Seq<char>, Snippet>,
    workspace: Workspace,
) -> bool {
    match target {
        ReferenceTarget::Snippet(id) => snippets.contains_key(id@),
        ReferenceTarget::Container(id) => workspace.has_container(id@),
        ReferenceTarget::Image(id) => workspace.images@.contains_key(id@),
        _ => true,
    }
}

/// Whether what a reference points at is there.
pub fn target_resolves(
    target: &ReferenceTarget,
    snippets: &IdMap<EntityId, Snippet>,
    workspace: &Workspace,
) -> (r: bool)
    ensures
        r == resolves(*target, snippets@, *workspace),
{
    match target {
        ReferenceTarget::Snippet(id) => snippets.contains_key(id),
        ReferenceTarget::Container(id) => workspace.containers.contains_key(id),
        ReferenceTarget::Image(id) => workspace.images.contains_key(id),
        _ => true,
    }
}

/// The members of a container that are shown, in order.
pub open spec fn shown_members(
    members: Seq<Reference>,
    snippets: Map<Seq<char>, Snippet>,
    workspace: Workspace,
) -> Seq<Reference>
    decreases members.len(),
{
    if members.len() == 0 {
        Seq::empty()
    } else {
        let rest = shown_members(members.drop_last(), snippets, workspace);
        if resolves(members.last().target, snippets, workspace) {
            rest.push(members.last())
        } else {
            rest
        }
    }
}

pub proof fn shown_members_bound(
    members: Seq<Reference>,
    snippets: Map<Seq<char>, Snippet>,
    workspace: Workspace,
)
    ensures
        shown_members(members, snippets, workspace).len() <= members.len(),
    decreases members.len(),
{
    if members.len() > 0 {
        shown_members_bound(members.drop_last(), snippets, workspace);
    }
}

/// The members of a container, or none if it does not exist.
pub open spec fn members_or_none(workspace: Workspace, container: Seq<char>) -> Seq<Reference> {
    if workspace.has_container(container) {
        workspace.members_of(container)
    } else {
        Seq::empty()
    }
}

/// Where the card of a reference stands: at its stored place, or in its slot.
pub open spec fn place_of(
    placements: Map<Seq<char>, CardLayout>,
    reference: Seq<char>,
    slot: Point,
) -> Point {
    if placements.contains_key(reference) {
        placements[reference].position
    } else {
        slot
    }
}

/// The cards show these members: at their stored places, or in their slots.
pub open spec fn are_cards_of(
    cards: Seq<CanvasItem>,
    members: Seq<Reference>,
    placements: Map<Seq<char>, CardLayout>,
    slots: Seq<Point>,
) -> bool {
    &&& cards.len() == members.len()
    &&& forall|i: int|
        0 <= i < cards.len() ==> (#[trigger] cards[i]).is_fresh(
            members[i].id,
            members[i].target,
            members[i].role,
            place_of(placements, members[i].id@, slots[i]),
        )
}

/// The canvas of a container. `layout` is its layout, `slots` holds a place for
/// each member that has none there.
pub fn load_container_canvas(
    workspace: &Workspace,
    snippets: &IdMap<EntityId, Snippet>,
    container_id: ContainerId,
    layout: ContainerLayout,
    slots: &Vec<Point>,
) -> (r: ContainerCanvas)
    requires
        slots@.len() >= members_or_none(*workspace, container_id@).len(),
    ensures
        r.container_id == container_id,
        are_cards_of(
            r.items@,
            shown_members(
                members_or_none(*workspace, container_id@),
                snippets@,
                *workspace,
            ),
            layout.items@,
            slots@,
        ),
        r.texts@ == layout.texts@,
        r.layout == layout,
        r.dragging is None,
        r.dragging_text is None,
        r.editing_text is None,
        !r.edit_focus_requested,
        r.menu_anchor is None,
{
    let mut items: Vec<CanvasItem> = Vec::new();
    match workspace.containers.get(&container_id) {
        Some(container) => {
            let members = &container.members;
            let mut i: usize = 0;
            assert(members@.take(0) =~= Seq::<Reference>::empty());
            while i < members.len()
                invariant
                    i <= members@.len(),
                    slots@.len() >= members@.len(),
                    items@.len() <= i,
                    are_cards_of(
                        items@,
                        shown_members(members@.take(i as int), snippets@, *workspace),
                        layout.items@,
                        slots@,
                    ),
                decreases members@.len() - i,
            {
                let ghost cut = members@.take(i as int);
                let ghost shown = shown_members(cut, snippets@, *workspace);
                proof {
                    assert(members@.take(i + 1).drop_last() =~= cut);
                    assert(members@.take(i + 1).last() == members@[i as int]);
                }
                let member = &members[i];
                if target_resolves(&member.target, snippets, workspace) {
                    let position = match layout.items.get(&member.id) {
                        Some(placement) => placement.position,
                        None => slots[items.len()],
                    };
                    let ghost before = items@;
                    items.push(
                        CanvasItem::new(
                            member.id.clone(),
                            member.target.clone(),
                            member.role,
                            position,
                        ),
                    );
                    proof {
                        let now = shown.push(members@[i as int]);
                        assert forall|k: int| 0 <= k < items@.len() implies (
                        #[trigger] items@[k]).is_fresh(
                            now[k].id,
                            now[k].target,
                            now[k].role,
                            place_of(layout.items@, now[k].id@, slots@[k]),
                        ) by {
                            if k < before.len() {
                                assert(items@[k] == before[k]);
                                assert(now[k] == shown[k]);
                            }
                        }
                    }
                }
                i = i + 1;
            }
            assert(members@.take(i as int) =~= members@);
        },
        None => {},
    }
    let texts = copy_canvas_texts(&layout.texts);
    ContainerCanvas {
        container_id,
        items,
        texts,
        layout,
        dragging: None,
        dragging_text: None,
        editing_text: None,
        edit_focus_requested: false,
        menu_anchor: None,
    }
}

/// What was saved is what is loaded: a card stands where it stood when the
/// layout was last brought up to date, if no other card is of the same
/// reference.
pub proof fn saved_places_are_restored(
    saved: ContainerCanvas,
    before: ContainerCanvas,
    loaded: ContainerCanvas,
    shown: Seq<Reference>,
    slots: Seq<Point>,
    i: int,
    j: int,
)
    requires
        saved.settled(before),
        are_cards_of(loaded.items@, shown, saved.layout.items@, slots),
        0 <= i < before.items@.len(),
        forall|k: int|
            0 <= k < before.items@.len() && k != i ==> before.items@[k].reference_id@
                != before.items@[i].reference_id@,
        0 <= j < loaded.items@.len(),
        loaded.items@[j].reference_id@ == before.items@[i].reference_id@,
    ensures
        loaded.items@[j].position == before.items@[i].position,
{
    positions_are_kept(before.layout.items@, before.items@, i);
    assert(loaded.items@[j].is_fresh(
        shown[j].id,
        shown[j].target,
        shown[j].role,
        place_of(saved.layout.items@, shown[j].id@, slots[j]),
    ));
}

/// Where the slot of a number stands: column and row.
pub fn default_card_cell(index: usize) -> (r: (usize, usize))
    ensures
        r.0 == index % SLOTS_PER_ROW,
        r.1 == index / SLOTS_PER_ROW,
{
    (index % SLOTS_PER_ROW, index / SLOTS_PER_ROW)
}

/// The first slot that is not occupied, if there is one.
pub fn first_free_slot(occupied: &Vec<bool>) -> (r: Option<usize>)
    ensures
        match r {
            Some(i) => i < occupied@.len() && !occupied@[i as int] && forall|j: int|
                0 <= j < i ==> occupied@[j],
            None => forall|j: int| 0 <= j < occupied@.len() ==> occupied@[j],
        },
{
    let mut i: usize = 0;
    while i < occupied.len()
        invariant
            i <= occupied@.len(),
            forall|j: int| 0 <= j < i ==> occupied@[j],
        decreases occupied@.len() - i,
    {
        if !occupied[i] {
            return Some(i);
        }
        i = i + 1;
    }
    None
}

/// How a card or text lies to the one that is dragged.
#[derive(Clone, Copy, Debug, PartialEq, Eq)]
pub struct Neighbour {
    /// It is shown.
    pub visible: bool,
    /// Its rectangle meets that of the dragged one.
    pub touching: bool,
}

/// Something is in the way: a card that is shown, or a text, but for the dragged
/// one itself and a folder that would take it.
pub open spec fn is_blocked(
    cards: Seq<Neighbour>,
    texts: Seq<bool>,
    card: Option<usize>,
    text: Option<usize>,
    folder: Option<usize>,
) -> bool {
    ||| exists|i: int|
        0 <= i < cards.len() && (#[trigger] cards[i]).visible && cards[i].touching && card != Some(
            i as usize,
        ) && folder != Some(i as usize)
    ||| exists|i: int| 0 <= i < texts.len() && #[trigger] texts[i] && text != Some(i as usize)
}

/// Whether something is in the way of a dragged card or text.
pub fn overlaps(
    cards: &Vec<Neighbour>,
    texts: &Vec<bool>,
    card: Option<usize>,
    text: Option<usize>,
    folder: Option<usize>,
) -> (r: bool)
    ensures
        r == is_blocked(cards@, texts@, card, text, folder),
{
    let mut i: usize = 0;
    while i < cards.len()
        invariant
            i <= cards@.len(),
            forall|j: int|
                0 <= j < i ==> !((#[trigger] cards@[j]).visible && cards@[j].touching && card
                    != Some(j as usize) && folder != Some(j as usize)),
        decreases cards@.len() - i,
    {
        let own = match card {
            Some(index) => index == i,
            None => false,
        };
        let takes = match folder {
            Some(index) => index == i,
            None => false,
        };
        if cards[i].visible && cards[i].touching && !own && !takes {
            assert(cards@[i as int].visible);
            return true;
        }
        i = i + 1;
    }
    let mut k: usize = 0;
    while k < texts.len()
        invariant
            k <= texts@.len(),
            forall|j: int| 0 <= j < k ==> !(#[trigger] texts@[j] && text != Some(j as usize)),
        decreases texts@.len() - k,
    {
        let own = match text {
            Some(index) => index == k,
            None => false,
        };
        if texts[k] && !own {
            return true;
        }
        k = k + 1;
    }
    false
}

/// How many rows the editor of a text gets: one more than the text has lines,
/// but no more than eight.
pub fn desired_rows(text: &str) -> (r: usize)
    ensures
        r == if crate::text::lines_of(text@).len() >= 8 {
            8
        } else {
            crate::text::lines_of(text@).len() + 1
        },
{
    let count = lines(text).len();
    if count >= 8 {
        8
    } else {
        count + 1
    }
}

/// The members that are shown are those that stand for something that there is, all of
/// them and in order.
pub proof fn every_member_is_shown(members: Seq<Reference>, snippets: Map<Seq<char>, Snippet>, workspace: Workspace) -> (at: Seq<int>)
    ensures
        at.len() == shown_members(members, snippets, workspace).len(),
        forall|j: int|
            #![trigger at[j]]
            0 <= j < at.len() ==> 0 <= at[j] < members.len() && (match members[at[j]].target {
                ReferenceTarget::Snippet(id) => snippets.contains_key(id@),
                ReferenceTarget::Container(id) => workspace.has_container(id@),
                ReferenceTarget::Image(id) => workspace.images@.contains_key(id@),
                _ => true,
            }) && shown_members(members, snippets, workspace)[j] == members[at[j]],
        forall|i: int, j: int| 0 <= i < j < at.len() ==> at[i] < at[j],
        forall|k: int|
            #![trigger members[k]]
            0 <= k < members.len() && (match members[k].target {
                ReferenceTarget::Snippet(id) => snippets.contains_key(id@),
                ReferenceTarget::Container(id) => workspace.has_container(id@),
                ReferenceTarget::Image(id) => workspace.images@.contains_key(id@),
                _ => true,
            }) ==> at.contains(k),
    decreases members.len(),
{
    if members.len() == 0 {
        Seq::empty()
    } else {
        let front = members.drop_last();
        let before = every_member_is_shown(front, snippets, workspace);
        let n = members.len() - 1;
        let taken = (match members.last().target {
                ReferenceTarget::Snippet(id) => snippets.contains_key(id@),
                ReferenceTarget::Container(id) => workspace.has_container(id@),
                ReferenceTarget::Image(id) => workspace.images@.contains_key(id@),
                _ => true,
            });
        let at = if taken {
            before.push(n)
        } else {
            before
        };
        assert forall|j: int|
            #![trigger at[j]]
            0 <= j < at.len() implies 0 <= at[j] < members.len() && (match members[at[j]].target {
                ReferenceTarget::Snippet(id) => snippets.contains_key(id@),
                ReferenceTarget::Container(id) => workspace.has_container(id@),
                ReferenceTarget::Image(id) => workspace.images@.contains_key(id@),
                _ => true,
            }) && shown_members(members, snippets, workspace)[j] == members[at[j]] by {
            if j < before.len() {
                assert(at[j] == before[j]);
                assert(front[before[j]] == members[at[j]]);
            }
        }
        assert forall|k: int|
            #![trigger members[k]]
            0 <= k < members.len() && (match members[k].target {
                ReferenceTarget::Snippet(id) => snippets.contains_key(id@),
                ReferenceTarget::Container(id) => workspace.has_container(id@),
                ReferenceTarget::Image(id) => workspace.images@.contains_key(id@),
                _ => true,
            }) implies at.contains(k) by {
            if k < n {
                assert(front[k] == members[k]);
                let j = choose|j: int| 0 <= j < before.len() && before[j] == k;
                assert(at[j] == k);
            } else {
                assert(at[before.len() as int] == n);
            }
        }
        at
    }
}

/// Placements of other cards stay as they are.
pub proof fn other_positions_stay(
    items: Map<Seq<char>, CardLayout>,
    cards: Seq<CanvasItem>,
    key: Seq<char>,
)
    requires
        forall|j: int| 0 <= j < cards.len() ==> (#[trigger] cards[j]).reference_id@ != key,
    ensures
        with_positions(items, cards).contains_key(key) == items.contains_key(key),
        items.contains_key(key) ==> with_positions(items, cards)[key] == items[key],
    decreases cards.len(),
{
    if cards.len() > 0 {
        let front = cards.drop_last();
        assert(cards[cards.len() - 1].reference_id@ != key);
        assert forall|j: int| 0 <= j < front.len() implies (#[trigger] front[j]).reference_id@
            != key by {
            assert(front[j] == cards[j]);
        }
        other_positions_stay(items, front, key);
    }
}

/// Taking a card off a canvas takes all of that reference, with its place, and nothing
/// else: every other card stays, in its order and where it was.
pub proof fn other_cards_stay_on_the_canvas(
    after: ContainerCanvas,
    before: ContainerCanvas,
    reference: Seq<char>,
    k: int,
)
    requires
        after.without(before, reference) || after.gave(before, reference),
    ensures
        forall|i: int|
            0 <= i < after.items@.len() ==> (#[trigger] after.items@[i]).reference_id@ != reference,
        0 <= k < before.items@.len() && before.items@[k].reference_id@ != reference
            ==> after.items@.contains(before.items@[k]),
        forall|i: int|
            0 <= i < after.items@.len() ==> before.items@.contains(#[trigger] after.items@[i]),
        !after.layout.items@.contains_key(reference),
        after.texts == before.texts,
        after.without(before, reference) ==> forall|r: Seq<char>|
            r != reference && before.layout.items@.contains_key(r)
                ==> #[trigger] after.layout.items@.contains_key(r) && after.layout.items@[r]
                == before.layout.items@[r],
{
    let kept = before.items@.filter(other_reference(reference));
    assert forall|i: int| 0 <= i < kept.len() implies (#[trigger] kept[i]).reference_id@
        != reference && before.items@.contains(kept[i]) by {
        before.items@.lemma_filter_pred(other_reference(reference), i);
        before.items@.lemma_filter_contains_rev(other_reference(reference), kept[i]);
    }
    if 0 <= k < before.items@.len() && before.items@[k].reference_id@ != reference {
        before.items@.lemma_filter_contains(other_reference(reference), k);
    }
    if after.gave(before, reference) {
        positions_of_others(before.layout.items@.remove(reference), kept, reference);
    }
}

proof fn positions_of_others(
    items: Map<Seq<char>, CardLayout>,
    cards: Seq<CanvasItem>,
    reference: Seq<char>,
)
    requires
        !items.contains_key(reference),
        forall|i: int|
            0 <= i < cards.len() ==> (#[trigger] cards[i]).reference_id@ != reference,
    ensures
        !with_positions(items, cards).contains_key(reference),
    decreases cards.len(),
{
    if cards.len() > 0 {
        let front = cards.drop_last();
        assert(cards[cards.len() - 1].reference_id@ != reference);
        assert forall|i: int| 0 <= i < front.len() implies (#[trigger] front[i]).reference_id@
            != reference by {
            assert(front[i] == cards[i]);
        }
        positions_of_others(items, front, reference);
    }
}

/// A card that is put on a canvas comes on top of the others, at its place, and every
/// other card stays where it is.
pub proof fn cards_are_put_on_top(
    after: ContainerCanvas,
    before: ContainerCanvas,
    item: CanvasItem,
)
    requires
        after.placed(before, item) || after.took(before, item),
    ensures
        after.items@.len() == before.items@.len() + 1,
        after.items@.drop_last() == before.items@,
        after.items@.last() == item,
        after.layout.items@.contains_key(item.reference_id@),
        after.layout.items@[item.reference_id@].position == item.position,
        after.texts == before.texts,
{
    let all = before.items@.push(item);
    assert(all.drop_last() =~= before.items@);
    assert(all.last() == item);
}

} // verus!
