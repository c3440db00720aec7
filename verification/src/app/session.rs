//! What happens around commands: search, dialogs, windows and the end of a frame.
use crate::app::board::{drop_ended, moves_home, ContainerCanvas};
use crate::app::boards::Boards;
use crate::app::commands::{CanvasCommand, DragPayload, Effect, RenameTarget, Viewport};
use crate::app::page::{opening_mode, HomePage, RenameDialog, SearchState, Windows};
use crate::app::view::SnippetView;
use crate::data::ids::{ContainerId, EntityId, ReferenceId};
use crate::data::model::Snippet;
use crate::idmap::{ascending, first_index, same_keys, same_keys_ascending, same_keys_lookup, IdMap};
use crate::lists::retain;
use crate::text::{chars_of, contains_text, has_text, lowercase_text, to_lowercase, trim, trimmed};
use vstd::prelude::*;

verus! {

/// The texts of identifiers.
pub open spec fn id_texts(ids: Seq<EntityId>) -> Seq<Seq<char>> {
    ids.map_values(|id: EntityId| id@)
}

/// The text has the query in it, whatever its case.
pub open spec fn is_match(text: Seq<char>, query: Seq<char>) -> bool {
    contains_text(lowercase_text(text), query)
}

/// The snippets whose titles have the query in them.
pub open spec fn title_hits(entries: Seq<(EntityId, Snippet)>, query: Seq<char>) -> Seq<Seq<char>>
    decreases entries.len(),
{
    if entries.len() == 0 {
        Seq::empty()
    } else {
        let hits = title_hits(entries.drop_last(), query);
        if is_match(entries.last().1.title@, query) {
            hits.push(entries.last().0@)
        } else {
            hits
        }
    }
}

/// The snippets that have the query in their content, but not in their titles.
pub open spec fn body_hits(entries: Seq<(EntityId, Snippet)>, query: Seq<char>) -> Seq<Seq<char>>
    decreases entries.len(),
{
    if entries.len() == 0 {
        Seq::empty()
    } else {
        let hits = body_hits(entries.drop_last(), query);
        if !is_match(entries.last().1.title@, query) && is_match(entries.last().1.content@, query) {
            hits.push(entries.last().0@)
        } else {
            hits
        }
    }
}

/// What a search finds: snippets with the query in their titles before those with
/// the query in their content. A blank query finds nothing.
pub open spec fn found(entries: Seq<(EntityId, Snippet)>, query: Seq<char>) -> Seq<Seq<char>> {
    let wanted = lowercase_text(trimmed(query));
    if wanted.len() == 0 {
        Seq::empty()
    } else {
        title_hits(entries, wanted) + body_hits(entries, wanted)
    }
}

fn matches_query(text: &str, query: &str) -> (r: bool)
    ensures
        r == is_match(text@, query@),
{
    has_text(&chars_of(&to_lowercase(text)), query)
}

/// The snippets that have the query in their titles or content.
pub fn search_snippets(query: &str, snippets: &IdMap<EntityId, Snippet>) -> (r: Vec<EntityId>)
    ensures
        id_texts(r@) == found(snippets.order(), query@),
{
    let query = to_lowercase(&trim(query));
    let mut titles: Vec<EntityId> = Vec::new();
    let mut bodies: Vec<EntityId> = Vec::new();
    if query.as_str().is_empty() {
        assert(id_texts(titles@) =~= Seq::<Seq<char>>::empty());
        return titles;
    }
    let ghost all = snippets.order();
    let mut i: usize = 0;
    assert(id_texts(titles@) =~= title_hits(all.take(0), query@));
    assert(id_texts(bodies@) =~= body_hits(all.take(0), query@));
    while i < snippets.len()
        invariant
            i <= all.len(),
            all == snippets.order(),
            id_texts(titles@) == title_hits(all.take(i as int), query@),
            id_texts(bodies@) == body_hits(all.take(i as int), query@),
        decreases all.len() - i,
    {
        let id = snippets.key_at(i);
        let snippet = snippets.value_at(i);
        proof {
            assert(all.take(i + 1).drop_last() =~= all.take(i as int));
            assert(all.take(i + 1).last() == all[i as int]);
        }
        let ghost before_titles = titles@;
        let ghost before_bodies = bodies@;
        if matches_query(&snippet.title, &query) {
            titles.push(id.clone());
            assert(id_texts(titles@) =~= id_texts(before_titles).push(id@));
        } else if matches_query(&snippet.content, &query) {
            bodies.push(id.clone());
            assert(id_texts(bodies@) =~= id_texts(before_bodies).push(id@));
        }
        i = i + 1;
    }
    assert(all.take(i as int) =~= all);
    let ghost first = titles@;
    let ghost second = bodies@;
    titles.append(&mut bodies);
    assert(id_texts(titles@) =~= id_texts(first) + id_texts(second));
    titles
}

/// What is shown in place of results.
pub fn search_notice(filter: &str, results: usize) -> (r: Option<&'static str>)
    ensures
        match r {
            Some(text) => if trimmed(filter@).len() == 0 {
                text@ == "Type to search all snippets"@
            } else {
                results == 0 && text@ == "(no matches)"@
            },
            None => trimmed(filter@).len() > 0 && results > 0,
        },
{
    if trim(filter).as_str().is_empty() {
        Some("Type to search all snippets")
    } else if results == 0 {
        Some("(no matches)")
    } else {
        None
    }
}

impl SearchState {
    /// The search window is drawn in this window.
    pub fn shown_in(&self, viewport: &Viewport) -> (r: bool)
        ensures
            r == (self.open && self.origin.same(viewport)),
    {
        self.open && self.origin == *viewport
    }

    /// Whether the filter gets the focus now: once, when the window opens.
    pub fn take_focus(&mut self) -> (r: bool)
        ensures
            r == old(self).focus_requested,
            *final(self) == (SearchState { focus_requested: false, ..*old(self) }),
    {
        let asked = self.focus_requested;
        self.focus_requested = false;
        asked
    }

    /// What the search window does after a frame. `open` is what is left of it
    /// after its close button. Returns the snippet to open: the one that was
    /// clicked, or with Enter the first that was found.
    pub fn step(
        &mut self,
        snippets: &IdMap<EntityId, Snippet>,
        open: bool,
        enter: bool,
        escape: bool,
        clicked: Option<EntityId>,
    ) -> (r: Option<EntityId>)
        ensures
            ({
                let results = found(snippets.order(), old(self).filter@);
                &&& match clicked {
                    Some(id) => r == Some(id),
                    None => if enter && results.len() > 0 {
                        r matches Some(id) && id@ == results[0]
                    } else {
                        r is None
                    },
                }
                &&& *final(self) == (SearchState {
                    open: r is None && !escape && open,
                    ..*old(self)
                })
            }),
    {
        let chosen = match clicked {
            Some(id) => Some(id),
            None => if enter {
                let mut results = search_snippets(&self.filter, snippets);
                if results.len() > 0 {
                    assert(id_texts(results@)[0] == results@[0]@);
                    Some(results.remove(0))
                } else {
                    None
                }
            } else {
                None
            },
        };
        self.open = chosen.is_none() && !escape && open;
        chosen
    }
}

impl Windows {
    /// What the question about a last card does after a frame. It is asked in the
    /// window that it belongs to, and only if it can be.
    pub fn step_delete_dialog(
        &mut self,
        viewport: &Viewport,
        askable: bool,
        confirmed: bool,
        cancelled: bool,
    ) -> (r: Option<CanvasCommand>)
        ensures
            match old(self).pending_delete {
                Some(pending) => if !pending.origin.same(viewport) {
                    r is None && *final(self) == *old(self)
                } else if askable && confirmed {
                    r == Some(CanvasCommand::ConfirmDelete(pending)) && *final(self) == *old(self)
                } else {
                    &&& r is None
                    &&& *final(self) == (Windows {
                        pending_delete: if !askable || cancelled {
                            None
                        } else {
                            old(self).pending_delete
                        },
                        ..*old(self)
                    })
                },
                None => r is None && *final(self) == *old(self),
            },
    {
        let pending = match &self.pending_delete {
            Some(pending) => pending.clone(),
            None => {
                return None;
            },
        };
        if pending.origin != *viewport {
            return None;
        }
        if askable && confirmed {
            return Some(CanvasCommand::ConfirmDelete(pending));
        }
        if !askable || cancelled {
            self.pending_delete = None;
        }
        None
    }

    /// What the dialog about a title does after a frame, in the window that it
    /// belongs to. Returns what is to get the title.
    pub fn step_rename_dialog(&mut self, viewport: &Viewport, confirmed: bool, cancelled: bool) -> (r:
        Option<RenameTarget>)
        ensures
            match old(self).rename_dialog.pending {
                Some(target) => if !target.origin_of().same(viewport) {
                    r is None && *final(self) == *old(self)
                } else if confirmed {
                    r == Some(target) && *final(self) == *old(self)
                } else {
                    &&& r is None
                    &&& *final(self) == (Windows {
                        rename_dialog: RenameDialog {
                            pending: if cancelled {
                                None
                            } else {
                                Some(target)
                            },
                            ..old(self).rename_dialog
                        },
                        ..*old(self)
                    })
                },
                None => r is None && *final(self) == *old(self),
            },
    {
        let target = match &self.rename_dialog.pending {
            Some(target) => target.clone(),
            None => {
                return None;
            },
        };
        if *target.origin() != *viewport {
            return None;
        }
        if confirmed {
            return Some(target);
        }
        if cancelled {
            self.rename_dialog.pending = None;
        }
        None
    }

    /// What the question whether to leave does after a frame. It is asked only
    /// where windows float; `closed` tells that the root window was closed.
    /// Returns whether to leave.
    pub fn step_exit(&mut self, floating: bool, closed: bool, cancel: bool, exit: bool) -> (r: bool)
        ensures
            ({
                let asked = old(self).root_exit_pending || closed;
                &&& r == (floating && asked && exit)
                &&& *final(self) == (Windows {
                    root_exit_pending: floating && asked && !cancel && !exit,
                    ..*old(self)
                })
            }),
    {
        let asked = self.root_exit_pending || closed;
        self.root_exit_pending = floating && asked && !cancel && !exit;
        floating && asked && exit
    }
}

impl RenameDialog {
    /// Whether the field gets the focus now: once, when the dialog opens.
    pub fn take_focus(&mut self) -> (r: bool)
        ensures
            r == !old(self).focus_requested,
            *final(self) == (RenameDialog { focus_requested: true, ..*old(self) }),
    {
        let asked = self.focus_requested;
        self.focus_requested = true;
        !asked
    }
}

/// The windows that stay open.
pub open spec fn stays_open(closed: Seq<u64>) -> spec_fn(SnippetView) -> bool {
    |view: SnippetView| !closed.contains(view.id)
}

/// Those of the identifiers under which there is a snippet.
pub open spec fn known_ids(ids: Seq<EntityId>, snippets: Map<Seq<char>, Snippet>) -> Seq<EntityId>
    decreases ids.len(),
{
    if ids.len() == 0 {
        Seq::empty()
    } else if snippets.contains_key(ids.last()@) {
        known_ids(ids.drop_last(), snippets).push(ids.last())
    } else {
        known_ids(ids.drop_last(), snippets)
    }
}

/// Windows were opened for these snippets, one after the other.
pub open spec fn opened_views(
    after: Windows,
    before: Windows,
    ids: Seq<EntityId>,
    snippets: Map<Seq<char>, Snippet>,
) -> bool {
    let n = before.views@.len() as int;
    &&& after == (Windows {
        views: after.views,
        next_view_id: (before.next_view_id + ids.len()) as u64,
        clipboard: if ids.len() > 0 {
            None
        } else {
            before.clipboard
        },
        ..before
    })
    &&& after.views@.len() == n + ids.len()
    &&& after.views@.take(n) == before.views@
    &&& forall|i: int|
        0 <= i < ids.len() ==> (#[trigger] after.views@[n + i]).is_fresh(
            (before.next_view_id + i) as u64,
            ids[i],
            opening_mode(snippets, ids[i]@),
            false,
        )
}

/// A card is still being dragged.
pub open spec fn still_dragged(canvas: ContainerCanvas, payload: Option<DragPayload>) -> bool {
    canvas.dragging matches Some(drag) && payload matches Some(p) && p.reference_id@
        == drag.reference_id@
}

/// The dragged card of a canvas is among those that others took.
pub open spec fn was_taken(canvas: ContainerCanvas, taken: Seq<(ContainerId, ReferenceId)>) -> bool {
    canvas.dragging matches Some(drag) && exists|i: int|
        0 <= i < taken.len() && (#[trigger] taken[i]).0@ == canvas.container_id@ && taken[i].1@
            == drag.reference_id@
}

/// The drag of a canvas ended, if it is over.
pub open spec fn drag_ended(
    after: ContainerCanvas,
    before: ContainerCanvas,
    payload: Option<DragPayload>,
    taken: Seq<(ContainerId, ReferenceId)>,
) -> bool {
    drop_ended(after, before, still_dragged(before, payload), was_taken(before, taken))
}

/// The layout of a canvas is to be saved after its drag ended.
pub open spec fn home_effect(canvas: ContainerCanvas, payload: Option<DragPayload>) -> Seq<Effect> {
    if moves_home(canvas, still_dragged(canvas, payload)) {
        seq![Effect::SaveLayout(canvas.container_id)]
    } else {
        Seq::empty()
    }
}

/// The layouts that are to be saved after drags ended.
pub open spec fn home_effects(
    entries: Seq<(ContainerId, ContainerCanvas)>,
    payload: Option<DragPayload>,
) -> Seq<Effect>
    decreases entries.len(),
{
    if entries.len() == 0 {
        Seq::empty()
    } else {
        home_effects(entries.drop_last(), payload) + home_effect(entries.last().1, payload)
    }
}

fn end_drag(
    canvas: &mut ContainerCanvas,
    payload: &Option<DragPayload>,
    taken: &Vec<(ContainerId, ReferenceId)>,
    effects: &mut Vec<Effect>,
)
    ensures
        drag_ended(*final(canvas), *old(canvas), *payload, taken@),
        final(effects)@ == old(effects)@ + home_effect(*old(canvas), *payload),
{
    let ghost start = *canvas;
    let (alive, consumed) = match &canvas.dragging {
        Some(drag) => {
            let alive = match payload {
                Some(p) => p.reference_id == drag.reference_id,
                None => false,
            };
            let mut consumed = false;
            let mut i: usize = 0;
            while i < taken.len()
                invariant
                    i <= taken@.len(),
                    *canvas == start,
                    canvas.dragging == Some(*drag),
                    consumed == exists|j: int|
                        0 <= j < i && (#[trigger] taken@[j]).0@ == canvas.container_id@
                            && taken@[j].1@ == drag.reference_id@,
                decreases taken@.len() - i,
            {
                if taken[i].0 == canvas.container_id && taken[i].1 == drag.reference_id {
                    consumed = true;
                    assert(taken@[i as int].0@ == canvas.container_id@);
                }
                i = i + 1;
            }
            (alive, consumed)
        },
        None => (false, false),
    };
    assert(alive == still_dragged(start, *payload));
    assert(consumed == was_taken(start, taken@));
    if canvas.finalize_drop(alive, consumed) {
        effects.push(Effect::SaveLayout(canvas.container_id.clone()));
        assert(canvas.container_id == start.container_id);
    }
    assert(effects@ =~= old(effects)@ + home_effect(start, *payload));
}

impl HomePage {
    /// Closes windows of snippets and opens others.
    pub fn step_views(&mut self, closed: &Vec<u64>, opened: Vec<EntityId>)
        requires
            old(self).windows.next_view_id + opened@.len() <= u64::MAX,
        ensures
            *final(self) == (HomePage { windows: final(self).windows, ..*old(self) }),
            exists|mid: Windows|
                {
                    &&& mid == (Windows { views: mid.views, ..old(self).windows })
                    &&& mid.views@ == old(self).windows.views@.filter(stays_open(closed@))
                    &&& #[trigger] opened_views(
                        final(self).windows,
                        mid,
                        known_ids(opened@, old(self).all_snippets@),
                        old(self).all_snippets@,
                    )
                },
    {
        let ghost wanted = stays_open(closed@);
        let keep = |view: &SnippetView| -> (kept: bool)
            ensures
                kept == wanted(*view),
            {
                let mut found = false;
                let mut i: usize = 0;
                while i < closed.len()
                    invariant
                        i <= closed@.len(),
                        found == closed@.take(i as int).contains(view.id),
                    decreases closed@.len() - i,
                {
                    proof {
                        let front = closed@.take(i as int);
                        let next = closed@.take(i + 1);
                        assert(next =~= front.push(closed@[i as int]));
                        if front.contains(view.id) {
                            let k = choose|k: int| 0 <= k < front.len() && front[k] == view.id;
                            assert(next[k] == view.id);
                        }
                        if next.contains(view.id) && closed@[i as int] != view.id {
                            let k = choose|k: int| 0 <= k < next.len() && next[k] == view.id;
                            assert(front[k] == view.id);
                        }
                        if closed@[i as int] == view.id {
                            assert(next[i as int] == view.id);
                        }
                    }
                    if closed[i] == view.id {
                        found = true;
                    }
                    i = i + 1;
                }
                assert(closed@.take(i as int) =~= closed@);
                !found
            };
        retain(&mut self.windows.views, keep, Ghost(wanted));
        let ghost mid = self.windows;
        let ghost all = self.all_snippets@;
        let mut i: usize = 0;
        assert(known_ids(opened@.take(0), all) =~= Seq::<EntityId>::empty());
        assert(mid.views@.take(mid.views@.len() as int) =~= mid.views@);
        while i < opened.len()
            invariant
                i <= opened@.len(),
                all == self.all_snippets@,
                *self == (HomePage { windows: self.windows, ..*old(self) }),
                mid == (Windows { views: mid.views, ..old(self).windows }),
                mid.views@ == old(self).windows.views@.filter(wanted),
                mid.next_view_id + opened@.len() <= u64::MAX,
                known_ids(opened@.take(i as int), all).len() <= i,
                opened_views(self.windows, mid, known_ids(opened@.take(i as int), all), all),
            decreases opened@.len() - i,
        {
            let ghost so_far = known_ids(opened@.take(i as int), all);
            let ghost here = self.windows;
            proof {
                assert(opened@.take(i + 1).drop_last() =~= opened@.take(i as int));
                assert(opened@.take(i + 1).last() == opened@[i as int]);
            }
            if self.all_snippets.contains_key(&opened[i]) {
                self.open_view(opened[i].clone());
                proof {
                    let n = mid.views@.len() as int;
                    let ids = so_far.push(opened@[i as int]);
                    assert(self.windows.views@.take(n) =~= here.views@.take(n));
                    assert forall|k: int| 0 <= k < ids.len() implies (
                    #[trigger] self.windows.views@[n + k]).is_fresh(
                        (mid.next_view_id + k) as u64,
                        ids[k],
                        opening_mode(all, ids[k]@),
                        false,
                    ) by {
                        if k < so_far.len() {
                            assert(self.windows.views@[n + k] == here.views@[n + k]);
                        }
                    }
                }
            }
            i = i + 1;
        }
        assert(opened@.take(i as int) =~= opened@);
    }

    /// Ends the drags that are over, at the end of a frame. `payload` is the card
    /// that is still dragged. A card that no canvas took goes back to where it was.
    pub fn finalize_drops(&mut self, payload: &Option<DragPayload>) -> (r: Vec<Effect>)
        ensures
            *final(self) == (HomePage {
                boards: final(self).boards,
                consumed_drops: final(self).consumed_drops,
                ..*old(self)
            }),
            final(self).consumed_drops@ == Seq::<(ContainerId, ReferenceId)>::empty(),
            drag_ended(
                final(self).boards.root,
                old(self).boards.root,
                *payload,
                old(self).consumed_drops@,
            ),
            final(self).boards.folder_views@.dom() == old(self).boards.folder_views@.dom(),
            forall|c: Seq<char>| #[trigger]
                final(self).boards.folder_views@.contains_key(c) ==> drag_ended(
                    final(self).boards.folder_views@[c],
                    old(self).boards.folder_views@[c],
                    *payload,
                    old(self).consumed_drops@,
                ),
            old(self).boards.folder_views.wf() ==> final(self).boards.folder_views.wf(),
            r@ == home_effect(old(self).boards.root, *payload) + home_effects(
                old(self).boards.folder_views.order(),
                *payload,
            ),
    {
        let mut effects: Vec<Effect> = Vec::new();
        let mut taken: Vec<(ContainerId, ReferenceId)> = Vec::new();
        taken.append(&mut self.consumed_drops);
        assert(taken@ =~= old(self).consumed_drops@);
        end_drag(&mut self.boards.root, payload, &taken, &mut effects);
        let ghost first = home_effect(old(self).boards.root, *payload);
        let ghost before = self.boards.folder_views.order();
        let ghost kept = *self;
        let mut i: usize = 0;
        assert(effects@ =~= first + home_effects(before.take(0), *payload));
        while i < self.boards.folder_views.len()
            invariant
                i <= before.len(),
                before == old(self).boards.folder_views.order(),
                *self == (HomePage {
                    boards: Boards {
                        folder_views: self.boards.folder_views,
                        ..kept.boards
                    },
                    ..kept
                }),
                same_keys(before, self.boards.folder_views.order()),
                forall|j: int|
                    0 <= j < i ==> drag_ended(
                        #[trigger] self.boards.folder_views.order()[j].1,
                        before[j].1,
                        *payload,
                        taken@,
                    ),
                forall|j: int|
                    i <= j < before.len() ==> #[trigger] self.boards.folder_views.order()[j]
                        == before[j],
                effects@ == first + home_effects(before.take(i as int), *payload),
            decreases before.len() - i,
        {
            let ghost here = self.boards.folder_views.order();
            let ghost done = effects@;
            assert(here[i as int] == before[i as int]);
            let canvas = self.boards.folder_views.value_at_mut(i);
            end_drag(canvas, payload, &taken, &mut effects);
            proof {
                assert(before.take(i + 1).drop_last() =~= before.take(i as int));
                assert(before.take(i + 1).last() == before[i as int]);
                assert(effects@ =~= first + home_effects(before.take(i + 1), *payload));
            }
            i = i + 1;
        }
        proof {
            assert(before.take(i as int) =~= before);
            let after = self.boards.folder_views.order();
            assert forall|c: Seq<char>| #[trigger]
                self.boards.folder_views@.contains_key(c) implies drag_ended(
                self.boards.folder_views@[c],
                old(self).boards.folder_views@[c],
                *payload,
                old(self).consumed_drops@,
            ) by {
                same_keys_lookup(before, after, c);
                assert(self.boards.folder_views.order()[first_index(before, c)].1
                    == self.boards.folder_views@[c]);
            }
            assert forall|c: Seq<char>|
                self.boards.folder_views@.contains_key(c) == old(
                    self,
                ).boards.folder_views@.contains_key(c) by {
                same_keys_lookup(before, after, c);
            }
            assert(self.boards.folder_views@.dom() =~= old(self).boards.folder_views@.dom());
            if ascending(before) {
                same_keys_ascending(before, after);
            }
        }
        effects
    }
}

/// A card that another canvas took, or that is still dragged, is not moved back;
/// any other goes back to where its drag began.
pub proof fn untaken_cards_go_back(
    after: ContainerCanvas,
    before: ContainerCanvas,
    payload: Option<DragPayload>,
    taken: Seq<(ContainerId, ReferenceId)>,
)
    requires
        drag_ended(after, before, payload, taken),
        before.dragging is Some,
        before.dragging->0.index < before.items@.len(),
        before.items@[before.dragging->0.index as int].reference_id@
            == before.dragging->0.reference_id@,
    ensures
        after.items@.len() == before.items@.len(),
        after.items@[before.dragging->0.index as int].position == if still_dragged(before, payload)
            || was_taken(before, taken) {
            before.items@[before.dragging->0.index as int].position
        } else {
            before.dragging->0.start_position
        },
        forall|i: int|
            0 <= i < before.items@.len() && i != before.dragging->0.index
                ==> #[trigger] after.items@[i] == before.items@[i],
        after.dragging is Some <==> still_dragged(before, payload),
{
}

/// Of a list of identifiers, those are known under which there is a snippet, all of
/// them and in order.
pub proof fn known_snippets_are_opened(ids: Seq<EntityId>, snippets: Map<Seq<char>, Snippet>) -> (at: Seq<int>)
    ensures
        at.len() == known_ids(ids, snippets).len(),
        forall|j: int|
            #![trigger at[j]]
            0 <= j < at.len() ==> 0 <= at[j] < ids.len() && snippets.contains_key(ids[at[j]]@) && known_ids(ids, snippets)[j] == ids[at[j]],
        forall|i: int, j: int| 0 <= i < j < at.len() ==> at[i] < at[j],
        forall|k: int|
            #![trigger ids[k]]
            0 <= k < ids.len() && snippets.contains_key(ids[k]@) ==> at.contains(k),
    decreases ids.len(),
{
    if ids.len() == 0 {
        Seq::empty()
    } else {
        let front = ids.drop_last();
        let before = known_snippets_are_opened(front, snippets);
        let n = ids.len() - 1;
        let taken = snippets.contains_key(ids.last()@);
        let at = if taken {
            before.push(n)
        } else {
            before
        };
        assert forall|j: int|
            #![trigger at[j]]
            0 <= j < at.len() implies 0 <= at[j] < ids.len() && snippets.contains_key(ids[at[j]]@) && known_ids(ids, snippets)[j] == ids[at[j]] by {
            if j < before.len() {
                assert(at[j] == before[j]);
                assert(front[before[j]] == ids[at[j]]);
            }
        }
        assert forall|k: int|
            #![trigger ids[k]]
            0 <= k < ids.len() && snippets.contains_key(ids[k]@) implies at.contains(k) by {
            if k < n {
                assert(front[k] == ids[k]);
                let j = choose|j: int| 0 <= j < before.len() && before[j] == k;
                assert(at[j] == k);
            } else {
                assert(at[before.len() as int] == n);
            }
        }
        at
    }
}

/// What was dragged and is not any more is saved where it was dragged from: the layouts
/// of the folders in question, in order, and no other ones.
pub proof fn home_layouts_are_saved(
    entries: Seq<(ContainerId, ContainerCanvas)>,
    payload: Option<DragPayload>,
) -> (at: Seq<int>)
    ensures
        at.len() == home_effects(entries, payload).len(),
        forall|j: int|
            #![trigger at[j]]
            0 <= j < at.len() ==> 0 <= at[j] < entries.len() && moves_home(
                entries[at[j]].1,
                still_dragged(entries[at[j]].1, payload),
            ) && home_effects(entries, payload)[j] == Effect::SaveLayout(
                entries[at[j]].1.container_id,
            ),
        forall|i: int, j: int| 0 <= i < j < at.len() ==> at[i] < at[j],
        forall|k: int|
            #![trigger entries[k]]
            0 <= k < entries.len() && moves_home(
                entries[k].1,
                still_dragged(entries[k].1, payload),
            ) ==> at.contains(k),
    decreases entries.len(),
{
    if entries.len() == 0 {
        Seq::empty()
    } else {
        let front = entries.drop_last();
        let before = home_layouts_are_saved(front, payload);
        let n = entries.len() - 1;
        let last = entries.last().1;
        let at = if moves_home(last, still_dragged(last, payload)) {
            before.push(n)
        } else {
            before
        };
        assert forall|j: int| #![trigger at[j]] 0 <= j < at.len() implies 0 <= at[j]
            < entries.len() && moves_home(
            entries[at[j]].1,
            still_dragged(entries[at[j]].1, payload),
        ) && home_effects(entries, payload)[j] == Effect::SaveLayout(
            entries[at[j]].1.container_id,
        ) by {
            if j < before.len() {
                assert(at[j] == before[j]);
                assert(front[before[j]] == entries[at[j]]);
            }
        }
        assert forall|k: int|
            #![trigger entries[k]]
            0 <= k < entries.len() && moves_home(
                entries[k].1,
                still_dragged(entries[k].1, payload),
            ) implies at.contains(k) by {
            if k < n {
                assert(front[k] == entries[k]);
                let j = choose|j: int| 0 <= j < before.len() && before[j] == k;
                assert(at[j] == k);
            } else {
                assert(at[before.len() as int] == n);
            }
        }
        at
    }
}

/// Closing views closes exactly those: every other view stays open.
pub proof fn other_views_stay_open(views: Seq<SnippetView>, closed: Seq<u64>, k: int)
    ensures
        forall|i: int|
            0 <= i < views.filter(stays_open(closed)).len() ==> !closed.contains(
                (#[trigger] views.filter(stays_open(closed))[i]).id,
            ),
        0 <= k < views.len() && !closed.contains(views[k].id) ==> views.filter(
            stays_open(closed),
        ).contains(views[k]),
{
    let kept = views.filter(stays_open(closed));
    assert forall|i: int| 0 <= i < kept.len() implies !closed.contains((#[trigger] kept[i]).id) by {
        views.lemma_filter_pred(stays_open(closed), i);
    }
    if 0 <= k < views.len() && !closed.contains(views[k].id) {
        views.lemma_filter_contains(stays_open(closed), k);
    }
}

/// Snippets that are opened together are shown in views of their own, in order, behind
/// those that are open, and each can be told from every other by its number.
pub proof fn snippets_open_in_order(
    after: Windows,
    before: Windows,
    ids: Seq<EntityId>,
    snippets: Map<Seq<char>, Snippet>,
    i: int,
)
    requires
        opened_views(after, before, ids, snippets),
        before.next_view_id + ids.len() <= u64::MAX,
    ensures
        after.views@.len() == before.views@.len() + ids.len(),
        0 <= i < before.views@.len() ==> after.views@[i] == before.views@[i],
        0 <= i < ids.len() ==> {
            let view = after.views@[before.views@.len() + i];
            &&& view.entity_id == ids[i]
            &&& view.id == before.next_view_id + i
            &&& !view.read_only
        },
        after.next_view_id == before.next_view_id + ids.len(),
{
    let n = before.views@.len() as int;
    if 0 <= i < n {
        assert(after.views@.take(n)[i] == after.views@[i]);
    }
    if 0 <= i < ids.len() {
        assert(after.views@[n + i].entity_id == ids[i]);
    }
}

} // verus!
