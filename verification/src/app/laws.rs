//! What the page keeps, whatever is done to it.
use crate::app::board::members_or_none;
use crate::app::chat::{other_conversations_stay, sent, SendStep};
use crate::app::commands::{CanvasCommand, ClipboardEntry, DragPayload, Effect, RenameTarget,
    Viewport};
use crate::app::page::{closed_folder, conversation_card, conversation_cards_are_found,
    deleted_conversation, deleted_folder, deleted_snippet, dropped, dropped_card, new_ai_box,
    new_conversation, pasted, place_for, removed_card, source_targets, transferred, HomePage};
use crate::app::process::{asks_first, processed, retitled};
use crate::app::session::{body_hits, found, is_match, title_hits};
use crate::app::view::ViewMode;
use crate::data::ai::types::{deduplicated, AiBoxData};
use crate::data::ids::{ContainerId, ConversationId, EntityId, ExternalFileId, ReferenceId};
use crate::data::layout::Point;
use crate::data::model::Snippet;
use crate::data::workspace::{without_reference, without_snippet, ContainerKind, MemberRole,
    Reference, ReferenceTarget, Workspace};
use crate::text::{contains_text, lowercase_text, trimmed, trimming_again_changes_nothing};
use vstd::prelude::*;

verus! {

/// A container holds a card for this target.
pub open spec fn holds(workspace: Workspace, container: Seq<char>, target: ReferenceTarget) -> bool {
    exists|i: int|
        0 <= i < members_or_none(workspace, container).len() && (#[trigger] members_or_none(
            workspace,
            container,
        )[i]).target == target
}

/// A container holds a card of this reference.
pub open spec fn holds_card(workspace: Workspace, container: Seq<char>, reference: Seq<char>) -> bool {
    exists|i: int|
        0 <= i < members_or_none(workspace, container).len() && (#[trigger] members_or_none(
            workspace,
            container,
        )[i]).id@ == reference
}

proof fn filtered_out(members: Seq<Reference>, reference: Seq<char>)
    ensures
        forall|i: int|
            0 <= i < members.filter(without_reference(reference)).len() ==> (
            #[trigger] members.filter(without_reference(reference))[i]).id@ != reference,
{
    let kept = members.filter(without_reference(reference));
    assert forall|i: int| 0 <= i < kept.len() implies (#[trigger] kept[i]).id@ != reference by {
        members.lemma_filter_pred(without_reference(reference), i);
    }
}

/// A linked card is one more card: every container holds what it held, and the
/// one that was linked into holds the target.
pub proof fn links_keep_all_cards(
    after: HomePage,
    before: HomePage,
    container: ContainerId,
    target: ReferenceTarget,
    position: Point,
    reference: ReferenceId,
    other: Seq<char>,
    i: int,
)
    requires
        transferred(after, before, container, target, position, None, reference),
        0 <= i < members_or_none(before.workspace, other).len(),
    ensures
        members_or_none(after.workspace, other).len() > i,
        members_or_none(after.workspace, other)[i] == members_or_none(before.workspace, other)[i],
        holds(after.workspace, container@, target),
        after.all_snippets == before.all_snippets,
{
    let members = members_or_none(after.workspace, container@);
    assert(members[members.len() - 1].target == target);
}

/// A moved card leaves its container and arrives in the other one; what it stands
/// for is left alone, and so are all other containers.
pub proof fn moves_keep_the_target(
    after: HomePage,
    before: HomePage,
    container: ContainerId,
    target: ReferenceTarget,
    position: Point,
    source: Seq<char>,
    moved: Seq<char>,
    reference: ReferenceId,
    other: Seq<char>,
)
    requires
        source != container@,
        other != source,
        other != container@,
        transferred(after, before, container, target, position, Some((source, moved)), reference),
    ensures
        holds(after.workspace, container@, target),
        !holds_card(after.workspace, source, moved),
        members_or_none(after.workspace, other) == members_or_none(before.workspace, other),
        after.all_snippets == before.all_snippets,
{
    let mid = choose|mid: Workspace| #[trigger]
        mid.added_card(
            before.workspace,
            container@,
            reference@,
            target,
            crate::app::page::linked_role(before.workspace, container@),
        ) && removed_card(after.workspace, mid, source, moved);
    let members = members_or_none(after.workspace, container@);
    assert(members == mid.members_of(container@));
    assert(members[members.len() - 1].target == target);
    if mid.has_container(source) {
        filtered_out(mid.members_of(source), moved);
        assert(after.workspace.members_of(source) == mid.members_of(source).filter(
            without_reference(moved),
        ));
    }
}

/// Into an AI workspace cards are only linked, as sources, whatever was asked for:
/// every container holds what it held, and the AI workspace one more source.
pub proof fn ai_boxes_only_link(
    after: HomePage,
    before: HomePage,
    effects: Seq<Effect>,
    container: ContainerId,
    entry: ClipboardEntry,
    payload: DragPayload,
    position: Point,
    move_semantics: bool,
    other: Seq<char>,
    i: int,
)
    requires
        before.workspace.ai_box(container@),
        entry.target == payload.target,
        pasted(after, before, true, effects, container, entry, position) || dropped(
            after,
            before,
            true,
            effects,
            container,
            position,
            payload,
            move_semantics,
        ),
        0 <= i < members_or_none(before.workspace, other).len(),
    ensures
        members_or_none(after.workspace, other).len() > i,
        members_or_none(after.workspace, other)[i] == members_or_none(before.workspace, other)[i],
        members_or_none(after.workspace, container@).len() == members_or_none(
            before.workspace,
            container@,
        ).len() + 1,
        members_or_none(after.workspace, container@).last().target == entry.target,
        members_or_none(after.workspace, container@).last().role == MemberRole::Source,
{
    let reference = choose|reference: ReferenceId| #[trigger]
        transferred(after, before, container, entry.target, position, None, reference);
    links_keep_all_cards(
        after,
        before,
        container,
        entry.target,
        position,
        reference,
        other,
        i,
    );
}

/// The settings card and the cards of conversations are not pasted anywhere.
pub proof fn special_cards_are_not_pasted(
    after: HomePage,
    before: HomePage,
    ok: bool,
    effects: Seq<Effect>,
    container: ContainerId,
    entry: ClipboardEntry,
    slot: Point,
)
    requires
        entry.target is Special || entry.target is Conversation,
        pasted(after, before, ok, effects, container, entry, slot),
    ensures
        !ok,
        after == before,
{
}

/// The settings card and the cards of conversations are not dropped anywhere.
pub proof fn special_cards_are_not_dropped(
    after: HomePage,
    before: HomePage,
    ok: bool,
    effects: Seq<Effect>,
    container: ContainerId,
    position: Point,
    payload: DragPayload,
    move_semantics: bool,
)
    requires
        payload.target is Special || payload.target is Conversation,
        dropped(after, before, ok, effects, container, position, payload, move_semantics),
    ensures
        !ok,
        after == before,
{
}

/// A container is not put into itself, by pasting or by dropping.
pub proof fn containers_do_not_hold_themselves(
    after: HomePage,
    before: HomePage,
    ok: bool,
    effects: Seq<Effect>,
    container: ContainerId,
    entry: ClipboardEntry,
    payload: DragPayload,
    position: Point,
    move_semantics: bool,
)
    requires
        entry.target == ReferenceTarget::Container(container),
        payload.target == ReferenceTarget::Container(container),
        pasted(after, before, ok, effects, container, entry, position) || dropped(
            after,
            before,
            ok,
            effects,
            container,
            position,
            payload,
            move_semantics,
        ),
    ensures
        !ok,
        after == before,
{
}

/// A card that is taken off leaves what it stood for: snippets are as before, other
/// containers hold what they held, and its own holds all its other cards.
pub proof fn removed_cards_keep_the_target(
    after: HomePage,
    before: HomePage,
    effects: Seq<Effect>,
    owner: ContainerId,
    reference: Seq<char>,
    other: Seq<char>,
)
    requires
        dropped_card(after, before, effects, owner, reference),
    ensures
        after.all_snippets == before.all_snippets,
        after.ai_boxes == before.ai_boxes,
        after.workspace.containers@.dom() == before.workspace.containers@.dom(),
        !holds_card(after.workspace, owner@, reference),
        other != owner@ ==> members_or_none(after.workspace, other) == members_or_none(
            before.workspace,
            other,
        ),
        members_or_none(after.workspace, owner@) == members_or_none(
            before.workspace,
            owner@,
        ).filter(without_reference(reference)),
{
    filtered_out(members_or_none(before.workspace, owner@), reference);
    if before.workspace.has_container(owner@) {
        assert(after.workspace.containers@.dom() =~= before.workspace.containers@.dom());
    } else {
        assert(Seq::<Reference>::empty().filter(without_reference(reference)) =~= Seq::<
            Reference,
        >::empty()) by {
            reveal(Seq::filter);
        }
    }
}

/// The last card of a snippet or container is not removed at once: the user is
/// asked, and nothing else changes.
pub proof fn last_cards_are_asked_about(
    after: HomePage,
    before: HomePage,
    effects: Seq<Effect>,
    owner: ContainerId,
    reference: ReferenceId,
    target: ReferenceTarget,
    origin: Viewport,
    slot: Point,
    loaded: AiBoxData,
)
    requires
        processed(
            after,
            before,
            effects,
            CanvasCommand::DeleteReference { owner, reference, target },
            origin,
            slot,
            loaded,
        ),
        asks_first(before.workspace, target),
    ensures
        after.windows.pending_delete is Some,
        after.all_snippets == before.all_snippets,
        after.workspace == before.workspace,
        after.boards == before.boards,
        after.ai_boxes == before.ai_boxes,
        effects.len() == 0,
{
}

/// No command but a confirmed deletion loses a snippet, and none changes the text of
/// one.
pub proof fn snippets_are_lost_only_by_consent(
    after: HomePage,
    before: HomePage,
    effects: Seq<Effect>,
    command: CanvasCommand,
    origin: Viewport,
    slot: Point,
    loaded: AiBoxData,
    id: Seq<char>,
)
    requires
        processed(after, before, effects, command, origin, slot, loaded),
        !(command is ConfirmDelete),
        before.all_snippets@.contains_key(id),
    ensures
        after.all_snippets@.contains_key(id),
        after.all_snippets@[id].content == before.all_snippets@[id].content,
{
}

/// A deleted snippet is gone from everywhere, and every other snippet is as before.
pub proof fn deleted_snippets_are_gone(
    after: HomePage,
    before: HomePage,
    effects: Seq<Effect>,
    entity: EntityId,
    other: Seq<char>,
    container: Seq<char>,
    i: int,
)
    requires
        deleted_snippet(after, before, effects, entity),
        other != entity@,
        after.workspace.has_container(container),
        0 <= i < after.workspace.members_of(container).len(),
    ensures
        !after.all_snippets@.contains_key(entity@),
        after.all_snippets@.contains_key(other) == before.all_snippets@.contains_key(other),
        before.all_snippets@.contains_key(other) ==> after.all_snippets@[other]
            == before.all_snippets@[other],
        after.workspace.members_of(container)[i].target matches ReferenceTarget::Snippet(id) ==> id@
            != entity@,
{
    let members = before.workspace.members_of(container);
    members.lemma_filter_pred(without_snippet(entity@), i);
    assert(after.workspace.members_of(container) == members.filter(without_snippet(entity@)));
    assert(without_snippet(entity@)(members.filter(without_snippet(entity@))[i]));
}

/// What a deleted container held is not touched: no snippet and no other container
/// is lost, the other containers hold what they held, but for the card that led to
/// it, and the other AI workspaces keep their conversations.
pub proof fn deleted_containers_keep_what_they_held(
    after: HomePage,
    before: HomePage,
    effects: Seq<Effect>,
    owner: ContainerId,
    reference: Seq<char>,
    container: ContainerId,
    other: Seq<char>,
)
    requires
        deleted_folder(after, before, effects, owner, reference, container),
        other != container@,
    ensures
        after.all_snippets == before.all_snippets,
        !after.workspace.has_container(container@),
        after.workspace.has_container(other) == before.workspace.has_container(other),
        other != owner@ ==> members_or_none(after.workspace, other) == members_or_none(
            before.workspace,
            other,
        ),
        before.workspace.has_container(owner@) && owner@ != container@
            ==> after.workspace.members_of(owner@) == before.workspace.members_of(owner@).filter(
            without_reference(reference),
        ),
        after.ai_boxes@.contains_key(other) == before.ai_boxes@.contains_key(other),
        before.ai_boxes@.contains_key(other) ==> after.ai_boxes@[other] == before.ai_boxes@[other],
{
    assert(after.workspace.containers@.contains_key(other)
        == before.workspace.containers@.contains_key(other));
    assert(after.workspace.containers@.contains_key(owner@) == (
    before.workspace.containers@.contains_key(owner@) && owner@ != container@));
}

/// While AI is off no turn is started, whatever is typed.
pub proof fn nothing_is_asked_while_off(
    after: HomePage,
    before: HomePage,
    step: SendStep,
    effects: Seq<Effect>,
    files: Map<Seq<char>, String>,
    overridden: bool,
)
    requires
        sent(after, before, step, effects, files, overridden),
        !before.settings.ai_enabled,
    ensures
        step is Nothing,
        after.chat == before.chat,
{
}

/// What a search finds is there: each result is a snippet with the query in its
/// title or content, and those with the query in the title come first.
pub proof fn searches_find_what_is_there(
    entries: Seq<(EntityId, Snippet)>,
    query: Seq<char>,
    i: int,
)
    requires
        0 <= i < found(entries, query).len(),
    ensures
        ({
            let wanted = lowercase_text(trimmed(query));
            exists|k: int|
                0 <= k < entries.len() && (#[trigger] entries[k]).0@ == found(entries, query)[i]
                    && if i < title_hits(entries, wanted).len() {
                    is_match(entries[k].1.title@, wanted)
                } else {
                    !is_match(entries[k].1.title@, wanted) && is_match(
                        entries[k].1.content@,
                        wanted,
                    )
                }
        }),
{
    let wanted = lowercase_text(trimmed(query));
    let n = title_hits(entries, wanted).len() as int;
    if i < n {
        title_hit_is_there(entries, wanted, i);
    } else {
        body_hit_is_there(entries, wanted, i - n);
    }
}

proof fn title_hit_is_there(entries: Seq<(EntityId, Snippet)>, query: Seq<char>, i: int)
    requires
        0 <= i < title_hits(entries, query).len(),
    ensures
        exists|k: int|
            0 <= k < entries.len() && (#[trigger] entries[k]).0@ == title_hits(entries, query)[i]
                && is_match(entries[k].1.title@, query),
    decreases entries.len(),
{
    let front = entries.drop_last();
    if i < title_hits(front, query).len() {
        title_hit_is_there(front, query, i);
        let k = choose|k: int|
            0 <= k < front.len() && (#[trigger] front[k]).0@ == title_hits(front, query)[i]
                && is_match(front[k].1.title@, query);
        assert(entries[k] == front[k]);
    } else {
        assert(entries[entries.len() - 1] == entries.last());
    }
}

proof fn body_hit_is_there(entries: Seq<(EntityId, Snippet)>, query: Seq<char>, i: int)
    requires
        0 <= i < body_hits(entries, query).len(),
    ensures
        exists|k: int|
            0 <= k < entries.len() && (#[trigger] entries[k]).0@ == body_hits(entries, query)[i]
                && !is_match(entries[k].1.title@, query) && is_match(entries[k].1.content@, query),
    decreases entries.len(),
{
    let front = entries.drop_last();
    if i < body_hits(front, query).len() {
        body_hit_is_there(front, query, i);
        let k = choose|k: int|
            0 <= k < front.len() && (#[trigger] front[k]).0@ == body_hits(front, query)[i]
                && !is_match(front[k].1.title@, query) && is_match(front[k].1.content@, query);
        assert(entries[k] == front[k]);
    } else {
        assert(entries[entries.len() - 1] == entries.last());
    }
}

/// Where the snippets with the query in their titles stand.
proof fn title_places(entries: Seq<(EntityId, Snippet)>, query: Seq<char>) -> (at: Seq<int>)
    ensures
        at.len() == title_hits(entries, query).len(),
        forall|j: int|
            0 <= j < at.len() ==> 0 <= #[trigger] at[j] < entries.len() && title_hits(entries, query)[j]
                == entries[at[j]].0@ && contains_text(lowercase_text(entries[at[j]].1.title@), query),
        forall|i: int, j: int| 0 <= i < j < at.len() ==> at[i] < at[j],
        forall|k: int|
            0 <= k < entries.len() && contains_text(lowercase_text((#[trigger] entries[k]).1.title@), query) ==> at.contains(k),
    decreases entries.len(),
{
    if entries.len() == 0 {
        Seq::empty()
    } else {
        let front = entries.drop_last();
        let before = title_places(front, query);
        let n = entries.len() - 1;
        let taken = contains_text(lowercase_text(entries.last().1.title@), query);
        let at = if taken {
            before.push(n)
        } else {
            before
        };
        assert forall|j: int| 0 <= j < at.len() implies 0 <= #[trigger] at[j] < entries.len()
            && title_hits(entries, query)[j] == entries[at[j]].0@ && contains_text(lowercase_text(entries[at[j]].1.title@), query) by {
            if j < before.len() {
                assert(at[j] == before[j]);
                assert(front[before[j]] == entries[at[j]]);
            }
        }
        assert forall|k: int|
            0 <= k < entries.len() && contains_text(lowercase_text((#[trigger] entries[k]).1.title@), query) implies at.contains(k) by {
            if k < n {
                assert(front[k] == entries[k]);
                let j = choose|j: int| 0 <= j < before.len() && before[j] == k;
                assert(at[j] == k);
            } else {
                assert(at[before.len() as int] == n);
            }
        }
        at
    }
}

/// Where the snippets with the query in their content only stand.
proof fn body_places(entries: Seq<(EntityId, Snippet)>, query: Seq<char>) -> (at: Seq<int>)
    ensures
        at.len() == body_hits(entries, query).len(),
        forall|j: int|
            0 <= j < at.len() ==> 0 <= #[trigger] at[j] < entries.len() && body_hits(entries, query)[j]
                == entries[at[j]].0@ && !contains_text(lowercase_text(entries[at[j]].1.title@), query) && contains_text(lowercase_text(entries[at[j]].1.content@), query),
        forall|i: int, j: int| 0 <= i < j < at.len() ==> at[i] < at[j],
        forall|k: int|
            0 <= k < entries.len() && !contains_text(lowercase_text((#[trigger] entries[k]).1.title@), query) && contains_text(lowercase_text(entries[k].1.content@), query) ==> at.contains(k),
    decreases entries.len(),
{
    if entries.len() == 0 {
        Seq::empty()
    } else {
        let front = entries.drop_last();
        let before = body_places(front, query);
        let n = entries.len() - 1;
        let taken = !contains_text(lowercase_text(entries.last().1.title@), query) && contains_text(lowercase_text(entries.last().1.content@), query);
        let at = if taken {
            before.push(n)
        } else {
            before
        };
        assert forall|j: int| 0 <= j < at.len() implies 0 <= #[trigger] at[j] < entries.len()
            && body_hits(entries, query)[j] == entries[at[j]].0@ && !contains_text(lowercase_text(entries[at[j]].1.title@), query) && contains_text(lowercase_text(entries[at[j]].1.content@), query) by {
            if j < before.len() {
                assert(at[j] == before[j]);
                assert(front[before[j]] == entries[at[j]]);
            }
        }
        assert forall|k: int|
            0 <= k < entries.len() && !contains_text(lowercase_text((#[trigger] entries[k]).1.title@), query) && contains_text(lowercase_text(entries[k].1.content@), query) implies at.contains(k) by {
            if k < n {
                assert(front[k] == entries[k]);
                let j = choose|j: int| 0 <= j < before.len() && before[j] == k;
                assert(at[j] == k);
            } else {
                assert(at[before.len() as int] == n);
            }
        }
        at
    }
}

/// A search finds everything that is there: every snippet with the query in its
/// title, in order, and then every other snippet with the query in its content, in
/// order. The two lists tell where in `entries` they stand. A blank query finds
/// nothing.
pub proof fn searches_find_everything(entries: Seq<(EntityId, Snippet)>, query: Seq<char>) -> (r: (
    Seq<int>,
    Seq<int>,
))
    ensures
        ({
            let wanted = lowercase_text(trimmed(query));
            let (titles, bodies) = r;
            let hits = found(entries, query);
            &&& wanted.len() == 0 ==> hits.len() == 0
            &&& wanted.len() > 0 ==> {
                &&& hits.len() == titles.len() + bodies.len()
                &&& forall|j: int|
                    0 <= j < titles.len() ==> 0 <= #[trigger] titles[j] < entries.len() && hits[j]
                        == entries[titles[j]].0@
                &&& forall|j: int|
                    0 <= j < bodies.len() ==> 0 <= #[trigger] bodies[j] < entries.len()
                        && hits[titles.len() + j] == entries[bodies[j]].0@
                &&& forall|i: int, j: int| 0 <= i < j < titles.len() ==> titles[i] < titles[j]
                &&& forall|i: int, j: int| 0 <= i < j < bodies.len() ==> bodies[i] < bodies[j]
                &&& forall|k: int|
                    0 <= k < entries.len() ==> titles.contains(k) == contains_text(
                        lowercase_text((#[trigger] entries[k]).1.title@),
                        wanted,
                    )
                &&& forall|k: int|
                    0 <= k < entries.len() ==> bodies.contains(k) == (!contains_text(
                        lowercase_text((#[trigger] entries[k]).1.title@),
                        wanted,
                    ) && contains_text(lowercase_text(entries[k].1.content@), wanted))
                &&& forall|k: int|
                    0 <= k < entries.len() && (contains_text(
                        lowercase_text((#[trigger] entries[k]).1.title@),
                        wanted,
                    ) || contains_text(lowercase_text(entries[k].1.content@), wanted))
                        ==> hits.contains(entries[k].0@)
            }
        }),
{
    let wanted = lowercase_text(trimmed(query));
    let titles = title_places(entries, wanted);
    let bodies = body_places(entries, wanted);
    let hits = found(entries, query);
    if wanted.len() > 0 {
        assert forall|k: int| 0 <= k < entries.len() && titles.contains(k) implies hits.contains(
            (#[trigger] entries[k]).0@,
        ) by {
            let j = choose|j: int| 0 <= j < titles.len() && titles[j] == k;
            assert(hits[j] == entries[k].0@);
        }
        assert forall|k: int| 0 <= k < entries.len() && bodies.contains(k) implies hits.contains(
            (#[trigger] entries[k]).0@,
        ) by {
            let j = choose|j: int| 0 <= j < bodies.len() && bodies[j] == k;
            assert(hits[titles.len() + j] == entries[k].0@);
        }
    }
    (titles, bodies)
}

/// Whatever command changes the workspace, the workspace is saved. The one exception
/// is a new AI workspace for a container that is not there.
pub proof fn workspace_changes_are_saved(
    after: HomePage,
    before: HomePage,
    effects: Seq<Effect>,
    command: CanvasCommand,
    origin: Viewport,
    slot: Point,
    loaded: AiBoxData,
)
    requires
        processed(after, before, effects, command, origin, slot, loaded),
        command matches CanvasCommand::NewAiBox { owner, .. } ==> before.workspace.has_container(
            owner@,
        ),
    ensures
        after.workspace != before.workspace ==> effects.contains(Effect::SaveWorkspace),
{
    match command {
        CanvasCommand::DeleteReference { owner, reference, target } => {
            if !asks_first(before.workspace, target) {
                assert(effects[0] == Effect::SaveWorkspace);
            }
        },
        CanvasCommand::RemoveAiSource { .. } => {
            assert(effects[0] == Effect::SaveWorkspace);
        },
        CanvasCommand::ConfirmDelete(pending) => {
            match pending.target {
                ReferenceTarget::Snippet(entity) => {
                    if before.all_snippets@.contains_key(entity@) {
                        assert(after == before || effects[1] == Effect::SaveWorkspace);
                    } else {
                        assert(after == before || effects[0] == Effect::SaveWorkspace);
                    }
                },
                ReferenceTarget::Container(_) => {
                    assert(after == before || effects[0] == Effect::SaveWorkspace);
                },
                _ => {},
            }
        },
        CanvasCommand::ApplyRename { target, moved } => {
            if after.workspace != before.workspace {
                let buffer = trimmed(before.windows.rename_dialog.buffer@);
                let (mid, ok) = choose|mid: HomePage, ok: bool| #[trigger]
                    retitled(mid, before, ok, effects, target, buffer, moved) && after.workspace
                        == mid.workspace;
                assert(effects[0] == Effect::SaveWorkspace);
            }
        },
        CanvasCommand::PasteClipboard { container, entry } => {
            let (mid, ok) = choose|mid: HomePage, ok: bool|
                {
                    &&& #[trigger] pasted(mid, before, ok, effects, container, entry, slot)
                    &&& after.workspace == mid.workspace
                };
            if ok {
                assert(effects.last() == Effect::SaveWorkspace);
            }
        },
        CanvasCommand::DropOnCanvas { container, position, payload, move_semantics } => {
            let place = place_for(position, slot);
            let (mid, ok) = choose|mid: HomePage, ok: bool|
                {
                    &&& #[trigger] dropped(
                        mid,
                        before,
                        ok,
                        effects,
                        container,
                        place,
                        payload,
                        move_semantics,
                    )
                    &&& after.workspace == mid.workspace
                };
            if ok {
                assert(effects.last() == Effect::SaveWorkspace);
            }
        },
        CanvasCommand::NewAiBox { .. } => {
            assert(effects[0] == Effect::SaveWorkspace);
        },
        CanvasCommand::NewConversation { ai_box, position } => {
            if after.workspace != before.workspace {
                let rest = effects.skip(1);
                assert(rest.len() > 0 && rest[0] == Effect::SaveWorkspace);
                assert(rest[0] == effects[1]);
            }
        },
        CanvasCommand::LinkAiSource { ai_box, .. } => {
            if before.workspace.has_container(ai_box@) {
                assert(effects[0] == Effect::SaveWorkspace);
            }
        },
        CanvasCommand::DeleteConversation { ai_box, .. } => {
            if after.workspace != before.workspace {
                if before.ai_boxes@.contains_key(ai_box@) {
                    assert(effects[1] == Effect::SaveWorkspace);
                } else {
                    assert(effects[0] == Effect::SaveWorkspace);
                }
            }
        },
        _ => {},
    }
}

/// A container that is renamed gets the title that was typed, without the white space
/// around it. It keeps its cards, and every other container is as it was.
pub proof fn containers_are_renamed(
    after: HomePage,
    before: HomePage,
    effects: Seq<Effect>,
    origin: Viewport,
    slot: Point,
    loaded: AiBoxData,
    id: ContainerId,
    asked: Viewport,
    moved: bool,
)
    requires
        processed(
            after,
            before,
            effects,
            CanvasCommand::ApplyRename {
                target: RenameTarget::Folder { id, origin: asked },
                moved,
            },
            origin,
            slot,
            loaded,
        ),
        before.windows.rename_dialog.pending == Some(RenameTarget::Folder { id, origin: asked }),
        before.workspace.has_container(id@),
    ensures
        trimmed(before.windows.rename_dialog.buffer@).len() > 0 ==> {
            &&& after.workspace.containers@[id@].title@ == trimmed(
                before.windows.rename_dialog.buffer@,
            )
            &&& after.windows.rename_dialog.pending is None
        },
        trimmed(before.windows.rename_dialog.buffer@).len() == 0 ==> {
            &&& after.workspace == before.workspace
            &&& after.windows.rename_dialog.pending == before.windows.rename_dialog.pending
        },
        after.workspace.members_of(id@) == before.workspace.members_of(id@),
        after.workspace.containers@[id@].kind == before.workspace.containers@[id@].kind,
        forall|c: Seq<char>|
            c != id@ ==> #[trigger] after.workspace.has_container(c)
                == before.workspace.has_container(c) && (before.workspace.has_container(c)
                ==> after.workspace.containers@[c] == before.workspace.containers@[c]),
        after.all_snippets == before.all_snippets,
        after.ai_boxes == before.ai_boxes,
{
}

/// A snippet whose file could be moved gets the title that was typed, without the white
/// space around it. It keeps its text, and every other snippet is as it was.
pub proof fn snippets_are_renamed(
    after: HomePage,
    before: HomePage,
    effects: Seq<Effect>,
    origin: Viewport,
    slot: Point,
    loaded: AiBoxData,
    id: EntityId,
    asked: Viewport,
    moved: bool,
)
    requires
        processed(
            after,
            before,
            effects,
            CanvasCommand::ApplyRename {
                target: RenameTarget::Snippet { id, origin: asked },
                moved,
            },
            origin,
            slot,
            loaded,
        ),
        before.windows.rename_dialog.pending == Some(RenameTarget::Snippet { id, origin: asked }),
        before.all_snippets@.contains_key(id@),
    ensures
        moved && trimmed(before.windows.rename_dialog.buffer@).len() > 0 ==> {
            &&& after.all_snippets@[id@].title@ == trimmed(before.windows.rename_dialog.buffer@)
            &&& after.windows.rename_dialog.pending is None
        },
        !moved || trimmed(before.windows.rename_dialog.buffer@).len() == 0 ==> after.all_snippets
            == before.all_snippets && after.windows.rename_dialog.pending
            == before.windows.rename_dialog.pending,
        after.all_snippets@.contains_key(id@),
        after.all_snippets@[id@].content == before.all_snippets@[id@].content,
        after.all_snippets@[id@].id == before.all_snippets@[id@].id,
        forall|s: Seq<char>|
            s != id@ ==> #[trigger] after.all_snippets@.contains_key(s)
                == before.all_snippets@.contains_key(s) && (before.all_snippets@.contains_key(s)
                ==> after.all_snippets@[s] == before.all_snippets@[s]),
        after.workspace == before.workspace,
{
}

/// A conversation that is renamed gets the title that was typed, without the white
/// space around it. It keeps its messages and its sources, and is saved.
pub proof fn conversations_are_renamed(
    after: HomePage,
    before: HomePage,
    effects: Seq<Effect>,
    origin: Viewport,
    slot: Point,
    loaded: AiBoxData,
    ai_box: ContainerId,
    id: ConversationId,
    asked: Viewport,
    moved: bool,
)
    requires
        processed(
            after,
            before,
            effects,
            CanvasCommand::ApplyRename {
                target: RenameTarget::Conversation { ai_box, id, origin: asked },
                moved,
            },
            origin,
            slot,
            loaded,
        ),
        before.windows.rename_dialog.pending == Some(
            RenameTarget::Conversation { ai_box, id, origin: asked },
        ),
        before.ai_boxes@.contains_key(ai_box@),
        before.ai_boxes@[ai_box@].conversations@.contains_key(id@),
        trimmed(before.windows.rename_dialog.buffer@).len() > 0,
    ensures
        ({
            let now = after.ai_boxes@[ai_box@].conversations@[id@];
            let past = before.ai_boxes@[ai_box@].conversations@[id@];
            &&& now.messages == past.messages
            &&& now.sources == past.sources
            &&& now.id == past.id
            &&& now.created_at == past.created_at
            &&& effects.contains(Effect::SaveBox(ai_box))
            &&& now.title@ == trimmed(before.windows.rename_dialog.buffer@)
            &&& after.windows.rename_dialog.pending is None
        }),
        other_conversations_stay(after, before, ai_box@, id@),
        after.workspace == before.workspace,
{
    trimming_again_changes_nothing(before.windows.rename_dialog.buffer@);
    let buffer = trimmed(before.windows.rename_dialog.buffer@);
    let (mid, ok) = choose|mid: HomePage, ok: bool|
        {
            &&& #[trigger] retitled(
                mid,
                before,
                ok,
                effects,
                RenameTarget::Conversation { ai_box, id, origin: asked },
                buffer,
                moved,
            )
            &&& after.ai_boxes == mid.ai_boxes
            &&& after.windows.rename_dialog.pending == if ok {
                None
            } else {
                before.windows.rename_dialog.pending
            }
        };
    assert(effects[0] == Effect::SaveBox(ai_box));
}

/// A file that is renamed gets the title that was typed on each of its cards. Its path
/// stays, and so does every card of something else.
pub proof fn files_are_renamed(
    after: HomePage,
    before: HomePage,
    effects: Seq<Effect>,
    origin: Viewport,
    slot: Point,
    loaded: AiBoxData,
    id: ExternalFileId,
    asked: Viewport,
    moved: bool,
    c: Seq<char>,
    i: int,
)
    requires
        processed(
            after,
            before,
            effects,
            CanvasCommand::ApplyRename {
                target: RenameTarget::ExternalFile { id, origin: asked },
                moved,
            },
            origin,
            slot,
            loaded,
        ),
        before.windows.rename_dialog.pending == Some(
            RenameTarget::ExternalFile { id, origin: asked },
        ),
        trimmed(before.windows.rename_dialog.buffer@).len() > 0,
        before.workspace.has_container(c),
        0 <= i < before.workspace.members_of(c).len(),
    ensures
        after.workspace.has_container(c),
        after.workspace.members_of(c).len() == before.workspace.members_of(c).len(),
        after.workspace.members_of(c)[i].id == before.workspace.members_of(c)[i].id,
        after.workspace.members_of(c)[i].role == before.workspace.members_of(c)[i].role,
        match before.workspace.members_of(c)[i].target {
            ReferenceTarget::ExternalFile(file) => if file.id@ == id@ {
                after.workspace.members_of(c)[i].target matches ReferenceTarget::ExternalFile(f)
                    && f.title@ == trimmed(before.windows.rename_dialog.buffer@) && f.path
                    == file.path && f.id == file.id
            } else {
                after.workspace.members_of(c)[i].target == before.workspace.members_of(c)[i].target
            },
            _ => after.workspace.members_of(c)[i].target
                == before.workspace.members_of(c)[i].target,
        },
{
    let buffer = trimmed(before.windows.rename_dialog.buffer@);
    let (mid, ok) = choose|mid: HomePage, ok: bool|
        {
            &&& #[trigger] retitled(
                mid,
                before,
                ok,
                effects,
                RenameTarget::ExternalFile { id, origin: asked },
                buffer,
                moved,
            )
            &&& after.workspace == mid.workspace
        };
    assert(mid.workspace.containers@.dom().contains(c));
    assert(mid.workspace.containers@.contains_key(c));
}

/// A deleted conversation is gone, with its messages and its card. Every other
/// conversation is as it was, and so are the other cards.
pub proof fn deleted_conversations_are_gone(
    after: HomePage,
    before: HomePage,
    effects: Seq<Effect>,
    ai_box: ContainerId,
    conversation: Seq<char>,
    k: int,
)
    requires
        deleted_conversation(after, before, effects, ai_box, conversation),
        before.ai_boxes@.contains_key(ai_box@),
        before.workspace.has_container(ai_box@),
        0 <= k < before.workspace.members_of(ai_box@).len(),
        before.workspace.members_of(ai_box@)[k].target matches ReferenceTarget::Conversation(id)
            && id@ == conversation,
        forall|j: int|
            0 <= j < k ==> !((#[trigger] before.workspace.members_of(ai_box@)[j]).target matches
                ReferenceTarget::Conversation(id) && id@ == conversation),
    ensures
        !after.ai_boxes@[ai_box@].conversations@.contains_key(conversation),
        other_conversations_stay(after, before, ai_box@, conversation),
        effects.contains(Effect::SaveBox(ai_box)),
        effects.contains(Effect::SaveWorkspace),
        !holds_card(after.workspace, ai_box@, before.workspace.members_of(ai_box@)[k].id@),
        after.workspace.members_of(ai_box@) == before.workspace.members_of(ai_box@).filter(
            without_reference(before.workspace.members_of(ai_box@)[k].id@),
        ),
        after.all_snippets == before.all_snippets,
{
    let members = before.workspace.members_of(ai_box@);
    conversation_cards_are_found(members, conversation, 0);
    let at = conversation_card(members, conversation, 0);
    if at < k {
        assert(!(members[at].target matches ReferenceTarget::Conversation(id) && id@
            == conversation));
    }
    assert(at == k);
    filtered_out(members, members[k].id@);
    assert(effects[0] == Effect::SaveBox(ai_box));
    assert(effects[1] == Effect::SaveWorkspace);
}

/// A new conversation has no messages yet, and has the sources that are linked into its
/// AI workspace. It gets a card at the end, is saved, and every other conversation is
/// as it was.
pub proof fn new_conversations_are_empty(
    after: HomePage,
    before: HomePage,
    effects: Seq<Effect>,
    ai_box: ContainerId,
    position: Point,
    loaded: AiBoxData,
    conversation: ConversationId,
    now: u64,
    mid: HomePage,
    reference: ReferenceId,
)
    requires
        new_conversation(
            after,
            before,
            effects,
            ai_box,
            position,
            loaded,
            conversation,
            now,
            mid,
            reference,
        ),
        before.workspace.has_container(ai_box@),
        before.ai_boxes@.contains_key(ai_box@),
        !before.ai_boxes@[ai_box@].conversations@.contains_key(conversation@),
    ensures
        ({
            let c = after.ai_boxes@[ai_box@].conversations@[conversation@];
            let members = after.workspace.members_of(ai_box@);
            &&& after.ai_boxes@[ai_box@].conversations@.contains_key(conversation@)
            &&& c.id == conversation
            &&& c.title@ == "New Conversation"@
            &&& c.messages@.len() == 0
            &&& c.sources@ == deduplicated(source_targets(before.workspace.members_of(ai_box@)))
            &&& c.created_at == now
            &&& members.drop_last() == before.workspace.members_of(ai_box@)
            &&& members.len() > 0
            &&& members.last().target == ReferenceTarget::Conversation(conversation)
            &&& members.last().role == MemberRole::Conversation
            &&& effects.contains(Effect::SaveBox(ai_box))
            &&& effects.contains(Effect::SaveWorkspace)
        }),
        other_conversations_stay(after, before, ai_box@, conversation@),
{
    assert(after.workspace.members_of(ai_box@).drop_last() =~= before.workspace.members_of(
        ai_box@,
    ));
    let rest = effects.skip(1);
    assert(rest.len() > 0 && rest[0] == Effect::SaveWorkspace);
    assert(rest[0] == effects[1]);
}

/// A new AI workspace is an empty container of its own, with a card at the end of the
/// container that it was made in. Everything else is as it was.
pub proof fn new_ai_boxes_are_empty(
    after: HomePage,
    before: HomePage,
    effects: Seq<Effect>,
    owner: ContainerId,
    position: Point,
    mid: HomePage,
    container: ContainerId,
    reference: ReferenceId,
    other: Seq<char>,
)
    requires
        new_ai_box(after, before, effects, owner, position, mid, container, reference),
        before.workspace.has_container(owner@),
        owner@ != container@,
    ensures
        after.workspace.has_container(container@),
        after.workspace.containers@[container@].kind == ContainerKind::AiWorkspace,
        after.workspace.members_of(container@).len() == 0,
        after.workspace.members_of(owner@).drop_last() == before.workspace.members_of(owner@),
        after.workspace.members_of(owner@).len() > 0,
        after.workspace.members_of(owner@).last().target == ReferenceTarget::Container(container),
        other != owner@ && other != container@ && before.workspace.has_container(other)
            ==> after.workspace.has_container(other) && after.workspace.containers@[other]
            == before.workspace.containers@[other],
        effects.contains(Effect::SaveWorkspace),
        after.all_snippets == before.all_snippets,
        after.ai_boxes == before.ai_boxes,
{
    assert(after.workspace.members_of(owner@).drop_last() =~= before.workspace.members_of(owner@));
    assert(effects[0] == Effect::SaveWorkspace);
}

/// A snippet that is opened is shown in a view of its own, besides those that are open.
/// One that is opened to be read only cannot be edited.
pub proof fn opened_snippets_are_shown(
    after: HomePage,
    before: HomePage,
    effects: Seq<Effect>,
    origin: Viewport,
    slot: Point,
    loaded: AiBoxData,
    id: EntityId,
    read_only: bool,
)
    requires
        processed(
            after,
            before,
            effects,
            if read_only {
                CanvasCommand::OpenSnippetReadOnly(id)
            } else {
                CanvasCommand::OpenSnippet(id)
            },
            origin,
            slot,
            loaded,
        ),
        before.all_snippets@.contains_key(id@),
    ensures
        after.windows.views@.len() == before.windows.views@.len() + 1,
        after.windows.views@.drop_last() == before.windows.views@,
        after.windows.views@.last().entity_id == id,
        after.windows.views@.last().id == before.windows.next_view_id,
        after.windows.views@.last().read_only == read_only,
        read_only ==> after.windows.views@.last().mode == ViewMode::Preview,
        !read_only ==> (after.windows.views@.last().mode == ViewMode::Source
            <==> before.all_snippets@[id@].content@.len() == 0),
        after.all_snippets == before.all_snippets,
        after.workspace == before.workspace,
{
    assert(after.windows.views@.drop_last() =~= before.windows.views@);
}

/// A folder that is closed is not open any more. The other folders stay open, and
/// nothing is lost: the workspace, the snippets and the conversations are as they were.
pub proof fn closed_folders_lose_nothing(
    after: HomePage,
    before: HomePage,
    container: ContainerId,
    other: Seq<char>,
)
    requires
        closed_folder(after, before, container),
    ensures
        !after.boards.folder_views@.contains_key(container@),
        other != container@ ==> after.boards.folder_views@.contains_key(other)
            == before.boards.folder_views@.contains_key(other),
        other != container@ && before.boards.folder_views@.contains_key(other)
            ==> after.boards.folder_views@[other] == before.boards.folder_views@[other],
        after.boards.root == before.boards.root,
        after.workspace == before.workspace,
        after.all_snippets == before.all_snippets,
        after.ai_boxes == before.ai_boxes,
        after.windows.views == before.windows.views,
{
}

/// A command to rename asks for a title, and starts from the one that there is.
pub proof fn renaming_starts_from_the_title(
    after: HomePage,
    before: HomePage,
    effects: Seq<Effect>,
    origin: Viewport,
    slot: Point,
    loaded: AiBoxData,
    entity: EntityId,
    container: ContainerId,
)
    ensures
        processed(
            after,
            before,
            effects,
            CanvasCommand::RenameSnippet(entity),
            origin,
            slot,
            loaded,
        ) && before.all_snippets@.contains_key(entity@) ==> {
            &&& after.windows.rename_dialog.pending == Some(
                RenameTarget::Snippet { id: entity, origin },
            )
            &&& after.windows.rename_dialog.buffer@ == before.all_snippets@[entity@].title@
            &&& after.all_snippets == before.all_snippets
        },
        processed(
            after,
            before,
            effects,
            CanvasCommand::RenameFolder(container),
            origin,
            slot,
            loaded,
        ) && before.workspace.has_container(container@) ==> {
            &&& after.windows.rename_dialog.pending == Some(
                RenameTarget::Folder { id: container, origin },
            )
            &&& after.windows.rename_dialog.buffer@
                == before.workspace.containers@[container@].title@
            &&& after.workspace == before.workspace
        },
{
}

/// A source that is linked into an AI workspace gets a card at its end. What it stands
/// for stays as it is, and so does everything else.
pub proof fn linked_sources_are_added(
    after: HomePage,
    before: HomePage,
    effects: Seq<Effect>,
    origin: Viewport,
    slot: Point,
    loaded: AiBoxData,
    ai_box: ContainerId,
    target: ReferenceTarget,
    position: Option<Point>,
    other: Seq<char>,
)
    requires
        processed(
            after,
            before,
            effects,
            CanvasCommand::LinkAiSource { ai_box, target, position },
            origin,
            slot,
            loaded,
        ),
        before.workspace.has_container(ai_box@),
    ensures
        after.workspace.members_of(ai_box@).len() > 0,
        after.workspace.members_of(ai_box@).drop_last() == before.workspace.members_of(ai_box@),
        after.workspace.members_of(ai_box@).last().target == target,
        after.workspace.members_of(ai_box@).last().role == MemberRole::Source,
        other != ai_box@ && before.workspace.has_container(other)
            ==> after.workspace.has_container(other) && after.workspace.containers@[other]
            == before.workspace.containers@[other],
        after.all_snippets == before.all_snippets,
        after.ai_boxes == before.ai_boxes,
        effects.contains(Effect::SaveWorkspace),
{
    assert(after.workspace.members_of(ai_box@).drop_last() =~= before.workspace.members_of(
        ai_box@,
    ));
    assert(effects[0] == Effect::SaveWorkspace);
}

/// A folder that is opened is loaded unless it is open, and a conversation that is opened
/// is the one that is shown. Nothing else changes.
pub proof fn opening_changes_nothing_else(
    after: HomePage,
    before: HomePage,
    effects: Seq<Effect>,
    origin: Viewport,
    slot: Point,
    loaded: AiBoxData,
    container: ContainerId,
    conversation: ConversationId,
)
    ensures
        processed(
            after,
            before,
            effects,
            CanvasCommand::OpenFolder(container),
            origin,
            slot,
            loaded,
        ) ==> after == before && effects == if before.boards.folder_views@.contains_key(
            container@,
        ) {
            Seq::empty()
        } else {
            seq![Effect::LoadFolder(container)]
        },
        processed(
            after,
            before,
            effects,
            CanvasCommand::OpenConversation { ai_box: container, conversation },
            origin,
            slot,
            loaded,
        ) ==> {
            &&& after.chat.open == Some((container, conversation))
            &&& after.chat.input == before.chat.input
            &&& after.ai_boxes == before.ai_boxes
            &&& after.workspace == before.workspace
            &&& effects.len() == 0
        },
{
}

} // verus!
