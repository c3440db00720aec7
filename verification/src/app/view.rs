//! Windows that show a snippet: its source or its preview.
use crate::app::commands::ClipboardEntry;
use crate::app::snippet::{collect_local_links, index_of, indexed, insert_embed_markdown,
    insert_markdown_link, is_broken, is_broken_internal_link, link_text, local_links_from,
    neutralize_embeds, neutralized, parse_snippet_link, with_inserted};
use crate::data::ids::EntityId;
use crate::data::layout::Point;
use crate::data::markdown_targets::{external_destination, is_external, is_snippet_link};
use crate::data::workspace::ReferenceTarget;
use crate::text::{chars_of, contains_text, has_text, join2, join3, string_between, texts};
use vstd::prelude::*;

verus! {

/// For how many frames an error stays.
pub const ERROR_FRAMES: u32 = 180;

/// How a snippet is shown.
#[derive(Clone, Copy, Debug, PartialEq, Eq, Structural)]
pub enum ViewMode {
    /// As Markdown, to be edited.
    Source,
    /// As a document, to be read.
    Preview,
}

impl Default for ViewMode {
    fn default() -> (r: Self)
        ensures
            r == ViewMode::Preview,
    {
        ViewMode::Preview
    }
}

impl ViewMode {
    /// The snippet can be edited.
    pub fn is_editing(self) -> (r: bool)
        ensures
            r == (self == ViewMode::Source),
    {
        self == ViewMode::Source
    }
}

/// The window in which a link to insert is picked.
#[derive(Debug, PartialEq, Eq)]
pub struct LinkPicker {
    /// Where the link goes, as a character index.
    pub cursor: usize,
    /// Titles that do not hold this text are left out.
    pub filter: String,
    /// The filter already has the focus.
    pub focus_requested: bool,
    /// Insert an embed in place of a link.
    pub embed: bool,
}

/// A window that shows a snippet.
#[derive(Debug)]
pub struct SnippetView {
    pub id: u64,
    pub entity_id: EntityId,
    pub mode: ViewMode,
    /// The snippet cannot be edited here.
    pub read_only: bool,
    /// The editor is to get the focus.
    pub focus_edit: bool,
    /// Where the menu of modes is open.
    pub mode_menu: Option<Point>,
    pub link_picker: Option<LinkPicker>,
    /// An error, and for how many frames it still stays.
    pub link_error: Option<(String, u32)>,
}

/// What the user did in the window of the picker.
#[derive(Debug)]
pub enum PickerStep {
    /// Nothing yet.
    Open,
    /// The window was closed.
    Closed,
    /// This snippet was picked.
    Picked(EntityId),
}

/// What an embed shows.
#[derive(Debug)]
pub enum EmbedState {
    /// An error.
    Fault(String),
    /// The text of the snippet, without embeds of its own.
    Page(String),
}

/// The first snippet of the index under this identifier.
pub open spec fn index_position(
    index: Seq<(EntityId, String, String)>,
    id: Seq<char>,
    i: int,
) -> int
    decreases index.len() - i,
{
    if !(0 <= i < index.len()) {
        index.len() as int
    } else if index[i].0@ == id {
        i
    } else {
        index_position(index, id, i + 1)
    }
}

proof fn index_position_is(
    index: Seq<(EntityId, String, String)>,
    id: Seq<char>,
    from: int,
    i: int,
)
    requires
        0 <= from <= i <= index.len(),
        forall|j: int| from <= j < i ==> (#[trigger] index[j]).0@ != id,
        i < index.len() ==> index[i].0@ == id,
    ensures
        index_position(index, id, from) == i,
    decreases i - from,
{
    if from < i {
        assert(index[from].0@ != id);
        index_position_is(index, id, from + 1, i);
    }
}

/// The title of a snippet of the index, or an empty text.
pub open spec fn title_in(index: Seq<(EntityId, String, String)>, id: Seq<char>) -> Seq<char> {
    let i = index_position(index, id, 0);
    if i < index.len() {
        index[i].1@
    } else {
        Seq::empty()
    }
}

fn find_in(index: &Vec<(EntityId, String, String)>, id: &EntityId) -> (r: Option<usize>)
    ensures
        match r {
            Some(i) => i < index@.len() && i == index_position(index@, id@, 0) && indexed(
                index@,
                id@,
            ),
            None => index_position(index@, id@, 0) == index@.len() && !indexed(index@, id@),
        },
{
    let r = index_of(index, id);
    proof {
        match r {
            Some(i) => {
                index_position_is(index@, id@, 0, i as int);
                assert(index@[i as int].0@ == id@);
            },
            None => {
                assert forall|j: int| 0 <= j < index@.len() implies (#[trigger] index@[j]).0@
                    != id@ by {
                    if index@[j].0@ == id@ {
                        assert(indexed(index@, id@));
                    }
                }
                index_position_is(index@, id@, 0, index@.len() as int);
            },
        }
    }
    r
}

/// The links of a text that lead to other snippets. Links that name a scheme are
/// left to the browser.
pub open spec fn internal(links: Seq<Seq<char>>) -> Seq<Seq<char>>
    decreases links.len(),
{
    if links.len() == 0 {
        Seq::empty()
    } else {
        let rest = internal(links.drop_last());
        if is_external(links.last()) {
            rest
        } else {
            rest.push(links.last())
        }
    }
}

/// The links of a text that lead to other snippets.
pub fn internal_links(content: &str) -> (r: Vec<String>)
    ensures
        texts(r@) == internal(local_links_from(content@, 0)),
{
    let all = collect_local_links(content);
    let mut r: Vec<String> = Vec::new();
    let ghost t = texts(all@);
    let mut i: usize = 0;
    proof {
        assert(t.take(0) =~= Seq::<Seq<char>>::empty());
        assert(texts(r@) =~= Seq::<Seq<char>>::empty());
    }
    while i < all.len()
        invariant
            i <= all@.len(),
            t == texts(all@),
            texts(r@) == internal(t.take(i as int)),
        decreases all@.len() - i,
    {
        proof {
            assert(t.take(i + 1).drop_last() =~= t.take(i as int));
            assert(t.take(i + 1).last() == all@[i as int]@);
        }
        if !external_destination(&all[i]) {
            let ghost before = texts(r@);
            r.push(all[i].clone());
            assert(texts(r@) =~= before.push(all@[i as int]@));
        }
        i = i + 1;
    }
    assert(t.take(i as int) =~= t);
    r
}

/// The snippet that an embed leads to is in the index.
pub open spec fn embeds(dest: Seq<char>, index: Seq<(EntityId, String, String)>, i: int) -> bool {
    exists|id: Seq<char>| #[trigger] is_snippet_link(dest, id) && index_position(index, id, 0) == i
}

/// What an embed shows: the whole text of a snippet, in which further embeds
/// become links.
pub fn embed_state(dest: &str, index: &Vec<(EntityId, String, String)>) -> (r: EmbedState)
    ensures
        match r {
            EmbedState::Fault(message) => {
                ||| message@ == "invalid embed: "@ + dest@ && forall|id: Seq<char>|
                    !is_snippet_link(dest@, id)
                ||| message@ == "missing page: "@ + dest@ && embeds(
                    dest@,
                    index@,
                    index@.len() as int,
                )
            },
            EmbedState::Page(text) => exists|i: int|
                0 <= i < index@.len() && #[trigger] embeds(dest@, index@, i) && text@
                    == neutralized(index@[i].2@),
        },
{
    match parse_snippet_link(dest) {
        None => EmbedState::Fault(join2("invalid embed: ", dest)),
        Some(id) => match find_in(index, &id) {
            None => {
                assert(is_snippet_link(dest@, id@));
                assert(embeds(dest@, index@, index@.len() as int));
                EmbedState::Fault(join2("missing page: ", dest))
            },
            Some(i) => {
                assert(is_snippet_link(dest@, id@));
                assert(embeds(dest@, index@, i as int));
                EmbedState::Page(neutralize_embeds(&index[i].2))
            },
        },
    }
}

/// The title of the window of a snippet.
pub fn window_title(mode: ViewMode, title: &str) -> (r: String)
    ensures
        r@ == (if mode == ViewMode::Source {
            "[Edit] "@
        } else {
            ""@
        }) + title@ + " - FloatDea"@,
{
    if mode.is_editing() {
        join3("[Edit] ", title, " - FloatDea")
    } else {
        join3("", title, " - FloatDea")
    }
}

/// The title can be picked under this filter.
pub open spec fn passes(title: Seq<char>, filter: Seq<char>) -> bool {
    filter.len() == 0 || contains_text(title, filter)
}

/// The snippets of the index that pass the filter, by number.
pub open spec fn passing(
    index: Seq<(EntityId, String, String)>,
    filter: Seq<char>,
    n: int,
) -> Seq<usize>
    decreases n,
{
    if n <= 0 {
        Seq::empty()
    } else {
        let rest = passing(index, filter, n - 1);
        if passes(index[n - 1].1@, filter) {
            rest.push((n - 1) as usize)
        } else {
            rest
        }
    }
}

/// The snippets that the picker offers, by their numbers in the index.
pub fn picker_matches(filter: &str, index: &Vec<(EntityId, String, String)>) -> (r: Vec<usize>)
    ensures
        r@ == passing(index@, filter@, index@.len() as int),
{
    let mut r: Vec<usize> = Vec::new();
    let all = filter.is_empty();
    let mut i: usize = 0;
    while i < index.len()
        invariant
            i <= index@.len(),
            all == (filter@.len() == 0),
            r@ == passing(index@, filter@, i as int),
        decreases index@.len() - i,
    {
        let title = chars_of(&index[i].1);
        if all || has_text(&title, filter) {
            r.push(i);
        }
        i = i + 1;
    }
    r
}

/// What a picked up card links to in the text of a snippet, if it is a snippet.
pub fn pasted_link(entry: &ClipboardEntry, index: &Vec<(EntityId, String, String)>) -> (r: Option<
    (EntityId, String),
>)
    ensures
        match entry.target {
            ReferenceTarget::Snippet(id) => if indexed(index@, id@) {
                r matches Some((target, title)) && target == id && title@ == title_in(index@, id@)
            } else {
                r is None
            },
            _ => r is None,
        },
{
    match &entry.target {
        ReferenceTarget::Snippet(id) => match find_in(index, id) {
            Some(i) => Some((id.clone(), index[i].1.clone())),
            None => None,
        },
        _ => None,
    }
}

/// The text of the menu entry that pastes a link.
pub fn paste_link_label(title: &str) -> (r: String)
    ensures
        r@ == "Paste Link: "@ + title@,
{
    join2("Paste Link: ", title)
}

/// Puts a link to a snippet that was dropped onto a text at the cursor, or at the
/// end. Returns whether the text changed: only snippets of the index can be
/// linked.
pub fn drop_link(
    content: &mut String,
    target: &ReferenceTarget,
    cursor: Option<usize>,
    index: &Vec<(EntityId, String, String)>,
) -> (r: bool)
    ensures
        match *target {
            ReferenceTarget::Snippet(id) => if indexed(index@, id@) {
                r && final(content)@ == with_inserted(
                    old(content)@,
                    match cursor {
                        Some(k) => k as int,
                        None => old(content)@.len() as int,
                    },
                    link_text("["@, title_in(index@, id@), id@),
                )
            } else {
                !r && final(content)@ == old(content)@
            },
            _ => !r && final(content)@ == old(content)@,
        },
{
    match target {
        ReferenceTarget::Snippet(id) => match find_in(index, id) {
            Some(i) => {
                let at = match cursor {
                    Some(k) => k,
                    None => chars_of(content).len(),
                };
                insert_markdown_link(content, at, &index[i].1, id);
                true
            },
            None => false,
        },
        _ => false,
    }
}

/// What the menu of the editor offers to copy: the selected characters, or all if
/// none are selected.
pub fn copied_text(content: &str, selection: Option<(usize, usize)>) -> (r: (&'static str, String))
    requires
        selection matches Some((from, to)) ==> from <= to <= content@.len(),
    ensures
        match selection {
            Some((from, to)) => if from < to {
                r.0@ == "Copy"@ && r.1@ == content@.subrange(from as int, to as int)
            } else {
                r.0@ == "Copy All"@ && r.1@ == content@
            },
            None => r.0@ == "Copy All"@ && r.1@ == content@,
        },
{
    match selection {
        Some((from, to)) => if from < to {
            let chars = chars_of(content);
            ("Copy", string_between(&chars, from, to))
        } else {
            ("Copy All", content.to_owned())
        },
        None => ("Copy All", content.to_owned()),
    }
}

impl SnippetView {
    /// A new window.
    pub open spec fn is_fresh(
        &self,
        id: u64,
        entity_id: EntityId,
        mode: ViewMode,
        read_only: bool,
    ) -> bool {
        *self == (SnippetView {
            id,
            entity_id,
            mode,
            read_only,
            focus_edit: false,
            mode_menu: None,
            link_picker: None,
            link_error: None,
        })
    }

    pub fn new(id: u64, entity_id: EntityId, mode: ViewMode, read_only: bool) -> (r: Self)
        ensures
            r.is_fresh(id, entity_id, mode, read_only),
    {
        SnippetView {
            id,
            entity_id,
            mode,
            read_only,
            focus_edit: false,
            mode_menu: None,
            link_picker: None,
            link_error: None,
        }
    }

    /// The menu of modes offers the source, unless the snippet cannot be edited.
    pub fn offers_source(&self) -> (r: bool)
        ensures
            r == !self.read_only,
    {
        !self.read_only
    }

    /// Changes the mode. The editor gets the focus. A snippet that cannot be
    /// edited stays a preview.
    pub fn apply_mode(&mut self, mode: ViewMode)
        ensures
            if old(self).read_only && mode == ViewMode::Source {
                *final(self) == *old(self)
            } else {
                *final(self) == (SnippetView {
                    mode,
                    focus_edit: old(self).focus_edit || mode == ViewMode::Source,
                    ..*old(self)
                })
            },
    {
        if self.read_only && mode == ViewMode::Source {
            return;
        }
        self.mode = mode;
        if mode.is_editing() {
            self.focus_edit = true;
        }
    }

    /// Leaves the editor on escape, unless a picker is open, which takes the key.
    /// Returns whether the key was used.
    pub fn escape(&mut self) -> (r: bool)
        ensures
            r == (old(self).link_picker is None),
            *final(self) == (SnippetView {
                mode: if r {
                    ViewMode::Preview
                } else {
                    old(self).mode
                },
                ..*old(self)
            }),
    {
        if self.link_picker.is_none() {
            self.mode = ViewMode::Preview;
            true
        } else {
            false
        }
    }

    /// Gives the focus to the editor if it asked for it. Returns whether it did.
    pub fn take_focus(&mut self) -> (r: bool)
        ensures
            r == old(self).focus_edit,
            *final(self) == (SnippetView { focus_edit: false, ..*old(self) }),
    {
        let asked = self.focus_edit;
        self.focus_edit = false;
        asked
    }

    /// Opens the picker of links, for a link at the cursor.
    pub fn open_picker(&mut self, cursor: usize)
        ensures
            *final(self) == (SnippetView { link_picker: final(self).link_picker, ..*old(self) }),
            final(self).link_picker matches Some(picker) && picker.cursor == cursor
                && picker.filter@ == Seq::<char>::empty() && !picker.focus_requested
                && !picker.embed,
    {
        self.link_picker = Some(
            LinkPicker { cursor, filter: String::new(), focus_requested: false, embed: false },
        );
    }

    /// Goes on with the picker. A snippet that was picked is linked or embedded at
    /// the cursor, and the picker closes. Returns whether the text changed.
    pub fn step_picker(
        &mut self,
        content: &mut String,
        step: PickerStep,
        index: &Vec<(EntityId, String, String)>,
    ) -> (r: bool)
        ensures
            *final(self) == (SnippetView { link_picker: final(self).link_picker, ..*old(self) }),
            match (old(self).link_picker, step) {
                (None, _) => !r && final(self).link_picker is None && final(content)@ == old(
                    content,
                )@,
                (Some(picker), PickerStep::Open) => !r && final(self).link_picker == Some(picker)
                    && final(content)@ == old(content)@,
                (Some(picker), PickerStep::Closed) => !r && final(self).link_picker is None
                    && final(content)@ == old(content)@,
                (Some(picker), PickerStep::Picked(id)) => {
                    &&& r
                    &&& final(self).link_picker is None
                    &&& final(content)@ == with_inserted(
                        old(content)@,
                        picker.cursor as int,
                        link_text(
                            if picker.embed {
                                "!["@
                            } else {
                                "["@
                            },
                            title_in(index@, id@),
                            id@,
                        ),
                    )
                },
            },
    {
        let picker = match self.link_picker.take() {
            Some(picker) => picker,
            None => {
                return false;
            },
        };
        match step {
            PickerStep::Open => {
                self.link_picker = Some(picker);
                false
            },
            PickerStep::Closed => false,
            PickerStep::Picked(id) => {
                let title = match find_in(index, &id) {
                    Some(i) => index[i].1.clone(),
                    None => String::new(),
                };
                if picker.embed {
                    insert_embed_markdown(content, picker.cursor, &title, &id);
                } else {
                    insert_markdown_link(content, picker.cursor, &title, &id);
                }
                true
            },
        }
    }

    /// Follows a link of the preview. Returns the snippet to open. A link that
    /// leads nowhere raises an error.
    pub fn follow_link(&mut self, url: &str, index: &Vec<(EntityId, String, String)>) -> (r: Option<
        EntityId,
    >)
        ensures
            if is_broken(url@, index@) {
                &&& r is None
                &&& *final(self) == (SnippetView { link_error: final(self).link_error, ..*old(self) })
                &&& final(self).link_error matches Some((message, frames)) && message@ == url@
                    + "\ndoes not exist."@ && frames == ERROR_FRAMES
            } else {
                &&& *final(self) == *old(self)
                &&& match r {
                    Some(id) => is_snippet_link(url@, id@),
                    None => forall|id: Seq<char>| !is_snippet_link(url@, id),
                }
            },
    {
        if is_broken_internal_link(url, index) {
            self.link_error = Some((join2(url, "\ndoes not exist."), ERROR_FRAMES));
            None
        } else {
            parse_snippet_link(url)
        }
    }

    /// Counts the frames of an error. Returns the message as long as it stays.
    pub fn step_error(&mut self) -> (r: Option<String>)
        ensures
            *final(self) == (SnippetView { link_error: final(self).link_error, ..*old(self) }),
            match old(self).link_error {
                Some((message, frames)) => if frames <= 1 {
                    r is None && final(self).link_error is None
                } else {
                    r == Some(message) && final(self).link_error == Some(
                        (message, (frames - 1) as u32),
                    )
                },
                None => r is None && final(self).link_error is None,
            },
    {
        match self.link_error.take() {
            Some((message, frames)) => {
                if frames <= 1 {
                    None
                } else {
                    self.link_error = Some((message.clone(), frames - 1));
                    Some(message)
                }
            },
            None => None,
        }
    }
}

/// The links that lead to other snippets are those without a scheme, all of them and in
/// order.
pub proof fn internal_links_are_kept(links: Seq<Seq<char>>) -> (at: Seq<int>)
    ensures
        at.len() == internal(links).len(),
        forall|j: int|
            #![trigger at[j]]
            0 <= j < at.len() ==> 0 <= at[j] < links.len() && !is_external(links[at[j]]) && internal(links)[j] == links[at[j]],
        forall|i: int, j: int| 0 <= i < j < at.len() ==> at[i] < at[j],
        forall|k: int|
            #![trigger links[k]]
            0 <= k < links.len() && !is_external(links[k]) ==> at.contains(k),
    decreases links.len(),
{
    if links.len() == 0 {
        Seq::empty()
    } else {
        let front = links.drop_last();
        let before = internal_links_are_kept(front);
        let n = links.len() - 1;
        let taken = !is_external(links.last());
        let at = if taken {
            before.push(n)
        } else {
            before
        };
        assert forall|j: int|
            #![trigger at[j]]
            0 <= j < at.len() implies 0 <= at[j] < links.len() && !is_external(links[at[j]]) && internal(links)[j] == links[at[j]] by {
            if j < before.len() {
                assert(at[j] == before[j]);
                assert(front[before[j]] == links[at[j]]);
            }
        }
        assert forall|k: int|
            #![trigger links[k]]
            0 <= k < links.len() && !is_external(links[k]) implies at.contains(k) by {
            if k < n {
                assert(front[k] == links[k]);
                let j = choose|j: int| 0 <= j < before.len() && before[j] == k;
                assert(at[j] == k);
            } else {
                assert(at[before.len() as int] == n);
            }
        }
        at
    }
}

/// The picker offers every snippet whose title has the filter in it, and all of them
/// without a filter, in order.
pub proof fn the_picker_offers_every_match(index: Seq<(EntityId, String, String)>, filter: Seq<char>, n: int) -> (at: Seq<int>)
    requires
        0 <= n <= index.len(),
    ensures
        at.len() == passing(index, filter, n).len(),
        forall|j: int|
            #![trigger at[j]]
            0 <= j < at.len() ==> 0 <= at[j] < n && (filter.len() == 0 || contains_text(index[at[j]].1@, filter)) && passing(index, filter, n)[j] == (at[j]) as usize,
        forall|i: int, j: int| 0 <= i < j < at.len() ==> at[i] < at[j],
        forall|k: int|
            #![trigger index[k]]
            0 <= k < n && (filter.len() == 0 || contains_text(index[k].1@, filter)) ==> at.contains(k),
    decreases n,
{
    if n == 0 {
        Seq::empty()
    } else {
        let before = the_picker_offers_every_match(index, filter, n - 1);
        let at = if (filter.len() == 0 || contains_text(index[n - 1].1@, filter)) {
            before.push(n - 1)
        } else {
            before
        };
        assert forall|j: int|
            #![trigger at[j]]
            0 <= j < at.len() implies 0 <= at[j] < n && (filter.len() == 0 || contains_text(index[at[j]].1@, filter)) && passing(index, filter, n)[j] == (at[j]) as usize by {
            if j < before.len() {
                assert(at[j] == before[j]);
            }
        }
        assert forall|k: int|
            #![trigger index[k]]
            0 <= k < n && (filter.len() == 0 || contains_text(index[k].1@, filter)) implies at.contains(k) by {
            if k < n - 1 {
                let j = choose|j: int| 0 <= j < before.len() && before[j] == k;
                assert(at[j] == k);
            } else {
                assert(at[before.len() as int] == n - 1);
            }
        }
        at
    }
}

/// A snippet is looked up by its identifier: the title is that of the first entry of the
/// index that has it. One that is not in the index has no title.
pub proof fn titles_are_looked_up(
    index: Seq<(EntityId, String, String)>,
    id: Seq<char>,
    i: int,
)
    requires
        0 <= i <= index.len(),
        forall|j: int| 0 <= j < i ==> (#[trigger] index[j]).0@ != id,
        i < index.len() ==> index[i].0@ == id,
    ensures
        i < index.len() ==> title_in(index, id) == index[i].1@,
        i == index.len() ==> title_in(index, id).len() == 0,
{
    index_position_is(index, id, 0, i);
}

} // verus!
