//! Markdown text of a note: embeds, links and their insertion.
use crate::data::ids::EntityId;
pub use crate::data::markdown_targets::parse_snippet_link;
use crate::data::markdown_targets::{closing_paren, closing_paren_bounds, closing_paren_found,
    count_char, external_destination, find_char, find_closing_paren, is_alphanumeric, is_external,
    is_plausible_id, is_snippet_link, links, next_char, next_char_bounds, next_char_found,
    next_char_moves, one_link_is_found, parentheses_close};
use crate::text::{chars_of, finishes_with, join3, string_between, string_of, texts};
use vstd::prelude::*;

verus! {

/// One piece of a preview: Markdown text, or an embed that shows another note.
#[derive(Debug, PartialEq)]
pub enum PreviewSegment {
    Text(String),
    Embed { alt: String, dest: String },
}

/// What a preview segment holds.
pub enum SegmentModel {
    Text(Seq<char>),
    Embed(Seq<char>, Seq<char>),
}

impl PreviewSegment {
    pub open spec fn view(&self) -> SegmentModel {
        match *self {
            PreviewSegment::Text(text) => SegmentModel::Text(text@),
            PreviewSegment::Embed { alt, dest } => SegmentModel::Embed(alt@, dest@),
        }
    }
}

impl SegmentModel {
    /// The Markdown text that the segment stands for.
    pub open spec fn source(self) -> Seq<char> {
        match self {
            SegmentModel::Text(text) => text,
            SegmentModel::Embed(alt, dest) => "!["@ + alt + "]("@ + dest + ")"@,
        }
    }
}

/// A local note: `*.md` without a URL scheme.
pub open spec fn is_document(dest: Seq<char>) -> bool {
    ".md"@.is_suffix_of(dest) && !is_external(dest)
}

/// Where the alt text of an embed at `i` ends and where its destination ends,
/// if an embed of a note stands there.
pub open spec fn embed_at(s: Seq<char>, i: int) -> Option<(int, int)> {
    if i + 1 < s.len() && s[i] == '!' && s[i + 1] == '[' {
        let close = next_char(s, i + 2, ']');
        if close + 1 < s.len() && s[close + 1] == '(' {
            let end = next_char(s, close + 2, ')');
            if end < s.len() && is_document(s.subrange(close + 2, end)) {
                Some((close, end))
            } else {
                None
            }
        } else {
            None
        }
    } else {
        None
    }
}

pub proof fn embed_at_bounds(s: Seq<char>, i: int)
    requires
        0 <= i,
    ensures
        embed_at(s, i) matches Some((close, end)) ==> {
            &&& i + 2 <= close
            &&& close + 2 <= end < s.len()
            &&& s[i] == '!'
            &&& s[i + 1] == '['
            &&& s[close] == ']'
            &&& s[close + 1] == '('
            &&& s[end] == ')'
        },
{
    if i + 1 < s.len() && s[i] == '!' && s[i + 1] == '[' {
        next_char_bounds(s, i + 2, ']');
        let close = next_char(s, i + 2, ']');
        if close + 1 < s.len() && s[close + 1] == '(' {
            next_char_bounds(s, close + 2, ')');
        }
    }
}

/// The segment for the text `s[from..to]`; an empty text makes none.
pub open spec fn text_segment(s: Seq<char>, from: int, to: int) -> Seq<SegmentModel> {
    if from < to {
        seq![SegmentModel::Text(s.subrange(from, to))]
    } else {
        Seq::empty()
    }
}

/// The segments from index `i` on, where the text since `from` is still to be
/// handed out.
pub open spec fn segments_from(s: Seq<char>, from: int, i: int) -> Seq<SegmentModel>
    decreases s.len() - i,
{
    if !(0 <= i < s.len()) {
        text_segment(s, from, s.len() as int)
    } else {
        match embed_at(s, i) {
            Some((close, end)) => {
                proof {
                    embed_at_bounds(s, i);
                }
                text_segment(s, from, i) + seq![
                    SegmentModel::Embed(s.subrange(i + 2, close), s.subrange(close + 2, end)),
                ] + segments_from(s, end + 1, end + 1)
            },
            None => segments_from(s, from, i + 1),
        }
    }
}

/// The segments of a text.
pub open spec fn segments(s: Seq<char>) -> Seq<SegmentModel> {
    segments_from(s, 0, 0)
}

/// The segments' views.
pub open spec fn segment_views(v: Seq<PreviewSegment>) -> Seq<SegmentModel> {
    v.map_values(|x: PreviewSegment| x@)
}

/// The Markdown text that a list of segments stands for.
pub open spec fn joined_source(parts: Seq<SegmentModel>) -> Seq<char>
    decreases parts.len(),
{
    if parts.len() == 0 {
        Seq::empty()
    } else {
        joined_source(parts.drop_last()) + parts.last().source()
    }
}

proof fn joined_source_concat(a: Seq<SegmentModel>, b: Seq<SegmentModel>)
    ensures
        joined_source(a + b) == joined_source(a) + joined_source(b),
    decreases b.len(),
{
    if b.len() == 0 {
        assert(a + b =~= a);
        assert(joined_source(a) + joined_source(b) =~= joined_source(a));
    } else {
        joined_source_concat(a, b.drop_last());
        assert((a + b).drop_last() =~= a + b.drop_last());
        assert((a + b).last() == b.last());
        assert(joined_source(a) + joined_source(b.drop_last()) + b.last().source() =~= joined_source(
            a,
        ) + (joined_source(b.drop_last()) + b.last().source()));
    }
}

proof fn joined_source_one(part: SegmentModel)
    ensures
        joined_source(seq![part]) == part.source(),
{
    reveal_with_fuel(joined_source, 2);
    assert(seq![part].drop_last() =~= Seq::<SegmentModel>::empty());
    assert(Seq::<char>::empty() + part.source() =~= part.source());
}

/// Putting the segments of a text together again gives the text.
pub proof fn segments_rebuild(s: Seq<char>)
    ensures
        joined_source(segments(s)) == s,
{
    segments_from_rebuild(s, 0, 0);
    assert(s.subrange(0, s.len() as int) =~= s);
}

proof fn segments_from_rebuild(s: Seq<char>, from: int, i: int)
    requires
        0 <= from <= i <= s.len(),
    ensures
        joined_source(segments_from(s, from, i)) == s.subrange(from, s.len() as int),
    decreases s.len() - i,
{
    let n = s.len() as int;
    if i == n {
        if from < n {
            joined_source_one(SegmentModel::Text(s.subrange(from, n)));
        } else {
            assert(s.subrange(from, n) =~= Seq::<char>::empty());
        }
    } else {
        match embed_at(s, i) {
            Some((close, end)) => {
                embed_at_bounds(s, i);
                segments_from_rebuild(s, end + 1, end + 1);
                let before = text_segment(s, from, i);
                let embed = SegmentModel::Embed(
                    s.subrange(i + 2, close),
                    s.subrange(close + 2, end),
                );
                let rest = segments_from(s, end + 1, end + 1);
                joined_source_concat(before + seq![embed], rest);
                joined_source_concat(before, seq![embed]);
                joined_source_one(embed);
                if from < i {
                    joined_source_one(SegmentModel::Text(s.subrange(from, i)));
                } else {
                    assert(s.subrange(from, i) =~= Seq::<char>::empty());
                }
                reveal_strlit("![");
                reveal_strlit("](");
                reveal_strlit(")");
                assert(embed.source() =~= s.subrange(i, end + 1));
                assert(s.subrange(from, i) + s.subrange(i, end + 1) + s.subrange(end + 1, n)
                    =~= s.subrange(from, n));
            },
            None => {
                segments_from_rebuild(s, from, i + 1);
            },
        }
    }
}

/// Splits a text at the embeds of notes. Images and external URLs stay in the
/// text.
pub fn split_embeds(content: &str) -> (r: Vec<PreviewSegment>)
    ensures
        segment_views(r@) == segments(content@),
{
    let chars = chars_of(content);
    let size = chars.len();
    let ghost s = content@;
    let mut parts: Vec<PreviewSegment> = Vec::new();
    let mut text_start: usize = 0;
    let mut i: usize = 0;
    proof {
        assert(segment_views(parts@) =~= Seq::<SegmentModel>::empty());
        assert(segment_views(parts@) + segments_from(s, 0, 0) =~= segments(s));
    }
    while i < size
        invariant
            text_start <= i <= size,
            size == chars@.len(),
            chars@ == s,
            s == content@,
            segments(s) == segment_views(parts@) + segments_from(s, text_start as int, i as int),
        decreases size - i,
    {
        let ghost before = segment_views(parts@);
        proof {
            embed_at_bounds(s, i as int);
        }
        match read_embed(&chars, i) {
            Some((close, end)) => {
                let ghost text = text_segment(s, text_start as int, i as int);
                if text_start < i {
                    parts.push(PreviewSegment::Text(string_between(&chars, text_start, i)));
                }
                proof {
                    assert(segment_views(parts@) =~= before + text);
                }
                let alt = string_between(&chars, i + 2, close);
                let dest = string_between(&chars, close + 2, end);
                parts.push(PreviewSegment::Embed { alt, dest });
                let ghost embed = SegmentModel::Embed(
                    s.subrange(i + 2, close as int),
                    s.subrange(close + 2, end as int),
                );
                proof {
                    assert(segment_views(parts@) =~= before + text + seq![embed]);
                    assert(before + (text + seq![embed] + segments_from(s, end + 1, end + 1))
                        =~= before + text + seq![embed] + segments_from(s, end + 1, end + 1));
                }
                i = end + 1;
                text_start = i;
            },
            None => {
                i = i + 1;
            },
        }
    }
    let ghost before = segment_views(parts@);
    if text_start < size {
        parts.push(PreviewSegment::Text(string_between(&chars, text_start, size)));
    }
    proof {
        assert(segment_views(parts@) =~= before + text_segment(
            s,
            text_start as int,
            s.len() as int,
        ));
    }
    parts
}

/// Reads the embed of a note at `i`.
fn read_embed(s: &Vec<char>, i: usize) -> (r: Option<(usize, usize)>)
    requires
        i < s@.len(),
    ensures
        match r {
            Some((close, end)) => embed_at(s@, i as int) == Some((close as int, end as int)),
            None => embed_at(s@, i as int) is None,
        },
{
    let size = s.len();
    if !(size - i > 1 && s[i] == '!' && s[i + 1] == '[') {
        return None;
    }
    let close = find_char(s, i + 2, ']');
    if !(size - close > 1 && s[close + 1] == '(') {
        return None;
    }
    let end = find_char(s, close + 2, ')');
    if end == size {
        return None;
    }
    let dest = string_between(s, close + 2, end);
    let dest_chars = chars_of(&dest);
    if finishes_with(&dest_chars, ".md") && !external_destination(&dest) {
        Some((close, end))
    } else {
        None
    }
}

/// The text with every `![` turned into `[`, from left to right.
pub open spec fn neutralized(s: Seq<char>) -> Seq<char>
    decreases s.len(),
{
    if s.len() == 0 {
        Seq::empty()
    } else if s.len() >= 2 && s[0] == '!' && s[1] == '[' {
        seq!['['] + neutralized(s.skip(2))
    } else {
        seq![s[0]] + neutralized(s.skip(1))
    }
}

/// Turns embeds into plain links.
pub fn neutralize_embeds(text: &str) -> (r: String)
    ensures
        r@ == neutralized(text@),
{
    let chars = chars_of(text);
    let size = chars.len();
    let ghost s = text@;
    let mut out: Vec<char> = Vec::new();
    let mut i: usize = 0;
    proof {
        assert(s.skip(0) =~= s);
        assert(out@ + neutralized(s) =~= neutralized(s));
    }
    while i < size
        invariant
            i <= size,
            size == chars@.len(),
            chars@ == s,
            neutralized(s) == out@ + neutralized(s.skip(i as int)),
        decreases size - i,
    {
        let ghost before = out@;
        if size - i > 1 && chars[i] == '!' && chars[i + 1] == '[' {
            out.push('[');
            proof {
                assert(s.skip(i as int).skip(2) =~= s.skip(i + 2));
                assert(before + (seq!['['] + neutralized(s.skip(i + 2))) =~= out@ + neutralized(
                    s.skip(i + 2),
                ));
            }
            i = i + 2;
        } else {
            out.push(chars[i]);
            proof {
                assert(s.skip(i as int).skip(1) =~= s.skip(i + 1));
                assert(before + (seq![s[i as int]] + neutralized(s.skip(i + 1))) =~= out@
                    + neutralized(s.skip(i + 1)));
            }
            i = i + 1;
        }
    }
    proof {
        assert(s.skip(i as int) =~= Seq::<char>::empty());
        assert(out@ + Seq::<char>::empty() =~= out@);
    }
    string_of(&out)
}

/// The last index up to `i` that holds `[`, or 0.
pub open spec fn bracket_before(s: Seq<char>, i: int) -> int
    decreases i,
{
    if 0 < i && s[i] != '[' {
        bracket_before(s, i - 1)
    } else {
        i
    }
}

/// The `]` at `i` belongs to an embed.
pub open spec fn closes_embed(s: Seq<char>, i: int) -> bool {
    let open = bracket_before(s, i);
    open > 0 && s[open - 1] == '!'
}

/// The destinations of plain links to `*.md` from index `i` on.
pub open spec fn local_links_from(s: Seq<char>, i: int) -> Seq<Seq<char>>
    decreases s.len() - i,
{
    if !(0 <= i < s.len()) {
        Seq::empty()
    } else if s[i] == ']' && i + 1 < s.len() && s[i + 1] == '(' && !closes_embed(s, i) {
        proof {
            closing_paren_bounds(s, i + 2, 1);
        }
        match closing_paren(s, i + 2, 1) {
            Some(end) => {
                let dest = s.subrange(i + 2, end - 1);
                (if ".md"@.is_suffix_of(dest) {
                    seq![dest]
                } else {
                    Seq::empty()
                }) + local_links_from(s, end)
            },
            None => Seq::empty(),
        }
    } else {
        local_links_from(s, i + 1)
    }
}

/// Collects the destinations of plain links to `*.md`. Embeds are left out.
pub fn collect_local_links(text: &str) -> (r: Vec<String>)
    ensures
        texts(r@) == local_links_from(text@, 0),
{
    let chars = chars_of(text);
    let size = chars.len();
    let ghost s = text@;
    let mut found: Vec<String> = Vec::new();
    let mut i: usize = 0;
    proof {
        assert(texts(found@) =~= Seq::<Seq<char>>::empty());
        assert(texts(found@) + local_links_from(s, 0) =~= local_links_from(s, 0));
    }
    while i < size
        invariant
            i <= size,
            size == chars@.len(),
            chars@ == s,
            s == text@,
            local_links_from(s, 0) == texts(found@) + local_links_from(s, i as int),
        decreases size - i,
    {
        if chars[i] == ']' && size - i > 1 && chars[i + 1] == '(' && !is_embed_close(&chars, i) {
            let ghost before = texts(found@);
            proof {
                closing_paren_bounds(s, i + 2, 1);
            }
            match find_closing_paren(&chars, i + 2) {
                Some(end) => {
                    let dest = string_between(&chars, i + 2, end - 1);
                    let dest_chars = chars_of(&dest);
                    let ghost d = dest@;
                    if finishes_with(&dest_chars, ".md") {
                        found.push(dest);
                        proof {
                            assert(texts(found@) =~= before + seq![d]);
                            assert(before + (seq![d] + local_links_from(s, end as int)) =~= before
                                + seq![d] + local_links_from(s, end as int));
                        }
                    } else {
                        proof {
                            assert(Seq::<Seq<char>>::empty() + local_links_from(s, end as int)
                                =~= local_links_from(s, end as int));
                        }
                    }
                    i = end;
                },
                None => {
                    i = size;
                },
            }
        } else {
            i = i + 1;
        }
    }
    proof {
        assert(texts(found@) + Seq::<Seq<char>>::empty() =~= texts(found@));
    }
    found
}

/// Whether the `]` at `i` belongs to an embed.
fn is_embed_close(s: &Vec<char>, i: usize) -> (r: bool)
    requires
        i < s@.len(),
    ensures
        r == closes_embed(s@, i as int),
{
    let mut open: usize = i;
    while open > 0 && s[open] != '['
        invariant
            open <= i < s@.len(),
            bracket_before(s@, i as int) == bracket_before(s@, open as int),
        decreases open,
    {
        open = open - 1;
    }
    open > 0 && s[open - 1] == '!'
}

/// `s` with `part` put in before character `at`, or at the end.
pub open spec fn with_inserted(s: Seq<char>, at: int, part: Seq<char>) -> Seq<char> {
    let k = if at < s.len() {
        at
    } else {
        s.len() as int
    };
    s.take(k) + part + s.skip(k)
}

/// Puts `part` into `content` before character `cursor`, or at the end.
fn insert_text(content: &mut String, cursor: usize, part: &str)
    ensures
        final(content)@ == with_inserted(old(content)@, cursor as int, part@),
{
    let chars = chars_of(content);
    let size = chars.len();
    let k = if cursor < size {
        cursor
    } else {
        size
    };
    let head = string_between(&chars, 0, k);
    let tail = string_between(&chars, k, size);
    *content = join3(&head, part, &tail);
}

/// The text `{mark}[{title}]({id}.md)`.
pub open spec fn link_text(mark: Seq<char>, title: Seq<char>, id: Seq<char>) -> Seq<char> {
    mark + title + "]("@ + id + ".md)"@
}

/// Inserts `[title]({id}.md)` at a cursor, a character index. Only the stable
/// identifier is part of the destination.
pub fn insert_markdown_link(content: &mut String, cursor: usize, title: &str, id: &EntityId)
    ensures
        final(content)@ == with_inserted(
            old(content)@,
            cursor as int,
            link_text("["@, title@, id@),
        ),
{
    let mut link = join3("[", title, "](");
    link.append(id.as_str());
    link.append(".md)");
    insert_text(content, cursor, &link);
}

/// Inserts the embed `![title]({id}.md)` at a cursor.
pub fn insert_embed_markdown(content: &mut String, cursor: usize, title: &str, id: &EntityId)
    ensures
        final(content)@ == with_inserted(
            old(content)@,
            cursor as int,
            link_text("!["@, title@, id@),
        ),
{
    let mut link = join3("![", title, "](");
    link.append(id.as_str());
    link.append(".md)");
    insert_text(content, cursor, &link);
}

/// The destination of an inserted link is a link to the note, whatever the title
/// is.
pub proof fn inserted_link_resolves(id: Seq<char>)
    requires
        is_plausible_id(id),
    ensures
        is_snippet_link(id + ".md"@, id),
{
    let title = Seq::<char>::empty();
    assert(title + id =~= id);
    assert(id + ".md"@ == title + id + ".md"@);
}

/// A note of the index has this identifier.
pub open spec fn indexed(index: Seq<(EntityId, String, String)>, id: Seq<char>) -> bool {
    exists|i: int| 0 <= i < index.len() && (#[trigger] index[i]).0@ == id
}

/// The place of a note in the index of identifiers, titles and contents.
pub fn index_of(index: &Vec<(EntityId, String, String)>, id: &EntityId) -> (r: Option<usize>)
    ensures
        match r {
            Some(i) => i < index@.len() && index@[i as int].0@ == id@ && forall|j: int|
                0 <= j < i ==> (#[trigger] index@[j]).0@ != id@,
            None => !indexed(index@, id@),
        },
{
    let mut i: usize = 0;
    while i < index.len()
        invariant
            i <= index@.len(),
            forall|j: int| 0 <= j < i ==> (#[trigger] index@[j]).0@ != id@,
        decreases index@.len() - i,
    {
        if index[i].0 == *id {
            return Some(i);
        }
        i = i + 1;
    }
    None
}

/// An internal destination that does not lead to a note of the index.
pub open spec fn is_broken(url: Seq<char>, index: Seq<(EntityId, String, String)>) -> bool {
    !is_external(url) && forall|id: Seq<char>| is_snippet_link(url, id) ==> !indexed(index, id)
}

/// Whether a destination is internal and leads to no note. URLs with a scheme
/// are left to the browser.
pub fn is_broken_internal_link(url: &str, snippet_index: &Vec<(EntityId, String, String)>) -> (r:
    bool)
    ensures
        r == is_broken(url@, snippet_index@),
{
    if external_destination(url) {
        return false;
    }
    match parse_snippet_link(url) {
        Some(id) => {
            proof {
                assert forall|other: Seq<char>| is_snippet_link(url@, other) implies other
                    == id@ by {
                    crate::data::markdown_targets::snippet_link_unique(url@, other, id@);
                }
            }
            index_of(snippet_index, &id).is_none()
        },
        None => true,
    }
}

proof fn segments_move(a: Seq<char>, b: Seq<char>, from: int, i: int)
    requires
        0 <= from <= i <= b.len(),
    ensures
        segments_from(a + b, a.len() + from, a.len() + i) == segments_from(b, from, i),
    decreases b.len() - i,
{
    let s = a + b;
    let n = a.len() as int;
    if i < b.len() {
        assert(s[n + i] == b[i]);
        if i + 1 < b.len() {
            assert(s[n + i + 1] == b[i + 1]);
        }
        if i + 1 < b.len() && b[i] == '!' && b[i + 1] == '[' {
            next_char_moves(a, b, i + 2, ']');
            next_char_bounds(b, i + 2, ']');
            let close = next_char(b, i + 2, ']');
            if close + 1 < b.len() {
                assert(s[n + close + 1] == b[close + 1]);
                next_char_moves(a, b, close + 2, ')');
                next_char_bounds(b, close + 2, ')');
                let end = next_char(b, close + 2, ')');
                assert(s.subrange(n + close + 2, n + end) =~= b.subrange(close + 2, end));
            }
        }
        embed_at_bounds(b, i);
        match embed_at(b, i) {
            Some((close, end)) => {
                assert(embed_at(s, n + i) == Some((n + close, n + end)));
                assert(s.subrange(n + i + 2, n + close) =~= b.subrange(i + 2, close));
                assert(s.subrange(n + close + 2, n + end) =~= b.subrange(close + 2, end));
                assert(s.subrange(n + from, n + i) =~= b.subrange(from, i));
                segments_move(a, b, end + 1, end + 1);
            },
            None => {
                assert(embed_at(s, n + i) is None);
                segments_move(a, b, from, i + 1);
            },
        }
    } else {
        assert(s.subrange(n + from, s.len() as int) =~= b.subrange(from, b.len() as int));
    }
}

proof fn no_embed_in_front(s: Seq<char>, i: int, n: int)
    requires
        0 <= i <= n <= s.len(),
        forall|k: int| i <= k < n ==> #[trigger] s[k] != '!',
    ensures
        segments_from(s, 0, i) == segments_from(s, 0, n),
    decreases n - i,
{
    if i < n {
        assert(s[i] != '!');
        no_embed_in_front(s, i + 1, n);
    }
}

/// Every embed of a note is recognised: it stands for itself between the text before
/// it and the segments of the text behind it. Its title may hold anything but a
/// closing bracket.
pub proof fn embeds_are_recognised(a: Seq<char>, title: Seq<char>, dest: Seq<char>, b: Seq<char>)
    requires
        forall|k: int| 0 <= k < a.len() ==> #[trigger] a[k] != '!',
        forall|k: int| 0 <= k < title.len() ==> #[trigger] title[k] != ']',
        forall|k: int| 0 <= k < dest.len() ==> #[trigger] dest[k] != ')',
        ".md"@.is_suffix_of(dest),
        !is_external(dest),
    ensures
        segments(a + seq!['!', '['] + title + seq![']', '('] + dest + seq![')'] + b) == (
        if a.len() > 0 {
            seq![SegmentModel::Text(a)]
        } else {
            Seq::empty()
        }) + seq![SegmentModel::Embed(title, dest)] + segments(b),
{
    let front = a + seq!['!', '['] + title + seq![']', '('] + dest + seq![')'];
    let s = front + b;
    let i = a.len() as int;
    let close = i + 2 + title.len();
    let end = close + 2 + dest.len();
    assert forall|k: int| 0 <= k < i implies #[trigger] s[k] != '!' by {
        assert(s[k] == a[k]);
    }
    no_embed_in_front(s, 0, i);
    assert forall|k: int| i + 2 <= k < close implies #[trigger] s[k] != ']' by {
        assert(s[k] == title[k - i - 2]);
    }
    assert(s[close] == ']' && s[close + 1] == '(' && s[end] == ')');
    assert(s[i] == '!' && s[i + 1] == '[');
    next_char_found(s, i + 2, close, ']');
    assert forall|k: int| close + 2 <= k < end implies #[trigger] s[k] != ')' by {
        assert(s[k] == dest[k - close - 2]);
    }
    next_char_found(s, close + 2, end, ')');
    assert(s.subrange(close + 2, end) =~= dest);
    assert(s.subrange(i + 2, close) =~= title);
    assert(s.subrange(0, i) =~= a);
    assert(embed_at(s, i) == Some((close, end)));
    assert(front.len() == end + 1);
    segments_move(front, b, 0, 0);
}

/// A text without embeds is one segment.
pub proof fn plain_text_is_one_segment(a: Seq<char>)
    requires
        forall|k: int| 0 <= k < a.len() ==> #[trigger] a[k] != '!',
    ensures
        a.len() > 0 ==> segments(a) == seq![SegmentModel::Text(a)],
        a.len() == 0 ==> segments(a).len() == 0,
{
    no_embed_in_front(a, 0, a.len() as int);
    assert(a.subrange(0, a.len() as int) =~= a);
}

/// Turning embeds into links takes away the mark of every embed, and nothing else.
pub proof fn every_embed_is_neutralized(a: Seq<char>, b: Seq<char>)
    requires
        forall|k: int| 0 <= k < a.len() ==> #[trigger] a[k] != '!',
    ensures
        neutralized(a) == a,
        neutralized(a + seq!['!', '['] + b) == a + seq!['['] + neutralized(b),
        b.len() > 0 && b[0] != '[' ==> neutralized(a + seq!['!'] + b) == a + seq!['!']
            + neutralized(b),
    decreases a.len(),
{
    let s = a + seq!['!', '['] + b;
    let t = a + seq!['!'] + b;
    if a.len() == 0 {
        assert(s[0] == '!' && s[1] == '[');
        assert(s.skip(2) =~= b);
        assert(seq!['['] + neutralized(b) =~= a + seq!['['] + neutralized(b));
        assert(neutralized(a) =~= a);
        if b.len() > 0 && b[0] != '[' {
            assert(t[0] == '!' && t[1] == b[0]);
            assert(t.skip(1) =~= b);
            assert(seq!['!'] + neutralized(b) =~= a + seq!['!'] + neutralized(b));
        }
    } else {
        let rest = a.skip(1);
        assert forall|k: int| 0 <= k < rest.len() implies #[trigger] rest[k] != '!' by {
            assert(rest[k] == a[k + 1]);
        }
        every_embed_is_neutralized(rest, b);
        assert(a[0] != '!');
        assert(s[0] == a[0] && t[0] == a[0]);
        assert(s.skip(1) =~= rest + seq!['!', '['] + b);
        assert(t.skip(1) =~= rest + seq!['!'] + b);
        assert(seq![a[0]] + rest =~= a);
        assert(seq![a[0]] + (rest + seq!['['] + neutralized(b)) =~= a + seq!['['] + neutralized(b));
        assert(seq![a[0]] + (rest + seq!['!'] + neutralized(b)) =~= a + seq!['!'] + neutralized(b));
    }
}

proof fn no_local_links(s: Seq<char>, i: int, n: int)
    requires
        0 <= i <= n <= s.len(),
        forall|k: int| i <= k < n ==> #[trigger] s[k] != ']',
    ensures
        local_links_from(s, i) == local_links_from(s, n),
    decreases n - i,
{
    if i < n {
        assert(s[i] != ']');
        no_local_links(s, i + 1, n);
    }
}

proof fn bracket_before_found(s: Seq<char>, open: int, i: int)
    requires
        0 <= open <= i < s.len(),
        s[open] == '[',
        forall|k: int| open < k <= i ==> #[trigger] s[k] != '[',
    ensures
        bracket_before(s, i) == open,
    decreases i - open,
{
    if open < i {
        bracket_before_found(s, open, i - 1);
    }
}

/// A plain link to a note is collected, and an embed is not; `b` is text without
/// links.
pub proof fn plain_links_are_collected(
    a: Seq<char>,
    label: Seq<char>,
    dest: Seq<char>,
    b: Seq<char>,
)
    requires
        forall|k: int| 0 <= k < a.len() ==> #[trigger] a[k] != ']',
        forall|k: int| 0 <= k < label.len() ==> (#[trigger] label[k]) != ']' && label[k] != '[',
        parentheses_close(dest),
        forall|k: int| 0 <= k < dest.len() ==> #[trigger] dest[k] != ']',
        forall|k: int| 0 <= k < b.len() ==> #[trigger] b[k] != ']',
    ensures
        ({
            let found = local_links_from(
                a + seq!['['] + label + seq![']', '('] + dest + seq![')'] + b,
                0,
            );
            if ".md"@.is_suffix_of(dest) && !(a.len() > 0 && a.last() == '!') {
                found == seq![dest]
            } else {
                found.len() == 0
            }
        }),
{
    let front = a + seq!['['] + label + seq![']', '('] + dest + seq![')'];
    let s = front + b;
    let open = a.len() as int;
    let close = open + 1 + label.len();
    let end = close + 3 + dest.len();
    assert forall|k: int| 0 <= k < close implies #[trigger] s[k] != ']' by {
        if k < open {
            assert(s[k] == a[k]);
        } else if k > open {
            assert(s[k] == label[k - open - 1]);
        }
    }
    no_local_links(s, 0, close);
    assert(s[open] == '[' && s[close] == ']' && s[close + 1] == '(' && s[end - 1] == ')');
    assert forall|k: int| open < k <= close implies #[trigger] s[k] != '[' by {
        if k < close {
            assert(s[k] == label[k - open - 1]);
        }
    }
    bracket_before_found(s, open, close);
    if open > 0 {
        assert(s[open - 1] == a[open - 1]);
    }
    if !(a.len() > 0 && a.last() == '!') {
        assert(s.subrange(close + 2, close + 2 + dest.len()) =~= dest);
        closing_paren_found(s, close + 2, dest, 0);
        assert(count_char(dest, 0, '(') == 0 && count_char(dest, 0, ')') == 0) by {
            reveal(Seq::filter);
        }
        assert(s.subrange(close + 2, end - 1) =~= dest);
        assert forall|k: int| end <= k < s.len() implies #[trigger] s[k] != ']' by {
            assert(s[k] == b[k - end]);
        }
        no_local_links(s, end, s.len() as int);
        let rest = local_links_from(s, end);
        assert(rest.len() == 0);
        assert(seq![dest] + rest =~= seq![dest]);
    } else {
        assert forall|k: int| close < k < s.len() implies #[trigger] s[k] != ']' by {
            if close + 2 <= k < end - 1 {
                assert(s[k] == dest[k - close - 2]);
            } else if k >= end {
                assert(s[k] == b[k - end]);
            }
        }
        no_local_links(s, close + 1, s.len() as int);
    }
}

/// Text that is inserted stands at the cursor, or at the end if the cursor is behind
/// the text; all else stays.
pub proof fn insertions_keep_the_text(a: Seq<char>, b: Seq<char>, part: Seq<char>, at: int)
    ensures
        with_inserted(a + b, a.len() as int, part) == a + part + b,
        at >= a.len() ==> with_inserted(a, at, part) == a + part,
{
    let s = a + b;
    assert(s.take(a.len() as int) =~= a);
    assert(s.skip(a.len() as int) =~= b);
    assert(a.take(a.len() as int) =~= a);
    assert(a.skip(a.len() as int) =~= Seq::<char>::empty());
    assert(a + part + Seq::<char>::empty() =~= a + part);
    if b.len() == 0 {
        assert(a + b =~= a);
        assert(a + part + b =~= a + part);
    }
}

/// A link that is inserted is found as a link with the title as its label, to the
/// destination of its identifier.
pub proof fn inserted_links_are_found(title: Seq<char>, id: Seq<char>)
    requires
        forall|k: int| 0 <= k < title.len() ==> #[trigger] title[k] != ']',
        forall|k: int| 0 <= k < id.len() ==> is_alphanumeric(#[trigger] id[k]),
    ensures
        ({
            let s = link_text("["@, title, id);
            &&& links(s).len() == 1
            &&& links(s)[0].label(s) == title
            &&& links(s)[0].dest(s) == id + ".md"@
        }),
{
    reveal_strlit("[");
    reveal_strlit("](");
    reveal_strlit(".md)");
    reveal_strlit(".md");
    let dest = id + ".md"@;
    let none = Seq::<char>::empty();
    assert forall|k: int| 0 <= k < dest.len() implies (#[trigger] dest[k]) != '(' && dest[k]
        != ')' by {
        if k < id.len() {
            assert(is_alphanumeric(id[k]));
        }
    }
    one_link_is_found(none, title, dest, none);
    assert(none + seq!['['] + title + seq![']', '('] + dest + seq![')'] + none =~= link_text(
        "["@,
        title,
        id,
    ));
}

} // verus!
