//! Links and embeds in Markdown text.
//!
//! Positions are character indices in the specifications. The spans that are
//! handed out are byte offsets.
use crate::data::ids::{compact_id, is_compact_id, AttachmentId, EntityId};
use crate::text::{begins_with, byte_offsets, chars_of, contains_text, finishes_with, has_text,
    string_between, utf8_len};
use vstd::prelude::*;

verus! {

/// What a destination `[...](destination)` points at.
#[derive(Debug, PartialEq, Eq)]
pub enum LocalMarkdownTarget {
    /// Another snippet (`{title}--{id}.md` or `{id}.md`).
    Snippet(EntityId),
    /// A managed image (`attachments/{id}.{ext}`).
    Image(AttachmentId),
    /// Anything else.
    UnresolvedLocal(String),
}

/// One inline link or embed.
#[derive(Debug, PartialEq, Eq)]
pub struct ParsedMarkdownTarget {
    /// An embed (`![label](dest)`) rather than a link (`[label](dest)`).
    pub is_image: bool,
    /// The text between the brackets, as it stands.
    pub label: String,
    /// What the destination points at.
    pub target: LocalMarkdownTarget,
    /// The text between the parentheses, as it stands.
    pub dest: String,
    /// Byte offset of the opening `[`, or of the `!` before it.
    pub start: usize,
    /// Byte offset just past the closing `)`.
    pub end: usize,
}

impl Clone for LocalMarkdownTarget {
    fn clone(&self) -> (r: Self)
        ensures
            r == *self,
    {
        match self {
            LocalMarkdownTarget::Snippet(id) => LocalMarkdownTarget::Snippet(id.clone()),
            LocalMarkdownTarget::Image(id) => LocalMarkdownTarget::Image(id.clone()),
            LocalMarkdownTarget::UnresolvedLocal(text) => LocalMarkdownTarget::UnresolvedLocal(
                text.clone(),
            ),
        }
    }
}

impl Clone for ParsedMarkdownTarget {
    fn clone(&self) -> (r: Self)
        ensures
            r == *self,
    {
        ParsedMarkdownTarget {
            is_image: self.is_image,
            label: self.label.clone(),
            target: self.target.clone(),
            dest: self.dest.clone(),
            start: self.start,
            end: self.end,
        }
    }
}

/// An ASCII letter or digit.
pub open spec fn is_alphanumeric(c: char) -> bool {
    ('a' <= c && c <= 'z') || ('A' <= c && c <= 'Z') || ('0' <= c && c <= '9')
}

/// Whether `c` is an ASCII letter or digit.
pub fn ascii_alphanumeric(c: char) -> (r: bool)
    ensures
        r == is_alphanumeric(c),
{
    ('a' <= c && c <= 'z') || ('A' <= c && c <= 'Z') || ('0' <= c && c <= '9')
}

/// A destination with a URL scheme, or a `data:` URI.
pub open spec fn is_external(dest: Seq<char>) -> bool {
    contains_text(dest, "://"@) || "data:"@.is_prefix_of(dest)
}

/// Whether a destination has a URL scheme or is a `data:` URI.
pub fn external_destination(dest: &str) -> (r: bool)
    ensures
        r == is_external(dest@),
{
    let chars = chars_of(dest);
    has_text(&chars, "://") || begins_with(&chars, "data:")
}

/// `dest` is the destination of the managed image `id`.
pub open spec fn is_attachment_link(dest: Seq<char>, id: Seq<char>) -> bool {
    is_compact_id(id) && (dest == "attachments/"@ + id + ".jpg"@ || dest == "attachments/"@ + id
        + ".jpeg"@ || dest == "attachments/"@ + id + ".png"@)
}

/// The characters `s[from..from + 20]` are ASCII letters and digits.
pub open spec fn is_plausible_id(id: Seq<char>) -> bool {
    id.len() == 20 && forall|i: int| 0 <= i < id.len() ==> is_alphanumeric(#[trigger] id[i])
}

/// `url` is a link to the snippet `id`: `{id}.md`, or `{title}--{id}.md` where
/// the title may hold `--` itself.
pub open spec fn is_snippet_link(url: Seq<char>, id: Seq<char>) -> bool {
    &&& is_plausible_id(id)
    &&& exists|title: Seq<char>|
        #![trigger title + id]
        url == title + id + ".md"@ && (title.len() == 0 || "--"@.is_suffix_of(title))
}

/// The managed image that a destination names, if it is the destination of one.
pub fn parse_attachment_link(dest: &str) -> (r: Option<AttachmentId>)
    ensures
        match r {
            Some(id) => is_attachment_link(dest@, id@),
            None => forall|id: Seq<char>| !is_attachment_link(dest@, id),
        },
{
    proof {
        reveal_strlit("attachments/");
        reveal_strlit(".jpg");
        reveal_strlit(".jpeg");
        reveal_strlit(".png");
    }
    let chars = chars_of(dest);
    let n = chars.len();
    let ghost s = dest@;
    if n < 36 {
        return None;
    }
    let id_text = string_between(&chars, 12, 32);
    let ending = string_between(&chars, 32, n);
    let known = begins_with(&chars, "attachments/") && (crate::text::same_text(&ending, ".jpg")
        || crate::text::same_text(&ending, ".jpeg") || crate::text::same_text(&ending, ".png"))
        && compact_id(&id_text);
    proof {
        assert(s =~= s.subrange(0, 12) + s.subrange(12, 32) + s.subrange(32, n as int));
        assert forall|id: Seq<char>| is_attachment_link(s, id) implies known && id
            == id_text@ by {
            assert(id =~= s.subrange(12, 32));
            assert(s.subrange(0, 12) =~= "attachments/"@);
            assert(s.subrange(32, n as int) =~= ".jpg"@ || s.subrange(32, n as int) =~= ".jpeg"@
                || s.subrange(32, n as int) =~= ".png"@);
        }
    }
    if known {
        Some(AttachmentId::from_string(&id_text))
    } else {
        None
    }
}

/// The snippet that a destination names, if it is a link to one.
pub fn parse_snippet_link(url: &str) -> (r: Option<EntityId>)
    ensures
        match r {
            Some(id) => is_snippet_link(url@, id@),
            None => forall|id: Seq<char>| !is_snippet_link(url@, id),
        },
{
    proof {
        reveal_strlit(".md");
        reveal_strlit("--");
    }
    let chars = chars_of(url);
    let n = chars.len();
    let ghost s = url@;
    if n < 23 || !finishes_with(&chars, ".md") {
        proof {
            assert forall|id: Seq<char>| !is_snippet_link(s, id) by {
                if is_snippet_link(s, id) {
                    let title = choose|title: Seq<char>|
                        #![trigger title + id]
                        s == title + id + ".md"@ && (title.len() == 0 || "--"@.is_suffix_of(title));
                    assert(s.subrange(n - 3, n as int) =~= ".md"@);
                }
            }
        }
        return None;
    }
    let from: usize = n - 23;
    let mut i: usize = from;
    while i < from + 20
        invariant
            from + 23 == n == chars@.len(),
            from <= i <= from + 20,
            forall|k: int| from <= k < i ==> is_alphanumeric(#[trigger] chars@[k]),
        ensures
            i < from + 20 ==> !is_alphanumeric(chars@[i as int]),
        decreases from + 20 - i,
    {
        if !ascii_alphanumeric(chars[i]) {
            break;
        }
        i = i + 1;
    }
    let separated = from == 0 || (from >= 2 && chars[from - 1] == '-' && chars[from - 2] == '-');
    let id_text = string_between(&chars, from, from + 20);
    let ghost id0 = id_text@;
    let ghost title0 = s.subrange(0, from as int);
    proof {
        assert(s =~= title0 + id0 + ".md"@);
        assert(separated <==> (title0.len() == 0 || "--"@.is_suffix_of(title0))) by {
            if "--"@.is_suffix_of(title0) {
                assert(title0.subrange(from - 2, from as int)[1] == '-');
                assert(title0.subrange(from - 2, from as int)[0] == '-');
            }
            if separated && from > 0 {
                assert(title0.subrange(from - 2, from as int) =~= "--"@);
            }
        }
        assert forall|id: Seq<char>| is_snippet_link(s, id) implies i == from + 20 && separated by {
            let title = choose|title: Seq<char>|
                #![trigger title + id]
                s == title + id + ".md"@ && (title.len() == 0 || "--"@.is_suffix_of(title));
            assert(id =~= id0);
            assert(title =~= title0);
            if i < from + 20 {
                assert(is_alphanumeric(id[i - from]));
            }
        }
    }
    if i == from + 20 && separated {
        proof {
            assert forall|k: int| 0 <= k < 20 implies is_alphanumeric(#[trigger] id0[k]) by {
                assert(id0[k] == chars@[from + k]);
            }
            assert(url@ == title0 + id0 + ".md"@);
        }
        Some(EntityId::from_string(&id_text))
    } else {
        None
    }
}

/// A destination links to one note at most.
pub proof fn snippet_link_unique(url: Seq<char>, a: Seq<char>, b: Seq<char>)
    requires
        is_snippet_link(url, a),
        is_snippet_link(url, b),
    ensures
        a == b,
{
    let t = choose|t: Seq<char>|
        #![trigger t + a]
        url == t + a + ".md"@ && (t.len() == 0 || "--"@.is_suffix_of(t));
    let u = choose|u: Seq<char>|
        #![trigger u + b]
        url == u + b + ".md"@ && (u.len() == 0 || "--"@.is_suffix_of(u));
    let n = url.len() as int;
    let m = ".md"@.len() as int;
    assert(a =~= url.subrange(n - m - 20, n - m));
    assert(b =~= url.subrange(n - m - 20, n - m));
}

/// What a destination resolves to.
pub open spec fn resolves_to(dest: Seq<char>, target: LocalMarkdownTarget) -> bool {
    match target {
        LocalMarkdownTarget::Image(id) => !is_external(dest) && is_attachment_link(dest, id@),
        LocalMarkdownTarget::Snippet(id) => !is_external(dest) && is_snippet_link(dest, id@)
            && forall|image: Seq<char>| !is_attachment_link(dest, image),
        LocalMarkdownTarget::UnresolvedLocal(text) => text@ == dest && (is_external(dest) || ((
        forall|image: Seq<char>| !is_attachment_link(dest, image)) && forall|id: Seq<char>|
            !is_snippet_link(dest, id))),
    }
}

/// Resolves a destination. URLs with a scheme and `data:` URIs stay unresolved.
pub fn resolve_target(dest: &str) -> (r: LocalMarkdownTarget)
    ensures
        resolves_to(dest@, r),
{
    if external_destination(dest) {
        return LocalMarkdownTarget::UnresolvedLocal(dest.to_owned());
    }
    if let Some(id) = parse_attachment_link(dest) {
        return LocalMarkdownTarget::Image(id);
    }
    if let Some(id) = parse_snippet_link(dest) {
        return LocalMarkdownTarget::Snippet(id);
    }
    LocalMarkdownTarget::UnresolvedLocal(dest.to_owned())
}


/// How many characters from index `i` on are `c`.
pub open spec fn run_length(s: Seq<char>, i: int, c: char) -> int
    decreases s.len() - i,
{
    if 0 <= i < s.len() && s[i] == c {
        1 + run_length(s, i + 1, c)
    } else {
        0
    }
}

/// The first index from `i` on that holds `c`, or the length.
pub open spec fn next_char(s: Seq<char>, i: int, c: char) -> int
    decreases s.len() - i,
{
    if 0 <= i < s.len() && s[i] != c {
        next_char(s, i + 1, c)
    } else {
        i
    }
}

/// The index just past the parenthesis that closes `depth` open ones, reading
/// from index `i`.
pub open spec fn closing_paren(s: Seq<char>, i: int, depth: nat) -> Option<int>
    decreases s.len() - i,
{
    if depth == 0 {
        Some(i)
    } else if !(0 <= i < s.len()) {
        None
    } else if s[i] == '(' {
        closing_paren(s, i + 1, depth + 1)
    } else if s[i] == ')' {
        closing_paren(s, i + 1, (depth - 1) as nat)
    } else {
        closing_paren(s, i + 1, depth)
    }
}

/// How many backslashes stand right before index `i`.
pub open spec fn backslashes_before(s: Seq<char>, i: int) -> int
    decreases i,
{
    if 0 < i <= s.len() && s[i - 1] == '\\' {
        1 + backslashes_before(s, i - 1)
    } else {
        0
    }
}

/// The character at `i` is escaped: an odd number of backslashes precedes it.
pub open spec fn escaped(s: Seq<char>, i: int) -> bool {
    backslashes_before(s, i) % 2 == 1
}

/// A link or embed in a text, by character indices: it spans `open..end`, its
/// label ends at `close`, and its destination is `close + 2..end - 1`.
pub struct Link {
    pub image: bool,
    pub open: int,
    pub close: int,
    pub end: int,
}

impl Link {
    /// Where the label begins.
    pub open spec fn label_start(self) -> int {
        if self.image {
            self.open + 2
        } else {
            self.open + 1
        }
    }

    pub open spec fn label(self, s: Seq<char>) -> Seq<char> {
        s.subrange(self.label_start(), self.close)
    }

    pub open spec fn dest(self, s: Seq<char>) -> Seq<char> {
        s.subrange(self.close + 2, self.end - 1)
    }

    /// The link lies in `s` and is spelled out there.
    pub open spec fn spelled(self, s: Seq<char>) -> bool {
        &&& 0 <= self.open
        &&& self.label_start() <= self.close
        &&& self.close + 3 <= self.end <= s.len()
        &&& s[self.label_start() - 1] == '['
        &&& s[self.close] == ']'
        &&& s[self.close + 1] == '('
        &&& s[self.end - 1] == ')'
        &&& self.image ==> s[self.open] == '!'
    }
}

/// The link that opens at `open` with `[` (or `![`, for an embed), if the
/// brackets and parentheses close. The label reaches to the first `]`;
/// parentheses in the destination nest.
pub open spec fn link_at(s: Seq<char>, open: int, image: bool) -> Option<Link> {
    let start = if image {
        open + 2
    } else {
        open + 1
    };
    let close = next_char(s, start, ']');
    if close + 1 < s.len() && s[close + 1] == '(' {
        match closing_paren(s, close + 2, 1) {
            Some(end) => Some(Link { image, open, close, end }),
            None => None,
        }
    } else {
        None
    }
}

pub proof fn run_length_bounds(s: Seq<char>, i: int, c: char)
    requires
        0 <= i <= s.len(),
    ensures
        0 <= run_length(s, i, c) <= s.len() - i,
        i < s.len() && s[i] == c ==> run_length(s, i, c) >= 1,
    decreases s.len() - i,
{
    if i < s.len() && s[i] == c {
        run_length_bounds(s, i + 1, c);
    }
}

pub proof fn next_char_bounds(s: Seq<char>, i: int, c: char)
    requires
        0 <= i <= s.len(),
    ensures
        i <= next_char(s, i, c) <= s.len(),
        next_char(s, i, c) < s.len() ==> s[next_char(s, i, c)] == c,
    decreases s.len() - i,
{
    if i < s.len() && s[i] != c {
        next_char_bounds(s, i + 1, c);
    }
}

pub proof fn closing_paren_bounds(s: Seq<char>, i: int, depth: nat)
    requires
        0 <= i <= s.len(),
    ensures
        match closing_paren(s, i, depth) {
            Some(end) => i + depth <= end <= s.len() && (depth > 0 ==> s[end - 1] == ')'),
            None => depth > 0,
        },
    decreases s.len() - i,
{
    if depth > 0 && i < s.len() {
        if s[i] == '(' {
            closing_paren_bounds(s, i + 1, depth + 1);
        } else if s[i] == ')' {
            closing_paren_bounds(s, i + 1, (depth - 1) as nat);
        } else {
            closing_paren_bounds(s, i + 1, depth);
        }
    }
}

/// A link that is found is spelled out in the text.
pub proof fn link_at_spelled(s: Seq<char>, open: int, image: bool)
    requires
        0 <= open < s.len(),
        image ==> open + 1 < s.len() && s[open] == '!' && s[open + 1] == '[',
        !image ==> s[open] == '[',
    ensures
        link_at(s, open, image) matches Some(link) ==> link.spelled(s) && link.open == open
            && link.image == image,
{
    let start = if image {
        open + 2
    } else {
        open + 1
    };
    next_char_bounds(s, start, ']');
    let close = next_char(s, start, ']');
    if close + 1 < s.len() && s[close + 1] == '(' {
        closing_paren_bounds(s, close + 2, 1);
    }
}

/// Where reading goes on after a code span that was opened by a run of `len`
/// backticks and whose content begins at `i`: after the next run of exactly
/// that length, or at the end of the text.
pub open spec fn after_code_span(s: Seq<char>, i: int, len: int) -> int
    decreases s.len() - i,
{
    if !(0 <= i < s.len()) {
        i
    } else {
        let run = run_length(s, i, '`');
        proof {
            run_length_bounds(s, i, '`');
        }
        if run == len {
            i + run
        } else if i + run >= s.len() {
            s.len() as int
        } else {
            after_code_span(s, i + run + 1, len)
        }
    }
}

pub proof fn after_code_span_bounds(s: Seq<char>, i: int, len: int)
    requires
        0 <= i <= s.len(),
    ensures
        i <= after_code_span(s, i, len) <= s.len(),
    decreases s.len() - i,
{
    if i < s.len() {
        run_length_bounds(s, i, '`');
        let run = run_length(s, i, '`');
        if run != len && i + run < s.len() {
            after_code_span_bounds(s, i + run + 1, len);
        }
    }
}

/// A link that is recognised at `i` outside code, if there is one.
pub open spec fn link_here(s: Seq<char>, i: int) -> Option<Link> {
    if escaped(s, i) {
        None
    } else if s[i] == '!' && i + 1 < s.len() && s[i + 1] == '[' {
        link_at(s, i, true)
    } else if s[i] == '[' {
        link_at(s, i, false)
    } else {
        None
    }
}

/// The links from index `i` on. `fence` is the marker of the fenced block that
/// `i` is in.
///
/// A run of at least three backticks or tildes opens a fenced block, and one of
/// the same marker closes it. A shorter run of backticks outside a block opens a
/// code span. There are no links in blocks and code spans.
pub open spec fn links_from(s: Seq<char>, i: int, fence: Option<char>) -> Seq<Link>
    decreases s.len() - i,
{
    if !(0 <= i < s.len()) {
        Seq::empty()
    } else if s[i] == '`' || s[i] == '~' {
        let run = run_length(s, i, s[i]);
        proof {
            run_length_bounds(s, i, s[i]);
            after_code_span_bounds(s, i + run, run);
        }
        if run >= 3 {
            links_from(
                s,
                i + run,
                match fence {
                    None => Some(s[i]),
                    Some(marker) => if marker == s[i] {
                        None
                    } else {
                        fence
                    },
                },
            )
        } else if s[i] == '`' && fence is None {
            links_from(s, after_code_span(s, i + run, run), fence)
        } else {
            links_from(s, i + run, fence)
        }
    } else {
        match link_here(s, i) {
            Some(link) => if fence is Some {
                links_from(s, i + 1, fence)
            } else {
                proof {
                    link_at_spelled(s, i, link.image);
                }
                seq![link] + links_from(s, link.end, fence)
            },
            None => links_from(s, i + 1, fence),
        }
    }
}

/// The links of a text.
pub open spec fn links(s: Seq<char>) -> Seq<Link> {
    links_from(s, 0, None)
}

/// A parsed target describes this link of the text.
pub open spec fn describes(t: ParsedMarkdownTarget, s: Seq<char>, link: Link) -> bool {
    &&& t.is_image == link.image
    &&& t.label@ == link.label(s)
    &&& t.dest@ == link.dest(s)
    &&& resolves_to(link.dest(s), t.target)
    &&& t.start == utf8_len(s.take(link.open))
    &&& t.end == utf8_len(s.take(link.end))
}

/// The length of the run of `c` at `i`.
fn count_run(s: &Vec<char>, i: usize, c: char) -> (r: usize)
    requires
        i <= s@.len(),
    ensures
        r == run_length(s@, i as int, c),
        i + r <= s@.len(),
{
    let size = s.len();
    let mut n: usize = 0;
    while i + n < size && s[i + n] == c
        invariant
            i + n <= s@.len() == size,
            run_length(s@, i as int, c) == n + run_length(s@, i + n, c),
        decreases size - n,
    {
        n = n + 1;
    }
    n
}

/// The first index from `i` on that holds `c`, or the length.
pub fn find_char(s: &Vec<char>, i: usize, c: char) -> (r: usize)
    requires
        i <= s@.len(),
    ensures
        r == next_char(s@, i as int, c),
        i <= r <= s@.len(),
{
    let mut k: usize = i;
    while k < s.len() && s[k] != c
        invariant
            i <= k <= s@.len(),
            next_char(s@, i as int, c) == next_char(s@, k as int, c),
        decreases s@.len() - k,
    {
        k = k + 1;
    }
    k
}

/// Whether the character at `i` is escaped.
fn is_escaped(s: &Vec<char>, i: usize) -> (r: bool)
    requires
        i <= s@.len(),
    ensures
        r == escaped(s@, i as int),
{
    let mut odd = false;
    let mut j: usize = i;
    while j > 0 && s[j - 1] == '\\'
        invariant
            j <= i <= s@.len(),
            backslashes_before(s@, i as int) == (i - j) + backslashes_before(s@, j as int),
            odd == ((i - j) % 2 == 1),
        decreases j,
    {
        odd = !odd;
        j = j - 1;
    }
    odd
}

/// The index just past the parenthesis that closes the one before `i`.
pub fn find_closing_paren(s: &Vec<char>, i: usize) -> (r: Option<usize>)
    requires
        1 <= i <= s@.len(),
    ensures
        match r {
            Some(end) => closing_paren(s@, i as int, 1) == Some(end as int) && i < end <= s@.len(),
            None => closing_paren(s@, i as int, 1) is None,
        },
{
    let size = s.len();
    let mut end: usize = i;
    let mut depth: usize = 1;
    while end < size && depth > 0
        invariant
            1 <= i <= end <= s@.len() == size,
            depth <= end - i + 1,
            closing_paren(s@, i as int, 1) == closing_paren(s@, end as int, depth as nat),
            depth == 0 ==> end > i,
        decreases s@.len() - end,
    {
        if s[end] == '(' {
            depth = depth + 1;
        } else if s[end] == ')' {
            depth = depth - 1;
        }
        end = end + 1;
    }
    if depth == 0 {
        Some(end)
    } else {
        None
    }
}

/// Reads the link that opens at `open`. Returns where its label and the link end.
fn read_link(s: &Vec<char>, open: usize, image: bool) -> (r: Option<(usize, usize)>)
    requires
        open < s@.len(),
        image ==> open + 1 < s@.len() && s@[open as int] == '!' && s@[open + 1] == '[',
        !image ==> s@[open as int] == '[',
    ensures
        match r {
            Some((close, end)) => link_at(s@, open as int, image) == Some(
                Link { image, open: open as int, close: close as int, end: end as int },
            ),
            None => link_at(s@, open as int, image) is None,
        },
{
    let size = s.len();
    let start: usize = if image {
        open + 2
    } else {
        open + 1
    };
    let close = find_char(s, start, ']');
    if close >= size || close + 1 >= size || s[close + 1] != '(' {
        return None;
    }
    match find_closing_paren(s, close + 2) {
        Some(end) => Some((close, end)),
        None => None,
    }
}

/// Describes a link that was read.
fn describe(
    s: &Vec<char>,
    offsets: &Vec<usize>,
    image: bool,
    open: usize,
    close: usize,
    end: usize,
) -> (r: ParsedMarkdownTarget)
    requires
        (Link { image, open: open as int, close: close as int, end: end as int }).spelled(s@),
        offsets@.len() == s@.len() + 1,
        forall|i: int| 0 <= i <= s@.len() ==> #[trigger] offsets@[i] == utf8_len(s@.take(i)),
    ensures
        describes(
            r,
            s@,
            Link { image, open: open as int, close: close as int, end: end as int },
        ),
{
    let start: usize = if image {
        open + 2
    } else {
        open + 1
    };
    let label = string_between(s, start, close);
    let dest = string_between(s, close + 2, end - 1);
    let target = resolve_target(&dest);
    ParsedMarkdownTarget {
        is_image: image,
        label,
        target,
        dest,
        start: offsets[open],
        end: offsets[end],
    }
}

/// Where reading goes on after a code span.
fn skip_code_span(s: &Vec<char>, from: usize, len: usize) -> (r: usize)
    requires
        from <= s@.len(),
    ensures
        from <= r <= s@.len(),
        r == after_code_span(s@, from as int, len as int),
{
    let size = s.len();
    let mut i: usize = from;
    while i < size
        invariant_except_break
            after_code_span(s@, from as int, len as int) == after_code_span(
                s@,
                i as int,
                len as int,
            ),
        invariant
            size == s@.len(),
            from <= i <= size,
        ensures
            i == after_code_span(s@, from as int, len as int),
        decreases size - i,
    {
        let run = count_run(s, i, '`');
        i = i + run;
        if run == len || i == size {
            break;
        }
        i = i + 1;
    }
    i
}

/// Finds every link and embed of a text. Fenced blocks, code spans and escaped
/// brackets are skipped.
pub fn parse_local_markdown_targets(content: &str) -> (r: Vec<ParsedMarkdownTarget>)
    ensures
        r@.len() == links(content@).len(),
        forall|k: int|
            0 <= k < r@.len() ==> describes(#[trigger] r@[k], content@, links(content@)[k]),
{
    let chars = chars_of(content);
    let offsets = byte_offsets(content, &chars);
    let ghost s = content@;
    let ghost all = links(s);
    let mut found: Vec<ParsedMarkdownTarget> = Vec::new();
    let mut fence: Option<char> = None;
    let mut i: usize = 0;
    let ghost mut done: Seq<Link> = Seq::empty();
    proof {
        assert(done + links_from(s, 0, None) =~= all);
    }
    while i < chars.len()
        invariant
            i <= chars@.len(),
            chars@ == s,
            s == content@,
            offsets@.len() == s.len() + 1,
            forall|k: int| 0 <= k <= s.len() ==> #[trigger] offsets@[k] == utf8_len(s.take(k)),
            all == done + links_from(s, i as int, fence),
            found@.len() == done.len(),
            forall|k: int| 0 <= k < found@.len() ==> describes(#[trigger] found@[k], s, done[k]),
        decreases chars@.len() - i,
    {
        let c = chars[i];
        if c == '`' || c == '~' {
            proof {
                run_length_bounds(s, i as int, c);
            }
            let run = count_run(&chars, i, c);
            if run >= 3 {
                fence = match fence {
                    None => Some(c),
                    Some(marker) => if marker == c {
                        None
                    } else {
                        fence
                    },
                };
                i = i + run;
                continue ;
            }
            if c == '`' && fence.is_none() {
                proof {
                    after_code_span_bounds(s, i + run, run as int);
                }
                i = skip_code_span(&chars, i + run, run);
                continue ;
            }
            i = i + run;
            continue ;
        }
        if fence.is_none() && !is_escaped(&chars, i) {
            let image = c == '!' && i + 1 < chars.len() && chars[i + 1] == '[';
            if image || c == '[' {
                proof {
                    link_at_spelled(s, i as int, image);
                }
                if let Some((close, end)) = read_link(&chars, i, image) {
                    let ghost link = Link {
                        image,
                        open: i as int,
                        close: close as int,
                        end: end as int,
                    };
                    proof {
                        assert(link_here(s, i as int) == Some(link));
                        assert(done + (seq![link] + links_from(s, end as int, None)) =~= done.push(
                            link,
                        ) + links_from(s, end as int, None));
                        done = done.push(link);
                    }
                    found.push(describe(&chars, &offsets, image, i, close, end));
                    i = end;
                    continue ;
                }
            }
        }
        i = i + 1;
    }
    proof {
        assert(done + Seq::<Link>::empty() =~= done);
    }
    found
}

/// Links that begin at `from` or later, each spelled out in the text, one after
/// the other without overlap.
pub open spec fn in_order(found: Seq<Link>, s: Seq<char>, from: int) -> bool {
    &&& forall|k: int|
        0 <= k < found.len() ==> (#[trigger] found[k]).spelled(s) && found[k].open >= from
    &&& forall|k: int, l: int|
        0 <= k < l < found.len() ==> (#[trigger] found[k]).end <= (#[trigger] found[l]).open
}

/// Every link that is found is spelled out in the text, and the links come one
/// after the other without overlap.
pub proof fn links_are_spelled_in_order(s: Seq<char>)
    ensures
        in_order(links(s), s, 0),
{
    links_from_in_order(s, 0, None);
}

proof fn links_from_in_order(s: Seq<char>, i: int, fence: Option<char>)
    requires
        0 <= i <= s.len(),
    ensures
        in_order(links_from(s, i, fence), s, i),
    decreases s.len() - i,
{
    let here = links_from(s, i, fence);
    if i < s.len() {
        if s[i] == '`' || s[i] == '~' {
            run_length_bounds(s, i, s[i]);
            let run = run_length(s, i, s[i]);
            if run >= 3 {
                let inner = match fence {
                    None => Some(s[i]),
                    Some(marker) => if marker == s[i] {
                        None
                    } else {
                        fence
                    },
                };
                links_from_in_order(s, i + run, inner);
                assert(here == links_from(s, i + run, inner));
            } else if s[i] == '`' && fence is None {
                after_code_span_bounds(s, i + run, run);
                let next = after_code_span(s, i + run, run);
                links_from_in_order(s, next, fence);
                assert(here == links_from(s, next, fence));
            } else {
                links_from_in_order(s, i + run, fence);
                assert(here == links_from(s, i + run, fence));
            }
        } else if link_here(s, i) is Some && fence is None {
            let link = link_here(s, i)->0;
            link_at_spelled(s, i, s[i] == '!');
            links_from_in_order(s, link.end, fence);
            let rest = links_from(s, link.end, fence);
            assert(here == seq![link] + rest);
            assert forall|k: int| 0 <= k < here.len() implies (#[trigger] here[k]).spelled(s)
                && here[k].open >= i by {
                if k > 0 {
                    assert(here[k] == rest[k - 1]);
                }
            }
            assert forall|k: int, l: int| 0 <= k < l < here.len() implies (#[trigger] here[k]).end
                <= (#[trigger] here[l]).open by {
                assert(here[l] == rest[l - 1]);
                if k > 0 {
                    assert(here[k] == rest[k - 1]);
                }
            }
        } else {
            links_from_in_order(s, i + 1, fence);
            assert(here == links_from(s, i + 1, fence));
        }
    }
}

/// The span of a link holds exactly the link: an optional `!`, the label in
/// brackets and the destination in parentheses.
pub proof fn link_span_rebuilds(s: Seq<char>, k: int)
    requires
        0 <= k < links(s).len(),
    ensures
        s.subrange(links(s)[k].open, links(s)[k].end) == (if links(s)[k].image {
            "!["@
        } else {
            "["@
        }) + links(s)[k].label(s) + "]("@ + links(s)[k].dest(s) + ")"@,
{
    links_are_spelled_in_order(s);
    reveal_strlit("![");
    reveal_strlit("[");
    reveal_strlit("](");
    reveal_strlit(")");
    let link = links(s)[k];
    assert(link.spelled(s));
    let rebuilt = (if link.image {
        "!["@
    } else {
        "["@
    }) + link.label(s) + "]("@ + link.dest(s) + ")"@;
    assert(s.subrange(link.open, link.end) =~= rebuilt);
}

/// Before index `i` its line holds at most three spaces, and nothing else.
pub open spec fn begins_line(s: Seq<char>, i: int) -> bool {
    let start = spaces_start(s, i);
    i - start <= 3 && (start == 0 || s[start - 1] == '\n')
}

/// Where the run of spaces right before index `i` begins.
pub open spec fn spaces_start(s: Seq<char>, i: int) -> int
    decreases i,
{
    if 0 < i <= s.len() && s[i - 1] == ' ' {
        spaces_start(s, i - 1)
    } else {
        i
    }
}

/// The end of the first run of exactly `len` backticks from index `i` on.
pub open spec fn code_span_end(s: Seq<char>, i: int, len: int) -> Option<int>
    decreases s.len() - i,
{
    if !(0 <= i < s.len()) {
        None
    } else {
        let run = run_length(s, i, '`');
        proof {
            run_length_bounds(s, i, '`');
        }
        if run == len {
            Some(i + run)
        } else if i + run >= s.len() {
            None
        } else {
            code_span_end(s, i + run + 1, len)
        }
    }
}

/// Where the fenced block ends whose content begins with the line at `i`: behind
/// the first line that holds a run of at least `len` markers and else only spaces,
/// or with the text.
pub open spec fn fence_end(s: Seq<char>, i: int, marker: char, len: int) -> int
    decreases s.len() - i,
{
    if !(0 <= i < s.len()) {
        s.len() as int
    } else {
        let at = i + run_length(s, i, ' ');
        let run = run_length(s, at, marker);
        let behind = at + run + run_length(s, at + run, ' ');
        let line_end = next_char(s, i, '\n');
        proof {
            next_char_bounds(s, i, '\n');
        }
        if at - i <= 3 && run >= len && (behind == s.len() || s[behind] == '\n') {
            behind
        } else if line_end >= s.len() {
            s.len() as int
        } else {
            fence_end(s, line_end + 1, marker, len)
        }
    }
}

/// A fenced block opens at `i`: a line begins with at least three backticks or
/// tildes. No backtick follows backticks on that line.
pub open spec fn opens_fence(s: Seq<char>, i: int) -> bool {
    let run = run_length(s, i, s[i]);
    &&& s[i] == '`' || s[i] == '~'
    &&& run >= 3
    &&& begins_line(s, i)
    &&& s[i] == '`' ==> next_char(s, i + run, '`') >= next_char(s, i + run, '\n')
}

/// Where the code that begins at `i` ends, or `i` if none begins there: a fenced
/// block, or a code span, which a run of backticks opens and a run of the same
/// length closes. A run that is not closed stands for itself.
pub open spec fn code_end(s: Seq<char>, i: int) -> int {
    let run = run_length(s, i, s[i]);
    if opens_fence(s, i) {
        fence_end(s, next_char(s, i + run, '\n') + 1, s[i], run)
    } else if s[i] == '`' && !escaped(s, i) {
        match code_span_end(s, i + run, run) {
            Some(end) => end,
            None => i + run,
        }
    } else {
        i
    }
}

pub proof fn code_span_end_bounds(s: Seq<char>, i: int, len: int)
    requires
        0 <= i,
    ensures
        code_span_end(s, i, len) matches Some(end) ==> i <= end <= s.len(),
    decreases s.len() - i,
{
    if i < s.len() {
        run_length_bounds(s, i, '`');
        let run = run_length(s, i, '`');
        if run != len && i + run < s.len() {
            code_span_end_bounds(s, i + run + 1, len);
        }
    }
}

pub proof fn fence_end_bounds(s: Seq<char>, i: int, marker: char, len: int)
    requires
        0 <= i,
    ensures
        fence_end(s, i, marker, len) <= s.len(),
        i <= s.len() ==> i <= fence_end(s, i, marker, len),
    decreases s.len() - i,
{
    if i < s.len() {
        let at = i + run_length(s, i, ' ');
        run_length_bounds(s, i, ' ');
        run_length_bounds(s, at, marker);
        run_length_bounds(s, at + run_length(s, at, marker), ' ');
        next_char_bounds(s, i, '\n');
        if next_char(s, i, '\n') < s.len() {
            fence_end_bounds(s, next_char(s, i, '\n') + 1, marker, len);
        }
    }
}

/// Code ends within the text, and not before it begins.
pub proof fn code_end_bounds(s: Seq<char>, i: int)
    requires
        0 <= i < s.len(),
    ensures
        i <= code_end(s, i) <= s.len(),
{
    run_length_bounds(s, i, s[i]);
    let run = run_length(s, i, s[i]);
    next_char_bounds(s, i + run, '\n');
    fence_end_bounds(s, next_char(s, i + run, '\n') + 1, s[i], run);
    code_span_end_bounds(s, i + run, run);
}

/// Where the code that begins at `i` ends.
pub fn find_code_end(s: &Vec<char>, i: usize) -> (r: usize)
    requires
        i < s@.len(),
    ensures
        r == code_end(s@, i as int),
{
    proof {
        code_end_bounds(s@, i as int);
        run_length_bounds(s@, i as int, s@[i as int]);
    }
    let size = s.len();
    let c = s[i];
    if c != '`' && c != '~' {
        return i;
    }
    let run = count_run(s, i, c);
    let line_end = find_char(s, i + run, '\n');
    if run >= 3 && at_line_start(s, i) && (c == '~' || find_char(s, i + run, '`') >= line_end) {
        if line_end == size {
            assert(fence_end(s@, line_end + 1, c, run as int) == size);
            return size;
        }
        return find_fence_end(s, line_end + 1, c, run);
    }
    if c == '`' && !is_escaped(s, i) {
        match find_span_end(s, i + run, run) {
            Some(end) => end,
            None => i + run,
        }
    } else {
        i
    }
}

/// Whether only a short indentation stands before index `i` on its line.
fn at_line_start(s: &Vec<char>, i: usize) -> (r: bool)
    requires
        i <= s@.len(),
    ensures
        r == begins_line(s@, i as int),
{
    let mut start: usize = i;
    while start > 0 && s[start - 1] == ' '
        invariant
            start <= i <= s@.len(),
            spaces_start(s@, i as int) == spaces_start(s@, start as int),
        decreases start,
    {
        start = start - 1;
    }
    i - start <= 3 && (start == 0 || s[start - 1] == '\n')
}

fn find_span_end(s: &Vec<char>, from: usize, len: usize) -> (r: Option<usize>)
    requires
        from <= s@.len(),
    ensures
        match r {
            Some(end) => code_span_end(s@, from as int, len as int) == Some(end as int),
            None => code_span_end(s@, from as int, len as int) is None,
        },
{
    let size = s.len();
    let mut i: usize = from;
    while i < size
        invariant
            i <= size == s@.len(),
            code_span_end(s@, from as int, len as int) == code_span_end(s@, i as int, len as int),
        decreases size - i,
    {
        let run = count_run(s, i, '`');
        if run == len {
            return Some(i + run);
        }
        i = i + run;
        if i == size {
            return None;
        }
        i = i + 1;
    }
    None
}

fn find_fence_end(s: &Vec<char>, from: usize, marker: char, len: usize) -> (r: usize)
    requires
        from <= s@.len(),
    ensures
        r == fence_end(s@, from as int, marker, len as int),
{
    let size = s.len();
    let mut i: usize = from;
    while i < size
        invariant
            i <= size == s@.len(),
            fence_end(s@, from as int, marker, len as int) == fence_end(
                s@,
                i as int,
                marker,
                len as int,
            ),
        decreases size - i,
    {
        let at = i + count_run(s, i, ' ');
        let run = count_run(s, at, marker);
        let behind = at + run + count_run(s, at + run, ' ');
        if at - i <= 3 && run >= len && (behind == size || s[behind] == '\n') {
            return behind;
        }
        let line_end = find_char(s, i, '\n');
        if line_end == size {
            return size;
        }
        i = line_end + 1;
    }
    size
}

/// Where the link that begins at `i` outside code ends, or `i` if none does.
pub open spec fn link_end(s: Seq<char>, i: int) -> int {
    match link_here(s, i) {
        Some(link) => link.end,
        None => i,
    }
}

/// A link ends within the text, behind where it begins.
pub proof fn link_end_bounds(s: Seq<char>, i: int)
    requires
        0 <= i < s.len(),
    ensures
        i <= link_end(s, i) <= s.len(),
{
    if let Some(link) = link_here(s, i) {
        link_at_spelled(s, i, link.image);
    }
}

/// Where the link that begins at `i` ends.
pub fn find_link_end(s: &Vec<char>, i: usize) -> (r: usize)
    requires
        i < s@.len(),
    ensures
        r == link_end(s@, i as int),
{
    let size = s.len();
    let c = s[i];
    let image = c == '!' && i + 1 < size && s[i + 1] == '[';
    if (image || c == '[') && !is_escaped(s, i) {
        if let Some((_, end)) = read_link(s, i, image) {
            return end;
        }
    }
    i
}

proof fn run_length_moves(a: Seq<char>, b: Seq<char>, i: int, c: char)
    requires
        0 <= i <= b.len(),
    ensures
        run_length(a + b, a.len() + i, c) == run_length(b, i, c),
    decreases b.len() - i,
{
    if i < b.len() && b[i] == c {
        run_length_moves(a, b, i + 1, c);
    }
}

/// Where a character stands does not depend on what stands before.
pub proof fn next_char_moves(a: Seq<char>, b: Seq<char>, i: int, c: char)
    requires
        0 <= i <= b.len(),
    ensures
        next_char(a + b, a.len() + i, c) == a.len() + next_char(b, i, c),
    decreases b.len() - i,
{
    if i < b.len() && b[i] != c {
        next_char_moves(a, b, i + 1, c);
    }
}

proof fn closing_paren_moves(a: Seq<char>, b: Seq<char>, i: int, depth: nat)
    requires
        0 <= i <= b.len(),
    ensures
        match closing_paren(b, i, depth) {
            Some(end) => closing_paren(a + b, a.len() + i, depth) == Some(a.len() + end),
            None => closing_paren(a + b, a.len() + i, depth) is None,
        },
    decreases b.len() - i,
{
    if depth > 0 && i < b.len() {
        if b[i] == '(' {
            closing_paren_moves(a, b, i + 1, depth + 1);
        } else if b[i] == ')' {
            closing_paren_moves(a, b, i + 1, (depth - 1) as nat);
        } else {
            closing_paren_moves(a, b, i + 1, depth);
        }
    }
}

proof fn backslashes_bounds(s: Seq<char>, i: int)
    requires
        0 <= i <= s.len(),
    ensures
        0 <= backslashes_before(s, i) <= i,
    decreases i,
{
    if i > 0 && s[i - 1] == '\\' {
        backslashes_bounds(s, i - 1);
    }
}

proof fn backslashes_move(a: Seq<char>, b: Seq<char>, i: int)
    requires
        0 <= i <= b.len(),
    ensures
        backslashes_before(a + b, a.len() + i) == backslashes_before(b, i) + (
        if backslashes_before(b, i) == i {
            backslashes_before(a, a.len() as int)
        } else {
            0
        }),
    decreases i,
{
    if i > 0 {
        backslashes_bounds(b, i - 1);
        if b[i - 1] == '\\' {
            backslashes_move(a, b, i - 1);
        }
    } else {
        backslashes_in_front(a, b, a.len() as int);
    }
}

proof fn backslashes_in_front(a: Seq<char>, b: Seq<char>, i: int)
    requires
        0 <= i <= a.len(),
    ensures
        backslashes_before(a + b, i) == backslashes_before(a, i),
    decreases i,
{
    if i > 0 && a[i - 1] == '\\' {
        backslashes_in_front(a, b, i - 1);
    }
}

proof fn escapes_move(a: Seq<char>, b: Seq<char>, i: int)
    requires
        0 <= i <= b.len(),
        !escaped(a, a.len() as int),
    ensures
        escaped(a + b, a.len() + i) == escaped(b, i),
{
    backslashes_move(a, b, i);
    backslashes_bounds(a, a.len() as int);
    backslashes_bounds(b, i);
}

/// A link that stands `n` characters further on.
pub open spec fn moved(link: Link, n: int) -> Link {
    Link { image: link.image, open: link.open + n, close: link.close + n, end: link.end + n }
}

/// What link begins at a place does not depend on what stands before it, except for
/// a backslash.
pub proof fn link_here_moves(a: Seq<char>, b: Seq<char>, i: int)
    requires
        0 <= i < b.len(),
        !escaped(a, a.len() as int),
    ensures
        match link_here(b, i) {
            Some(link) => link_here(a + b, a.len() + i) == Some(moved(link, a.len() as int)),
            None => link_here(a + b, a.len() + i) is None,
        },
{
    let s = a + b;
    let n = a.len() as int;
    escapes_move(a, b, i);
    assert(s[n + i] == b[i]);
    let image = b[i] == '!' && i + 1 < b.len() && b[i + 1] == '[';
    if i + 1 < b.len() {
        assert(s[n + i + 1] == b[i + 1]);
    }
    if image || b[i] == '[' {
        let start = if image {
            i + 2
        } else {
            i + 1
        };
        next_char_moves(a, b, start, ']');
        next_char_bounds(b, start, ']');
        let close = next_char(b, start, ']');
        if close + 1 < b.len() {
            assert(s[n + close + 1] == b[close + 1]);
            closing_paren_moves(a, b, close + 2, 1);
        }
    }
}

proof fn after_code_span_moves(a: Seq<char>, b: Seq<char>, i: int, len: int)
    requires
        0 <= i <= b.len(),
    ensures
        after_code_span(a + b, a.len() + i, len) == a.len() + after_code_span(b, i, len),
    decreases b.len() - i,
{
    if i < b.len() {
        run_length_moves(a, b, i, '`');
        run_length_bounds(b, i, '`');
        let run = run_length(b, i, '`');
        if run != len && i + run < b.len() {
            after_code_span_moves(a, b, i + run + 1, len);
        }
    }
}

/// What links there are from a place on does not depend on what stands before it,
/// except for a backslash.
proof fn links_move(a: Seq<char>, b: Seq<char>, i: int, fence: Option<char>)
    requires
        0 <= i <= b.len(),
        !escaped(a, a.len() as int),
    ensures
        links_from(a + b, a.len() + i, fence) == links_from(b, i, fence).map_values(
            |link: Link| moved(link, a.len() as int),
        ),
    decreases b.len() - i,
{
    let s = a + b;
    let n = a.len() as int;
    let f = |link: Link| moved(link, n);
    if i < b.len() {
        assert(s[n + i] == b[i]);
        if b[i] == '`' || b[i] == '~' {
            run_length_moves(a, b, i, b[i]);
            run_length_bounds(b, i, b[i]);
            let run = run_length(b, i, b[i]);
            if run >= 3 {
                let inner = match fence {
                    None => Some(b[i]),
                    Some(marker) => if marker == b[i] {
                        None
                    } else {
                        fence
                    },
                };
                links_move(a, b, i + run, inner);
            } else if b[i] == '`' && fence is None {
                after_code_span_moves(a, b, i + run, run);
                after_code_span_bounds(b, i + run, run);
                links_move(a, b, after_code_span(b, i + run, run), fence);
            } else {
                links_move(a, b, i + run, fence);
            }
        } else {
            link_here_moves(a, b, i);
            if link_here(b, i) is Some && fence is None {
                let link = link_here(b, i)->0;
                link_at_spelled(b, i, link.image);
                links_move(a, b, link.end, fence);
                let rest = links_from(b, link.end, fence);
                assert((seq![link] + rest).map_values(f) =~= seq![moved(link, n)] + rest.map_values(
                    f,
                ));
            } else {
                links_move(a, b, i + 1, fence);
            }
        }
    } else {
        assert(links_from(b, i, fence).map_values(f) =~= Seq::<Link>::empty());
    }
}

proof fn nothing_in_front(s: Seq<char>, i: int, n: int)
    requires
        0 <= i <= n <= s.len(),
        forall|k: int|
            i <= k < n ==> (#[trigger] s[k]) != '`' && s[k] != '~' && s[k] != '[' && s[k] != '!',
    ensures
        links_from(s, i, None) == links_from(s, n, None),
    decreases n - i,
{
    if i < n {
        assert(s[i] != '[');
        nothing_in_front(s, i + 1, n);
    }
}

/// Text in front of links only moves them: the links behind a text without brackets,
/// marks of code and backslashes are the same links, further on.
pub proof fn plain_text_moves_links(a: Seq<char>, b: Seq<char>)
    requires
        forall|k: int|
            0 <= k < a.len() ==> (#[trigger] a[k]) != '[' && a[k] != '!' && a[k] != '`' && a[k]
                != '~' && a[k] != '\\',
    ensures
        links(a + b) == Seq::new(
            links(b).len(),
            |k: int|
                Link {
                    image: links(b)[k].image,
                    open: links(b)[k].open + a.len(),
                    close: links(b)[k].close + a.len(),
                    end: links(b)[k].end + a.len(),
                },
        ),
{
    let s = a + b;
    assert forall|k: int| 0 <= k < a.len() implies (#[trigger] s[k]) != '`' && s[k] != '~' && s[k]
        != '[' && s[k] != '!' by {
        assert(s[k] == a[k]);
    }
    nothing_in_front(s, 0, a.len() as int);
    if a.len() > 0 {
        assert(a[a.len() - 1] != '\\');
    }
    links_move(a, b, 0, None);
    assert(links(s) =~= Seq::new(
        links(b).len(),
        |k: int|
            Link {
                image: links(b)[k].image,
                open: links(b)[k].open + a.len(),
                close: links(b)[k].close + a.len(),
                end: links(b)[k].end + a.len(),
            },
    ));
}

/// The first place at which a character stands.
pub proof fn next_char_found(s: Seq<char>, i: int, close: int, c: char)
    requires
        0 <= i <= close < s.len(),
        s[close] == c,
        forall|k: int| i <= k < close ==> #[trigger] s[k] != c,
    ensures
        next_char(s, i, c) == close,
    decreases close - i,
{
    if i < close {
        next_char_found(s, i + 1, close, c);
    }
}

/// How many of the first `n` characters are `c`.
pub open spec fn count_char(s: Seq<char>, n: int, c: char) -> nat {
    s.take(n).filter(|x: char| x == c).len()
}

proof fn count_char_step(s: Seq<char>, n: int, c: char)
    requires
        0 <= n < s.len(),
    ensures
        count_char(s, 0, c) == 0,
        count_char(s, n + 1, c) == count_char(s, n, c) + if s[n] == c {
            1int
        } else {
            0int
        },
{
    reveal(Seq::filter);
    assert(s.take(n + 1).drop_last() =~= s.take(n));
    assert(s.take(n + 1).last() == s[n]);
}

/// The parentheses in a text close one another.
pub open spec fn parentheses_close(dest: Seq<char>) -> bool {
    &&& forall|k: int|
        0 <= k <= dest.len() ==> #[trigger] count_char(dest, k, ')') <= count_char(dest, k, '(')
    &&& count_char(dest, dest.len() as int, ')') == count_char(dest, dest.len() as int, '(')
}

/// Where the parenthesis stands that closes a destination.
pub proof fn closing_paren_found(s: Seq<char>, from: int, dest: Seq<char>, k: int)
    requires
        0 <= from,
        from + dest.len() < s.len(),
        s.subrange(from, from + dest.len()) == dest,
        s[from + dest.len()] == ')',
        parentheses_close(dest),
        0 <= k <= dest.len(),
    ensures
        closing_paren(
            s,
            from + k,
            (1 + count_char(dest, k, '(') - count_char(dest, k, ')')) as nat,
        ) == Some(from + dest.len() + 1),
    decreases dest.len() - k,
{
    let depth = (1 + count_char(dest, k, '(') - count_char(dest, k, ')')) as nat;
    assert(count_char(dest, k, ')') <= count_char(dest, k, '('));
    if k < dest.len() {
        assert(s[from + k] == dest[k]) by {
            assert(s.subrange(from, from + dest.len())[k] == s[from + k]);
        }
        count_char_step(dest, k, '(');
        count_char_step(dest, k, ')');
        assert(count_char(dest, k + 1, ')') <= count_char(dest, k + 1, '('));
        closing_paren_found(s, from, dest, k + 1);
    } else {
        assert(closing_paren(s, from + k + 1, 0) == Some(from + k + 1));
    }
}

/// Every link is recognised: brackets around a label without a closing bracket, and
/// right behind them parentheses around a destination whose own parentheses close.
/// Label and destination may hold anything else. The links of the text behind it are
/// that text's own.
pub proof fn links_are_recognised(
    image: bool,
    label: Seq<char>,
    dest: Seq<char>,
    b: Seq<char>,
)
    requires
        forall|k: int| 0 <= k < label.len() ==> #[trigger] label[k] != ']',
        parentheses_close(dest),
    ensures
        ({
            let head = if image {
                seq!['!', '[']
            } else {
                seq!['[']
            };
            let front = head + label + seq![']', '('] + dest + seq![')'];
            links(front + b) == seq![
                Link {
                    image,
                    open: 0,
                    close: head.len() + label.len() as int,
                    end: front.len() as int,
                },
            ] + Seq::new(
                links(b).len(),
                |k: int|
                    Link {
                        image: links(b)[k].image,
                        open: links(b)[k].open + front.len(),
                        close: links(b)[k].close + front.len(),
                        end: links(b)[k].end + front.len(),
                    },
            )
        }),
{
    let head = if image {
        seq!['!', '[']
    } else {
        seq!['[']
    };
    let front = head + label + seq![']', '('] + dest + seq![')'];
    let s = front + b;
    let close: int = head.len() as int + label.len();
    let end = front.len() as int;
    assert forall|k: int| head.len() <= k < close implies #[trigger] s[k] != ']' by {
        assert(s[k] == label[k - head.len()]);
    }
    assert(s[close as int] == ']');
    assert(s[close + 1] == '(');
    next_char_found(s, head.len() as int, close as int, ']');
    assert(s.subrange(close + 2, close + 2 + dest.len()) =~= dest);
    assert(s[close + 2 + dest.len()] == ')');
    closing_paren_found(s, close + 2, dest, 0);
    if dest.len() > 0 {
        count_char_step(dest, 0, '(');
        count_char_step(dest, 0, ')');
    }
    assert(dest.take(0) =~= Seq::<char>::empty());
    assert(count_char(dest, 0, '(') == 0 && count_char(dest, 0, ')') == 0) by {
        reveal(Seq::filter);
    }
    let link = Link { image, open: 0, close: close as int, end };
    assert(s[0] == head[0]);
    if image {
        assert(s[1] == '[');
    }
    assert(link_here(s, 0) == Some(link));
    assert(links(s) == seq![link] + links_from(s, end, None));
    assert(front[front.len() - 1] == ')');
    links_move(front, b, 0, None);
    assert(links(s) =~= seq![link] + Seq::new(
        links(b).len(),
        |k: int|
            Link {
                image: links(b)[k].image,
                open: links(b)[k].open + front.len(),
                close: links(b)[k].close + front.len(),
                end: links(b)[k].end + front.len(),
            },
    ));
}

/// A text with one link in it has that link, with its label and destination, and no
/// other.
pub proof fn one_link_is_found(
    a: Seq<char>,
    label: Seq<char>,
    dest: Seq<char>,
    b: Seq<char>,
)
    requires
        forall|k: int|
            0 <= k < a.len() ==> (#[trigger] a[k]) != '[' && a[k] != '!' && a[k] != '`' && a[k]
                != '~' && a[k] != '\\',
        forall|k: int|
            0 <= k < b.len() ==> (#[trigger] b[k]) != '[' && b[k] != '!' && b[k] != '`' && b[k]
                != '~' && b[k] != '\\',
        forall|k: int| 0 <= k < label.len() ==> #[trigger] label[k] != ']',
        forall|k: int| 0 <= k < dest.len() ==> (#[trigger] dest[k]) != '(' && dest[k] != ')',
    ensures
        ({
            let s = a + seq!['['] + label + seq![']', '('] + dest + seq![')'] + b;
            &&& links(s).len() == 1
            &&& !links(s)[0].image
            &&& links(s)[0].open == a.len()
            &&& links(s)[0].end == s.len() - b.len()
            &&& links(s)[0].label(s) == label
            &&& links(s)[0].dest(s) == dest
        }),
{
    let front = seq!['['] + label + seq![']', '('] + dest + seq![')'];
    let s = a + seq!['['] + label + seq![']', '('] + dest + seq![')'] + b;
    no_parentheses_close(dest);
    links_are_recognised(false, label, dest, b);
    plain_text_moves_links(a, front + b);
    plain_text_moves_links(b, Seq::empty());
    assert(b + Seq::<char>::empty() =~= b);
    assert(a + (front + b) =~= s);
    assert(links(Seq::<char>::empty()) =~= Seq::<Link>::empty());
    let link = links(s)[0];
    assert(link.label(s) =~= label);
    assert(link.dest(s) =~= dest);
}

/// A text without parentheses leaves none open.
pub proof fn no_parentheses_close(dest: Seq<char>)
    requires
        forall|k: int| 0 <= k < dest.len() ==> (#[trigger] dest[k]) != '(' && dest[k] != ')',
    ensures
        parentheses_close(dest),
{
    assert forall|k: int| 0 <= k <= dest.len() implies #[trigger] count_char(dest, k, ')')
        <= count_char(dest, k, '(') by {
        no_parentheses_counted(dest, k);
    }
    no_parentheses_counted(dest, dest.len() as int);
}

proof fn no_parentheses_counted(dest: Seq<char>, k: int)
    requires
        forall|k: int| 0 <= k < dest.len() ==> (#[trigger] dest[k]) != '(' && dest[k] != ')',
        0 <= k <= dest.len(),
    ensures
        count_char(dest, k, '(') == 0,
        count_char(dest, k, ')') == 0,
    decreases k,
{
    if k == 0 {
        reveal(Seq::filter);
    } else {
        no_parentheses_counted(dest, k - 1);
        count_char_step(dest, k - 1, '(');
        count_char_step(dest, k - 1, ')');
    }
}

proof fn run_length_found(s: Seq<char>, i: int, end: int, c: char)
    requires
        0 <= i <= end <= s.len(),
        forall|k: int| i <= k < end ==> #[trigger] s[k] == c,
        end < s.len() ==> s[end] != c,
    ensures
        run_length(s, i, c) == end - i,
    decreases end - i,
{
    if i < end {
        run_length_found(s, i + 1, end, c);
    }
}

proof fn after_code_span_found(s: Seq<char>, i: int, at: int, len: int)
    requires
        0 <= i <= at <= s.len(),
        0 < len,
        at + len <= s.len(),
        forall|k: int| i <= k < at ==> #[trigger] s[k] != '`',
        forall|k: int| at <= k < at + len ==> #[trigger] s[k] == '`',
        at + len < s.len() ==> s[at + len] != '`',
    ensures
        after_code_span(s, i, len) == at + len,
    decreases at - i,
{
    if i < at {
        run_length_found(s, i, i, '`');
        after_code_span_found(s, i + 1, at, len);
    } else {
        run_length_found(s, i, at + len, '`');
    }
}

/// There are no links in a code span: one or two backticks, code, and as many
/// backticks. The links of the text behind it are that text's own.
pub proof fn code_spans_hold_no_links(ticks: Seq<char>, code: Seq<char>, b: Seq<char>)
    requires
        1 <= ticks.len() <= 2,
        forall|k: int| 0 <= k < ticks.len() ==> #[trigger] ticks[k] == '`',
        code.len() > 0,
        forall|k: int| 0 <= k < code.len() ==> #[trigger] code[k] != '`',
        b.len() > 0 ==> b[0] != '`',
    ensures
        links(ticks + code + ticks + b) == Seq::new(
            links(b).len(),
            |k: int|
                Link {
                    image: links(b)[k].image,
                    open: links(b)[k].open + (2 * ticks.len() + code.len()),
                    close: links(b)[k].close + (2 * ticks.len() + code.len()),
                    end: links(b)[k].end + (2 * ticks.len() + code.len()),
                },
        ),
{
    let front = ticks + code + ticks;
    let s = front + b;
    let n = ticks.len() as int;
    let at = n + code.len();
    assert(s =~= ticks + code + ticks + b);
    assert forall|k: int| 0 <= k < n implies #[trigger] s[k] == '`' by {
        assert(s[k] == ticks[k]);
    }
    assert forall|k: int| n <= k < at implies #[trigger] s[k] != '`' by {
        assert(s[k] == code[k - n]);
    }
    assert forall|k: int| at <= k < at + n implies #[trigger] s[k] == '`' by {
        assert(s[k] == ticks[k - at]);
    }
    if b.len() > 0 {
        assert(s[at + n] == b[0]);
    }
    assert(s[n] == code[0]);
    run_length_found(s, 0, n, '`');
    after_code_span_found(s, n, at, n);
    assert(s[0] == '`');
    assert(links(s) == links_from(s, front.len() as int, None));
    assert(front[front.len() - 1] == ticks[n - 1]);
    links_move(front, b, 0, None);
    assert(links(s) =~= Seq::new(
        links(b).len(),
        |k: int|
            Link {
                image: links(b)[k].image,
                open: links(b)[k].open + (2 * ticks.len() + code.len()),
                close: links(b)[k].close + (2 * ticks.len() + code.len()),
                end: links(b)[k].end + (2 * ticks.len() + code.len()),
            },
    ));
}

proof fn nothing_in_fence(s: Seq<char>, i: int, n: int, marker: char)
    requires
        0 <= i <= n <= s.len(),
        forall|k: int| i <= k < n ==> (#[trigger] s[k]) != '`' && s[k] != '~',
    ensures
        links_from(s, i, Some(marker)) == links_from(s, n, Some(marker)),
    decreases n - i,
{
    if i < n {
        assert(s[i] != '`');
        nothing_in_fence(s, i + 1, n, marker);
    }
}

/// There are no links in a fenced block: at least three backticks or tildes, lines
/// without either, and at least three of the same marks. The links of the text
/// behind it are that text's own.
pub proof fn fences_hold_no_links(
    marker: char,
    opening: Seq<char>,
    block: Seq<char>,
    closing: Seq<char>,
    b: Seq<char>,
)
    requires
        marker == '`' || marker == '~',
        opening.len() >= 3,
        forall|k: int| 0 <= k < opening.len() ==> #[trigger] opening[k] == marker,
        block.len() > 0,
        forall|k: int| 0 <= k < block.len() ==> (#[trigger] block[k]) != '`' && block[k] != '~',
        closing.len() >= 3,
        forall|k: int| 0 <= k < closing.len() ==> #[trigger] closing[k] == marker,
        b.len() > 0 ==> b[0] != marker,
    ensures
        ({
            let n = opening.len() + block.len() + closing.len();
            links(opening + block + closing + b) == Seq::new(
                links(b).len(),
                |k: int|
                    Link {
                        image: links(b)[k].image,
                        open: links(b)[k].open + n,
                        close: links(b)[k].close + n,
                        end: links(b)[k].end + n,
                    },
            )
        }),
{
    let front = opening + block + closing;
    let s = front + b;
    let from = opening.len() as int;
    let at = from + block.len();
    let end = front.len() as int;
    assert(s =~= opening + block + closing + b);
    assert forall|k: int| 0 <= k < from implies #[trigger] s[k] == marker by {
        assert(s[k] == opening[k]);
    }
    assert forall|k: int| from <= k < at implies (#[trigger] s[k]) != '`' && s[k] != '~' by {
        assert(s[k] == block[k - from]);
    }
    assert forall|k: int| at <= k < end implies #[trigger] s[k] == marker by {
        assert(s[k] == closing[k - at]);
    }
    if b.len() > 0 {
        assert(s[end] == b[0]);
    }
    assert(s[from] == block[0]);
    run_length_found(s, 0, from, marker);
    nothing_in_fence(s, from, at, marker);
    run_length_found(s, at, end, marker);
    assert(s[0] == marker);
    assert(s[at] == marker);
    assert(links(s) == links_from(s, end, None));
    assert(front[front.len() - 1] == closing[closing.len() - 1]);
    links_move(front, b, 0, None);
    let n = opening.len() + block.len() + closing.len();
    assert(links(s) =~= Seq::new(
        links(b).len(),
        |k: int|
            Link {
                image: links(b)[k].image,
                open: links(b)[k].open + n,
                close: links(b)[k].close + n,
                end: links(b)[k].end + n,
            },
    ));
}

/// A bracket behind a backslash opens no link, and a backslash behind a backslash
/// takes nothing from what follows.
pub proof fn escaped_brackets_open_no_links(c: char, b: Seq<char>)
    requires
        c == '[' || c == '\\',
    ensures
        links(seq!['\\', c] + b) == Seq::new(
            links(b).len(),
            |k: int|
                Link {
                    image: links(b)[k].image,
                    open: links(b)[k].open + 2,
                    close: links(b)[k].close + 2,
                    end: links(b)[k].end + 2,
                },
        ),
{
    let front = seq!['\\', c];
    let s = front + b;
    assert(s[0] == '\\' && s[1] == c);
    assert(backslashes_before(s, 0) == 0);
    assert(backslashes_before(s, 1) == 1);
    assert(backslashes_before(front, 0) == 0);
    assert(backslashes_before(front, 1) == 1);
    assert(backslashes_before(front, 2) == if c == '\\' {
        2int
    } else {
        0int
    });
    assert(links_from(s, 1, None) == links_from(s, 2, None));
    assert(links_from(s, 0, None) == links_from(s, 1, None));
    links_move(front, b, 0, None);
    assert(links(s) =~= Seq::new(
        links(b).len(),
        |k: int|
            Link {
                image: links(b)[k].image,
                open: links(b)[k].open + 2,
                close: links(b)[k].close + 2,
                end: links(b)[k].end + 2,
            },
    ));
}

/// No link is passed over: where a bracket opens, not behind a backslash and with no
/// mark of code before it, and a label without a closing bracket and a destination
/// whose parentheses close follow, one of the links begins there, or one that begins
/// earlier reaches over it. Returns which.
pub proof fn no_link_is_passed_over(
    s: Seq<char>,
    open: int,
    label: Seq<char>,
    dest: Seq<char>,
) -> (r: int)
    requires
        0 <= open,
        open + label.len() + dest.len() + 4 <= s.len(),
        forall|k: int| 0 <= k < open ==> (#[trigger] s[k]) != '`' && s[k] != '~',
        open > 0 ==> s[open - 1] != '\\' && s[open - 1] != '!',
        s.subrange(open, open + label.len() + dest.len() + 4) == seq!['['] + label + seq![']', '(']
            + dest + seq![')'],
        forall|k: int| 0 <= k < label.len() ==> #[trigger] label[k] != ']',
        parentheses_close(dest),
    ensures
        0 <= r < links(s).len(),
        links(s)[r] == (Link {
            image: false,
            open,
            close: open + 1 + label.len(),
            end: open + label.len() + dest.len() + 4,
        }) || links(s)[r].open < open < links(s)[r].end,
{
    link_from_is_found(s, 0, open, label, dest)
}

proof fn link_from_is_found(
    s: Seq<char>,
    i: int,
    open: int,
    label: Seq<char>,
    dest: Seq<char>,
) -> (r: int)
    requires
        0 <= i <= open,
        open + label.len() + dest.len() + 4 <= s.len(),
        forall|k: int| 0 <= k < open ==> (#[trigger] s[k]) != '`' && s[k] != '~',
        open > 0 ==> s[open - 1] != '\\' && s[open - 1] != '!',
        s.subrange(open, open + label.len() + dest.len() + 4) == seq!['['] + label + seq![']', '(']
            + dest + seq![')'],
        forall|k: int| 0 <= k < label.len() ==> #[trigger] label[k] != ']',
        parentheses_close(dest),
    ensures
        0 <= r < links_from(s, i, None).len(),
        links_from(s, i, None)[r] == (Link {
            image: false,
            open,
            close: open + 1 + label.len(),
            end: open + label.len() + dest.len() + 4,
        }) || links_from(s, i, None)[r].open < open < links_from(s, i, None)[r].end,
    decreases open - i,
{
    let here = links_from(s, i, None);
    let text = seq!['['] + label + seq![']', '('] + dest + seq![')'];
    let close = open + 1 + label.len();
    let end = open + label.len() + dest.len() + 4;
    assert forall|k: int| open <= k < end implies s[k] == #[trigger] text[k - open] by {
        assert(s.subrange(open, end)[k - open] == s[k]);
    }
    if i == open {
        assert(s[open] == text[0]);
        assert forall|k: int| open + 1 <= k < close implies #[trigger] s[k] != ']' by {
            assert(s[k] == text[k - open]);
            assert(text[k - open] == label[k - open - 1]);
        }
        assert(s[close] == text[close - open]);
        assert(s[close + 1] == text[close + 1 - open]);
        assert(s[end - 1] == text[end - 1 - open]);
        next_char_found(s, open + 1, close, ']');
        assert(s.subrange(close + 2, close + 2 + dest.len()) =~= dest) by {
            assert forall|k: int| 0 <= k < dest.len() implies s[close + 2 + k]
                == #[trigger] dest[k] by {
                assert(s[close + 2 + k] == text[close + 2 + k - open]);
            }
        }
        closing_paren_found(s, close + 2, dest, 0);
        assert(count_char(dest, 0, '(') == 0 && count_char(dest, 0, ')') == 0) by {
            reveal(Seq::filter);
        }
        assert(backslashes_before(s, open) == 0);
        let link = Link { image: false, open, close, end };
        assert(link_here(s, open) == Some(link));
        assert(here == seq![link] + links_from(s, end, None));
        assert(here[0] == link);
        0
    } else {
        assert(s[i] != '`' && s[i] != '~');
        match link_here(s, i) {
            Some(link) => {
                link_at_spelled(s, i, link.image);
                let rest = links_from(s, link.end, None);
                assert(here == seq![link] + rest);
                if link.end > open {
                    assert(here[0] == link);
                    0
                } else {
                    let r = link_from_is_found(s, link.end, open, label, dest);
                    assert(here[r + 1] == rest[r]);
                    r + 1
                }
            },
            None => link_from_is_found(s, i + 1, open, label, dest),
        }
    }
}

/// The links from a place on begin there or behind it.
pub proof fn links_begin_behind(s: Seq<char>, i: int)
    requires
        0 <= i <= s.len(),
    ensures
        forall|k: int|
            0 <= k < links_from(s, i, None).len() ==> (#[trigger] links_from(
                s,
                i,
                None,
            )[k]).open >= i,
{
    links_from_in_order(s, i, None);
}

/// What the destinations of managed images resolve to: an identifier under
/// `attachments/` with one of three extensions is the image of that identifier.
pub proof fn image_destinations_resolve(id: Seq<char>, ending: Seq<char>)
    requires
        is_compact_id(id),
        ending == ".jpg"@ || ending == ".jpeg"@ || ending == ".png"@,
    ensures
        is_attachment_link("attachments/"@ + id + ending, id),
{
}

/// What the destinations of notes resolve to: the identifier of twenty letters and
/// digits, with `.md` behind it and nothing or a title and two dashes before it.
pub proof fn note_destinations_resolve(title: Seq<char>, id: Seq<char>)
    requires
        id.len() == 20,
        forall|i: int|
            0 <= i < id.len() ==> ('a' <= #[trigger] id[i] <= 'z') || ('A' <= id[i] <= 'Z') || ('0'
                <= id[i] <= '9'),
    ensures
        is_snippet_link(id + ".md"@, id),
        is_snippet_link(title + "--"@ + id + ".md"@, id),
{
    assert forall|i: int| 0 <= i < id.len() implies is_alphanumeric(#[trigger] id[i]) by {}
    let none = Seq::<char>::empty();
    assert(none + id =~= id);
    assert(id + ".md"@ == none + id + ".md"@);
    let front = title + "--"@;
    assert(front.subrange(front.len() - "--"@.len(), front.len() as int) =~= "--"@);
    assert("--"@.is_suffix_of(front));
    assert(title + "--"@ + id + ".md"@ == front + id + ".md"@);
}

/// A destination with a scheme resolves to nothing, and neither does one that names
/// data.
pub proof fn external_destinations_stay(
    before: Seq<char>,
    after: Seq<char>,
    target: LocalMarkdownTarget,
)
    requires
        resolves_to(before + "://"@ + after, target) || resolves_to("data:"@ + after, target),
    ensures
        target is UnresolvedLocal,
{
    crate::text::texts_are_found_anywhere(before, "://"@, after);
    assert(("data:"@ + after).subrange(0, "data:"@.len() as int) =~= "data:"@);
    assert("data:"@.is_prefix_of("data:"@ + after));
}

proof fn code_span_end_found(s: Seq<char>, i: int, at: int, len: int)
    requires
        0 <= i <= at <= s.len(),
        0 < len,
        at + len <= s.len(),
        forall|k: int| i <= k < at ==> #[trigger] s[k] != '`',
        forall|k: int| at <= k < at + len ==> #[trigger] s[k] == '`',
        at + len < s.len() ==> s[at + len] != '`',
    ensures
        code_span_end(s, i, len) == Some(at + len),
    decreases at - i,
{
    if i < at {
        run_length_found(s, i, i, '`');
        code_span_end_found(s, i + 1, at, len);
    } else {
        run_length_found(s, i, at + len, '`');
    }
}

/// A code span ends behind the backticks that close it: as many as open it. No code begins
/// where neither a backtick nor a tilde stands.
pub proof fn code_spans_end(ticks: Seq<char>, code: Seq<char>, b: Seq<char>)
    requires
        1 <= ticks.len() <= 2,
        forall|k: int| 0 <= k < ticks.len() ==> #[trigger] ticks[k] == '`',
        code.len() > 0,
        forall|k: int| 0 <= k < code.len() ==> #[trigger] code[k] != '`',
        b.len() > 0 ==> b[0] != '`',
    ensures
        code_end(ticks + code + ticks + b, 0) == 2 * ticks.len() + code.len(),
        b.len() > 0 && b[0] != '~' ==> code_end(b, 0) == 0,
{
    let s = ticks + code + ticks + b;
    let n = ticks.len() as int;
    let at = n + code.len();
    assert forall|k: int| 0 <= k < n implies #[trigger] s[k] == '`' by {
        assert(s[k] == ticks[k]);
    }
    assert forall|k: int| n <= k < at implies #[trigger] s[k] != '`' by {
        assert(s[k] == code[k - n]);
    }
    assert forall|k: int| at <= k < at + n implies #[trigger] s[k] == '`' by {
        assert(s[k] == ticks[k - at]);
    }
    if b.len() > 0 {
        assert(s[at + n] == b[0]);
    }
    assert(s[n] == code[0]);
    assert(s[0] == '`');
    run_length_found(s, 0, n, '`');
    code_span_end_found(s, n, at, n);
    assert(backslashes_before(s, 0) == 0);
}

proof fn fence_end_found(s: Seq<char>, i: int, at: int, end: int, marker: char, len: int)
    requires
        0 <= i <= at < end <= s.len(),
        marker == '`' || marker == '~',
        0 < len <= end - at,
        forall|k: int| i <= k < at ==> #[trigger] s[k] != marker,
        i < at ==> s[at - 1] == '\n',
        forall|k: int| at <= k < end ==> #[trigger] s[k] == marker,
        end < s.len() ==> s[end] == '\n',
    ensures
        fence_end(s, i, marker, len) == end,
    decreases at - i,
{
    if i < at {
        run_length_bounds(s, i, ' ');
        let from = i + run_length(s, i, ' ');
        spaces_stop(s, i, at - 1);
        assert(s[from] != marker);
        run_length_found(s, from, from, marker);
        line_found(s, i, at - 1);
        let line_end = next_char(s, i, '\n');
        fence_end_found(s, line_end + 1, at, end, marker, len);
    } else {
        assert(s[i] == marker);
        run_length_found(s, i, i, ' ');
        run_length_found(s, i, end, marker);
        run_length_found(s, end, end, ' ');
    }
}

proof fn spaces_stop(s: Seq<char>, i: int, stop: int)
    requires
        0 <= i <= stop < s.len(),
        s[stop] != ' ',
    ensures
        i + run_length(s, i, ' ') <= stop,
    decreases stop - i,
{
    if i < stop && s[i] == ' ' {
        spaces_stop(s, i + 1, stop);
    }
}

proof fn line_found(s: Seq<char>, i: int, stop: int)
    requires
        0 <= i <= stop < s.len(),
        s[stop] == '\n',
    ensures
        i <= next_char(s, i, '\n') <= stop,
    decreases stop - i,
{
    if i < stop && s[i] != '\n' {
        line_found(s, i + 1, stop);
    }
}

/// A fenced block ends behind the line of marks that closes it: at least as many as open
/// it, on a line of their own.
pub proof fn fenced_blocks_end(
    marker: char,
    opening: Seq<char>,
    block: Seq<char>,
    closing: Seq<char>,
    b: Seq<char>,
)
    requires
        marker == '`' || marker == '~',
        3 <= opening.len() <= closing.len(),
        forall|k: int| 0 <= k < opening.len() ==> #[trigger] opening[k] == marker,
        forall|k: int| 0 <= k < block.len() ==> #[trigger] block[k] != marker,
        forall|k: int| 0 <= k < closing.len() ==> #[trigger] closing[k] == marker,
        b.len() > 0 ==> b[0] == '\n',
    ensures
        code_end(opening + seq!['\n'] + block + seq!['\n'] + closing + b, 0) == opening.len()
            + block.len() + closing.len() + 2,
{
    let s = opening + seq!['\n'] + block + seq!['\n'] + closing + b;
    let n = opening.len() as int;
    let at = n + block.len() + 2;
    let end = at + closing.len();
    assert forall|k: int| 0 <= k < n implies #[trigger] s[k] == marker by {
        assert(s[k] == opening[k]);
    }
    assert(s[n] == '\n');
    assert forall|k: int| n + 1 <= k < at implies #[trigger] s[k] != marker by {
        if k < at - 1 {
            assert(s[k] == block[k - n - 1]);
        }
    }
    assert(s[at - 1] == '\n');
    assert forall|k: int| at <= k < end implies #[trigger] s[k] == marker by {
        assert(s[k] == closing[k - at]);
    }
    if b.len() > 0 {
        assert(s[end] == b[0]);
    }
    assert(s[0] == marker);
    run_length_found(s, 0, n, marker);
    next_char_found(s, n, n, '\n');
    next_char_bounds(s, n, '`');
    assert(spaces_start(s, 0) == 0);
    assert(opens_fence(s, 0));
    fence_end_found(s, n + 1, at, end, marker, n);
}

} // verus!
