//! Answers: their citations, what is shown with them, and the text that is saved.
use crate::data::ai::types::{Message, MessageStatus, SnippetProposal, SourceRef, SourceTarget,
    ToolRecord};
use crate::data::ai::usage::TokenUsage;
use crate::data::ids::{ContainerId, EntityId};
use crate::data::markdown_targets::{backslashes_before, code_end, code_end_bounds, code_spans_end,
    escaped, fenced_blocks_end, find_code_end, find_link_end, link_end, link_end_bounds, link_here,
    link_here_moves, links, links_are_recognised, links_begin_behind, links_from, next_char_found,
    parentheses_close};
use crate::data::workspace::Workspace;
use crate::text::{chars_of, decimal, decimal_text, first_chars, join, join2, join3, joined, lines,
    lines_of, string_between, take_chars, texts, trim, trimmed};
use vstd::prelude::*;

verus! {

/// A decimal digit.
pub open spec fn is_digit(c: char) -> bool {
    '0' <= c <= '9'
}

/// The bracket that closes the digits from `j` on, up to `stop`.
pub open spec fn bracket_end(s: Seq<char>, j: int, stop: int) -> Option<int>
    decreases s.len() - j,
{
    if j < 0 || j >= s.len() || j > stop {
        None
    } else if s[j] == ']' {
        Some(j)
    } else if is_digit(s[j]) {
        bracket_end(s, j + 1, stop)
    } else {
        None
    }
}

/// The closing bracket stands behind digits, within the bounds.
pub proof fn bracket_end_bounds(s: Seq<char>, j: int, stop: int)
    ensures
        bracket_end(s, j, stop) matches Some(end) ==> {
            &&& j <= end < s.len()
            &&& end <= stop
            &&& forall|k: int| j <= k < end ==> is_digit(#[trigger] s[k])
        },
    decreases s.len() - j,
{
    if 0 <= j < s.len() && j <= stop && s[j] != ']' && is_digit(s[j]) {
        bracket_end_bounds(s, j + 1, stop);
    }
}

/// The number that digits stand for.
pub open spec fn number_of(digits: Seq<char>) -> nat
    decreases digits.len(),
{
    if digits.len() == 0 {
        0
    } else {
        number_of(digits.drop_last()) * 10 + (digits.last() as nat - '0' as nat) as nat
    }
}

/// The link that the citation at `i` stands for, and where it ends.
pub open spec fn cited(s: Seq<char>, i: int, sources: Seq<SourceRef>) -> Option<(int, Seq<char>)> {
    match bracket_end(s, i + 1, i + 6) {
        Some(end) => {
            let n = number_of(s.subrange(i + 1, end));
            if s[i] == '[' && end > i + 1 && 1 <= n <= sources.len() {
                match sources[n - 1].target {
                    SourceTarget::Snippet(id) => Some(
                        (end + 1, "["@ + decimal_text(n) + "]("@ + id@ + ".md)"@),
                    ),
                    _ => None,
                }
            } else {
                None
            }
        },
        None => None,
    }
}

/// Where the code or the Markdown link that begins at `i` ends, or `i` if neither
/// begins there.
pub open spec fn verbatim_end(s: Seq<char>, i: int) -> int {
    if code_end(s, i) > i {
        code_end(s, i)
    } else {
        link_end(s, i)
    }
}

/// The text from `i` on, with citations as links. Code and Markdown links are
/// left as they are.
pub open spec fn linked_from(s: Seq<char>, i: int, sources: Seq<SourceRef>) -> Seq<char>
    decreases s.len() - i,
{
    proof {
        bracket_end_bounds(s, i + 1, i + 6);
        if 0 <= i < s.len() {
            code_end_bounds(s, i);
            link_end_bounds(s, i);
        }
    }
    if i < 0 || i >= s.len() {
        Seq::empty()
    } else if verbatim_end(s, i) > i {
        s.subrange(i, verbatim_end(s, i)) + linked_from(s, verbatim_end(s, i), sources)
    } else {
        match cited(s, i, sources) {
            Some((end, link)) => link + linked_from(s, end, sources),
            None => seq![s[i]] + linked_from(s, i + 1, sources),
        }
    }
}

/// The text of an answer: `[n]` leads to its `n`th source, if that is a snippet.
/// Other text is left as it is, and so are code and Markdown links.
pub open spec fn linked_text(content: Seq<char>, sources: Seq<SourceRef>) -> Seq<char> {
    if sources.len() == 0 {
        content
    } else {
        linked_from(content, 0, sources)
    }
}

fn citation_end(s: &Vec<char>, i: usize) -> (r: Option<usize>)
    requires
        i < s@.len(),
    ensures
        match r {
            Some(end) => bracket_end(s@, i + 1, i + 6) == Some(end as int),
            None => bracket_end(s@, i + 1, i + 6) is None,
        },
{
    let size = s.len();
    let mut j: usize = i + 1;
    while j < size && j - i <= 6
        invariant
            i < j <= s@.len(),
            size == s@.len(),
            bracket_end(s@, i + 1, i + 6) == bracket_end(s@, j as int, i + 6),
        decreases s@.len() - j,
    {
        if s[j] == ']' {
            return Some(j);
        }
        if !('0' <= s[j] && s[j] <= '9') {
            return None;
        }
        j = j + 1;
    }
    None
}

fn digit(c: char) -> (r: usize)
    requires
        is_digit(c),
    ensures
        r == c as int - '0' as int,
{
    if c == '0' {
        0
    } else if c == '1' {
        1
    } else if c == '2' {
        2
    } else if c == '3' {
        3
    } else if c == '4' {
        4
    } else if c == '5' {
        5
    } else if c == '6' {
        6
    } else if c == '7' {
        7
    } else if c == '8' {
        8
    } else {
        9
    }
}

/// The number that at most five digits stand for.
fn read_number(s: &Vec<char>, from: usize, to: usize) -> (r: usize)
    requires
        from <= to <= s@.len(),
        to - from <= 5,
        forall|k: int| from <= k < to ==> is_digit(#[trigger] s@[k]),
    ensures
        r == number_of(s@.subrange(from as int, to as int)),
{
    let mut n: usize = 0;
    let mut k: usize = from;
    let ghost mut limit: int = 1;
    assert(s@.subrange(from as int, from as int) =~= Seq::<char>::empty());
    while k < to
        invariant
            from <= k <= to <= s@.len(),
            to - from <= 5,
            forall|j: int| from <= j < to ==> is_digit(#[trigger] s@[j]),
            n == number_of(s@.subrange(from as int, k as int)),
            n < limit,
            k - from == 0 ==> limit == 1,
            k - from == 1 ==> limit == 10,
            k - from == 2 ==> limit == 100,
            k - from == 3 ==> limit == 1000,
            k - from == 4 ==> limit == 10000,
            k - from == 5 ==> limit == 100000,
        decreases to - k,
    {
        proof {
            let next = s@.subrange(from as int, k + 1);
            assert(next.drop_last() =~= s@.subrange(from as int, k as int));
            assert(next.last() == s@[k as int]);
            limit = limit * 10;
        }
        n = n * 10 + digit(s[k]);
        k = k + 1;
    }
    n
}

/// The text of an answer with its citations as links.
pub fn citation_linked_content(message: &Message) -> (r: String)
    ensures
        r@ == linked_text(message.content@, message.sources@),
{
    let sources = &message.sources;
    if sources.len() == 0 {
        return message.content.clone();
    }
    let s = chars_of(&message.content);
    let mut out = String::new();
    let mut i: usize = 0;
    assert(out@ + linked_from(s@, 0, sources@) =~= linked_from(s@, 0, sources@));
    while i < s.len()
        invariant
            i <= s@.len(),
            out@ + linked_from(s@, i as int, sources@) == linked_from(s@, 0, sources@),
        decreases s@.len() - i,
    {
        proof {
            bracket_end_bounds(s@, i + 1, i + 6);
            code_end_bounds(s@, i as int);
            link_end_bounds(s@, i as int);
        }
        let ghost so_far = out@;
        let code = find_code_end(&s, i);
        let kept = if code > i {
            code
        } else {
            find_link_end(&s, i)
        };
        if kept > i {
            out.append(&string_between(&s, i, kept));
            assert(out@ + linked_from(s@, kept as int, sources@) =~= so_far + (s@.subrange(
                i as int,
                kept as int,
            ) + linked_from(s@, kept as int, sources@)));
            i = kept;
            continue ;
        }
        let mut link: Option<(usize, usize)> = None;
        if s[i] == '[' {
            match citation_end(&s, i) {
                Some(end) => {
                    if end > i + 1 {
                        let n = read_number(&s, i + 1, end);
                        if n >= 1 && n <= sources.len() {
                            link = Some((end, n));
                        }
                    }
                },
                None => {},
            }
        }
        let mut text: Option<(usize, String)> = None;
        match link {
            Some((end, n)) => match &sources[n - 1].target {
                SourceTarget::Snippet(id) => {
                    let front = join3("[", &decimal(n as u64), "](");
                    text = Some((end, join3(&front, id.as_str(), ".md)")));
                },
                _ => {},
            },
            None => {},
        }
        match text {
            Some((end, text)) => {
                assert(cited(s@, i as int, sources@) == Some((end + 1, text@)));
                out.append(&text);
                i = end + 1;
                assert(out@ + linked_from(s@, i as int, sources@) =~= so_far + (text@
                    + linked_from(s@, i as int, sources@)));
            },
            None => {
                assert(cited(s@, i as int, sources@) is None);
                out = join2(&out, &string_between(&s, i, i + 1));
                assert(s@.subrange(i as int, i + 1) =~= seq![s@[i as int]]);
                assert(out@ + linked_from(s@, i + 1, sources@) =~= so_far + (seq![s@[i as int]]
                    + linked_from(s@, i + 1, sources@)));
                i = i + 1;
            },
        }
    }
    assert(out@ =~= out@ + linked_from(s@, i as int, sources@));
    out
}

/// A text without citations is left as it is: an answer changes only where a
/// bracket opens.
pub proof fn plain_answers_stay(content: Seq<char>, sources: Seq<SourceRef>)
    requires
        forall|i: int| 0 <= i < content.len() ==> #[trigger] content[i] != '[',
    ensures
        linked_text(content, sources) == content,
{
    if sources.len() > 0 {
        plain_tail_stays(content, 0, sources);
        assert(content.skip(0) =~= content);
    }
}

proof fn plain_tail_stays(content: Seq<char>, i: int, sources: Seq<SourceRef>)
    requires
        forall|j: int| 0 <= j < content.len() ==> #[trigger] content[j] != '[',
        0 <= i <= content.len(),
    ensures
        linked_from(content, i, sources) == content.skip(i),
    decreases content.len() - i,
{
    if i < content.len() {
        code_end_bounds(content, i);
        link_end_bounds(content, i);
        let end = verbatim_end(content, i);
        if end > i {
            plain_tail_stays(content, end, sources);
            assert(content.skip(i) =~= content.subrange(i, end) + content.skip(end));
        } else {
            plain_tail_stays(content, i + 1, sources);
            assert(content[i] != '[');
            assert(content.skip(i) =~= seq![content[i]] + content.skip(i + 1));
        }
    } else {
        assert(content.skip(i) =~= Seq::<char>::empty());
    }
}

/// An answer that is one piece of code or one Markdown link is left as it is.
pub proof fn code_and_links_stay(content: Seq<char>, sources: Seq<SourceRef>)
    requires
        content.len() > 0,
        verbatim_end(content, 0) == content.len(),
    ensures
        linked_text(content, sources) == content,
{
    if sources.len() > 0 {
        let end = content.len() as int;
        assert(linked_from(content, end, sources) =~= Seq::<char>::empty());
        assert(content.subrange(0, end) + Seq::<char>::empty() =~= content);
    }
}

/// A line of the list of sources.
pub open spec fn source_entry(n: nat, source: SourceRef) -> Seq<char> {
    match source.target {
        SourceTarget::Snippet(id) => decimal_text(n) + ". ["@ + source.title@ + "]("@ + id@
            + ".md)\n"@,
        _ => decimal_text(n) + ". "@ + source.title@ + "\n"@,
    }
}

/// The list of sources.
pub open spec fn source_entries(sources: Seq<SourceRef>) -> Seq<char>
    decreases sources.len(),
{
    if sources.len() == 0 {
        Seq::empty()
    } else {
        source_entries(sources.drop_last()) + source_entry(sources.len(), sources.last())
    }
}

/// The text that is saved of an answer: the answer, and a list of the sources that
/// it used. Snippets are linked, others are named.
pub open spec fn output_text(content: Seq<char>, sources: Seq<SourceRef>) -> Seq<char> {
    if sources.len() == 0 {
        content
    } else {
        content + "\n\n## Sources\n\n"@ + source_entries(sources)
    }
}

/// The text that is saved of an answer.
pub fn output_content_with_sources(content: &str, sources: &Vec<SourceRef>) -> (r: String)
    ensures
        r@ == output_text(content@, sources@),
{
    let mut output = content.to_owned();
    if sources.len() == 0 {
        return output;
    }
    output.append("\n\n## Sources\n\n");
    let ghost front = output@;
    let mut i: usize = 0;
    assert(sources@.take(0) =~= Seq::<SourceRef>::empty());
    assert(output@ =~= front + source_entries(sources@.take(0)));
    while i < sources.len()
        invariant
            i <= sources@.len(),
            output@ == front + source_entries(sources@.take(i as int)),
        decreases sources@.len() - i,
    {
        let source = &sources[i];
        proof {
            assert(sources@.take(i + 1).drop_last() =~= sources@.take(i as int));
            assert(sources@.take(i + 1).last() == sources@[i as int]);
        }
        let number = decimal(i as u64 + 1);
        let entry = match &source.target {
            SourceTarget::Snippet(id) => {
                let named = join3(&number, ". [", &source.title);
                let linked = join3(&named, "](", id.as_str());
                join2(&linked, ".md)\n")
            },
            _ => {
                let named = join3(&number, ". ", &source.title);
                join2(&named, "\n")
            },
        };
        assert(entry@ =~= source_entry((i + 1) as nat, sources@[i as int]));
        let ghost before = output@;
        output.append(&entry);
        assert(output@ =~= front + source_entries(sources@.take(i + 1)));
        i = i + 1;
    }
    assert(sources@.take(i as int) =~= sources@);
    output
}

/// The first line that is not blank, without the space around it.
pub open spec fn first_words(lines: Seq<Seq<char>>) -> Option<Seq<char>>
    decreases lines.len(),
{
    if lines.len() == 0 {
        None
    } else if trimmed(lines[0]).len() > 0 {
        Some(trimmed(lines[0]))
    } else {
        first_words(lines.skip(1))
    }
}

/// The title of a snippet that is made of an answer: the beginning of its first
/// line.
pub open spec fn output_title_text(content: Seq<char>) -> Seq<char> {
    match first_words(lines_of(content)) {
        Some(words) => first_chars(words, 40),
        None => "AI Output"@,
    }
}

/// The title of a snippet that is made of an answer.
pub fn output_title(content: &str) -> (r: String)
    ensures
        r@ == output_title_text(content@),
{
    let all = lines(content);
    let ghost wanted = texts(all@);
    let mut i: usize = 0;
    assert(wanted.skip(0) =~= wanted);
    while i < all.len()
        invariant
            i <= all@.len(),
            wanted == texts(all@),
            wanted == lines_of(content@),
            first_words(wanted) == first_words(wanted.skip(i as int)),
        decreases all@.len() - i,
    {
        proof {
            assert(wanted.skip(i as int)[0] == all@[i as int]@);
            assert(wanted.skip(i as int).skip(1) =~= wanted.skip(i + 1));
        }
        let words = trim(&all[i]);
        if !words.as_str().is_empty() {
            return take_chars(&words, 40);
        }
        i = i + 1;
    }
    assert(wanted.skip(i as int).len() == 0);
    "AI Output".to_owned()
}

/// The badge of an answer that is not complete.
pub fn status_badge(status: MessageStatus) -> (r: Option<&'static str>)
    ensures
        match status {
            MessageStatus::Completed => r is None,
            MessageStatus::Stopped => r matches Some(t) && t@ == "STOPPED"@,
            MessageStatus::Failed => r matches Some(t) && t@ == "FAILED"@,
            MessageStatus::Stale => r matches Some(t) && t@ == "SOURCE CHANGED"@,
        },
{
    match status {
        MessageStatus::Completed => None,
        MessageStatus::Stopped => Some("STOPPED"),
        MessageStatus::Failed => Some("FAILED"),
        MessageStatus::Stale => Some("SOURCE CHANGED"),
    }
}

/// The counts that a provider reported, in words.
pub open spec fn usage_parts(usage: TokenUsage) -> Seq<Seq<char>> {
    let front = match usage.input_tokens {
        Some(n) => seq!["in "@ + decimal_text(n as nat)],
        None => Seq::empty(),
    };
    match usage.output_tokens {
        Some(n) => front.push("out "@ + decimal_text(n as nat)),
        None => front,
    }
}

/// What is shown of the counts that a provider reported, if it did.
pub fn usage_text(usage: &Option<TokenUsage>) -> (r: Option<String>)
    ensures
        match *usage {
            Some(usage) => if usage_parts(usage).len() > 0 {
                r matches Some(t) && t@ == joined(usage_parts(usage), " · "@) + " tokens"@
            } else {
                r is None
            },
            None => r is None,
        },
{
    match usage {
        Some(usage) => {
            let mut parts: Vec<String> = Vec::new();
            match usage.input_tokens {
                Some(n) => {
                    parts.push(join2("in ", &decimal(n as u64)));
                },
                None => {},
            }
            match usage.output_tokens {
                Some(n) => {
                    parts.push(join2("out ", &decimal(n as u64)));
                },
                None => {},
            }
            assert(texts(parts@) =~= usage_parts(*usage));
            if parts.len() == 0 {
                None
            } else {
                Some(join2(&join(&parts, " · "), " tokens"))
            }
        },
        None => None,
    }
}

/// What is shown of a tool call.
pub fn receipt_text(record: &ToolRecord) -> (r: String)
    ensures
        r@ == "tool "@ + record.tool_id@ + ": "@ + record.summary@,
{
    let front = join3("tool ", &record.tool_id, ": ");
    join2(&front, &record.summary)
}

/// What is shown of the text of a proposed snippet, if it has any.
pub fn proposal_preview(content: &str) -> (r: Option<String>)
    ensures
        match r {
            Some(t) => content@.len() > 0 && t@ == if content@.len() > 200 {
                first_chars(content@, 200) + "…"@
            } else {
                content@
            },
            None => content@.len() == 0,
        },
{
    let total = chars_of(content).len();
    if total == 0 {
        return None;
    }
    if total > 200 {
        Some(join2(&take_chars(content, 200), "…"))
    } else {
        Some(content.to_owned())
    }
}

/// Where a proposed snippet would be saved.
pub fn destination_text(workspace: &Workspace, ai_box: &ContainerId) -> (r: String)
    ensures
        r@ == "Save to: "@ + if workspace.has_container(ai_box@) {
            workspace.containers@[ai_box@].title@
        } else {
            "(deleted AI box)"@
        },
{
    match workspace.containers.get(ai_box) {
        Some(container) => join2("Save to: ", &container.title),
        None => join2("Save to: ", "(deleted AI box)"),
    }
}

/// What became of a proposed snippet.
#[derive(Debug)]
pub enum ProposalState {
    /// It was made, and can be opened.
    Saved(EntityId),
    Rejected,
    /// The user has not decided.
    Undecided,
}

/// What became of a proposed snippet.
pub open spec fn state_of(proposal: SnippetProposal) -> ProposalState {
    match proposal.created {
        Some(id) => ProposalState::Saved(id),
        None => if proposal.rejected {
            ProposalState::Rejected
        } else {
            ProposalState::Undecided
        },
    }
}

/// What became of a proposed snippet.
pub fn proposal_state(proposal: &SnippetProposal) -> (r: ProposalState)
    ensures
        r == state_of(*proposal),
{
    match &proposal.created {
        Some(id) => ProposalState::Saved(id.clone()),
        None => if proposal.rejected {
            ProposalState::Rejected
        } else {
            ProposalState::Undecided
        },
    }
}

/// What can be done with an answer.
#[derive(Clone, Copy, Debug, PartialEq, Eq, Structural)]
pub enum AnswerChoice {
    Copy,
    Retry,
    SaveAsSnippet,
}

/// What can be done with an answer: one that is not complete can be tried again,
/// one that is can be saved.
pub open spec fn answer_menu_of(status: MessageStatus, content: Seq<char>) -> Seq<AnswerChoice> {
    if status != MessageStatus::Completed {
        seq![AnswerChoice::Copy, AnswerChoice::Retry]
    } else if trimmed(content).len() > 0 {
        seq![AnswerChoice::Copy, AnswerChoice::SaveAsSnippet]
    } else {
        seq![AnswerChoice::Copy]
    }
}

/// What can be done with an answer.
pub fn answer_menu(message: &Message) -> (r: Vec<AnswerChoice>)
    ensures
        r@ == answer_menu_of(message.status, message.content@),
{
    let mut menu: Vec<AnswerChoice> = Vec::new();
    menu.push(AnswerChoice::Copy);
    if message.status != MessageStatus::Completed {
        menu.push(AnswerChoice::Retry);
    } else if !trim(&message.content).as_str().is_empty() {
        menu.push(AnswerChoice::SaveAsSnippet);
    }
    assert(menu@ =~= answer_menu_of(message.status, message.content@));
    menu
}

/// The label of a choice.
pub fn answer_label(choice: AnswerChoice) -> (r: &'static str)
    ensures
        r@ == match choice {
            AnswerChoice::Copy => "Copy"@,
            AnswerChoice::Retry => "Retry"@,
            AnswerChoice::SaveAsSnippet => "Save as Snippet"@,
        },
{
    match choice {
        AnswerChoice::Copy => "Copy",
        AnswerChoice::Retry => "Retry",
        AnswerChoice::SaveAsSnippet => "Save as Snippet",
    }
}

/// What is shown of the answer of a running turn.
pub fn streaming_text(streaming: &str) -> (r: String)
    ensures
        r@ == if streaming@.len() == 0 {
            "…"@
        } else {
            streaming@
        },
{
    if streaming.is_empty() {
        "…".to_owned()
    } else {
        streaming.to_owned()
    }
}

/// Whether Enter sends the question: not with Shift, and not while an input
/// method composes a word, where it ends the word.
pub fn enter_sends(enter: bool, shift: bool, composing: bool) -> (r: bool)
    ensures
        r == (enter && !shift && !composing),
{
    enter && !shift && !composing
}

/// Whether a question is sent: it is not blank, and the button or Enter asks for it.
pub fn sends(button: bool, enter: bool, input: &str) -> (r: bool)
    ensures
        r == ((button || enter) && trimmed(input@).len() > 0),
{
    (button || enter) && !trim(input).as_str().is_empty()
}

proof fn bracket_end_moves(a: Seq<char>, b: Seq<char>, j: int, stop: int)
    requires
        0 <= j <= b.len(),
    ensures
        match bracket_end(b, j, stop) {
            Some(end) => bracket_end(a + b, a.len() + j, a.len() + stop) == Some(a.len() + end),
            None => bracket_end(a + b, a.len() + j, a.len() + stop) is None,
        },
    decreases b.len() - j,
{
    if j < b.len() && j <= stop {
        assert((a + b)[a.len() + j] == b[j]);
        if b[j] != ']' && is_digit(b[j]) {
            bracket_end_moves(a, b, j + 1, stop);
        }
    }
}

/// What becomes of a text without code does not depend on what stands before it.
proof fn linked_tail_moves(a: Seq<char>, b: Seq<char>, i: int, sources: Seq<SourceRef>)
    requires
        0 <= i <= b.len(),
        !escaped(a, a.len() as int),
        forall|k: int| 0 <= k < b.len() ==> (#[trigger] b[k]) != '`' && b[k] != '~',
    ensures
        linked_from(a + b, a.len() + i, sources) == linked_from(b, i, sources),
    decreases b.len() - i,
{
    let s = a + b;
    let n = a.len() as int;
    if i < b.len() {
        assert(s[n + i] == b[i]);
        code_end_bounds(b, i);
        link_end_bounds(b, i);
        link_here_moves(a, b, i);
        bracket_end_moves(a, b, i + 1, i + 6);
        bracket_end_bounds(b, i + 1, i + 6);
        assert(code_end(b, i) == i);
        assert(code_end(s, n + i) == n + i);
        assert(link_end(s, n + i) == n + link_end(b, i));
        if link_end(b, i) > i {
            let end = link_end(b, i);
            linked_tail_moves(a, b, end, sources);
            assert(s.subrange(n + i, n + end) =~= b.subrange(i, end));
        } else {
            if let Some(end) = bracket_end(b, i + 1, i + 6) {
                assert(s.subrange(n + i + 1, n + end) =~= b.subrange(i + 1, end));
            }
            match cited(b, i, sources) {
                Some((end, link)) => {
                    assert(cited(s, n + i, sources) == Some((n + end, link)));
                    linked_tail_moves(a, b, end, sources);
                },
                None => {
                    assert(cited(s, n + i, sources) is None);
                    linked_tail_moves(a, b, i + 1, sources);
                },
            }
        }
    }
}

proof fn plain_front_stays(s: Seq<char>, i: int, n: int, sources: Seq<SourceRef>)
    requires
        0 <= i <= n <= s.len(),
        forall|k: int|
            i <= k < n ==> (#[trigger] s[k]) != '[' && s[k] != '!' && s[k] != '`' && s[k] != '~',
    ensures
        linked_from(s, i, sources) == s.subrange(i, n) + linked_from(s, n, sources),
    decreases n - i,
{
    if i < n {
        assert(s[i] != '[');
        assert(code_end(s, i) == i);
        assert(link_end(s, i) == i);
        assert(cited(s, i, sources) is None);
        plain_front_stays(s, i + 1, n, sources);
        assert(seq![s[i]] + (s.subrange(i + 1, n) + linked_from(s, n, sources)) =~= s.subrange(i, n)
            + linked_from(s, n, sources));
    } else {
        assert(s.subrange(i, n) + linked_from(s, n, sources) =~= linked_from(s, n, sources));
    }
}

proof fn decimal_is_digits(n: nat)
    ensures
        number_of(decimal_text(n)) == n,
        forall|k: int| 0 <= k < decimal_text(n).len() ==> is_digit(#[trigger] decimal_text(n)[k]),
        n < 10 ==> decimal_text(n).len() == 1,
    decreases n,
{
    let d = decimal_text(n);
    if n < 10 {
        assert(d.drop_last() =~= Seq::<char>::empty());
        assert(d.last() as nat == 48 + n);
        assert(number_of(d.drop_last()) == 0);
    } else {
        decimal_is_digits(n / 10);
        assert(d.drop_last() =~= decimal_text(n / 10));
        assert(d.last() as nat == 48 + n % 10);
        assert forall|k: int| 0 <= k < d.len() implies is_digit(#[trigger] d[k]) by {
            if k < d.len() - 1 {
                assert(d[k] == decimal_text(n / 10)[k]);
            }
        }
    }
}

proof fn decimal_is_short(n: nat)
    requires
        n < 100000,
    ensures
        1 <= decimal_text(n).len() <= 5,
{
    reveal_with_fuel(decimal_text, 6);
}

proof fn bracket_end_found(s: Seq<char>, j: int, end: int, stop: int)
    requires
        0 <= j <= end < s.len(),
        end <= stop,
        forall|k: int| j <= k < end ==> is_digit(#[trigger] s[k]),
        s[end] == ']',
    ensures
        bracket_end(s, j, stop) == Some(end),
    decreases end - j,
{
    if j < end {
        assert(is_digit(s[j]));
        bracket_end_found(s, j + 1, end, stop);
    }
}

/// Every citation leads to its own source: `[n]` becomes a link to the `n`th source
/// if that is a note, and stays as it is if it is none or if there is no such source.
/// Text before it stays, and the text behind it, which is no destination, is linked
/// for itself.
pub proof fn citations_lead_to_their_sources(
    a: Seq<char>,
    n: nat,
    b: Seq<char>,
    sources: Seq<SourceRef>,
)
    requires
        n < 100000,
        forall|k: int|
            0 <= k < a.len() ==> (#[trigger] a[k]) != '[' && a[k] != '!' && a[k] != '`' && a[k]
                != '~' && a[k] != '\\',
        forall|k: int| 0 <= k < b.len() ==> (#[trigger] b[k]) != '`' && b[k] != '~',
        b.len() > 0 ==> b[0] != '(',
    ensures
        ({
            let content = a + seq!['['] + decimal_text(n) + seq![']'] + b;
            if 1 <= n <= sources.len() {
                match sources[n as int - 1].target {
                    SourceTarget::Snippet(id) => linked_text(content, sources) == a + seq!['[']
                        + decimal_text(n) + seq![']', '('] + id@ + seq!['.', 'm', 'd', ')']
                        + linked_text(b, sources),
                    _ => linked_text(content, sources) == a + seq!['['] + decimal_text(n)
                        + seq![']'] + linked_text(b, sources),
                }
            } else {
                linked_text(content, sources) == a + seq!['['] + decimal_text(n) + seq![']']
                    + linked_text(b, sources)
            }
        }),
{
    let digits = decimal_text(n);
    let content = a + seq!['['] + digits + seq![']'] + b;
    if sources.len() > 0 {
        let rest = linked_from(b, 0, sources);
        citation_between(a, digits, n, b, sources);
        if 1 <= n <= sources.len() && sources[n - 1].target is Snippet {
            let id = sources[n - 1].target->Snippet_0;
            regroup_link(a, digits, id@, rest);
        } else {
            regroup_mark(a, digits, rest);
        }
    }
}

proof fn regroup_link(a: Seq<char>, digits: Seq<char>, id: Seq<char>, rest: Seq<char>)
    ensures
        a + ((seq!['['] + digits + seq![']'] + seq!['('] + id + seq!['.', 'm', 'd', ')']) + rest)
            == a + seq!['['] + digits + seq![']', '('] + id + seq!['.', 'm', 'd', ')'] + rest,
{
    assert(a + ((seq!['['] + digits + seq![']'] + seq!['('] + id + seq!['.', 'm', 'd', ')']) + rest)
        =~= a + seq!['['] + digits + seq![']', '('] + id + seq!['.', 'm', 'd', ')'] + rest);
}

proof fn regroup_mark(a: Seq<char>, digits: Seq<char>, rest: Seq<char>)
    ensures
        a + ((seq!['['] + digits + seq![']']) + rest) == a + seq!['['] + digits + seq![']'] + rest,
{
    assert(a + ((seq!['['] + digits + seq![']']) + rest) =~= a + seq!['['] + digits + seq![']']
        + rest);
}

proof fn citation_between(
    a: Seq<char>,
    digits: Seq<char>,
    n: nat,
    b: Seq<char>,
    sources: Seq<SourceRef>,
)
    requires
        n < 100000,
        digits == decimal_text(n),
        forall|k: int|
            0 <= k < a.len() ==> (#[trigger] a[k]) != '[' && a[k] != '!' && a[k] != '`' && a[k]
                != '~' && a[k] != '\\',
        forall|k: int| 0 <= k < b.len() ==> (#[trigger] b[k]) != '`' && b[k] != '~',
        b.len() > 0 ==> b[0] != '(',
    ensures
        linked_from(a + seq!['['] + digits + seq![']'] + b, 0, sources) == a + (citation_text(
            n,
            sources,
        ) + linked_from(b, 0, sources)),
{
    let front = a + seq!['['] + digits + seq![']'];
    let s = front + b;
    let open = a.len() as int;
    let end = open + 1 + digits.len();
    assert(s.len() == end + 1 + b.len());
    assert forall|k: int| 0 <= k < open implies (#[trigger] s[k]) != '[' && s[k] != '!' && s[k]
        != '`' && s[k] != '~' by {
        assert(s[k] == a[k]);
    }
    assert(linked_from(s, 0, sources) == a + linked_from(s, open, sources)) by {
        plain_front_stays(s, 0, open, sources);
        assert(s.subrange(0, open) =~= a);
    }
    if b.len() > 0 {
        assert(s[end + 1] == b[0]);
    }
    if open > 0 {
        assert(s[open - 1] == a[open - 1]);
    }
    assert(s.subrange(open + 1, end) =~= digits);
    citation_is_read(s, open, end, n, sources);
    assert(linked_from(s, end + 1, sources) == linked_from(b, 0, sources)) by {
        assert(front[front.len() - 1] == ']');
        linked_tail_moves(front, b, 0, sources);
    }
}

spec fn citation_text(n: nat, sources: Seq<SourceRef>) -> Seq<char> {
    let mark = seq!['['] + decimal_text(n) + seq![']'];
    if 1 <= n <= sources.len() {
        match sources[n as int - 1].target {
            SourceTarget::Snippet(id) => mark + seq!['('] + id@ + seq!['.', 'm', 'd', ')'],
            _ => mark,
        }
    } else {
        mark
    }
}

proof fn citation_is_read(s: Seq<char>, open: int, end: int, n: nat, sources: Seq<SourceRef>)
    requires
        0 <= open < end < s.len(),
        n < 100000,
        s[open] == '[',
        s[end] == ']',
        s.subrange(open + 1, end) == decimal_text(n),
        end + 1 < s.len() ==> s[end + 1] != '(',
        open > 0 ==> s[open - 1] != '\\',
    ensures
        linked_from(s, open, sources) == citation_text(n, sources) + linked_from(
            s,
            end + 1,
            sources,
        ),
{
    let digits = decimal_text(n);
    decimal_is_digits(n);
    decimal_is_short(n);
    assert(digits.len() == end - open - 1);
    assert forall|k: int| open + 1 <= k < end implies is_digit(#[trigger] s[k]) && s[k] != ']' by {
        assert(s.subrange(open + 1, end)[k - open - 1] == s[k]);
        assert(is_digit(digits[k - open - 1]));
    }
    bracket_end_found(s, open + 1, end, open + 6);
    next_char_found(s, open + 1, end, ']');
    assert(link_here(s, open) is None);
    assert(code_end(s, open) == open);
    assert(verbatim_end(s, open) == open);
    let rest = linked_from(s, end + 1, sources);
    if 1 <= n <= sources.len() && sources[n - 1].target is Snippet {
        reveal_strlit("[");
        reveal_strlit("](");
        reveal_strlit(".md)");
        let id = sources[n - 1].target->Snippet_0;
        let link = "["@ + digits + "]("@ + id@ + ".md)"@;
        assert(cited(s, open, sources) == Some((end + 1, link)));
        assert(link =~= citation_text(n, sources));
    } else {
        assert(cited(s, open, sources) is None);
        digits_stay(s, open + 1, end + 1, sources);
        assert(seq!['['] + (s.subrange(open + 1, end + 1) + rest) =~= citation_text(n, sources)
            + rest) by {
            assert(s.subrange(open + 1, end + 1) =~= digits + seq![']']);
        }
    }
}

proof fn digits_stay(s: Seq<char>, i: int, n: int, sources: Seq<SourceRef>)
    requires
        0 <= i <= n <= s.len(),
        forall|k: int| i <= k < n ==> is_digit(#[trigger] s[k]) || s[k] == ']',
    ensures
        linked_from(s, i, sources) == s.subrange(i, n) + linked_from(s, n, sources),
{
    assert forall|k: int| i <= k < n implies (#[trigger] s[k]) != '[' && s[k] != '!' && s[k] != '`'
        && s[k] != '~' by {
        assert(is_digit(s[k]) || s[k] == ']');
    }
    plain_front_stays(s, i, n, sources);
}

/// Markdown links in an answer stay as they are, whatever their labels, and the text
/// behind them is linked for itself.
pub proof fn links_in_answers_stay(
    label: Seq<char>,
    dest: Seq<char>,
    b: Seq<char>,
    sources: Seq<SourceRef>,
)
    requires
        forall|k: int| 0 <= k < label.len() ==> #[trigger] label[k] != ']',
        parentheses_close(dest),
        forall|k: int| 0 <= k < b.len() ==> (#[trigger] b[k]) != '`' && b[k] != '~',
    ensures
        ({
            let front = seq!['['] + label + seq![']', '('] + dest + seq![')'];
            linked_text(front + b, sources) == front + linked_text(b, sources)
        }),
{
    let front = seq!['['] + label + seq![']', '('] + dest + seq![')'];
    let s = front + b;
    if sources.len() > 0 {
        links_are_recognised(false, label, dest, b);
        let link = links(s)[0];
        assert(s[0] == '[');
        assert(link.open == 0 && link.end == front.len());
        assert(backslashes_before(s, 0) == 0);
        first_link_is_here(s);
        assert(link_end(s, 0) == front.len());
        assert(front[front.len() - 1] == ')');
        linked_tail_moves(front, b, 0, sources);
        assert(s.subrange(0, front.len() as int) =~= front);
    }
}

proof fn first_link_is_here(s: Seq<char>)
    requires
        s.len() > 0,
        s[0] == '[',
        links(s).len() > 0,
        links(s)[0].open == 0,
    ensures
        link_here(s, 0) == Some(links(s)[0]),
{
    if link_here(s, 0) is None {
        assert(links(s) == links_from(s, 1, None));
        links_begin_behind(s, 1);
    }
}

/// The list of sources names every source of an answer, in order and by its number;
/// notes are linked. Returns the lines of the list.
pub proof fn every_source_is_listed(sources: Seq<SourceRef>) -> (lines: Seq<Seq<char>>)
    ensures
        lines.len() == sources.len(),
        source_entries(sources) == joined(lines, Seq::empty()),
        forall|i: int|
            0 <= i < lines.len() ==> #[trigger] lines[i] == match sources[i].target {
                SourceTarget::Snippet(id) => decimal_text((i + 1) as nat) + ". ["@
                    + sources[i].title@ + "]("@ + id@ + ".md)\n"@,
                _ => decimal_text((i + 1) as nat) + ". "@ + sources[i].title@ + "\n"@,
            },
    decreases sources.len(),
{
    if sources.len() == 0 {
        Seq::empty()
    } else {
        let front = sources.drop_last();
        let before = every_source_is_listed(front);
        let last = match sources.last().target {
            SourceTarget::Snippet(id) => decimal_text(sources.len()) + ". ["@
                + sources.last().title@ + "]("@ + id@ + ".md)\n"@,
            _ => decimal_text(sources.len()) + ". "@ + sources.last().title@ + "\n"@,
        };
        let lines = before.push(last);
        assert(lines.drop_last() =~= before);
        if before.len() == 0 {
            assert(source_entries(front) + last =~= last);
        } else {
            assert(joined(before, Seq::empty()) + Seq::<char>::empty() + last =~= source_entries(
                front,
            ) + last);
        }
        assert forall|i: int| 0 <= i < lines.len() implies #[trigger] lines[i] == match sources[i].target {
            SourceTarget::Snippet(id) => decimal_text((i + 1) as nat) + ". ["@ + sources[i].title@
                + "]("@ + id@ + ".md)\n"@,
            _ => decimal_text((i + 1) as nat) + ". "@ + sources[i].title@ + "\n"@,
        } by {
            if i < before.len() {
                assert(lines[i] == before[i]);
                assert(front[i] == sources[i]);
            }
        }
        lines
    }
}

/// An answer is saved whole, before the list of its sources.
pub proof fn answers_are_saved_whole(content: Seq<char>, sources: Seq<SourceRef>)
    ensures
        sources.len() == 0 ==> output_text(content, sources) == content,
        sources.len() > 0 ==> output_text(content, sources) == content + "\n\n## Sources\n\n"@
            + source_entries(sources),
{
}

/// The title of a snippet that is made of an answer is its first line that is not
/// blank, without the space around it and cut after forty characters. Returns which
/// line that is, or the number of lines if all are blank.
pub proof fn titles_are_first_lines(content: Seq<char>) -> (k: int)
    ensures
        0 <= k <= lines_of(content).len(),
        forall|i: int| 0 <= i < k ==> trimmed(#[trigger] lines_of(content)[i]).len() == 0,
        k == lines_of(content).len() ==> output_title_text(content) == "AI Output"@,
        k < lines_of(content).len() ==> {
            let words = trimmed(lines_of(content)[k]);
            &&& words.len() > 0
            &&& words.len() <= 40 ==> output_title_text(content) == words
            &&& words.len() > 40 ==> output_title_text(content) == words.take(40)
        },
{
    first_words_at(lines_of(content))
}

proof fn first_words_at(lines: Seq<Seq<char>>) -> (k: int)
    ensures
        0 <= k <= lines.len(),
        forall|i: int| 0 <= i < k ==> trimmed(#[trigger] lines[i]).len() == 0,
        k == lines.len() ==> first_words(lines) is None,
        k < lines.len() ==> trimmed(lines[k]).len() > 0 && first_words(lines) == Some(
            trimmed(lines[k]),
        ),
    decreases lines.len(),
{
    if lines.len() == 0 || trimmed(lines[0]).len() > 0 {
        0
    } else {
        let rest = lines.skip(1);
        let k = first_words_at(rest) + 1;
        assert forall|i: int| 0 <= i < k implies trimmed(#[trigger] lines[i]).len() == 0 by {
            if i > 0 {
                assert(lines[i] == rest[i - 1]);
            }
        }
        if k < lines.len() {
            assert(lines[k] == rest[k - 1]);
        }
        k
    }
}

/// An answer can always be copied. A complete one that is not blank can be saved, and one
/// that is not complete can be asked for again.
pub proof fn answers_can_be_saved_or_asked_again(status: MessageStatus, content: Seq<char>)
    ensures
        answer_menu_of(status, content).contains(AnswerChoice::Copy),
        answer_menu_of(status, content).contains(AnswerChoice::Retry) <==> status
            != MessageStatus::Completed,
        answer_menu_of(status, content).contains(AnswerChoice::SaveAsSnippet) <==> status
            == MessageStatus::Completed && trimmed(content).len() > 0,
{
    let menu = answer_menu_of(status, content);
    assert(menu[0] == AnswerChoice::Copy);
    if menu.len() > 1 {
        assert(menu[1] == AnswerChoice::Retry || menu[1] == AnswerChoice::SaveAsSnippet);
    }
}

/// A proposal that was saved is saved, whatever else is said of it. One that was not is
/// rejected or still open.
pub proof fn proposals_have_one_state(proposal: SnippetProposal)
    ensures
        proposal.created is Some <==> state_of(proposal) is Saved,
        proposal.created matches Some(id) ==> state_of(proposal) == ProposalState::Saved(id),
        state_of(proposal) is Rejected <==> proposal.created is None && proposal.rejected,
        state_of(proposal) is Undecided <==> proposal.created is None && !proposal.rejected,
{
}

/// The counts of an answer name what went in and what came out, as far as the provider
/// reported it.
pub proof fn usage_is_told_in_full(usage: TokenUsage)
    ensures
        match (usage.input_tokens, usage.output_tokens) {
            (Some(a), Some(b)) => usage_parts(usage) == seq![
                "in "@ + decimal_text(a as nat),
                "out "@ + decimal_text(b as nat),
            ],
            (Some(a), None) => usage_parts(usage) == seq!["in "@ + decimal_text(a as nat)],
            (None, Some(b)) => usage_parts(usage) == seq!["out "@ + decimal_text(b as nat)],
            (None, None) => usage_parts(usage).len() == 0,
        },
{
}

proof fn code_at_the_front_stays(front: Seq<char>, b: Seq<char>, sources: Seq<SourceRef>)
    requires
        front.len() > 0,
        front[front.len() - 1] != '\\',
        code_end(front + b, 0) == front.len(),
        forall|k: int| 0 <= k < b.len() ==> (#[trigger] b[k]) != '`' && b[k] != '~',
    ensures
        linked_text(front + b, sources) == front + linked_text(b, sources),
{
    let s = front + b;
    if sources.len() > 0 {
        assert(backslashes_before(front, front.len() as int) == 0);
        linked_tail_moves(front, b, 0, sources);
        assert(s.subrange(0, front.len() as int) =~= front);
    }
}

/// Code spans in an answer stay as they are, whatever stands in them, and the text behind
/// them is linked for itself.
pub proof fn code_spans_in_answers_stay(
    ticks: Seq<char>,
    code: Seq<char>,
    b: Seq<char>,
    sources: Seq<SourceRef>,
)
    requires
        1 <= ticks.len() <= 2,
        forall|k: int| 0 <= k < ticks.len() ==> #[trigger] ticks[k] == '`',
        code.len() > 0,
        forall|k: int| 0 <= k < code.len() ==> #[trigger] code[k] != '`',
        forall|k: int| 0 <= k < b.len() ==> (#[trigger] b[k]) != '`' && b[k] != '~',
    ensures
        linked_text(ticks + code + ticks + b, sources) == ticks + code + ticks + linked_text(
            b,
            sources,
        ),
{
    let front = ticks + code + ticks;
    code_spans_end(ticks, code, b);
    assert(front[front.len() - 1] == ticks[ticks.len() - 1]);
    code_at_the_front_stays(front, b, sources);
}

/// Fenced blocks in an answer stay as they are, whatever stands in them, and the text
/// behind them is linked for itself.
pub proof fn fenced_blocks_in_answers_stay(
    marker: char,
    opening: Seq<char>,
    block: Seq<char>,
    closing: Seq<char>,
    b: Seq<char>,
    sources: Seq<SourceRef>,
)
    requires
        marker == '`' || marker == '~',
        3 <= opening.len() <= closing.len(),
        forall|k: int| 0 <= k < opening.len() ==> #[trigger] opening[k] == marker,
        forall|k: int| 0 <= k < block.len() ==> #[trigger] block[k] != marker,
        forall|k: int| 0 <= k < closing.len() ==> #[trigger] closing[k] == marker,
        b.len() > 0 ==> b[0] == '\n',
        forall|k: int| 0 <= k < b.len() ==> (#[trigger] b[k]) != '`' && b[k] != '~',
    ensures
        ({
            let front = opening + seq!['\n'] + block + seq!['\n'] + closing;
            linked_text(front + b, sources) == front + linked_text(b, sources)
        }),
{
    let front = opening + seq!['\n'] + block + seq!['\n'] + closing;
    fenced_blocks_end(marker, opening, block, closing, b);
    assert(front[front.len() - 1] == closing[closing.len() - 1]);
    code_at_the_front_stays(front, b, sources);
}

} // verus!
