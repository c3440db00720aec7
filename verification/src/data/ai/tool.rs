//! The tools that a model may call.
//!
//! A tool only reads the sources that were bound when the question was sent. The
//! one thing that a tool can produce is a proposal, which the user still has to
//! confirm.
use crate::data::ai::json::{find_member, has_member, member_index, Json, JsonNumber};
use crate::data::ai::types::{SnippetProposal, SourceTarget, ToolRecord, ToolStatus};
use crate::text::{chars_of, contains_text, decimal, decimal_text, first_chars, has_text, join,
    join2, join3, joined, joined_holds_each, lowercase_text, occurs_at, same_text, string_between,
    take_chars, text_at, texts, to_lowercase, trim, trimmed};
use vstd::prelude::*;

verus! {

/// Lists the bound sources.
pub const TOOL_LIST_SOURCES: &'static str = "core.list_sources";

/// Reads one bound source.
pub const TOOL_READ_SOURCE: &'static str = "core.read_source";

/// Searches the bound sources.
pub const TOOL_SEARCH_SOURCES: &'static str = "core.search_sources";

/// Proposes a new note.
pub const TOOL_CREATE_OUTPUT_PROPOSAL: &'static str = "core.create_output_proposal";

/// The most characters that a proposed note may have.
pub const PROPOSAL_MAX_CHARS: usize = 60_000;

/// What a tool can bring about.
#[derive(Clone, Copy, Debug, PartialEq, Eq, Structural)]
pub enum ToolSideEffect {
    ReadOnly,
    /// Data that the user has to confirm.
    Proposal,
}

/// Where a tool comes from.
#[derive(Clone, Copy, Debug, PartialEq, Eq, Structural)]
pub enum ToolSource {
    Builtin,
}

/// A tool, as it is described to models.
#[derive(Debug, PartialEq, Eq)]
pub struct ToolDef {
    /// Stable identifier with a namespace.
    pub id: String,
    pub version: u32,
    pub name: String,
    /// Tells the model when to call the tool.
    pub description: String,
    pub side_effect: ToolSideEffect,
    pub source: ToolSource,
    /// JSON Schema of the arguments.
    pub schema: Json,
    /// The size limit of the result text, in characters.
    pub max_result_bytes: usize,
    /// The most calls in one turn.
    pub max_calls_per_turn: u32,
}

/// A tool call that a model asks for.
#[derive(Debug, PartialEq, Eq)]
pub struct ToolCall {
    pub call_id: String,
    pub tool_id: String,
    pub arguments: Json,
}

/// A source as it was when the question was sent.
#[derive(Debug, PartialEq, Eq)]
pub struct BoundSource {
    /// The number by which the model refers to the source, from one on.
    pub index: u32,
    pub target: SourceTarget,
    pub title: String,
    pub content: String,
    pub content_hash: String,
}

/// All that the tools of one turn can read.
#[derive(Debug, PartialEq, Eq)]
pub struct ToolContext {
    pub sources: Vec<BoundSource>,
}

/// The outcome of a tool call.
#[derive(Debug, PartialEq, Eq)]
pub struct ToolResult {
    /// What the model is told.
    pub content: String,
    /// What the user sees.
    pub record: ToolRecord,
    /// The note that is proposed.
    pub proposal: Option<SnippetProposal>,
}

/// The tools that may be called.
#[derive(Debug, PartialEq, Eq)]
pub struct ToolRegistry {
    tools: Vec<ToolDef>,
}

/// The index of the first tool of this identifier, or the length.
pub open spec fn tool_index(tools: Seq<ToolDef>, id: Seq<char>) -> int
    decreases tools.len(),
{
    if tools.len() == 0 {
        0
    } else if tools[0].id@ == id {
        0
    } else {
        1 + tool_index(tools.drop_first(), id)
    }
}

pub proof fn tool_index_is(tools: Seq<ToolDef>, id: Seq<char>, i: int)
    requires
        0 <= i <= tools.len(),
        forall|j: int| 0 <= j < i ==> #[trigger] tools[j].id@ != id,
        i < tools.len() ==> tools[i].id@ == id,
    ensures
        tool_index(tools, id) == i,
    decreases tools.len(),
{
    if i > 0 {
        let rest = tools.drop_first();
        assert(tools[0].id@ != id);
        assert forall|j: int| 0 <= j < i - 1 implies (#[trigger] rest[j]).id@ != id by {
            assert(rest[j] == tools[j + 1]);
        }
        tool_index_is(rest, id, i - 1);
    }
}

impl ToolRegistry {
    /// The tools, in order.
    pub closed spec fn view(&self) -> Seq<ToolDef> {
        self.tools@
    }

    pub fn new(defs: Vec<ToolDef>) -> (r: Self)
        ensures
            r@ == defs@,
    {
        ToolRegistry { tools: defs }
    }

    /// The built-in tools.
    pub fn builtins() -> (r: Self)
        ensures
            are_builtins(r@),
    {
        ToolRegistry::new(builtin_tools())
    }

    pub fn definitions(&self) -> (r: &Vec<ToolDef>)
        ensures
            r@ == self@,
    {
        &self.tools
    }

    /// The first tool of this identifier.
    pub fn def(&self, id: &str) -> (r: Option<&ToolDef>)
        ensures
            match r {
                Some(def) => tool_index(self@, id@) < self@.len() && *def == self@[tool_index(
                    self@,
                    id@,
                )] && def.id@ == id@,
                None => tool_index(self@, id@) >= self@.len(),
            },
    {
        let mut i: usize = 0;
        while i < self.tools.len()
            invariant
                i <= self.tools@.len(),
                forall|j: int| 0 <= j < i ==> #[trigger] self.tools@[j].id@ != id@,
            decreases self.tools@.len() - i,
        {
            if same_text(&self.tools[i].id, id) {
                proof {
                    tool_index_is(self.tools@, id@, i as int);
                }
                return Some(&self.tools[i]);
            }
            i = i + 1;
        }
        proof {
            tool_index_is(self.tools@, id@, i as int);
        }
        None
    }
}

/// A failed call: the model is told why.
pub open spec fn is_failure(r: ToolResult, call: ToolCall, message: Seq<char>) -> bool {
    &&& r.content@ == "Error: "@ + message
    &&& r.record.tool_id == call.tool_id
    &&& r.record.status == ToolStatus::Failed
    &&& r.record.summary@ == "failed"@
    &&& r.proposal is None
}

/// A call that succeeded, without a proposal.
pub open spec fn is_success(
    r: ToolResult,
    call: ToolCall,
    content: Seq<char>,
    summary: Seq<char>,
) -> bool {
    &&& r.content@ == content
    &&& r.record.tool_id == call.tool_id
    &&& r.record.status == ToolStatus::Succeeded
    &&& r.record.summary@ == summary
    &&& r.proposal is None
}

fn ok(call: &ToolCall, content: String, summary: String) -> (r: ToolResult)
    ensures
        is_success(r, *call, content@, summary@),
{
    ToolResult {
        content,
        record: ToolRecord {
            tool_id: call.tool_id.clone(),
            status: ToolStatus::Succeeded,
            summary,
        },
        proposal: None,
    }
}

/// The outcome of a call that failed.
pub fn failed(call: &ToolCall, message: &str) -> (r: ToolResult)
    ensures
        is_failure(r, *call, message@),
{
    ToolResult {
        content: join2("Error: ", message),
        record: ToolRecord {
            tool_id: call.tool_id.clone(),
            status: ToolStatus::Failed,
            summary: "failed".to_owned(),
        },
        proposal: None,
    }
}

/// The word for the kind of a source.
pub open spec fn kind_text(target: SourceTarget) -> Seq<char> {
    match target {
        SourceTarget::Snippet(_) => "snippet"@,
        SourceTarget::Container(_) => "container"@,
        SourceTarget::ExternalFile(_) => "external_file"@,
    }
}

/// One line of the list of sources: number, title, kind and content hash.
pub open spec fn source_line(source: BoundSource) -> Seq<char> {
    decimal_text(source.index as nat) + ". ["@ + source.title@ + "] ("@ + kind_text(source.target)
        + ", content hash "@ + source.content_hash@ + ")"@
}

/// The list of sources.
pub open spec fn source_list(sources: Seq<BoundSource>) -> Seq<char> {
    joined(sources.map_values(|s: BoundSource| source_line(s)), "\n"@)
}

/// The outcome of listing the sources. No content is part of it.
pub open spec fn lists_sources(
    r: ToolResult,
    call: ToolCall,
    limit: int,
    sources: Seq<BoundSource>,
) -> bool {
    if sources.len() == 0 {
        is_success(
            r,
            call,
            "No sources are bound to this conversation."@,
            "listed 0 bound sources"@,
        )
    } else {
        is_success(
            r,
            call,
            first_chars(source_list(sources), limit),
            "listed "@ + decimal_text(sources.len()) + " bound source(s)"@,
        )
    }
}

fn describe_source(source: &BoundSource) -> (r: String)
    ensures
        r@ == source_line(*source),
{
    let mut r = decimal(source.index as u64);
    r.append(". [");
    r.append(&source.title);
    r.append("] (");
    r.append(
        match &source.target {
            SourceTarget::Snippet(_) => "snippet",
            SourceTarget::Container(_) => "container",
            SourceTarget::ExternalFile(_) => "external_file",
        },
    );
    r.append(", content hash ");
    r.append(&source.content_hash);
    r.append(")");
    r
}

/// Lists the bound sources.
fn list_sources(call: &ToolCall, def: &ToolDef, ctx: &ToolContext) -> (r: ToolResult)
    ensures
        lists_sources(r, *call, def.max_result_bytes as int, ctx.sources@),
{
    if ctx.sources.len() == 0 {
        return ok(
            call,
            "No sources are bound to this conversation.".to_owned(),
            "listed 0 bound sources".to_owned(),
        );
    }
    let ghost wanted = ctx.sources@.map_values(|s: BoundSource| source_line(s));
    let mut lines: Vec<String> = Vec::new();
    let mut i: usize = 0;
    while i < ctx.sources.len()
        invariant
            i <= ctx.sources@.len(),
            lines@.len() == i,
            forall|j: int| 0 <= j < i ==> (#[trigger] lines@[j])@ == source_line(ctx.sources@[j]),
        decreases ctx.sources@.len() - i,
    {
        lines.push(describe_source(&ctx.sources[i]));
        i = i + 1;
    }
    assert(texts(lines@) =~= wanted);
    let content = take_chars(&join(&lines, "\n"), def.max_result_bytes);
    let summary = join3("listed ", &decimal(ctx.sources.len() as u64), " bound source(s)");
    ok(call, content, summary)
}

/// The index of the first source of this number, or the length.
pub open spec fn source_position(sources: Seq<BoundSource>, number: int) -> int
    decreases sources.len(),
{
    if sources.len() == 0 {
        0
    } else if sources[0].index == number {
        0
    } else {
        1 + source_position(sources.drop_first(), number)
    }
}

proof fn source_position_is(sources: Seq<BoundSource>, number: int, i: int)
    requires
        0 <= i <= sources.len(),
        forall|j: int| 0 <= j < i ==> #[trigger] sources[j].index != number,
        i < sources.len() ==> sources[i].index == number,
    ensures
        source_position(sources, number) == i,
    decreases sources.len(),
{
    if i > 0 {
        let rest = sources.drop_first();
        assert(sources[0].index != number);
        assert forall|j: int| 0 <= j < i - 1 implies (#[trigger] rest[j]).index != number by {
            assert(rest[j] == sources[j + 1]);
        }
        source_position_is(rest, number, i - 1);
    }
}

/// The source number that the arguments name: a natural number of 32 bits.
pub open spec fn requested_number(arguments: Json) -> Option<u32> {
    match arguments.member("source"@) {
        Some(Json::Number(JsonNumber::Natural(n))) => if n <= u32::MAX {
            Some(n as u32)
        } else {
            None
        },
        _ => None,
    }
}

/// The outcome of reading a source: the content of the source of that number, or
/// a failure.
pub open spec fn reads_source(
    r: ToolResult,
    call: ToolCall,
    limit: int,
    sources: Seq<BoundSource>,
) -> bool {
    match requested_number(call.arguments) {
        None => is_failure(r, call, "missing 'source' (a 1-based source number)"@),
        Some(number) => {
            let i = source_position(sources, number as int);
            let shown = decimal_text(number as nat);
            if i < sources.len() {
                is_success(
                    r,
                    call,
                    first_chars(
                        "["@ + shown + "] "@ + sources[i].title@ + "\n"@ + sources[i].content@,
                        limit,
                    ),
                    "read source #"@ + shown + " ("@ + sources[i].title@ + ")"@,
                )
            } else {
                is_failure(
                    r,
                    call,
                    "source #"@ + shown + " is not bound to this conversation"@,
                )
            }
        },
    }
}

/// Reads one bound source.
fn read_source(call: &ToolCall, def: &ToolDef, ctx: &ToolContext) -> (r: ToolResult)
    ensures
        reads_source(r, *call, def.max_result_bytes as int, ctx.sources@),
{
    let number: u32 = match call.arguments.get("source") {
        Some(value) => match value.as_u64() {
            Some(n) => {
                if n > u32::MAX as u64 {
                    return failed(call, "missing 'source' (a 1-based source number)");
                }
                n as u32
            },
            None => {
                return failed(call, "missing 'source' (a 1-based source number)");
            },
        },
        None => {
            return failed(call, "missing 'source' (a 1-based source number)");
        },
    };
    let shown = decimal(number as u64);
    let mut i: usize = 0;
    while i < ctx.sources.len()
        invariant
            i <= ctx.sources@.len(),
            forall|j: int| 0 <= j < i ==> #[trigger] ctx.sources@[j].index != number,
            requested_number(call.arguments) == Some(number),
            shown@ == decimal_text(number as nat),
        decreases ctx.sources@.len() - i,
    {
        let source = &ctx.sources[i];
        if source.index == number {
            proof {
                source_position_is(ctx.sources@, number as int, i as int);
            }
            let mut text = join3("[", &shown, "] ");
            text.append(&source.title);
            text.append("\n");
            text.append(&source.content);
            let mut summary = join3("read source #", &shown, " (");
            summary.append(&source.title);
            summary.append(")");
            return ok(call, take_chars(&text, def.max_result_bytes), summary);
        }
        i = i + 1;
    }
    proof {
        source_position_is(ctx.sources@, number as int, i as int);
    }
    failed(call, &join3("source #", &shown, " is not bound to this conversation"))
}

/// The text of a member, without surrounding white space, if there is any.
pub open spec fn text_argument(arguments: Json, name: Seq<char>) -> Option<Seq<char>> {
    match arguments.member(name) {
        Some(Json::Text(text)) => if trimmed(text@).len() > 0 {
            Some(trimmed(text@))
        } else {
            None
        },
        _ => None,
    }
}

fn read_text_argument(arguments: &Json, name: &str) -> (r: Option<String>)
    ensures
        match r {
            Some(text) => text_argument(*arguments, name@) == Some(text@),
            None => text_argument(*arguments, name@) is None,
        },
{
    match arguments.get(name) {
        Some(value) => match value.as_str() {
            Some(text) => {
                let text = trim(text);
                if text.as_str().is_empty() {
                    None
                } else {
                    Some(text)
                }
            },
            None => None,
        },
        None => None,
    }
}

/// Characters before a hit that an excerpt shows.
pub const EXCERPT_LEAD: usize = 40;

/// The most characters that an excerpt shows.
pub const EXCERPT_CHARS: usize = 160;

/// The index of the first occurrence of `needle`, reading from `i`, or 0 where
/// there is none.
pub open spec fn first_occurrence(hay: Seq<char>, needle: Seq<char>, i: int) -> int
    decreases hay.len() - i,
{
    if occurs_at(hay, needle, i) {
        i
    } else if 0 <= i < hay.len() {
        first_occurrence(hay, needle, i + 1)
    } else {
        0
    }
}

/// The characters `s[from..]`, at most `count` of them.
pub open spec fn window(s: Seq<char>, from: int, count: int) -> Seq<char> {
    if from >= s.len() {
        Seq::empty()
    } else {
        first_chars(s.skip(from), count)
    }
}

/// The text holds the needle at index `i`: in lower case, as many characters as
/// the needle has begin with it.
pub open spec fn is_hit_at(text: Seq<char>, needle: Seq<char>, i: int) -> bool {
    occurs_at(lowercase_text(window(text, i, needle.len() as int)), needle, 0)
}

/// The first index from `i` on at which the text holds the needle.
pub open spec fn first_hit(text: Seq<char>, needle: Seq<char>, i: int) -> Option<int>
    decreases text.len() - i,
{
    if !(0 <= i < text.len()) {
        None
    } else if is_hit_at(text, needle, i) {
        Some(i)
    } else {
        first_hit(text, needle, i + 1)
    }
}

/// The character of the text, from index `i` on, that gave the character at index
/// `at` of the text in lower case.
pub open spec fn origin_of(text: Seq<char>, at: int, i: int) -> int
    decreases text.len() - i,
{
    if !(0 <= i < text.len()) {
        0
    } else {
        let width = lowercase_text(seq![text[i]]).len();
        if at < width {
            i
        } else {
            origin_of(text, at - width, i + 1)
        }
    }
}

/// Where the text holds the needle first. A needle that begins within what one
/// character became in lower case, or whose letters depend on those around them,
/// is looked for in the whole text in lower case.
pub open spec fn hit_index(text: Seq<char>, needle: Seq<char>) -> int {
    match first_hit(text, needle, 0) {
        Some(i) => i,
        None => origin_of(text, first_occurrence(lowercase_text(text), needle, 0), 0),
    }
}

/// Where an excerpt begins: a little before the first hit.
pub open spec fn excerpt_start(text: Seq<char>, needle: Seq<char>) -> int {
    let hit = hit_index(text, needle);
    if hit > EXCERPT_LEAD {
        hit - EXCERPT_LEAD
    } else {
        0
    }
}

/// A short excerpt around the first occurrence of `needle` in the text.
pub open spec fn excerpt_text(text: Seq<char>, needle: Seq<char>) -> Seq<char> {
    let t = trimmed(text);
    let from = excerpt_start(t, needle);
    let shown = window(t, from, EXCERPT_CHARS as int);
    if from > 0 {
        "…"@ + shown + "…"@
    } else {
        shown
    }
}

/// The characters from `from` on, at most `count` of them.
fn text_window(chars: &Vec<char>, from: usize, count: usize) -> (r: String)
    ensures
        r@ == window(chars@, from as int, count as int),
{
    if from >= chars.len() {
        return String::new();
    }
    let left = chars.len() - from;
    let end = if count < left {
        from + count
    } else {
        chars.len()
    };
    let r = string_between(chars, from, end);
    assert(r@ =~= window(chars@, from as int, count as int));
    r
}

/// Where the text holds the needle first.
fn find_hit(text: &str, chars: &Vec<char>, needle: &Vec<char>) -> (r: usize)
    requires
        chars@ == text@,
    ensures
        r == hit_index(text@, needle@),
{
    let mut i: usize = 0;
    while i < chars.len()
        invariant
            i <= chars@.len(),
            first_hit(chars@, needle@, 0) == first_hit(chars@, needle@, i as int),
            chars@ == text@,
        decreases chars@.len() - i,
    {
        let piece = chars_of(&to_lowercase(&text_window(chars, i, needle.len())));
        if text_at(&piece, needle, 0) {
            return i;
        }
        i = i + 1;
    }
    let hay = chars_of(&to_lowercase(text));
    let mut at: usize = 0;
    let mut k: usize = 0;
    while k <= hay.len()
        invariant_except_break
            at == 0,
            first_occurrence(hay@, needle@, 0) == first_occurrence(hay@, needle@, k as int),
        invariant
            k <= hay@.len(),
        ensures
            at == first_occurrence(hay@, needle@, 0),
        decreases hay@.len() + 1 - k,
    {
        if text_at(&hay, needle, k) {
            at = k;
            break;
        }
        if k == hay.len() {
            break;
        }
        k = k + 1;
    }
    let ghost target = at as int;
    let mut j: usize = 0;
    while j < chars.len()
        invariant
            j <= chars@.len(),
            origin_of(chars@, target, 0) == origin_of(chars@, at as int, j as int),
            chars@ == text@,
            first_hit(chars@, needle@, 0) is None,
            target == first_occurrence(lowercase_text(text@), needle@, 0),
        decreases chars@.len() - j,
    {
        let one = string_between(chars, j, j + 1);
        assert(one@ =~= seq![chars@[j as int]]);
        let width = chars_of(&to_lowercase(&one)).len();
        if at < width {
            return j;
        }
        at = at - width;
        j = j + 1;
    }
    0
}

/// Makes a short excerpt around the first occurrence of `needle`, which is in
/// lower case.
pub fn excerpt(text: &str, needle: &str) -> (r: String)
    ensures
        r@ == excerpt_text(text@, needle@),
{
    let t = trim(text);
    let chars = chars_of(&t);
    let wanted = chars_of(needle);
    let hit = find_hit(&t, &chars, &wanted);
    let from: usize = if hit > EXCERPT_LEAD {
        hit - EXCERPT_LEAD
    } else {
        0
    };
    let shown = text_window(&chars, from, EXCERPT_CHARS);
    if from > 0 {
        join3("…", &shown, "…")
    } else {
        shown
    }
}

proof fn first_hit_bounds(text: Seq<char>, needle: Seq<char>, i: int)
    ensures
        first_hit(text, needle, i) matches Some(hit) ==> i <= hit < text.len() && is_hit_at(
            text,
            needle,
            hit,
        ),
    decreases text.len() - i,
{
    if 0 <= i < text.len() && !is_hit_at(text, needle, i) {
        first_hit_bounds(text, needle, i + 1);
    }
}

/// An excerpt is short, and shows the hit that it is made for: it holds characters
/// of the text that in lower case begin with the needle.
pub proof fn excerpts_show_the_hit(text: Seq<char>, needle: Seq<char>)
    requires
        needle.len() <= EXCERPT_CHARS - EXCERPT_LEAD,
        first_hit(trimmed(text), needle, 0) is Some,
    ensures
        excerpt_text(text, needle).len() <= EXCERPT_CHARS + 2,
        exists|piece: Seq<char>|
            #![trigger lowercase_text(piece)]
            contains_text(excerpt_text(text, needle), piece) && occurs_at(
                lowercase_text(piece),
                needle,
                0,
            ),
{
    reveal_strlit("…");
    let t = trimmed(text);
    first_hit_bounds(t, needle, 0);
    let hit = first_hit(t, needle, 0)->0;
    let from = excerpt_start(t, needle);
    let shown = window(t, from, EXCERPT_CHARS as int);
    let piece = window(t, hit, needle.len() as int);
    let r = excerpt_text(text, needle);
    let at = if from > 0 {
        hit - from + 1
    } else {
        hit - from
    };
    assert(shown.subrange(hit - from, hit - from + piece.len()) =~= piece);
    assert(r.subrange(at, at + piece.len()) =~= piece);
    assert(occurs_at(r, piece, at));
}

/// A source that holds the needle, whatever the case.
pub open spec fn is_hit(source: BoundSource, needle: Seq<char>) -> bool {
    contains_text(lowercase_text(source.content@), needle)
}

/// How a hit is shown.
pub open spec fn hit_text(source: BoundSource, needle: Seq<char>) -> Seq<char> {
    decimal_text(source.index as nat) + ". ["@ + source.title@ + "]\n"@ + excerpt_text(
        source.content@,
        needle,
    )
}

/// The hits among the first sources, in order.
pub open spec fn hit_texts(sources: Seq<BoundSource>, needle: Seq<char>) -> Seq<Seq<char>>
    decreases sources.len(),
{
    if sources.len() == 0 {
        Seq::empty()
    } else if is_hit(sources.last(), needle) {
        hit_texts(sources.drop_last(), needle).push(hit_text(sources.last(), needle))
    } else {
        hit_texts(sources.drop_last(), needle)
    }
}

/// The outcome of a search: the hits in the order of the sources.
pub open spec fn searches_sources(
    r: ToolResult,
    call: ToolCall,
    limit: int,
    sources: Seq<BoundSource>,
) -> bool {
    match text_argument(call.arguments, "query"@) {
        None => is_failure(r, call, "missing non-empty 'query'"@),
        Some(query) => {
            let hits = hit_texts(sources, lowercase_text(query));
            if hits.len() == 0 {
                is_success(
                    r,
                    call,
                    "No bound source contains '"@ + query + "'."@,
                    "searched sources for '"@ + query + "' (0 hits)"@,
                )
            } else {
                is_success(
                    r,
                    call,
                    first_chars(joined(hits, "\n\n"@), limit),
                    "searched sources for '"@ + query + "' ("@ + decimal_text(hits.len())
                        + " hit(s))"@,
                )
            }
        },
    }
}

/// Searches the bound sources, whatever the case.
fn search_sources(call: &ToolCall, def: &ToolDef, ctx: &ToolContext) -> (r: ToolResult)
    ensures
        searches_sources(r, *call, def.max_result_bytes as int, ctx.sources@),
{
    let query = match read_text_argument(&call.arguments, "query") {
        Some(query) => query,
        None => {
            return failed(call, "missing non-empty 'query'");
        },
    };
    let needle = to_lowercase(&query);
    let mut hits: Vec<String> = Vec::new();
    let mut i: usize = 0;
    assert(ctx.sources@.take(0) =~= Seq::<BoundSource>::empty());
    assert(texts(hits@) =~= Seq::<Seq<char>>::empty());
    while i < ctx.sources.len()
        invariant
            i <= ctx.sources@.len(),
            texts(hits@) == hit_texts(ctx.sources@.take(i as int), needle@),
        decreases ctx.sources@.len() - i,
    {
        let source = &ctx.sources[i];
        proof {
            assert(ctx.sources@.take(i + 1).drop_last() =~= ctx.sources@.take(i as int));
            assert(ctx.sources@.take(i + 1).last() == ctx.sources@[i as int]);
        }
        let lower = to_lowercase(&source.content);
        let chars = chars_of(&lower);
        if has_text(&chars, &needle) {
            let mut text = join3(&decimal(source.index as u64), ". [", &source.title);
            text.append("]\n");
            text.append(&excerpt(&source.content, &needle));
            let ghost before = texts(hits@);
            let ghost shown = text@;
            hits.push(text);
            assert(texts(hits@) =~= before.push(shown));
        }
        i = i + 1;
    }
    assert(ctx.sources@.take(i as int) =~= ctx.sources@);
    if hits.len() == 0 {
        return ok(
            call,
            join3("No bound source contains '", &query, "'."),
            join3("searched sources for '", &query, "' (0 hits)"),
        );
    }
    let content = take_chars(&join(&hits, "\n\n"), def.max_result_bytes);
    let mut summary = join3("searched sources for '", &query, "' (");
    summary.append(&decimal(hits.len() as u64));
    summary.append(" hit(s))");
    ok(call, content, summary)
}

/// The outcome of a proposal: the trimmed title and body, the body cut to its
/// limit.
pub open spec fn proposes(r: ToolResult, call: ToolCall, limit: int) -> bool {
    match (text_argument(call.arguments, "title"@), text_argument(call.arguments, "content"@)) {
        (None, _) => is_failure(r, call, "missing non-empty 'title'"@),
        (Some(_), None) => is_failure(r, call, "missing non-empty 'content'"@),
        (Some(title), Some(content)) => {
            let body = first_chars(content, PROPOSAL_MAX_CHARS as int);
            &&& r.content@ == first_chars(
                "Proposal created for '"@ + title + "' ("@ + decimal_text(body.len())
                    + " chars). The user will preview and confirm it before it becomes a Snippet."@,
                limit,
            )
            &&& r.record.tool_id == call.tool_id
            &&& r.record.status == ToolStatus::Succeeded
            &&& r.record.summary@ == "proposed new snippet: "@ + title
            &&& r.proposal is Some
            &&& r.proposal->0.title@ == title
            &&& r.proposal->0.content@ == body
            &&& r.proposal->0.created is None
            &&& !r.proposal->0.rejected
        },
    }
}

/// Makes a proposal for a new note out of a title and a body.
fn create_output_proposal(call: &ToolCall, def: &ToolDef) -> (r: ToolResult)
    ensures
        proposes(r, *call, def.max_result_bytes as int),
{
    let title = match read_text_argument(&call.arguments, "title") {
        Some(title) => title,
        None => {
            return failed(call, "missing non-empty 'title'");
        },
    };
    let content = match read_text_argument(&call.arguments, "content") {
        Some(content) => content,
        None => {
            return failed(call, "missing non-empty 'content'");
        },
    };
    let body = take_chars(&content, PROPOSAL_MAX_CHARS);
    let count = chars_of(&body).len();
    let proposal = SnippetProposal::new(&title, &body);
    let mut reply = join3("Proposal created for '", &title, "' (");
    reply.append(&decimal(count as u64));
    reply.append(" chars). The user will preview and confirm it before it becomes a Snippet.");
    ToolResult {
        content: take_chars(&reply, def.max_result_bytes),
        record: ToolRecord {
            tool_id: call.tool_id.clone(),
            status: ToolStatus::Succeeded,
            summary: join2("proposed new snippet: ", &title),
        },
        proposal: Some(proposal),
    }
}

/// The name of a required argument that is not there, reading the list of
/// required names from `i` on.
pub open spec fn first_missing(
    required: Seq<Json>,
    object: Seq<(String, Json)>,
    i: int,
) -> Option<Seq<char>>
    decreases required.len() - i,
{
    if !(0 <= i < required.len()) {
        None
    } else {
        match required[i] {
            Json::Text(name) => if has_member(object, name@) {
                first_missing(required, object, i + 1)
            } else {
                Some(name@)
            },
            _ => first_missing(required, object, i + 1),
        }
    }
}

/// The required names of a schema.
pub open spec fn required_names(schema: Json) -> Seq<Json> {
    match schema.member("required"@) {
        Some(Json::Array(names)) => names@,
        _ => Seq::empty(),
    }
}

/// The type that a property of a schema asks for.
pub open spec fn expected_type(property: Json) -> Option<Seq<char>> {
    match property.member("type"@) {
        Some(Json::Text(name)) => Some(name@),
        _ => None,
    }
}

/// A value of the type of this name. Unknown names accept every value.
pub open spec fn has_type(value: Json, name: Seq<char>) -> bool {
    if name == "string"@ {
        value is Text
    } else if name == "integer"@ {
        value matches Json::Number(n) && !(n is Fractional)
    } else if name == "number"@ {
        value is Number
    } else if name == "boolean"@ {
        value is Bool
    } else if name == "object"@ {
        value is Object
    } else if name == "array"@ {
        value is Array
    } else {
        true
    }
}

/// What is wrong with one argument, if anything.
pub open spec fn argument_fault(
    schema: Json,
    properties: Seq<(String, Json)>,
    name: Seq<char>,
    value: Json,
) -> Option<Seq<char>> {
    if !has_member(properties, name) {
        if schema.member("additionalProperties"@) == Some(Json::Bool(false)) {
            Some("unexpected argument '"@ + name + "'"@)
        } else {
            None
        }
    } else {
        match expected_type(properties[member_index(properties, name)].1) {
            Some(wanted) => if has_type(value, wanted) {
                None
            } else {
                Some("argument '"@ + name + "' must be a Some(\""@ + wanted + "\")"@)
            },
            None => None,
        }
    }
}

/// What is wrong with the arguments from `i` on: the first fault.
pub open spec fn first_fault(
    schema: Json,
    properties: Seq<(String, Json)>,
    object: Seq<(String, Json)>,
    i: int,
) -> Option<Seq<char>>
    decreases object.len() - i,
{
    if !(0 <= i < object.len()) {
        None
    } else {
        match argument_fault(schema, properties, object[i].0@, object[i].1) {
            Some(message) => Some(message),
            None => first_fault(schema, properties, object, i + 1),
        }
    }
}

/// The properties that a schema lists.
pub open spec fn listed_properties(schema: Json) -> Seq<(String, Json)> {
    match schema.member("properties"@) {
        Some(Json::Object(properties)) => properties@,
        _ => Seq::empty(),
    }
}

/// What is wrong with the arguments of a call: they have to be an object that
/// has the required members, without unknown ones where the schema forbids them,
/// and the members have to be of their types.
pub open spec fn arguments_fault(schema: Json, arguments: Json) -> Option<Seq<char>> {
    match arguments {
        Json::Object(object) => match first_missing(required_names(schema), object@, 0) {
            Some(name) => Some("missing required argument '"@ + name + "'"@),
            None => first_fault(schema, listed_properties(schema), object@, 0),
        },
        _ => Some("tool arguments must be a JSON object"@),
    }
}

/// Whether a value is of the type of this name.
fn matches_type(value: &Json, name: &str) -> (r: bool)
    ensures
        r == has_type(*value, name@),
{
    if same_text(name, "string") {
        matches!(value, Json::Text(_))
    } else if same_text(name, "integer") {
        match value {
            Json::Number(JsonNumber::Natural(_)) => true,
            Json::Number(JsonNumber::Negative(_)) => true,
            _ => false,
        }
    } else if same_text(name, "number") {
        matches!(value, Json::Number(_))
    } else if same_text(name, "boolean") {
        matches!(value, Json::Bool(_))
    } else if same_text(name, "object") {
        matches!(value, Json::Object(_))
    } else if same_text(name, "array") {
        matches!(value, Json::Array(_))
    } else {
        true
    }
}

/// Checks one argument against the properties of a schema.
fn check_argument(
    schema: &Json,
    properties: &Vec<(String, Json)>,
    name: &str,
    value: &Json,
) -> (r: Result<(), String>)
    ensures
        match r {
            Ok(()) => argument_fault(*schema, properties@, name@, *value) is None,
            Err(message) => argument_fault(*schema, properties@, name@, *value) == Some(message@),
        },
{
    match find_member(properties, name) {
        None => {
            let closed_schema = match schema.get("additionalProperties") {
                Some(Json::Bool(b)) => !*b,
                _ => false,
            };
            if closed_schema {
                Err(join3("unexpected argument '", name, "'"))
            } else {
                Ok(())
            }
        },
        Some(i) => match properties[i].1.get("type") {
            Some(kind) => match kind.as_str() {
                Some(wanted) => {
                    if matches_type(value, wanted) {
                        Ok(())
                    } else {
                        let mut message = join3("argument '", name, "' must be a Some(\"");
                        message.append(wanted);
                        message.append("\")");
                        Err(message)
                    }
                },
                None => Ok(()),
            },
            None => Ok(()),
        },
    }
}

/// Checks the arguments of a call against the schema of the tool.
pub fn validate_arguments(schema: &Json, arguments: &Json) -> (r: Result<(), String>)
    ensures
        match r {
            Ok(()) => arguments_fault(*schema, *arguments) is None,
            Err(message) => arguments_fault(*schema, *arguments) == Some(message@),
        },
{
    let object = match arguments {
        Json::Object(object) => object,
        _ => {
            return Err("tool arguments must be a JSON object".to_owned());
        },
    };
    if let Some(Json::Array(required)) = schema.get("required") {
        let mut i: usize = 0;
        while i < required.len()
            invariant
                i <= required@.len(),
                required@ == required_names(*schema),
                *arguments == Json::Object(*object),
                first_missing(required@, object@, 0) == first_missing(
                    required@,
                    object@,
                    i as int,
                ),
            decreases required@.len() - i,
        {
            if let Json::Text(name) = &required[i] {
                if find_member(object, name).is_none() {
                    return Err(join3("missing required argument '", name, "'"));
                }
            }
            i = i + 1;
        }
    }
    let none: Vec<(String, Json)> = Vec::new();
    let properties = match schema.get("properties") {
        Some(Json::Object(properties)) => properties,
        _ => &none,
    };
    assert(properties@ =~= listed_properties(*schema));
    let mut i: usize = 0;
    while i < object.len()
        invariant
            i <= object@.len(),
            *arguments == Json::Object(*object),
            properties@ == listed_properties(*schema),
            first_missing(required_names(*schema), object@, 0) is None,
            first_fault(*schema, properties@, object@, 0) == first_fault(
                *schema,
                properties@,
                object@,
                i as int,
            ),
        decreases object@.len() - i,
    {
        match check_argument(schema, properties, &object[i].0, &object[i].1) {
            Ok(()) => {},
            Err(message) => {
                return Err(message);
            },
        }
        i = i + 1;
    }
    Ok(())
}

/// The outcome of a call, given the tools, the sources and whether the turn was
/// cancelled.
pub open spec fn tool_outcome(
    r: ToolResult,
    call: ToolCall,
    tools: Seq<ToolDef>,
    sources: Seq<BoundSource>,
    cancelled: bool,
) -> bool {
    let i = tool_index(tools, call.tool_id@);
    let limit = tools[i].max_result_bytes as int;
    if cancelled {
        is_failure(r, call, "cancelled before execution"@)
    } else if i >= tools.len() {
        is_failure(r, call, "unknown tool '"@ + call.tool_id@ + "'"@)
    } else if arguments_fault(tools[i].schema, call.arguments) is Some {
        is_failure(r, call, arguments_fault(tools[i].schema, call.arguments)->0)
    } else if call.tool_id@ == TOOL_LIST_SOURCES@ {
        lists_sources(r, call, limit, sources)
    } else if call.tool_id@ == TOOL_READ_SOURCE@ {
        reads_source(r, call, limit, sources)
    } else if call.tool_id@ == TOOL_SEARCH_SOURCES@ {
        searches_sources(r, call, limit, sources)
    } else if call.tool_id@ == TOOL_CREATE_OUTPUT_PROPOSAL@ {
        proposes(r, call, limit)
    } else {
        is_failure(r, call, "tool is registered but not executable"@)
    }
}

/// Carries out a tool call. Only the given sources are read, and nothing is
/// written: a proposal still has to be confirmed.
pub fn execute_tool_call(
    call: &ToolCall,
    registry: &ToolRegistry,
    ctx: &ToolContext,
    cancelled: bool,
) -> (r: ToolResult)
    ensures
        tool_outcome(r, *call, registry@, ctx.sources@, cancelled),
{
    if cancelled {
        return failed(call, "cancelled before execution");
    }
    let def = match registry.def(&call.tool_id) {
        Some(def) => def,
        None => {
            return failed(call, &join3("unknown tool '", &call.tool_id, "'"));
        },
    };
    match validate_arguments(&def.schema, &call.arguments) {
        Ok(()) => {},
        Err(message) => {
            return failed(call, &message);
        },
    }
    if same_text(&call.tool_id, TOOL_LIST_SOURCES) {
        list_sources(call, def, ctx)
    } else if same_text(&call.tool_id, TOOL_READ_SOURCE) {
        read_source(call, def, ctx)
    } else if same_text(&call.tool_id, TOOL_SEARCH_SOURCES) {
        search_sources(call, def, ctx)
    } else if same_text(&call.tool_id, TOOL_CREATE_OUTPUT_PROPOSAL) {
        create_output_proposal(call, def)
    } else {
        failed(call, "tool is registered but not executable")
    }
}

/// A property of a schema: its name, type and description.
pub struct PropertyModel {
    pub name: Seq<char>,
    pub kind: Seq<char>,
    pub description: Option<Seq<char>>,
}

/// A text value.
pub open spec fn is_text_value(value: Json, text: Seq<char>) -> bool {
    value matches Json::Text(t) && t@ == text
}

/// A member of an object.
pub open spec fn is_text_member(member: (String, Json), name: Seq<char>, text: Seq<char>) -> bool {
    member.0@ == name && is_text_value(member.1, text)
}

/// The schema of one property.
pub open spec fn is_property(member: (String, Json), model: PropertyModel) -> bool {
    &&& member.0@ == model.name
    &&& match (member.1, model.description) {
        (Json::Object(m), Some(description)) => m@.len() == 2 && is_text_member(
            m@[0],
            "description"@,
            description,
        ) && is_text_member(m@[1], "type"@, model.kind),
        (Json::Object(m), None) => m@.len() == 1 && is_text_member(m@[0], "type"@, model.kind),
        _ => false,
    }
}

/// The schema of an object that has these properties and no others. The names in
/// `required` have to be there.
pub open spec fn is_closed_schema(
    schema: Json,
    properties: Seq<PropertyModel>,
    required: Seq<Seq<char>>,
) -> bool {
    let last = if required.len() == 0 {
        2int
    } else {
        3int
    };
    schema matches Json::Object(m) && {
        &&& m@.len() == last + 1
        &&& m@[0].0@ == "additionalProperties"@
        &&& m@[0].1 == Json::Bool(false)
        &&& m@[1].0@ == "properties"@
        &&& (m@[1].1 matches Json::Object(p) && p@.len() == properties.len() && forall|i: int|
            0 <= i < p@.len() ==> is_property(#[trigger] p@[i], properties[i]))
        &&& required.len() > 0 ==> m@[2].0@ == "required"@ && (m@[2].1 matches Json::Array(names)
            && names@.len() == required.len() && forall|i: int|
            0 <= i < names@.len() ==> is_text_value(#[trigger] names@[i], required[i]))
        &&& is_text_member(m@[last], "type"@, "object"@)
    }
}

/// A built-in tool.
pub open spec fn is_builtin(
    def: ToolDef,
    id: Seq<char>,
    name: Seq<char>,
    description: Seq<char>,
    side_effect: ToolSideEffect,
    limit: int,
    calls: int,
) -> bool {
    &&& def.id@ == id
    &&& def.version == 1
    &&& def.name@ == name
    &&& def.description@ == description
    &&& def.side_effect == side_effect
    &&& def.source == ToolSource::Builtin
    &&& def.max_result_bytes == limit
    &&& def.max_calls_per_turn == calls
}

/// The built-in tools.
pub open spec fn are_builtins(tools: Seq<ToolDef>) -> bool {
    &&& tools.len() == 4
    &&& is_builtin(
        tools[0],
        TOOL_LIST_SOURCES@,
        "List sources"@,
        "Lists the read-only sources bound to this conversation that the current turn may use (number, title, kind). Call this first to see what is available."@,
        ToolSideEffect::ReadOnly,
        4000,
        2,
    )
    &&& is_closed_schema(tools[0].schema, Seq::empty(), Seq::empty())
    &&& is_builtin(
        tools[1],
        TOOL_READ_SOURCE@,
        "Read source"@,
        "Reads the bounded content of one source by its 1-based number (as returned by core.list_sources)."@,
        ToolSideEffect::ReadOnly,
        12_000,
        4,
    )
    &&& is_closed_schema(
        tools[1].schema,
        seq![
            PropertyModel {
                name: "source"@,
                kind: "integer"@,
                description: Some("1-based source number from core.list_sources"@),
            },
        ],
        seq!["source"@],
    )
    &&& is_builtin(
        tools[2],
        TOOL_SEARCH_SOURCES@,
        "Search sources"@,
        "Case-insensitive keyword search restricted to the bound sources; returns matching titles with short excerpts."@,
        ToolSideEffect::ReadOnly,
        8000,
        2,
    )
    &&& is_closed_schema(
        tools[2].schema,
        seq![
            PropertyModel {
                name: "query"@,
                kind: "string"@,
                description: Some("keyword to find in the bound sources"@),
            },
        ],
        seq!["query"@],
    )
    &&& is_builtin(
        tools[3],
        TOOL_CREATE_OUTPUT_PROPOSAL@,
        "Create output proposal"@,
        "Creates a proposal for a brand-new Snippet (title + full Markdown body) in the current AI box. The user must preview and confirm before it is saved. Never used to modify, append to, replace or delete an existing snippet, and never accepts container/entity ids or file paths."@,
        ToolSideEffect::Proposal,
        2000,
        2,
    )
    &&& is_closed_schema(
        tools[3].schema,
        seq![
            PropertyModel { name: "content"@, kind: "string"@, description: None },
            PropertyModel { name: "title"@, kind: "string"@, description: None },
        ],
        seq!["title"@, "content"@],
    )
}

fn text_member(name: &str, text: &str) -> (r: (String, Json))
    ensures
        is_text_member(r, name@, text@),
{
    (name.to_owned(), Json::Text(text.to_owned()))
}

fn property(name: &str, kind: &str) -> (r: (String, Json))
    ensures
        is_property(r, PropertyModel { name: name@, kind: kind@, description: None }),
{
    let mut members: Vec<(String, Json)> = Vec::new();
    members.push(text_member("type", kind));
    (name.to_owned(), Json::Object(members))
}

fn described_property(name: &str, kind: &str, description: &str) -> (r: (String, Json))
    ensures
        is_property(
            r,
            PropertyModel { name: name@, kind: kind@, description: Some(description@) },
        ),
{
    let mut members: Vec<(String, Json)> = Vec::new();
    members.push(text_member("description", description));
    members.push(text_member("type", kind));
    (name.to_owned(), Json::Object(members))
}

/// The schema of an object with these properties, all of the `required` ones
/// needed and no others allowed.
fn closed_object_schema(
    properties: Vec<(String, Json)>,
    required: Vec<Json>,
    models: Ghost<Seq<PropertyModel>>,
    names: Ghost<Seq<Seq<char>>>,
) -> (r: Json)
    requires
        properties@.len() == models@.len(),
        forall|i: int|
            0 <= i < properties@.len() ==> is_property(#[trigger] properties@[i], models@[i]),
        required@.len() == names@.len(),
        forall|i: int|
            0 <= i < required@.len() ==> is_text_value(#[trigger] required@[i], names@[i]),
    ensures
        is_closed_schema(r, models@, names@),
{
    let mut members: Vec<(String, Json)> = Vec::new();
    members.push(("additionalProperties".to_owned(), Json::Bool(false)));
    members.push(("properties".to_owned(), Json::Object(properties)));
    if required.len() > 0 {
        members.push(("required".to_owned(), Json::Array(required)));
    }
    members.push(text_member("type", "object"));
    Json::Object(members)
}

/// The definitions of the built-in tools.
pub fn builtin_tools() -> (r: Vec<ToolDef>)
    ensures
        are_builtins(r@),
{
    let mut tools: Vec<ToolDef> = Vec::new();
    tools.push(
        ToolDef {
            id: TOOL_LIST_SOURCES.to_owned(),
            version: 1,
            name: "List sources".to_owned(),
            description: "Lists the read-only sources bound to this conversation that the current turn may use (number, title, kind). Call this first to see what is available.".to_owned(),
            side_effect: ToolSideEffect::ReadOnly,
            source: ToolSource::Builtin,
            schema: closed_object_schema(
                Vec::new(),
                Vec::new(),
                Ghost(Seq::empty()),
                Ghost(Seq::empty()),
            ),
            max_result_bytes: 4000,
            max_calls_per_turn: 2,
        },
    );
    let mut properties: Vec<(String, Json)> = Vec::new();
    properties.push(
        described_property(
            "source",
            "integer",
            "1-based source number from core.list_sources",
        ),
    );
    let mut required: Vec<Json> = Vec::new();
    required.push(Json::Text("source".to_owned()));
    let ghost models = seq![
        PropertyModel {
            name: "source"@,
            kind: "integer"@,
            description: Some("1-based source number from core.list_sources"@),
        },
    ];
    let ghost names = seq!["source"@];
    tools.push(
        ToolDef {
            id: TOOL_READ_SOURCE.to_owned(),
            version: 1,
            name: "Read source".to_owned(),
            description: "Reads the bounded content of one source by its 1-based number (as returned by core.list_sources).".to_owned(),
            side_effect: ToolSideEffect::ReadOnly,
            source: ToolSource::Builtin,
            schema: closed_object_schema(
                properties,
                required,
                Ghost(models),
                Ghost(names),
            ),
            max_result_bytes: 12_000,
            max_calls_per_turn: 4,
        },
    );
    let mut properties: Vec<(String, Json)> = Vec::new();
    properties.push(
        described_property("query", "string", "keyword to find in the bound sources"),
    );
    let mut required: Vec<Json> = Vec::new();
    required.push(Json::Text("query".to_owned()));
    let ghost models = seq![
        PropertyModel {
            name: "query"@,
            kind: "string"@,
            description: Some("keyword to find in the bound sources"@),
        },
    ];
    let ghost names = seq!["query"@];
    tools.push(
        ToolDef {
            id: TOOL_SEARCH_SOURCES.to_owned(),
            version: 1,
            name: "Search sources".to_owned(),
            description: "Case-insensitive keyword search restricted to the bound sources; returns matching titles with short excerpts.".to_owned(),
            side_effect: ToolSideEffect::ReadOnly,
            source: ToolSource::Builtin,
            schema: closed_object_schema(
                properties,
                required,
                Ghost(models),
                Ghost(names),
            ),
            max_result_bytes: 8000,
            max_calls_per_turn: 2,
        },
    );
    let mut properties: Vec<(String, Json)> = Vec::new();
    properties.push(property("content", "string"));
    properties.push(property("title", "string"));
    let mut required: Vec<Json> = Vec::new();
    required.push(Json::Text("title".to_owned()));
    required.push(Json::Text("content".to_owned()));
    let ghost models = seq![
        PropertyModel { name: "content"@, kind: "string"@, description: None },
        PropertyModel { name: "title"@, kind: "string"@, description: None },
    ];
    let ghost names = seq!["title"@, "content"@];
    tools.push(
        ToolDef {
            id: TOOL_CREATE_OUTPUT_PROPOSAL.to_owned(),
            version: 1,
            name: "Create output proposal".to_owned(),
            description: "Creates a proposal for a brand-new Snippet (title + full Markdown body) in the current AI box. The user must preview and confirm before it is saved. Never used to modify, append to, replace or delete an existing snippet, and never accepts container/entity ids or file paths.".to_owned(),
            side_effect: ToolSideEffect::Proposal,
            source: ToolSource::Builtin,
            schema: closed_object_schema(
                properties,
                required,
                Ghost(models),
                Ghost(names),
            ),
            max_result_bytes: 2000,
            max_calls_per_turn: 2,
        },
    );
    tools
}


/// Only the proposal tool proposes, and a proposal comes undecided and within
/// its size limit.
pub proof fn only_the_proposal_tool_proposes(
    r: ToolResult,
    call: ToolCall,
    tools: Seq<ToolDef>,
    sources: Seq<BoundSource>,
    cancelled: bool,
)
    requires
        tool_outcome(r, call, tools, sources, cancelled),
        r.proposal is Some,
    ensures
        call.tool_id@ == TOOL_CREATE_OUTPUT_PROPOSAL@,
        r.record.status == ToolStatus::Succeeded,
        !cancelled,
        r.proposal->0.created is None,
        !r.proposal->0.rejected,
        0 < r.proposal->0.title@.len(),
        0 < r.proposal->0.content@.len() <= PROPOSAL_MAX_CHARS,
{
}

/// A call of a tool that is not registered fails.
pub proof fn unknown_tools_fail(
    r: ToolResult,
    call: ToolCall,
    tools: Seq<ToolDef>,
    sources: Seq<BoundSource>,
    cancelled: bool,
)
    requires
        tool_outcome(r, call, tools, sources, cancelled),
        forall|i: int| 0 <= i < tools.len() ==> (#[trigger] tools[i]).id@ != call.tool_id@,
    ensures
        r.record.status == ToolStatus::Failed,
        r.proposal is None,
{
    tool_index_is(tools, call.tool_id@, tools.len() as int);
}

/// A source of a number that is not bound cannot be read.
pub proof fn unbound_sources_are_not_read(
    r: ToolResult,
    call: ToolCall,
    tools: Seq<ToolDef>,
    sources: Seq<BoundSource>,
    cancelled: bool,
    number: u64,
)
    requires
        tool_outcome(r, call, tools, sources, cancelled),
        call.tool_id@ == TOOL_READ_SOURCE@,
        call.arguments.member("source"@) == Some(Json::Number(JsonNumber::Natural(number))),
        forall|i: int| 0 <= i < sources.len() ==> (#[trigger] sources[i]).index != number,
    ensures
        r.record.status == ToolStatus::Failed,
        r.proposal is None,
{
    reveal_strlit("core.list_sources");
    reveal_strlit("core.read_source");
    assert(TOOL_LIST_SOURCES@.len() != TOOL_READ_SOURCE@.len());
    source_position_is(sources, number as int, sources.len() as int);
}

proof fn closed_schema_members(
    schema: Json,
    properties: Seq<PropertyModel>,
    required: Seq<Seq<char>>,
)
    requires
        is_closed_schema(schema, properties, required),
    ensures
        schema.member("additionalProperties"@) == Some(Json::Bool(false)),
        schema.member("properties"@) matches Some(Json::Object(p)) && p@.len() == properties.len()
            && forall|i: int|
            0 <= i < p@.len() ==> is_property(#[trigger] p@[i], properties[i]),
{
    reveal_strlit("additionalProperties");
    reveal_strlit("properties");
    reveal_with_fuel(member_index, 3);
    let m = schema->Object_0@;
    let name = "properties"@;
    assert("additionalProperties"@.len() != name.len());
    assert(m[0].0@ != name);
    assert(m.drop_first()[0] == m[1]);
    assert(member_index(m.drop_first(), name) == 0);
    assert(member_index(m, name) == 1);
    assert(schema.member(name) == Some(m[1].1));
}

proof fn faults_are_found(
    schema: Json,
    properties: Seq<(String, Json)>,
    object: Seq<(String, Json)>,
    i: int,
    k: int,
)
    requires
        0 <= i <= k < object.len(),
        argument_fault(schema, properties, object[k].0@, object[k].1) is Some,
    ensures
        first_fault(schema, properties, object, i) is Some,
    decreases k - i,
{
    if i < k {
        faults_are_found(schema, properties, object, i + 1, k);
    }
}

/// Where a schema forbids further properties, arguments with a member that it does
/// not list are refused.
pub proof fn unlisted_arguments_are_refused(
    schema: Json,
    arguments: Vec<(String, Json)>,
    k: int,
)
    requires
        schema.member("additionalProperties"@) == Some(Json::Bool(false)),
        0 <= k < arguments@.len(),
        !has_member(listed_properties(schema), arguments@[k].0@),
    ensures
        arguments_fault(schema, Json::Object(arguments)) is Some,
{
    faults_are_found(schema, listed_properties(schema), arguments@, 0, k);
}

/// The proposal tool takes a title and a body. A call with any other argument,
/// such as a container, an entity or a path, fails.
pub proof fn proposals_take_no_destination(
    r: ToolResult,
    call: ToolCall,
    tools: Seq<ToolDef>,
    sources: Seq<BoundSource>,
    cancelled: bool,
    arguments: Vec<(String, Json)>,
    k: int,
)
    requires
        are_builtins(tools),
        tool_outcome(r, call, tools, sources, cancelled),
        call.tool_id@ == TOOL_CREATE_OUTPUT_PROPOSAL@,
        call.arguments == Json::Object(arguments),
        0 <= k < arguments@.len(),
        arguments@[k].0@ != "title"@,
        arguments@[k].0@ != "content"@,
    ensures
        r.record.status == ToolStatus::Failed,
        r.proposal is None,
{
    let models = seq![
        PropertyModel { name: "content"@, kind: "string"@, description: None },
        PropertyModel { name: "title"@, kind: "string"@, description: None },
    ];
    reveal_strlit("core.list_sources");
    reveal_strlit("core.read_source");
    reveal_strlit("core.search_sources");
    reveal_strlit("core.create_output_proposal");
    assert(TOOL_LIST_SOURCES@.len() != TOOL_CREATE_OUTPUT_PROPOSAL@.len());
    assert(TOOL_READ_SOURCE@.len() != TOOL_CREATE_OUTPUT_PROPOSAL@.len());
    assert(TOOL_SEARCH_SOURCES@.len() != TOOL_CREATE_OUTPUT_PROPOSAL@.len());
    assert forall|j: int| 0 <= j < 3 implies (#[trigger] tools[j]).id@ != call.tool_id@ by {
        if j == 0 {
        } else if j == 1 {
        } else {
        }
    }
    tool_index_is(tools, call.tool_id@, 3);
    let schema = tools[3].schema;
    closed_schema_members(schema, models, seq!["title"@, "content"@]);
    let p = schema.member("properties"@)->0->Object_0@;
    assert(is_property(p[0], models[0]));
    assert(is_property(p[1], models[1]));
    let name = arguments@[k].0@;
    assert(!has_member(p, name)) by {
        crate::data::ai::json::member_index_bounds(p, name);
        let i = member_index(p, name);
        if i < p.len() {
            assert(p[i].0@ == name);
        }
    }
    assert(argument_fault(schema, p, name, arguments@[k].1) is Some);
    faults_are_found(schema, p, arguments@, 0, k);
}

/// What the model is told of a call that succeeded fits in the tool's limit; the
/// two short notes that nothing was bound or found are not cut.
pub proof fn results_fit(
    r: ToolResult,
    call: ToolCall,
    tools: Seq<ToolDef>,
    sources: Seq<BoundSource>,
    cancelled: bool,
)
    requires
        tool_outcome(r, call, tools, sources, cancelled),
        r.record.status == ToolStatus::Succeeded,
        call.tool_id@ == TOOL_LIST_SOURCES@ ==> sources.len() > 0,
        call.tool_id@ == TOOL_SEARCH_SOURCES@ ==> (text_argument(
            call.arguments,
            "query"@,
        ) matches Some(query) ==> hit_texts(sources, lowercase_text(query)).len() > 0),
    ensures
        r.content@.len() <= tools[tool_index(tools, call.tool_id@)].max_result_bytes,
{
}

/// A search of the sources finds every source that has the query in its text, whatever
/// the case, in order and under its number.
pub proof fn searching_finds_every_source(sources: Seq<BoundSource>, needle: Seq<char>) -> (at: Seq<int>)
    ensures
        at.len() == hit_texts(sources, needle).len(),
        forall|j: int|
            #![trigger at[j]]
            0 <= j < at.len() ==> 0 <= at[j] < sources.len() && contains_text(lowercase_text(sources[at[j]].content@), needle) && hit_texts(sources, needle)[j] == decimal_text(sources[at[j]].index as nat) + ". ["@ + sources[at[j]].title@ + "]\n"@ + excerpt_text(sources[at[j]].content@, needle),
        forall|i: int, j: int| 0 <= i < j < at.len() ==> at[i] < at[j],
        forall|k: int|
            #![trigger sources[k]]
            0 <= k < sources.len() && contains_text(lowercase_text(sources[k].content@), needle) ==> at.contains(k),
    decreases sources.len(),
{
    if sources.len() == 0 {
        Seq::empty()
    } else {
        let front = sources.drop_last();
        let before = searching_finds_every_source(front, needle);
        let n = sources.len() - 1;
        let taken = contains_text(lowercase_text(sources.last().content@), needle);
        let at = if taken {
            before.push(n)
        } else {
            before
        };
        assert forall|j: int|
            #![trigger at[j]]
            0 <= j < at.len() implies 0 <= at[j] < sources.len() && contains_text(lowercase_text(sources[at[j]].content@), needle) && hit_texts(sources, needle)[j] == decimal_text(sources[at[j]].index as nat) + ". ["@ + sources[at[j]].title@ + "]\n"@ + excerpt_text(sources[at[j]].content@, needle) by {
            if j < before.len() {
                assert(at[j] == before[j]);
                assert(front[before[j]] == sources[at[j]]);
            }
        }
        assert forall|k: int|
            #![trigger sources[k]]
            0 <= k < sources.len() && contains_text(lowercase_text(sources[k].content@), needle) implies at.contains(k) by {
            if k < n {
                assert(front[k] == sources[k]);
                let j = choose|j: int| 0 <= j < before.len() && before[j] == k;
                assert(at[j] == k);
            } else {
                assert(at[before.len() as int] == n);
            }
        }
        at
    }
}

proof fn tool_names_differ()
    ensures
        TOOL_LIST_SOURCES@ != TOOL_READ_SOURCE@,
        TOOL_LIST_SOURCES@ != TOOL_SEARCH_SOURCES@,
        TOOL_READ_SOURCE@ != TOOL_SEARCH_SOURCES@,
        TOOL_LIST_SOURCES@ != TOOL_CREATE_OUTPUT_PROPOSAL@,
        TOOL_READ_SOURCE@ != TOOL_CREATE_OUTPUT_PROPOSAL@,
        TOOL_SEARCH_SOURCES@ != TOOL_CREATE_OUTPUT_PROPOSAL@,
{
    reveal_strlit("core.list_sources");
    reveal_strlit("core.read_source");
    reveal_strlit("core.search_sources");
    reveal_strlit("core.create_output_proposal");
    assert(TOOL_LIST_SOURCES@.len() == 17);
    assert(TOOL_READ_SOURCE@.len() == 16);
    assert(TOOL_SEARCH_SOURCES@.len() == 19);
    assert(TOOL_CREATE_OUTPUT_PROPOSAL@.len() == 27);
}

/// A call that is not cancelled and has arguments that fit its tool's schema, of the
/// first tool of that name.
pub open spec fn is_runnable(call: ToolCall, tools: Seq<ToolDef>, t: int) -> bool {
    &&& 0 <= t < tools.len()
    &&& tools[t].id@ == call.tool_id@
    &&& forall|j: int| 0 <= j < t ==> #[trigger] tools[j].id@ != call.tool_id@
    &&& arguments_fault(tools[t].schema, call.arguments) is None
}

/// Reading a source by its number gives the number, the title and the whole text of
/// the source of that number, up to the tool's limit.
pub proof fn sources_are_read_by_number(
    r: ToolResult,
    call: ToolCall,
    tools: Seq<ToolDef>,
    sources: Seq<BoundSource>,
    t: int,
    i: int,
)
    requires
        tool_outcome(r, call, tools, sources, false),
        is_runnable(call, tools, t),
        call.tool_id@ == TOOL_READ_SOURCE@,
        0 <= i < sources.len(),
        call.arguments.member("source"@) == Some(
            Json::Number(JsonNumber::Natural(sources[i].index as u64)),
        ),
        forall|j: int| 0 <= j < i ==> (#[trigger] sources[j]).index != sources[i].index,
    ensures
        r.record.status == ToolStatus::Succeeded,
        r.record.tool_id@ == call.tool_id@,
        r.proposal is None,
        r.content@ == first_chars(
            "["@ + decimal_text(sources[i].index as nat) + "] "@ + sources[i].title@ + "\n"@
                + sources[i].content@,
            tools[t].max_result_bytes as int,
        ),
{
    tool_names_differ();
    tool_index_is(tools, call.tool_id@, t);
    source_position_is(sources, sources[i].index as int, i);
}

/// The list of sources shows each source: its number, title, kind and content hash,
/// up to the tool's limit.
pub proof fn sources_are_all_listed(
    r: ToolResult,
    call: ToolCall,
    tools: Seq<ToolDef>,
    sources: Seq<BoundSource>,
    t: int,
    i: int,
) -> (around: (Seq<char>, Seq<char>))
    requires
        tool_outcome(r, call, tools, sources, false),
        is_runnable(call, tools, t),
        call.tool_id@ == TOOL_LIST_SOURCES@,
        0 <= i < sources.len(),
    ensures
        r.record.status == ToolStatus::Succeeded,
        r.proposal is None,
        r.record.summary@ == "listed "@ + decimal_text(sources.len()) + " bound source(s)"@,
        r.content@ == first_chars(
            around.0 + (decimal_text(sources[i].index as nat) + ". ["@ + sources[i].title@ + "] ("@
                + (match sources[i].target {
                SourceTarget::Snippet(_) => "snippet"@,
                SourceTarget::Container(_) => "container"@,
                SourceTarget::ExternalFile(_) => "external_file"@,
            }) + ", content hash "@ + sources[i].content_hash@ + ")"@) + around.1,
            tools[t].max_result_bytes as int,
        ),
{
    tool_names_differ();
    tool_index_is(tools, call.tool_id@, t);
    joined_holds_each(sources.map_values(|s: BoundSource| source_line(s)), "\n"@, i)
}

/// A search of the sources shows each source that has the query in its text, whatever
/// the case: its number, its title and an excerpt, up to the tool's limit. If none
/// has it, the search says so.
pub proof fn searches_show_every_hit(
    r: ToolResult,
    call: ToolCall,
    tools: Seq<ToolDef>,
    sources: Seq<BoundSource>,
    t: int,
    query: String,
    i: int,
) -> (around: (Seq<char>, Seq<char>))
    requires
        tool_outcome(r, call, tools, sources, false),
        is_runnable(call, tools, t),
        call.tool_id@ == TOOL_SEARCH_SOURCES@,
        call.arguments.member("query"@) == Some(Json::Text(query)),
        trimmed(query@).len() > 0,
        0 <= i < sources.len(),
    ensures
        r.record.status == ToolStatus::Succeeded,
        r.proposal is None,
        contains_text(lowercase_text(sources[i].content@), lowercase_text(trimmed(query@)))
            ==> r.content@ == first_chars(
            around.0 + (decimal_text(sources[i].index as nat) + ". ["@ + sources[i].title@ + "]\n"@
                + excerpt_text(sources[i].content@, lowercase_text(trimmed(query@)))) + around.1,
            tools[t].max_result_bytes as int,
        ),
        (forall|k: int|
            0 <= k < sources.len() ==> !contains_text(
                lowercase_text((#[trigger] sources[k]).content@),
                lowercase_text(trimmed(query@)),
            )) ==> r.content@ == "No bound source contains '"@ + trimmed(query@) + "'."@,
{
    tool_names_differ();
    tool_index_is(tools, call.tool_id@, t);
    let needle = lowercase_text(trimmed(query@));
    let hits = hit_texts(sources, needle);
    let at = searching_finds_every_source(sources, needle);
    if contains_text(lowercase_text(sources[i].content@), needle) {
        assert(at.contains(i));
        let j = choose|j: int| 0 <= j < at.len() && at[j] == i;
        joined_holds_each(hits, "\n\n"@, j)
    } else {
        if forall|k: int|
            0 <= k < sources.len() ==> !contains_text(
                lowercase_text((#[trigger] sources[k]).content@),
                needle,
            ) {
            if at.len() > 0 {
                assert(contains_text(lowercase_text(sources[at[0]].content@), needle));
            }
        }
        (Seq::empty(), Seq::empty())
    }
}

/// A proposal holds the title and the text that the model gave, without the white
/// space around them. Nothing was made of it yet.
pub proof fn proposals_hold_the_given_text(
    r: ToolResult,
    call: ToolCall,
    tools: Seq<ToolDef>,
    sources: Seq<BoundSource>,
    t: int,
    title: String,
    content: String,
)
    requires
        tool_outcome(r, call, tools, sources, false),
        is_runnable(call, tools, t),
        call.tool_id@ == TOOL_CREATE_OUTPUT_PROPOSAL@,
        call.arguments.member("title"@) == Some(Json::Text(title)),
        call.arguments.member("content"@) == Some(Json::Text(content)),
        trimmed(title@).len() > 0,
        trimmed(content@).len() > 0,
    ensures
        r.record.status == ToolStatus::Succeeded,
        r.proposal is Some,
        r.proposal->0.title@ == trimmed(title@),
        r.proposal->0.content@ == first_chars(trimmed(content@), 60_000),
        r.proposal->0.created is None,
        !r.proposal->0.rejected,
{
    tool_names_differ();
    tool_index_is(tools, call.tool_id@, t);
}

proof fn nothing_is_missing(required: Seq<Json>, object: Seq<(String, Json)>, i: int)
    requires
        0 <= i <= required.len(),
    ensures
        first_missing(required, object, i) is None <==> forall|j: int|
            i <= j < required.len() ==> (#[trigger] required[j] matches Json::Text(name)
                ==> has_member(object, name@)),
    decreases required.len() - i,
{
    if i < required.len() {
        nothing_is_missing(required, object, i + 1);
        if first_missing(required, object, i) is None {
            assert forall|j: int| i <= j < required.len() implies (
            #[trigger] required[j] matches Json::Text(name) ==> has_member(object, name@)) by {
                if j > i {
                    assert(i + 1 <= j);
                }
            }
        } else {
            match required[i] {
                Json::Text(name) => {
                    if has_member(object, name@) {
                        assert(first_missing(required, object, i + 1) is Some);
                    }
                },
                _ => {
                    assert(first_missing(required, object, i + 1) is Some);
                },
            }
        }
    }
}

proof fn nothing_is_at_fault(
    schema: Json,
    properties: Seq<(String, Json)>,
    object: Seq<(String, Json)>,
    i: int,
)
    requires
        0 <= i <= object.len(),
        forall|j: int|
            i <= j < object.len() ==> argument_fault(
                schema,
                properties,
                (#[trigger] object[j]).0@,
                object[j].1,
            ) is None,
    ensures
        first_fault(schema, properties, object, i) is None,
    decreases object.len() - i,
{
    if i < object.len() {
        assert(argument_fault(schema, properties, object[i].0@, object[i].1) is None);
        nothing_is_at_fault(schema, properties, object, i + 1);
    }
}

/// Arguments fit a schema exactly if each required one is there, each one that the
/// schema describes has the type that it names, and further ones are not forbidden.
pub proof fn arguments_fit_their_schema(schema: Json, arguments: Vec<(String, Json)>)
    ensures
        arguments_fault(schema, Json::Object(arguments)) is None <==> {
            &&& forall|j: int|
                0 <= j < required_names(schema).len() ==> (#[trigger] required_names(
                    schema,
                )[j] matches Json::Text(name) ==> has_member(arguments@, name@))
            &&& forall|k: int|
                0 <= k < arguments@.len() ==> {
                    let properties = listed_properties(schema);
                    if has_member(properties, (#[trigger] arguments@[k]).0@) {
                        match properties[member_index(properties, arguments@[k].0@)].1.member(
                            "type"@,
                        ) {
                            Some(Json::Text(wanted)) => has_type(arguments@[k].1, wanted@),
                            _ => true,
                        }
                    } else {
                        schema.member("additionalProperties"@) != Some(Json::Bool(false))
                    }
                }
        },
{
    let properties = listed_properties(schema);
    nothing_is_missing(required_names(schema), arguments@, 0);
    if forall|k: int|
        0 <= k < arguments@.len() ==> argument_fault(
            schema,
            properties,
            (#[trigger] arguments@[k]).0@,
            arguments@[k].1,
        ) is None {
        nothing_is_at_fault(schema, properties, arguments@, 0);
    } else {
        let k = choose|k: int|
            0 <= k < arguments@.len() && argument_fault(
                schema,
                properties,
                (#[trigger] arguments@[k]).0@,
                arguments@[k].1,
            ) is Some;
        faults_are_found(schema, properties, arguments@, 0, k);
    }
}

/// A value has a type of its own kind only: texts are strings, numbers without a
/// fraction are integers too, and so on.
pub proof fn values_have_their_types(value: Json)
    ensures
        has_type(value, "string"@) == (value is Text),
        has_type(value, "number"@) == (value is Number),
        has_type(value, "boolean"@) == (value is Bool),
        has_type(value, "object"@) == (value is Object),
        has_type(value, "array"@) == (value is Array),
        has_type(value, "integer"@) == (value matches Json::Number(n) && !(n is Fractional)),
{
    reveal_strlit("string");
    reveal_strlit("number");
    reveal_strlit("boolean");
    reveal_strlit("object");
    reveal_strlit("array");
    reveal_strlit("integer");
    assert("string"@[0] == 's');
    assert("number"@[0] == 'n');
    assert("boolean"@[0] == 'b');
    assert("object"@[0] == 'o');
    assert("array"@[0] == 'a');
    assert("integer"@[0] == 'i');
}

proof fn first_hit_is(text: Seq<char>, needle: Seq<char>, i: int, hit: int)
    requires
        0 <= i <= hit < text.len(),
        is_hit_at(text, needle, hit),
        forall|j: int| i <= j < hit ==> !#[trigger] is_hit_at(text, needle, j),
    ensures
        first_hit(text, needle, i) == Some(hit),
    decreases hit - i,
{
    if i < hit {
        assert(!is_hit_at(text, needle, i));
        first_hit_is(text, needle, i + 1, hit);
    }
}

/// An excerpt begins forty characters before the first hit, or where the text begins,
/// and holds the next hundred and sixty characters of the text as they are. One that
/// leaves out the beginning stands between dots.
pub proof fn excerpts_are_cut_from_the_text(text: Seq<char>, needle: Seq<char>, hit: int)
    requires
        0 <= hit < trimmed(text).len(),
        needle.len() > 0,
        hit + needle.len() <= trimmed(text).len(),
        lowercase_text(trimmed(text).subrange(hit, hit + needle.len())) == needle,
        forall|j: int|
            0 <= j < hit ==> !occurs_at(
                lowercase_text(first_chars(#[trigger] trimmed(text).skip(j), needle.len() as int)),
                needle,
                0,
            ),
    ensures
        ({
            let t = trimmed(text);
            let from = if hit > 40 {
                hit - 40
            } else {
                0
            };
            let end = if from + 160 < t.len() {
                from + 160
            } else {
                t.len() as int
            };
            excerpt_text(text, needle) == if from > 0 {
                "…"@ + t.subrange(from, end) + "…"@
            } else {
                t.subrange(from, end)
            }
        }),
{
    let t = trimmed(text);
    let n = needle.len() as int;
    assert(window(t, hit, n) =~= t.subrange(hit, hit + n));
    assert(needle.subrange(0, n) =~= needle);
    assert(is_hit_at(t, needle, hit));
    assert forall|j: int| 0 <= j < hit implies !#[trigger] is_hit_at(t, needle, j) by {
        assert(window(t, j, n) == first_chars(t.skip(j), n));
    }
    first_hit_is(t, needle, 0, hit);
    let from = excerpt_start(t, needle);
    let end = if from + 160 < t.len() {
        from + 160
    } else {
        t.len() as int
    };
    assert(window(t, from, EXCERPT_CHARS as int) =~= t.subrange(from, end));
}

} // verus!
