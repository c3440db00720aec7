//! A provider that answers in process. It never touches a network.
//!
//! A round is planned from the request: which pieces of text are streamed and
//! which tools are called. The caller then walks through the pieces, asking
//! before each one whether to send it.
use crate::data::ai::json::{the_first_member_counts, Json, JsonNumber};
use crate::data::ai::provider::{AiError, AiErrorKind, Capabilities, ChatMessage, ChatRequest,
    ChatRole, ChatToolCall, StreamOutcome};
use crate::data::ai::tool::{TOOL_CREATE_OUTPUT_PROPOSAL, TOOL_READ_SOURCE};
use crate::data::ai::usage::TokenUsage;
use crate::text::{chars_of, join3, string_between, texts, trim, trimmed};
use vstd::prelude::*;

verus! {

/// What a scripted provider does in the first round.
#[derive(Debug, PartialEq, Eq)]
pub enum FakeScript {
    /// Replies to the question.
    Reply,
    /// Asks for a proposal, then answers.
    Propose { title: String, content: String, answer: String },
    /// Asks for the first source, then answers.
    ReadSource { answer: String },
}

/// A scripted provider.
#[derive(Debug, PartialEq, Eq)]
pub struct FakeProvider {
    /// Pieces to stream in place of a reply.
    pub chunks: Vec<String>,
    /// Pause before each piece, in milliseconds.
    pub delay_ms: u64,
    /// Fail before the piece of this index.
    pub fail_after: Option<usize>,
    pub script: FakeScript,
}

/// One round of the provider.
#[derive(Debug, PartialEq, Eq)]
pub struct FakePlan {
    pub chunks: Vec<String>,
    pub tool_calls: Vec<ChatToolCall>,
}

/// What to do next in a round.
#[derive(Debug, PartialEq, Eq)]
pub enum FakeStep {
    /// Send this piece.
    Send(String),
    /// Give up.
    Fail(AiError),
    /// The round is over.
    Finish,
}

/// The text of the last message of the user, without surrounding white space.
pub open spec fn last_question(messages: Seq<ChatMessage>) -> Seq<char>
    decreases messages.len(),
{
    if messages.len() == 0 {
        Seq::empty()
    } else if messages.last().role == ChatRole::User {
        trimmed(messages.last().content@)
    } else {
        last_question(messages.drop_last())
    }
}

/// The reply to a request: it repeats the question.
pub open spec fn reply_text(messages: Seq<ChatMessage>) -> Seq<char> {
    let question = last_question(messages);
    "This is a reply from the Fake provider (no network).\n\nYou asked: "@ + (if question.len()
        == 0 {
        "(no question)"@
    } else {
        question
    }) + "\n\nConfigure a real provider in Settings to enable model calls."@
}

/// The request carries the result of a tool call.
pub open spec fn is_continuation(messages: Seq<ChatMessage>) -> bool {
    exists|i: int| 0 <= i < messages.len() && (#[trigger] messages[i]).role == ChatRole::Tool
}

/// The words of a text from index `i` on, each with a space behind it. A word
/// ends at each space.
pub open spec fn word_pieces(s: Seq<char>, from: int, i: int) -> Seq<Seq<char>>
    decreases s.len() - i,
{
    if !(0 <= i < s.len()) {
        seq![s.subrange(from, s.len() as int) + " "@]
    } else if s[i] == ' ' {
        seq![s.subrange(from, i) + " "@] + word_pieces(s, i + 1, i + 1)
    } else {
        word_pieces(s, from, i + 1)
    }
}

/// The pieces put together.
pub open spec fn put_together(pieces: Seq<Seq<char>>) -> Seq<char>
    decreases pieces.len(),
{
    if pieces.len() == 0 {
        Seq::empty()
    } else {
        put_together(pieces.drop_last()) + pieces.last()
    }
}

proof fn put_together_front(first: Seq<char>, rest: Seq<Seq<char>>)
    ensures
        put_together(seq![first] + rest) == first + put_together(rest),
    decreases rest.len(),
{
    if rest.len() == 0 {
        assert(seq![first] + rest =~= seq![first]);
        assert(seq![first].drop_last() =~= Seq::<Seq<char>>::empty());
        reveal_with_fuel(put_together, 2);
        assert(first + put_together(rest) =~= first);
        assert(put_together(seq![first]) =~= first);
    } else {
        put_together_front(first, rest.drop_last());
        assert((seq![first] + rest).drop_last() =~= seq![first] + rest.drop_last());
        assert((seq![first] + rest).last() == rest.last());
        assert(first + put_together(rest.drop_last()) + rest.last() =~= first + (put_together(
            rest.drop_last(),
        ) + rest.last()));
    }
}

/// The words of a text, put together, are the text and one more space.
pub proof fn words_rebuild(s: Seq<char>)
    ensures
        put_together(word_pieces(s, 0, 0)) == s + " "@,
{
    words_from_rebuild(s, 0, 0);
    assert(s.subrange(0, s.len() as int) =~= s);
}

proof fn words_from_rebuild(s: Seq<char>, from: int, i: int)
    requires
        0 <= from <= i <= s.len(),
    ensures
        put_together(word_pieces(s, from, i)) == s.subrange(from, s.len() as int) + " "@,
    decreases s.len() - i,
{
    reveal_strlit(" ");
    let n = s.len() as int;
    if i == n {
        put_together_front(s.subrange(from, n) + " "@, Seq::empty());
        assert(seq![s.subrange(from, n) + " "@] + Seq::<Seq<char>>::empty() =~= seq![
            s.subrange(from, n) + " "@,
        ]);
        assert(s.subrange(from, n) + " "@ + Seq::<char>::empty() =~= s.subrange(from, n) + " "@);
    } else if s[i] == ' ' {
        words_from_rebuild(s, i + 1, i + 1);
        put_together_front(s.subrange(from, i) + " "@, word_pieces(s, i + 1, i + 1));
        assert(s.subrange(from, i) + " "@ + (s.subrange(i + 1, n) + " "@) =~= s.subrange(from, n)
            + " "@);
    } else {
        words_from_rebuild(s, from, i + 1);
    }
}

/// The tool call with a title and a body.
pub open spec fn is_propose_call(call: ChatToolCall, title: Seq<char>, content: Seq<char>) -> bool {
    &&& call.call_id@ == "call_propose"@
    &&& call.fn_name@ == TOOL_CREATE_OUTPUT_PROPOSAL@
    &&& call.arguments matches Json::Object(m) && {
        &&& m@.len() == 2
        &&& m@[0].0@ == "content"@
        &&& m@[0].1 matches Json::Text(t) && t@ == content
        &&& m@[1].0@ == "title"@
        &&& m@[1].1 matches Json::Text(t) && t@ == title
    }
}

/// The tool call that reads the first source.
pub open spec fn is_read_call(call: ChatToolCall) -> bool {
    &&& call.call_id@ == "call_read"@
    &&& call.fn_name@ == TOOL_READ_SOURCE@
    &&& call.arguments matches Json::Object(m) && {
        &&& m@.len() == 1
        &&& m@[0].0@ == "source"@
        &&& m@[0].1 == Json::Number(JsonNumber::Natural(1))
    }
}

/// The text that is streamed where the script does not call a tool.
pub open spec fn answer_text(script: FakeScript, request: ChatRequest) -> Seq<char> {
    match script {
        FakeScript::Reply => reply_text(request.messages@),
        FakeScript::Propose { answer, .. } => if request.tools@.len() == 0 {
            reply_text(request.messages@)
        } else {
            answer@
        },
        FakeScript::ReadSource { answer } => if request.tools@.len() == 0 {
            reply_text(request.messages@)
        } else {
            answer@
        },
    }
}

/// The script calls a tool in this round: the request offers tools and is not a
/// continuation.
pub open spec fn calls_tool(script: FakeScript, request: ChatRequest) -> bool {
    !(script is Reply) && request.tools@.len() > 0 && !is_continuation(request.messages@)
}

/// The plan of a round.
pub open spec fn is_plan(plan: FakePlan, provider: FakeProvider, request: ChatRequest) -> bool {
    if calls_tool(provider.script, request) {
        &&& plan.chunks@.len() == 0
        &&& plan.tool_calls@.len() == 1
        &&& match provider.script {
            FakeScript::Propose { title, content, .. } => is_propose_call(
                plan.tool_calls@[0],
                title@,
                content@,
            ),
            _ => is_read_call(plan.tool_calls@[0]),
        }
    } else {
        &&& plan.tool_calls@.len() == 0
        &&& texts(plan.chunks@) == if provider.chunks@.len() > 0 {
            texts(provider.chunks@)
        } else {
            word_pieces(answer_text(provider.script, request), 0, 0)
        }
    }
}

fn copy_texts(list: &Vec<String>) -> (r: Vec<String>)
    ensures
        texts(r@) == texts(list@),
{
    let mut r: Vec<String> = Vec::new();
    let mut i: usize = 0;
    while i < list.len()
        invariant
            i <= list@.len(),
            r@.len() == i,
            forall|j: int| 0 <= j < i ==> (#[trigger] r@[j])@ == list@[j]@,
        decreases list@.len() - i,
    {
        r.push(list[i].clone());
        i = i + 1;
    }
    assert(texts(r@) =~= texts(list@));
    r
}

/// Splits a text into words, each with a space behind it.
fn split_words(text: &str) -> (r: Vec<String>)
    ensures
        texts(r@) == word_pieces(text@, 0, 0),
{
    let chars = chars_of(text);
    let size = chars.len();
    let ghost s = text@;
    let mut pieces: Vec<String> = Vec::new();
    let mut from: usize = 0;
    let mut i: usize = 0;
    assert(texts(pieces@) =~= Seq::<Seq<char>>::empty());
    assert(texts(pieces@) + word_pieces(s, 0, 0) =~= word_pieces(s, 0, 0));
    while i < size
        invariant
            from <= i <= size,
            size == chars@.len(),
            chars@ == s,
            word_pieces(s, 0, 0) == texts(pieces@) + word_pieces(s, from as int, i as int),
        decreases size - i,
    {
        if chars[i] == ' ' {
            let ghost before = texts(pieces@);
            let mut piece = string_between(&chars, from, i);
            piece.append(" ");
            let ghost p = piece@;
            pieces.push(piece);
            proof {
                assert(texts(pieces@) =~= before.push(p));
                assert(before + (seq![p] + word_pieces(s, i + 1, i + 1)) =~= before.push(p)
                    + word_pieces(s, i + 1, i + 1));
            }
            from = i + 1;
        }
        i = i + 1;
    }
    let ghost before = texts(pieces@);
    let mut piece = string_between(&chars, from, size);
    piece.append(" ");
    let ghost p = piece@;
    pieces.push(piece);
    proof {
        assert(texts(pieces@) =~= before.push(p));
        assert(before + seq![p] =~= before.push(p));
    }
    pieces
}

impl FakeProvider {
    /// Answers by repeating the question.
    pub fn new() -> (r: Self)
        ensures
            r.chunks@ == Seq::<String>::empty(),
            r.delay_ms == 0,
            r.fail_after is None,
            r.script is Reply,
    {
        FakeProvider {
            chunks: Vec::new(),
            delay_ms: 0,
            fail_after: None,
            script: FakeScript::Reply,
        }
    }

    /// Streams the given pieces.
    pub fn canned(chunks: Vec<&str>, delay_ms: u64, fail_after: Option<usize>) -> (r: Self)
        ensures
            r.chunks@.len() == chunks@.len(),
            forall|i: int| 0 <= i < chunks@.len() ==> (#[trigger] r.chunks@[i])@ == chunks@[i]@,
            r.delay_ms == delay_ms,
            r.fail_after == fail_after,
            r.script is Reply,
    {
        let mut owned: Vec<String> = Vec::new();
        let mut i: usize = 0;
        while i < chunks.len()
            invariant
                i <= chunks@.len(),
                owned@.len() == i,
                forall|j: int| 0 <= j < i ==> (#[trigger] owned@[j])@ == chunks@[j]@,
            decreases chunks@.len() - i,
        {
            owned.push(chunks[i].to_owned());
            i = i + 1;
        }
        FakeProvider { chunks: owned, delay_ms, fail_after, script: FakeScript::Reply }
    }

    /// Asks for a proposal in the first round, and answers in the next.
    pub fn tool_proposal(title: &str, content: &str, answer: &str) -> (r: Self)
        ensures
            r.chunks@ == Seq::<String>::empty(),
            r.delay_ms == 0,
            r.fail_after is None,
            r.script matches FakeScript::Propose { title: t, content: c, answer: a } && t@ == title@
                && c@ == content@ && a@ == answer@,
    {
        FakeProvider {
            chunks: Vec::new(),
            delay_ms: 0,
            fail_after: None,
            script: FakeScript::Propose {
                title: title.to_owned(),
                content: content.to_owned(),
                answer: answer.to_owned(),
            },
        }
    }

    /// Asks for the first source in the first round, and answers in the next.
    pub fn tool_read_source(answer: &str) -> (r: Self)
        ensures
            r.chunks@ == Seq::<String>::empty(),
            r.delay_ms == 0,
            r.fail_after is None,
            r.script matches FakeScript::ReadSource { answer: a } && a@ == answer@,
    {
        FakeProvider {
            chunks: Vec::new(),
            delay_ms: 0,
            fail_after: None,
            script: FakeScript::ReadSource { answer: answer.to_owned() },
        }
    }

    /// The name for the user.
    pub fn label(&self) -> (r: String)
        ensures
            r@ == "Fake"@,
    {
        "Fake".to_owned()
    }

    pub fn capabilities(&self) -> (r: Capabilities)
        ensures
            r == (Capabilities { streaming: true, tool_calls: true }),
    {
        Capabilities { streaming: true, tool_calls: true }
    }

    /// The reply to a request.
    pub fn reply_for(&self, request: &ChatRequest) -> (r: String)
        ensures
            r@ == reply_text(request.messages@),
    {
        let messages = &request.messages;
        let mut i: usize = messages.len();
        let mut question = String::new();
        assert(messages@.take(messages@.len() as int) =~= messages@);
        while i > 0
            invariant_except_break
                question@ == Seq::<char>::empty(),
                last_question(messages@) == last_question(messages@.take(i as int)),
            invariant
                i <= messages@.len(),
            ensures
                question@ == last_question(messages@),
            decreases i,
        {
            i = i - 1;
            proof {
                assert(messages@.take(i + 1).drop_last() =~= messages@.take(i as int));
                assert(messages@.take(i + 1).last() == messages@[i as int]);
            }
            if messages[i].role == ChatRole::User {
                question = trim(&messages[i].content);
                break;
            }
        }
        let shown: &str = if question.as_str().is_empty() {
            "(no question)"
        } else {
            question.as_str()
        };
        join3(
            "This is a reply from the Fake provider (no network).\n\nYou asked: ",
            shown,
            "\n\nConfigure a real provider in Settings to enable model calls.",
        )
    }

    /// Plans a round. Tools are only called where the request offers some, and
    /// not in a continuation.
    pub fn plan(&self, request: &ChatRequest) -> (r: FakePlan)
        ensures
            is_plan(r, *self, *request),
    {
        let mut continuation = false;
        let mut i: usize = 0;
        while i < request.messages.len()
            invariant
                i <= request.messages@.len(),
                continuation == exists|j: int|
                    0 <= j < i && (#[trigger] request.messages@[j]).role == ChatRole::Tool,
            decreases request.messages@.len() - i,
        {
            if request.messages[i].role == ChatRole::Tool {
                continuation = true;
            }
            i = i + 1;
        }
        let offered = request.tools.len() > 0;
        if offered && !continuation {
            match &self.script {
                FakeScript::Reply => {},
                FakeScript::Propose { title, content, .. } => {
                    let mut arguments: Vec<(String, Json)> = Vec::new();
                    arguments.push(("content".to_owned(), Json::Text(content.clone())));
                    arguments.push(("title".to_owned(), Json::Text(title.clone())));
                    let mut calls: Vec<ChatToolCall> = Vec::new();
                    calls.push(
                        ChatToolCall {
                            call_id: "call_propose".to_owned(),
                            fn_name: TOOL_CREATE_OUTPUT_PROPOSAL.to_owned(),
                            arguments: Json::Object(arguments),
                        },
                    );
                    return FakePlan { chunks: Vec::new(), tool_calls: calls };
                },
                FakeScript::ReadSource { .. } => {
                    let mut arguments: Vec<(String, Json)> = Vec::new();
                    arguments.push(("source".to_owned(), Json::Number(JsonNumber::Natural(1))));
                    let mut calls: Vec<ChatToolCall> = Vec::new();
                    calls.push(
                        ChatToolCall {
                            call_id: "call_read".to_owned(),
                            fn_name: TOOL_READ_SOURCE.to_owned(),
                            arguments: Json::Object(arguments),
                        },
                    );
                    return FakePlan { chunks: Vec::new(), tool_calls: calls };
                },
            }
        }
        if self.chunks.len() > 0 {
            return FakePlan { chunks: copy_texts(&self.chunks), tool_calls: Vec::new() };
        }
        let answer = match &self.script {
            FakeScript::Reply => self.reply_for(request),
            FakeScript::Propose { answer, .. } => if offered {
                answer.clone()
            } else {
                self.reply_for(request)
            },
            FakeScript::ReadSource { answer } => if offered {
                answer.clone()
            } else {
                self.reply_for(request)
            },
        };
        FakePlan { chunks: split_words(&answer), tool_calls: Vec::new() }
    }

    /// What to do about the piece of index `index`.
    pub fn step(&self, plan: &FakePlan, index: usize, cancelled: bool) -> (r: FakeStep)
        ensures
            if index >= plan.chunks@.len() {
                r is Finish
            } else if cancelled {
                r matches FakeStep::Fail(error) && error.kind == AiErrorKind::Cancelled
                    && error.message@ == "the turn was cancelled"@
            } else if self.fail_after is Some && index >= self.fail_after->0 {
                r matches FakeStep::Fail(error) && error.kind == AiErrorKind::Protocol
                    && error.message@ == "scripted fake provider failure"@
            } else {
                r == FakeStep::Send(plan.chunks@[index as int])
            },
    {
        if index >= plan.chunks.len() {
            return FakeStep::Finish;
        }
        if cancelled {
            return FakeStep::Fail(AiError::cancelled());
        }
        if let Some(limit) = self.fail_after {
            if index >= limit {
                return FakeStep::Fail(
                    AiError::new(AiErrorKind::Protocol, "scripted fake provider failure"),
                );
            }
        }
        FakeStep::Send(plan.chunks[index].clone())
    }

    /// The outcome of a round that was sent to its end.
    pub fn finish(&self, plan: FakePlan) -> (r: StreamOutcome)
        ensures
            r.content@ == put_together(texts(plan.chunks@)),
            r.usage.input_tokens == Some(12u32),
            r.usage.output_tokens == Some(plan.chunks@.len() as u32),
            r.tool_calls == plan.tool_calls,
    {
        let ghost all = texts(plan.chunks@);
        let mut content = String::new();
        let mut i: usize = 0;
        assert(all.take(0) =~= Seq::<Seq<char>>::empty());
        while i < plan.chunks.len()
            invariant
                i <= plan.chunks@.len(),
                all == texts(plan.chunks@),
                content@ == put_together(all.take(i as int)),
            decreases plan.chunks@.len() - i,
        {
            proof {
                assert(all.take(i + 1).drop_last() =~= all.take(i as int));
                assert(all.take(i + 1).last() == plan.chunks@[i as int]@);
            }
            content.append(&plan.chunks[i]);
            i = i + 1;
        }
        assert(all.take(i as int) =~= all);
        StreamOutcome {
            content,
            usage: TokenUsage {
                input_tokens: Some(12),
                output_tokens: Some(plan.chunks.len() as u32),
            },
            tool_calls: plan.tool_calls,
        }
    }
}

/// The error of a round whose pieces nobody takes any more.
pub fn channel_closed() -> (r: AiError)
    ensures
        r.kind == AiErrorKind::Cancelled,
        r.message@ == "event channel closed (turn discarded)"@,
{
    AiError::new(AiErrorKind::Cancelled, "event channel closed (turn discarded)")
}

impl Default for FakeProvider {
    fn default() -> (r: Self)
        ensures
            r.chunks@ == Seq::<String>::empty(),
            r.delay_ms == 0,
            r.fail_after is None,
            r.script is Reply,
    {
        FakeProvider::new()
    }
}

/// The question that is answered is the last message of the user, without the white
/// space around it. What the model or a tool said after it does not count.
pub proof fn the_last_question_is_answered(
    before: Seq<ChatMessage>,
    question: ChatMessage,
    after: Seq<ChatMessage>,
)
    requires
        question.role == ChatRole::User,
        forall|i: int| 0 <= i < after.len() ==> (#[trigger] after[i]).role != ChatRole::User,
    ensures
        last_question(before + seq![question] + after) == trimmed(question.content@),
    decreases after.len(),
{
    let all = before + seq![question] + after;
    if after.len() == 0 {
        assert(all.last() == question);
    } else {
        assert(all.last() == after[after.len() - 1]);
        let rest = after.drop_last();
        assert forall|i: int| 0 <= i < rest.len() implies (#[trigger] rest[i]).role
            != ChatRole::User by {
            assert(rest[i] == after[i]);
        }
        assert(all.drop_last() =~= before + seq![question] + rest);
        the_last_question_is_answered(before, question, rest);
    }
}

/// Without tools, or when a tool has answered, the provider answers in pieces that make
/// up its answer. Otherwise it calls the tool of its script, once.
pub proof fn plans_answer_or_call(plan: FakePlan, provider: FakeProvider, request: ChatRequest)
    requires
        is_plan(plan, provider, request),
        provider.chunks@.len() == 0,
    ensures
        provider.script is Reply || request.tools@.len() == 0 || (exists|i: int|
            0 <= i < request.messages@.len() && (#[trigger] request.messages@[i]).role
                == ChatRole::Tool) ==> plan.tool_calls@.len() == 0 && put_together(
            texts(plan.chunks@),
        ) == answer_text(provider.script, request) + " "@,
        !(provider.script is Reply || request.tools@.len() == 0 || (exists|i: int|
            0 <= i < request.messages@.len() && (#[trigger] request.messages@[i]).role
                == ChatRole::Tool)) ==> plan.tool_calls@.len() == 1 && plan.chunks@.len() == 0,
{
    words_rebuild(answer_text(provider.script, request));
}

/// The tool calls of the scripts: one proposes a note with the title and text of the
/// script, the other reads the first source.
pub proof fn scripts_call_their_tools(
    plan: FakePlan,
    provider: FakeProvider,
    request: ChatRequest,
    proposed: String,
    text: String,
)
    requires
        is_plan(plan, provider, request),
        request.tools@.len() > 0,
        forall|i: int|
            0 <= i < request.messages@.len() ==> (#[trigger] request.messages@[i]).role
                != ChatRole::Tool,
    ensures
        provider.script is ReadSource ==> {
            let call = plan.tool_calls@[0];
            &&& call.call_id@ == "call_read"@
            &&& call.fn_name@ == "core.read_source"@
            &&& call.arguments.member("source"@) == Some(Json::Number(JsonNumber::Natural(1)))
        },
        provider.script matches FakeScript::Propose { title, content, .. } && title@ == proposed@
            && content@ == text@ ==> {
            let call = plan.tool_calls@[0];
            &&& call.call_id@ == "call_propose"@
            &&& call.fn_name@ == "core.create_output_proposal"@
            &&& call.arguments.member("title"@) matches Some(Json::Text(t)) && t@ == proposed@
            &&& call.arguments.member("content"@) matches Some(Json::Text(t)) && t@ == text@
        },
{
    reveal_strlit("title");
    reveal_strlit("content");
    assert("title"@.len() != "content"@.len());
    if let Json::Object(members) = plan.tool_calls@[0].arguments {
        if provider.script is ReadSource {
            the_first_member_counts(members, "source"@, 0);
        }
        if provider.script is Propose {
            the_first_member_counts(members, "content"@, 0);
            the_first_member_counts(members, "title"@, 1);
        }
    }
}

} // verus!
