//! Tool names and errors of remote providers.

use crate::data::ai::provider::{AiError, AiErrorKind, ChatMessage, ChatRole, ChatToolCall};
use crate::data::ai::tool::ToolDef;
use crate::data::ai::usage::TokenUsage;
use crate::text::{chars_of, same_text, string_of};
use vstd::prelude::*;

verus! {

/// The text with `_` in place of every `.`.
pub open spec fn wire_name(id: Seq<char>) -> Seq<char> {
    Seq::new(
        id.len(),
        |i: int| if id[i] == '.' {
            '_'
        } else {
            id[i]
        },
    )
}

/// The name of a tool on the wire, where dots are not accepted:
/// `core.list_sources` becomes `core_list_sources`.
pub fn wire_tool_name(id: &str) -> (r: String)
    ensures
        r@ == wire_name(id@),
{
    let chars = chars_of(id);
    let mut out: Vec<char> = Vec::new();
    let mut i: usize = 0;
    while i < chars.len()
        invariant
            i <= chars@.len(),
            chars@ == id@,
            out@.len() == i,
            forall|j: int| 0 <= j < i ==> out@[j] == wire_name(id@)[j],
        decreases chars@.len() - i,
    {
        out.push(
            if chars[i] == '.' {
                '_'
            } else {
                chars[i]
            },
        );
        i = i + 1;
    }
    assert(out@ =~= wire_name(id@));
    string_of(&out)
}

/// The index of the last tool whose name on the wire is `name`, or -1.
pub open spec fn last_with_wire_name(tools: Seq<ToolDef>, name: Seq<char>) -> int
    decreases tools.len(),
{
    if tools.len() == 0 {
        -1
    } else if wire_name(tools.last().id@) == name {
        tools.len() - 1
    } else {
        last_with_wire_name(tools.drop_last(), name)
    }
}

/// The tool that a name on the wire stands for; a name of no tool stands for
/// itself.
pub open spec fn canonical_name(tools: Seq<ToolDef>, name: Seq<char>) -> Seq<char> {
    let i = last_with_wire_name(tools, name);
    if 0 <= i < tools.len() {
        tools[i].id@
    } else {
        name
    }
}

/// Finds the tool that a name on the wire stands for.
pub fn canonical_tool_name(tools: &Vec<ToolDef>, name: &str) -> (r: String)
    ensures
        r@ == canonical_name(tools@, name@),
{
    let mut i: usize = tools.len();
    assert(tools@.take(tools@.len() as int) =~= tools@);
    while i > 0
        invariant
            i <= tools@.len(),
            last_with_wire_name(tools@, name@) == last_with_wire_name(
                tools@.take(i as int),
                name@,
            ),
        decreases i,
    {
        i = i - 1;
        proof {
            assert(tools@.take(i + 1).drop_last() =~= tools@.take(i as int));
            assert(tools@.take(i + 1).last() == tools@[i as int]);
        }
        if same_text(&wire_tool_name(&tools[i].id), name) {
            return tools[i].id.clone();
        }
    }
    name.to_owned()
}

/// Where the names of the tools differ on the wire, a name that was sent comes
/// back as the tool that it was sent for.
pub proof fn wire_names_come_back(tools: Seq<ToolDef>, i: int)
    requires
        0 <= i < tools.len(),
        forall|j: int|
            0 <= j < tools.len() && j != i ==> wire_name((#[trigger] tools[j]).id@) != wire_name(
                tools[i].id@,
            ),
    ensures
        canonical_name(tools, wire_name(tools[i].id@)) == tools[i].id@,
{
    last_with_wire_name_is(tools, i);
}

proof fn last_with_wire_name_is(tools: Seq<ToolDef>, i: int)
    requires
        0 <= i < tools.len(),
        forall|j: int|
            i < j < tools.len() ==> wire_name((#[trigger] tools[j]).id@) != wire_name(tools[i].id@),
    ensures
        last_with_wire_name(tools, wire_name(tools[i].id@)) == i,
    decreases tools.len(),
{
    if i < tools.len() - 1 {
        let rest = tools.drop_last();
        assert forall|j: int| i < j < rest.len() implies wire_name((#[trigger] rest[j]).id@)
            != wire_name(rest[i].id@) by {
            assert(rest[j] == tools[j]);
        }
        last_with_wire_name_is(rest, i);
        assert(tools[tools.len() - 1] == tools.last());
    }
}

/// How a request to a remote provider failed.
#[derive(Clone, Copy, Debug, PartialEq, Eq, Structural)]
pub enum RemoteFailure {
    /// The service answered with this HTTP status.
    Status(u16),
    /// The connection timed out.
    TimedOut,
    /// The request could not be sent.
    Unreachable,
    /// There are no credentials.
    NoCredentials,
    /// Anything else.
    Other,
}

/// The kind of error that a failure is.
pub open spec fn failure_kind(failure: RemoteFailure) -> AiErrorKind {
    match failure {
        RemoteFailure::Status(status) => if status == 401 || status == 403 {
            AiErrorKind::Authentication
        } else if status == 408 {
            AiErrorKind::Timeout
        } else if status == 429 {
            AiErrorKind::RateLimited
        } else if status == 400 {
            AiErrorKind::ContextTooLarge
        } else if 500 <= status <= 599 {
            AiErrorKind::ProviderUnavailable
        } else {
            AiErrorKind::Protocol
        },
        RemoteFailure::TimedOut => AiErrorKind::Timeout,
        RemoteFailure::Unreachable => AiErrorKind::ProviderUnavailable,
        RemoteFailure::NoCredentials => AiErrorKind::Authentication,
        RemoteFailure::Other => AiErrorKind::Protocol,
    }
}

/// The error for a failure, with the provider's own words.
pub fn map_error(failure: RemoteFailure, message: &str) -> (r: AiError)
    ensures
        r.kind == failure_kind(failure),
        r.message@ == message@,
{
    let kind = match failure {
        RemoteFailure::Status(status) => if status == 401 || status == 403 {
            AiErrorKind::Authentication
        } else if status == 408 {
            AiErrorKind::Timeout
        } else if status == 429 {
            AiErrorKind::RateLimited
        } else if status == 400 {
            AiErrorKind::ContextTooLarge
        } else if 500 <= status && status <= 599 {
            AiErrorKind::ProviderUnavailable
        } else {
            AiErrorKind::Protocol
        },
        RemoteFailure::TimedOut => AiErrorKind::Timeout,
        RemoteFailure::Unreachable => AiErrorKind::ProviderUnavailable,
        RemoteFailure::NoCredentials => AiErrorKind::Authentication,
        RemoteFailure::Other => AiErrorKind::Protocol,
    };
    AiError::new(kind, message)
}


/// A message as it goes over the wire.
#[derive(Debug, PartialEq, Eq)]
pub enum WireMessage {
    /// The assistant's tool calls, with the names of the tools on the wire.
    ToolCalls(Vec<ChatToolCall>),
    /// The result of one tool call.
    ToolResponse { call_id: String, content: String },
    /// A text.
    Plain { role: ChatRole, content: String },
}

/// The call with the name of its tool on the wire.
pub open spec fn is_wire_call(wire: ChatToolCall, call: ChatToolCall) -> bool {
    &&& wire.call_id == call.call_id
    &&& wire.fn_name@ == wire_name(call.fn_name@)
    &&& wire.arguments == call.arguments
}

/// The message as it goes over the wire: tool calls come first, then a tool
/// result, then a text.
pub open spec fn is_wire_message(wire: WireMessage, message: ChatMessage) -> bool {
    if message.tool_calls@.len() > 0 {
        match wire {
            WireMessage::ToolCalls(calls) => calls@.len() == message.tool_calls@.len() && forall|
                i: int,
            |
                0 <= i < calls@.len() ==> is_wire_call(
                    #[trigger] calls@[i],
                    message.tool_calls@[i],
                ),
            _ => false,
        }
    } else {
        match message.tool_call_id {
            Some(id) => wire == (WireMessage::ToolResponse {
                call_id: id,
                content: message.content,
            }),
            None => wire == (WireMessage::Plain { role: message.role, content: message.content }),
        }
    }
}

/// Renames the tool of each call to its name on the wire.
fn wire_calls(calls: Vec<ChatToolCall>) -> (r: Vec<ChatToolCall>)
    ensures
        r@.len() == calls@.len(),
        forall|i: int| 0 <= i < r@.len() ==> is_wire_call(#[trigger] r@[i], calls@[i]),
{
    let ghost all = calls@;
    let mut rest = calls;
    let mut reversed: Vec<ChatToolCall> = Vec::new();
    while rest.len() > 0
        invariant
            rest@.len() + reversed@.len() == all.len(),
            forall|i: int| 0 <= i < rest@.len() ==> rest@[i] == all[i],
            forall|i: int|
                0 <= i < reversed@.len() ==> is_wire_call(
                    #[trigger] reversed@[i],
                    all[all.len() - 1 - i],
                ),
        decreases rest@.len(),
    {
        match rest.pop() {
            Some(call) => {
                let fn_name = wire_tool_name(&call.fn_name);
                reversed.push(
                    ChatToolCall { call_id: call.call_id, fn_name, arguments: call.arguments },
                );
            },
            None => {
                assert(false);
            },
        }
    }
    crate::lists::reverse(reversed)
}

/// Prepares a message for the wire.
fn wire_message(message: ChatMessage) -> (r: WireMessage)
    ensures
        is_wire_message(r, message),
{
    if message.tool_calls.len() > 0 {
        return WireMessage::ToolCalls(wire_calls(message.tool_calls));
    }
    match message.tool_call_id {
        Some(call_id) => WireMessage::ToolResponse { call_id, content: message.content },
        None => WireMessage::Plain { role: message.role, content: message.content },
    }
}

/// Prepares the messages of a request for the wire.
pub fn wire_messages(messages: Vec<ChatMessage>) -> (r: Vec<WireMessage>)
    ensures
        r@.len() == messages@.len(),
        forall|i: int| 0 <= i < r@.len() ==> is_wire_message(#[trigger] r@[i], messages@[i]),
{
    let ghost all = messages@;
    let mut rest = messages;
    let mut reversed: Vec<WireMessage> = Vec::new();
    while rest.len() > 0
        invariant
            rest@.len() + reversed@.len() == all.len(),
            forall|i: int| 0 <= i < rest@.len() ==> rest@[i] == all[i],
            forall|i: int|
                0 <= i < reversed@.len() ==> is_wire_message(
                    #[trigger] reversed@[i],
                    all[all.len() - 1 - i],
                ),
        decreases rest@.len(),
    {
        match rest.pop() {
            Some(message) => {
                reversed.push(wire_message(message));
            },
            None => {
                assert(false);
            },
        }
    }
    crate::lists::reverse(reversed)
}

/// What has come in of a stream.
#[derive(Debug, PartialEq, Eq)]
pub struct RemoteStream {
    pub content: String,
    pub usage: TokenUsage,
    pub tool_calls: Vec<ChatToolCall>,
}

/// An event of a remote stream.
#[derive(Debug, PartialEq, Eq)]
pub enum RemoteEvent {
    /// More text.
    Chunk(String),
    /// The end: token counts and tool calls, where there are any.
    End {
        counts: Option<(Option<i32>, Option<i32>)>,
        calls: Option<Vec<ChatToolCall>>,
    },
    /// Something that is of no interest.
    Other,
    /// The stream broke.
    Broken(RemoteFailure, String),
}

/// What to do after an event.
#[derive(Debug, PartialEq, Eq)]
pub enum StreamStep {
    /// Read on.
    Continue,
    /// Pass this text on, then read on.
    Forward(String),
    /// Give up.
    Stop(AiError),
}

/// A count that fits, or nothing.
pub open spec fn natural_count(count: Option<i32>) -> Option<u32> {
    match count {
        Some(n) => if n >= 0 {
            Some(n as u32)
        } else {
            None
        },
        None => None,
    }
}

fn count_of(count: Option<i32>) -> (r: Option<u32>)
    ensures
        r == natural_count(count),
{
    match count {
        Some(n) => if n >= 0 {
            Some(n as u32)
        } else {
            None
        },
        None => None,
    }
}

/// The calls with the identifiers of their tools.
pub open spec fn restored(
    after: Seq<ChatToolCall>,
    calls: Seq<ChatToolCall>,
    tools: Seq<ToolDef>,
) -> bool {
    after.len() == calls.len() && forall|i: int|
        0 <= i < after.len() ==> {
            &&& (#[trigger] after[i]).call_id == calls[i].call_id
            &&& after[i].fn_name@ == canonical_name(tools, calls[i].fn_name@)
            &&& after[i].arguments == calls[i].arguments
        }
}

/// Renames the tool of each call back to its identifier.
fn restore_calls(calls: Vec<ChatToolCall>, tools: &Vec<ToolDef>) -> (r: Vec<ChatToolCall>)
    ensures
        restored(r@, calls@, tools@),
{
    let ghost all = calls@;
    let mut rest = calls;
    let mut reversed: Vec<ChatToolCall> = Vec::new();
    while rest.len() > 0
        invariant
            rest@.len() + reversed@.len() == all.len(),
            forall|i: int| 0 <= i < rest@.len() ==> rest@[i] == all[i],
            forall|i: int|
                0 <= i < reversed@.len() ==> {
                    &&& (#[trigger] reversed@[i]).call_id == all[all.len() - 1 - i].call_id
                    &&& reversed@[i].fn_name@ == canonical_name(
                        tools@,
                        all[all.len() - 1 - i].fn_name@,
                    )
                    &&& reversed@[i].arguments == all[all.len() - 1 - i].arguments
                },
        decreases rest@.len(),
    {
        match rest.pop() {
            Some(call) => {
                let fn_name = canonical_tool_name(tools, &call.fn_name);
                reversed.push(
                    ChatToolCall { call_id: call.call_id, fn_name, arguments: call.arguments },
                );
            },
            None => {
                assert(false);
            },
        }
    }
    crate::lists::reverse(reversed)
}

impl RemoteStream {
    /// Nothing has come in.
    pub fn new() -> (r: Self)
        ensures
            r.content@ == Seq::<char>::empty(),
            r.usage.input_tokens is None,
            r.usage.output_tokens is None,
            r.tool_calls@ == Seq::<ChatToolCall>::empty(),
    {
        RemoteStream {
            content: String::new(),
            usage: TokenUsage { input_tokens: None, output_tokens: None },
            tool_calls: Vec::new(),
        }
    }

    /// Takes in an event. A cancelled turn stops at the next event; text is kept
    /// and passed on; the end brings counts and tool calls.
    pub fn take(&mut self, event: RemoteEvent, cancelled: bool, tools: &Vec<ToolDef>) -> (r: StreamStep)
        ensures
            if cancelled {
                &&& *final(self) == *old(self)
                &&& r is Stop
                &&& r->Stop_0.kind == AiErrorKind::Cancelled
                &&& r->Stop_0.message@ == "the turn was cancelled"@
            } else {
                match event {
                    RemoteEvent::Chunk(text) => {
                        &&& r == StreamStep::Forward(text)
                        &&& final(self).content@ == old(self).content@ + text@
                        &&& final(self).usage == old(self).usage
                        &&& final(self).tool_calls == old(self).tool_calls
                    },
                    RemoteEvent::End { counts, calls } => {
                        &&& r is Continue
                        &&& final(self).content == old(self).content
                        &&& match counts {
                            Some((input, output)) => final(self).usage == (TokenUsage {
                                input_tokens: natural_count(input),
                                output_tokens: natural_count(output),
                            }),
                            None => final(self).usage == old(self).usage,
                        }
                        &&& match calls {
                            Some(list) => restored(final(self).tool_calls@, list@, tools@),
                            None => final(self).tool_calls == old(self).tool_calls,
                        }
                    },
                    RemoteEvent::Other => r is Continue && *final(self) == *old(self),
                    RemoteEvent::Broken(failure, message) => {
                        &&& *final(self) == *old(self)
                        &&& r is Stop
                        &&& r->Stop_0.kind == failure_kind(failure)
                        &&& r->Stop_0.message@ == message@
                    },
                }
            },
    {
        if cancelled {
            return StreamStep::Stop(AiError::cancelled());
        }
        match event {
            RemoteEvent::Chunk(text) => {
                self.content.append(&text);
                StreamStep::Forward(text)
            },
            RemoteEvent::End { counts, calls } => {
                if let Some((input, output)) = counts {
                    self.usage = TokenUsage {
                        input_tokens: count_of(input),
                        output_tokens: count_of(output),
                    };
                }
                if let Some(list) = calls {
                    self.tool_calls = restore_calls(list, tools);
                }
                StreamStep::Continue
            },
            RemoteEvent::Other => StreamStep::Continue,
            RemoteEvent::Broken(failure, message) => StreamStep::Stop(map_error(failure, &message)),
        }
    }
}

/// A name on the wire has underscores where the identifier has dots, and nothing else
/// changes.
pub proof fn wire_names_replace_dots(front: Seq<char>, back: Seq<char>)
    ensures
        wire_name(front + seq!['.'] + back) == wire_name(front) + seq!['_'] + wire_name(back),
        (forall|i: int| 0 <= i < front.len() ==> #[trigger] front[i] != '.') ==> wire_name(front)
            == front,
{
    assert(wire_name(front + seq!['.'] + back) =~= wire_name(front) + seq!['_'] + wire_name(back));
    if forall|i: int| 0 <= i < front.len() ==> #[trigger] front[i] != '.' {
        assert(wire_name(front) =~= front);
    }
}

/// A name that is no tool's on the wire stays as it is.
pub proof fn names_of_no_tool_stay(tools: Seq<ToolDef>, name: Seq<char>)
    requires
        forall|j: int| 0 <= j < tools.len() ==> wire_name((#[trigger] tools[j]).id@) != name,
    ensures
        canonical_name(tools, name) == name,
    decreases tools.len(),
{
    if tools.len() > 0 {
        assert(wire_name(tools[tools.len() - 1].id@) != name);
        let front = tools.drop_last();
        assert forall|j: int| 0 <= j < front.len() implies wire_name((#[trigger] front[j]).id@)
            != name by {
            assert(front[j] == tools[j]);
        }
        names_of_no_tool_stay(front, name);
        no_tool_found(front, name);
    }
}

proof fn no_tool_found(tools: Seq<ToolDef>, name: Seq<char>)
    requires
        forall|j: int| 0 <= j < tools.len() ==> wire_name((#[trigger] tools[j]).id@) != name,
    ensures
        last_with_wire_name(tools, name) == -1,
    decreases tools.len(),
{
    if tools.len() > 0 {
        assert(wire_name(tools[tools.len() - 1].id@) != name);
        let front = tools.drop_last();
        assert forall|j: int| 0 <= j < front.len() implies wire_name((#[trigger] front[j]).id@)
            != name by {
            assert(front[j] == tools[j]);
        }
        no_tool_found(front, name);
    }
}

/// Calls that come back from the wire are those that were made: each has its
/// identifier, its arguments and the name of its tool, in order.
pub proof fn calls_come_back(
    after: Seq<ChatToolCall>,
    wire: Seq<ChatToolCall>,
    calls: Seq<ChatToolCall>,
    tools: Seq<ToolDef>,
    k: int,
    i: int,
)
    requires
        restored(after, wire, tools),
        wire.len() == calls.len(),
        0 <= k < calls.len(),
        is_wire_call(wire[k], calls[k]),
        0 <= i < tools.len(),
        calls[k].fn_name@ == tools[i].id@,
        forall|j: int|
            0 <= j < tools.len() && j != i ==> wire_name((#[trigger] tools[j]).id@) != wire_name(
                tools[i].id@,
            ),
    ensures
        after.len() == calls.len(),
        after[k].call_id == calls[k].call_id,
        after[k].fn_name@ == calls[k].fn_name@,
        after[k].arguments == calls[k].arguments,
{
    wire_names_come_back(tools, i);
}

/// A message goes to the wire with its text. One that answers a call goes with the
/// call's identifier, and one that makes calls goes with each of them, in order.
pub proof fn messages_keep_their_text(wire: WireMessage, message: ChatMessage)
    requires
        is_wire_message(wire, message),
    ensures
        message.tool_calls@.len() == 0 && message.tool_call_id is None ==> (wire matches
            WireMessage::Plain { role, content } && role == message.role && content
            == message.content),
        message.tool_calls@.len() == 0 && message.tool_call_id is Some ==> (wire matches
            WireMessage::ToolResponse { call_id, content } && call_id == message.tool_call_id->0
            && content == message.content),
        message.tool_calls@.len() > 0 ==> (wire matches WireMessage::ToolCalls(calls)
            && calls@.len() == message.tool_calls@.len() && (forall|i: int|
            0 <= i < calls@.len() ==> (#[trigger] calls@[i]).call_id
                == message.tool_calls@[i].call_id && calls@[i].arguments
                == message.tool_calls@[i].arguments)),
{
}

/// What a status of a remote service means to the user.
pub proof fn failures_have_their_kinds(status: u16)
    ensures
        failure_kind(RemoteFailure::Status(401)) == AiErrorKind::Authentication,
        failure_kind(RemoteFailure::Status(403)) == AiErrorKind::Authentication,
        failure_kind(RemoteFailure::Status(408)) == AiErrorKind::Timeout,
        failure_kind(RemoteFailure::Status(429)) == AiErrorKind::RateLimited,
        failure_kind(RemoteFailure::Status(400)) == AiErrorKind::ContextTooLarge,
        500 <= status <= 599 <==> failure_kind(RemoteFailure::Status(status))
            == AiErrorKind::ProviderUnavailable,
        failure_kind(RemoteFailure::Status(status)) == AiErrorKind::Protocol <==> !(status == 401
            || status == 403 || status == 408 || status == 429 || status == 400 || 500 <= status
            <= 599),
        failure_kind(RemoteFailure::TimedOut) == AiErrorKind::Timeout,
        failure_kind(RemoteFailure::Unreachable) == AiErrorKind::ProviderUnavailable,
        failure_kind(RemoteFailure::NoCredentials) == AiErrorKind::Authentication,
        failure_kind(RemoteFailure::Other) == AiErrorKind::Protocol,
{
}

/// A count that is not negative is reported as it is, and a negative one not at all.
pub proof fn counts_are_reported(count: Option<i32>, n: u32)
    ensures
        natural_count(count) == Some(n) <==> count is Some && count->0 == n,
        natural_count(count) is None <==> count is None || count->0 < 0,
{
    if let Some(c) = count {
        if c >= 0 {
            assert(c as u32 == c);
        }
    }
}

} // verus!
