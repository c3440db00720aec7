//! Turns of conversations that run beside the user interface.
//!
//! Every event carries the identity of its turn, so that one that comes late
//! never lands in another conversation. The caller runs the tasks; the library
//! keeps the books and shapes the events.
use crate::data::ai::provider::{AiError, AiErrorKind, ChatMessage, ChatRequest, ChatRole,
    ChatToolCall, StreamOutcome};
use crate::data::ai::tool::{execute_tool_call, failed, is_failure, tool_index, tool_index_is,
    tool_outcome, BoundSource, ToolCall, ToolContext, ToolDef, ToolRegistry, ToolResult};
use crate::data::ai::types::{SnippetProposal, ToolRecord, ToolStatus};
use crate::data::ai::usage::TokenUsage;
use crate::data::ids::{ContainerId, ConversationId, TurnTaskId};
use crate::idmap::IdMap;
use crate::text::{join3, same_text};
use vstd::prelude::*;

verus! {

/// How many commands may wait.
pub const COMMAND_CAPACITY: usize = 64;

/// How many events may wait.
pub const EVENT_CAPACITY: usize = 256;

/// How many pieces of text of one provider may wait.
pub const DELTA_CAPACITY: usize = 32;

/// The identity of a turn.
#[derive(Debug)]
pub struct TurnIdentity {
    pub ai_box: ContainerId,
    pub conversation: ConversationId,
    pub task: TurnTaskId,
}

impl Clone for TurnIdentity {
    fn clone(&self) -> (r: Self)
        ensures
            r == *self,
    {
        TurnIdentity {
            ai_box: self.ai_box.clone(),
            conversation: self.conversation.clone(),
            task: self.task.clone(),
        }
    }
}

impl PartialEq for TurnIdentity {
    fn eq(&self, other: &Self) -> (r: bool) {
        self.ai_box == other.ai_box && self.conversation == other.conversation && self.task
            == other.task
    }
}

impl Eq for TurnIdentity {

}

impl vstd::std_specs::cmp::PartialEqSpecImpl for TurnIdentity {
    open spec fn obeys_eq_spec() -> bool {
        true
    }

    open spec fn eq_spec(&self, other: &Self) -> bool {
        self.ai_box@ == other.ai_box@ && self.conversation@ == other.conversation@ && self.task@
            == other.task@
    }
}

/// A turn to run.
pub struct TurnRequest {
    pub identity: TurnIdentity,
    pub request: ChatRequest,
    /// What the tools of the turn can read. Without it no tool is run.
    pub tool_context: Option<ToolContext>,
}

/// An event of a turn.
#[derive(Debug)]
pub enum TurnEvent {
    /// A piece of text of the answer.
    Delta { identity: TurnIdentity, delta: String },
    /// The answer is complete.
    Done {
        identity: TurnIdentity,
        content: String,
        usage: TokenUsage,
        /// The receipts of the tool calls, in order.
        tools: Vec<ToolRecord>,
        /// The note that the model proposed.
        proposal: Option<SnippetProposal>,
    },
    /// The turn failed.
    Failed { identity: TurnIdentity, error: AiError },
}

impl TurnEvent {
    pub open spec fn identity_of(&self) -> TurnIdentity {
        match *self {
            TurnEvent::Delta { identity, .. } => identity,
            TurnEvent::Done { identity, .. } => identity,
            TurnEvent::Failed { identity, .. } => identity,
        }
    }

    /// The identity of the turn.
    pub fn identity(&self) -> (r: &TurnIdentity)
        ensures
            *r == self.identity_of(),
    {
        match self {
            TurnEvent::Delta { identity, .. } => identity,
            TurnEvent::Done { identity, .. } => identity,
            TurnEvent::Failed { identity, .. } => identity,
        }
    }

    /// The turn is over with this event.
    pub fn is_terminal(&self) -> (r: bool)
        ensures
            r == !(self is Delta),
    {
        match self {
            TurnEvent::Delta { .. } => false,
            _ => true,
        }
    }
}

/// The event for a piece of text.
pub fn delta_event(identity: &TurnIdentity, delta: String) -> (r: TurnEvent)
    ensures
        r == (TurnEvent::Delta { identity: *identity, delta }),
{
    TurnEvent::Delta { identity: identity.clone(), delta }
}

/// The last event of a turn that failed.
pub fn failed_event(identity: TurnIdentity, error: AiError) -> (r: TurnEvent)
    ensures
        r == (TurnEvent::Failed { identity, error }),
{
    TurnEvent::Failed { identity, error }
}

/// How often a tool was called.
pub open spec fn calls_of(records: Seq<ToolRecord>, tool: Seq<char>) -> nat
    decreases records.len(),
{
    if records.len() == 0 {
        0
    } else {
        calls_of(records.drop_last(), tool) + if records.last().tool_id@ == tool {
            1nat
        } else {
            0nat
        }
    }
}

fn count_calls(records: &Vec<ToolRecord>, tool: &str) -> (r: usize)
    ensures
        r == calls_of(records@, tool@),
{
    let mut count: usize = 0;
    let mut i: usize = 0;
    assert(records@.take(0) =~= Seq::<ToolRecord>::empty());
    while i < records.len()
        invariant
            i <= records@.len(),
            count == calls_of(records@.take(i as int), tool@),
            count <= i,
        decreases records@.len() - i,
    {
        proof {
            assert(records@.take(i + 1).drop_last() =~= records@.take(i as int));
            assert(records@.take(i + 1).last() == records@[i as int]);
        }
        if same_text(&records[i].tool_id, tool) {
            count = count + 1;
        }
        i = i + 1;
    }
    assert(records@.take(i as int) =~= records@);
    count
}

/// A tool call as the tools take it.
pub open spec fn as_tool_call(call: ChatToolCall) -> ToolCall {
    ToolCall { call_id: call.call_id, tool_id: call.fn_name, arguments: call.arguments }
}

/// The outcome of a call in a turn: a tool that was called as often as it may be
/// in one turn is not called again.
pub open spec fn call_outcome(
    r: ToolResult,
    call: ToolCall,
    tools: Seq<ToolDef>,
    sources: Seq<BoundSource>,
    cancelled: bool,
    earlier: Seq<ToolRecord>,
) -> bool {
    let i = tool_index(tools, call.tool_id@);
    if i < tools.len() && calls_of(earlier, call.tool_id@) >= tools[i].max_calls_per_turn {
        is_failure(r, call, "the call limit of '"@ + call.tool_id@ + "' is reached"@)
    } else {
        tool_outcome(r, call, tools, sources, cancelled)
    }
}

fn run_call(
    call: &ToolCall,
    registry: &ToolRegistry,
    context: &ToolContext,
    cancelled: bool,
    earlier: &Vec<ToolRecord>,
) -> (r: ToolResult)
    ensures
        call_outcome(r, *call, registry@, context.sources@, cancelled, earlier@),
{
    match registry.def(&call.tool_id) {
        Some(def) => {
            let made = count_calls(earlier, &call.tool_id);
            if made >= def.max_calls_per_turn as usize {
                return failed(
                    call,
                    &join3("the call limit of '", &call.tool_id, "' is reached"),
                );
            }
        },
        None => {},
    }
    execute_tool_call(call, registry, context, cancelled)
}

/// The receipts of results.
pub open spec fn records_of(results: Seq<ToolResult>) -> Seq<ToolRecord> {
    results.map_values(|r: ToolResult| r.record)
}

/// The last proposal among results, or the one before them.
pub open spec fn last_proposal(
    results: Seq<ToolResult>,
    before: Option<SnippetProposal>,
) -> Option<SnippetProposal>
    decreases results.len(),
{
    if results.len() == 0 {
        before
    } else if results.last().proposal is Some {
        results.last().proposal
    } else {
        last_proposal(results.drop_last(), before)
    }
}

/// What was gathered over the rounds of a turn.
pub struct ToolTurn {
    pub records: Vec<ToolRecord>,
    pub proposal: Option<SnippetProposal>,
}

/// The calls of a round were carried out, in order, and the provider is told of
/// the results.
pub open spec fn is_round(
    after: ToolTurn,
    before: ToolTurn,
    next: ChatRequest,
    request: ChatRequest,
    outcome: StreamOutcome,
    tools: Seq<ToolDef>,
    sources: Seq<BoundSource>,
    cancelled: bool,
    results: Seq<ToolResult>,
) -> bool {
    let calls = outcome.tool_calls@;
    let told = next.messages@;
    let n = request.messages@.len() as int;
    &&& results.len() == calls.len()
    &&& forall|i: int|
        0 <= i < calls.len() ==> call_outcome(
            #[trigger] results[i],
            as_tool_call(calls[i]),
            tools,
            sources,
            cancelled,
            before.records@ + records_of(results.take(i)),
        )
    &&& after.records@ == before.records@ + records_of(results)
    &&& after.proposal == last_proposal(results, before.proposal)
    &&& next.system == request.system
    &&& next.tools == request.tools
    &&& told.len() == n + 1 + calls.len()
    &&& told.take(n) == request.messages@
    &&& told[n].role == ChatRole::Assistant
    &&& told[n].content == outcome.content
    &&& told[n].tool_calls@ == calls
    &&& told[n].tool_call_id is None
    &&& forall|i: int|
        0 <= i < calls.len() ==> (#[trigger] told[n + 1 + i]).is_tool_result(
            calls[i].call_id@,
            results[i].content@,
        )
}

/// What follows a round of a turn.
pub enum TurnStep {
    /// The turn is over.
    Finish(TurnEvent),
    /// The provider is asked again.
    Continue(ChatRequest),
}

impl ToolTurn {
    /// Nothing was gathered yet.
    pub fn new() -> (r: Self)
        ensures
            r.records@ == Seq::<ToolRecord>::empty(),
            r.proposal is None,
    {
        ToolTurn { records: Vec::new(), proposal: None }
    }

    fn run_calls(
        &mut self,
        calls: Vec<ChatToolCall>,
        registry: &ToolRegistry,
        context: &ToolContext,
        cancelled: bool,
    ) -> (r: (Vec<ChatToolCall>, Vec<ChatMessage>))
        ensures
            r.0@ == calls@,
            r.1@.len() == calls@.len(),
            exists|results: Seq<ToolResult>|
                {
                    &&& #[trigger] records_of(results).len() == calls@.len()
                    &&& results.len() == calls@.len()
                    &&& forall|i: int|
                        0 <= i < calls@.len() ==> call_outcome(
                            #[trigger] results[i],
                            as_tool_call(calls@[i]),
                            registry@,
                            context.sources@,
                            cancelled,
                            old(self).records@ + records_of(results.take(i)),
                        )
                    &&& final(self).records@ == old(self).records@ + records_of(results)
                    &&& final(self).proposal == last_proposal(results, old(self).proposal)
                    &&& forall|i: int|
                        0 <= i < calls@.len() ==> (#[trigger] r.1@[i]).is_tool_result(
                            calls@[i].call_id@,
                            results[i].content@,
                        )
                },
    {
        let ghost all = calls@;
        let mut rest = calls;
        let mut done: Vec<ChatToolCall> = Vec::new();
        let mut told: Vec<ChatMessage> = Vec::new();
        let ghost mut results: Seq<ToolResult> = Seq::empty();
        assert(self.records@ =~= old(self).records@ + records_of(results));
        while rest.len() > 0
            invariant
                done@.len() == results.len(),
                told@.len() == results.len(),
                results.len() + rest@.len() == all.len(),
                done@ + rest@ == all,
                forall|i: int|
                    0 <= i < results.len() ==> call_outcome(
                        #[trigger] results[i],
                        as_tool_call(all[i]),
                        registry@,
                        context.sources@,
                        cancelled,
                        old(self).records@ + records_of(results.take(i)),
                    ),
                self.records@ == old(self).records@ + records_of(results),
                self.proposal == last_proposal(results, old(self).proposal),
                forall|i: int|
                    0 <= i < results.len() ==> (#[trigger] told@[i]).is_tool_result(
                        all[i].call_id@,
                        results[i].content@,
                    ),
            decreases rest@.len(),
        {
            let ghost n = results.len() as int;
            let ghost before = results;
            let ghost here = rest@;
            let ghost made = done@;
            assert(all[n] == here[0]);
            let next = rest.remove(0);
            let call = ToolCall {
                call_id: next.call_id,
                tool_id: next.fn_name,
                arguments: next.arguments,
            };
            assert(call == as_tool_call(all[n]));
            let result = run_call(&call, registry, context, cancelled, &self.records);
            told.push(ChatMessage::tool_result(&call.call_id, &result.content));
            proof {
                results = results.push(result);
                assert(results.drop_last() =~= before);
                assert(results.take(n) =~= before);
                assert(records_of(results) =~= records_of(before).push(result.record));
                assert forall|i: int| 0 <= i < results.len() implies call_outcome(
                    #[trigger] results[i],
                    as_tool_call(all[i]),
                    registry@,
                    context.sources@,
                    cancelled,
                    old(self).records@ + records_of(results.take(i)),
                ) by {
                    if i < n {
                        assert(results.take(i) =~= before.take(i));
                        assert(results[i] == before[i]);
                    }
                }
            }
            let ghost receipts = self.records@;
            self.records.push(result.record);
            assert(self.records@ =~= old(self).records@ + records_of(results)) by {
                assert(receipts.push(result.record) =~= old(self).records@ + records_of(
                    before,
                ).push(result.record));
            }
            match result.proposal {
                Some(proposal) => {
                    self.proposal = Some(proposal);
                },
                None => {},
            }
            done.push(
                ChatToolCall {
                    call_id: call.call_id,
                    fn_name: call.tool_id,
                    arguments: call.arguments,
                },
            );
            proof {
                assert(done@ == made.push(all[n]));
                assert(done@ + rest@ =~= made + here);
            }
        }
        proof {
            assert(done@ =~= all);
            assert(records_of(results).len() == all.len());
        }
        (done, told)
    }

    /// What follows when the provider has answered `request` with `outcome`. An
    /// answer that asks for tools has them run, within what the turn can read, and
    /// the provider is asked again; any other answer ends the turn.
    pub fn step(
        &mut self,
        identity: &TurnIdentity,
        request: ChatRequest,
        outcome: StreamOutcome,
        registry: &ToolRegistry,
        context: &Option<ToolContext>,
        cancelled: bool,
    ) -> (r: TurnStep)
        ensures
            match *context {
                Some(readable) if outcome.tool_calls@.len() > 0 => {
                    &&& r matches TurnStep::Continue(next)
                    &&& exists|results: Seq<ToolResult>| #[trigger]
                        is_round(
                            *final(self),
                            *old(self),
                            next,
                            request,
                            outcome,
                            registry@,
                            readable.sources@,
                            cancelled,
                            results,
                        )
                },
                _ => {
                    &&& r matches TurnStep::Finish(
                        TurnEvent::Done { identity: i, content, usage, tools, proposal },
                    )
                    &&& i == *identity
                    &&& content == outcome.content
                    &&& usage == outcome.usage
                    &&& tools@ == old(self).records@
                    &&& proposal == old(self).proposal
                },
            },
    {
        match context {
            Some(readable) => {
                if outcome.tool_calls.len() > 0 {
                    let ghost start = *self;
                    let (calls, told) = self.run_calls(
                        outcome.tool_calls,
                        registry,
                        readable,
                        cancelled,
                    );
                    let mut told = told;
                    let mut messages = request.messages;
                    messages.push(
                        ChatMessage {
                            role: ChatRole::Assistant,
                            content: outcome.content,
                            tool_calls: calls,
                            tool_call_id: None,
                        },
                    );
                    let ghost answers = told@;
                    messages.append(&mut told);
                    let next = ChatRequest {
                        system: request.system,
                        messages,
                        tools: request.tools,
                    };
                    proof {
                        let n = request.messages@.len() as int;
                        let results = choose|results: Seq<ToolResult>|
                            {
                                &&& #[trigger] records_of(results).len() == calls@.len()
                                &&& results.len() == calls@.len()
                                &&& forall|i: int|
                                    0 <= i < calls@.len() ==> call_outcome(
                                        #[trigger] results[i],
                                        as_tool_call(calls@[i]),
                                        registry@,
                                        readable.sources@,
                                        cancelled,
                                        start.records@ + records_of(results.take(i)),
                                    )
                                &&& self.records@ == start.records@ + records_of(results)
                                &&& self.proposal == last_proposal(results, start.proposal)
                                &&& forall|i: int|
                                    0 <= i < calls@.len() ==> (
                                    #[trigger] answers[i]).is_tool_result(
                                        calls@[i].call_id@,
                                        results[i].content@,
                                    )
                            };
                        assert(next.messages@.take(n) =~= request.messages@);
                        assert forall|i: int| 0 <= i < calls@.len() implies (
                        #[trigger] next.messages@[n + 1 + i]).is_tool_result(
                            calls@[i].call_id@,
                            results[i].content@,
                        ) by {
                            assert(next.messages@[n + 1 + i] == answers[i]);
                        }
                        assert(is_round(
                            *self,
                            start,
                            next,
                            request,
                            outcome,
                            registry@,
                            readable.sources@,
                            cancelled,
                            results,
                        ));
                    }
                    return TurnStep::Continue(next);
                }
            },
            None => {},
        }
        let mut tools: Vec<ToolRecord> = Vec::new();
        tools.append(&mut self.records);
        assert(tools@ =~= old(self).records@);
        let proposal = self.proposal.take();
        TurnStep::Finish(
            TurnEvent::Done {
                identity: identity.clone(),
                content: outcome.content,
                usage: outcome.usage,
                tools,
                proposal,
            },
        )
    }
}

/// No round carries out a tool more often than it may be called in one turn: past
/// its limit a call fails, and is told so.
pub proof fn tools_keep_their_limits(
    after: ToolTurn,
    before: ToolTurn,
    next: ChatRequest,
    request: ChatRequest,
    outcome: StreamOutcome,
    tools: Seq<ToolDef>,
    sources: Seq<BoundSource>,
    cancelled: bool,
    results: Seq<ToolResult>,
    i: int,
)
    requires
        is_round(
            after,
            before,
            next,
            request,
            outcome,
            tools,
            sources,
            cancelled,
            results,
        ),
        0 <= i < results.len(),
        tool_index(tools, outcome.tool_calls@[i].fn_name@) < tools.len(),
        calls_of(
            before.records@ + records_of(results.take(i)),
            outcome.tool_calls@[i].fn_name@,
        ) >= tools[tool_index(tools, outcome.tool_calls@[i].fn_name@)].max_calls_per_turn,
    ensures
        results[i].record.status == crate::data::ai::types::ToolStatus::Failed,
        results[i].proposal is None,
{
    assert(call_outcome(
        results[i],
        as_tool_call(outcome.tool_calls@[i]),
        tools,
        sources,
        cancelled,
        before.records@ + records_of(results.take(i)),
    ));
}

/// The error of a turn that could not be handed to the worker.
pub fn busy() -> (r: AiError)
    ensures
        r.kind == AiErrorKind::ProviderUnavailable,
        r.message@ == "AI worker is busy or shutting down"@,
{
    AiError::new(AiErrorKind::ProviderUnavailable, "AI worker is busy or shutting down")
}

/// The turns that the worker runs, by their tasks.
pub struct TurnBook {
    pub turns: IdMap<TurnTaskId, TurnIdentity>,
}

/// What the worker does about a command.
#[derive(Debug)]
pub enum WorkerAction {
    /// Start a task for the turn.
    Start(TurnTaskId),
    /// Stop the task, and send the event if there is room for it.
    Stop(TurnTaskId, TurnEvent),
    /// Nothing.
    Ignore,
    /// Stop all tasks and end.
    End,
}

/// A command to the worker.
#[derive(Debug)]
pub enum WorkerCommand {
    Run(TurnIdentity),
    Cancel(TurnTaskId),
    Shutdown,
}

impl TurnBook {
    /// No turn runs.
    pub fn new() -> (r: Self)
        ensures
            r.turns@ == Map::<Seq<char>, TurnIdentity>::empty(),
    {
        TurnBook { turns: IdMap::new() }
    }

    /// Takes a command. A turn that is cancelled is reported as such; one that
    /// is not known is left alone.
    pub fn take(&mut self, command: WorkerCommand) -> (r: WorkerAction)
        ensures
            match command {
                WorkerCommand::Run(identity) => {
                    &&& r == WorkerAction::Start(identity.task)
                    &&& final(self).turns@ == old(self).turns@.insert(identity.task@, identity)
                },
                WorkerCommand::Cancel(task) => if old(self).turns@.dom().contains(task@) {
                    &&& r matches WorkerAction::Stop(t, TurnEvent::Failed { identity, error }) && t
                        == task && identity == old(self).turns@[task@] && error.kind
                        == AiErrorKind::Cancelled && error.message@ == "the turn was cancelled"@
                    &&& final(self).turns@ == old(self).turns@.remove(task@)
                } else {
                    &&& r is Ignore
                    &&& final(self).turns@ == old(self).turns@
                },
                WorkerCommand::Shutdown => {
                    &&& r is End
                    &&& final(self).turns@ == Map::<Seq<char>, TurnIdentity>::empty()
                },
            },
    {
        match command {
            WorkerCommand::Run(identity) => {
                let task = identity.task.clone();
                self.turns.insert(identity.task.clone(), identity);
                WorkerAction::Start(task)
            },
            WorkerCommand::Cancel(task) => {
                match self.turns.remove(&task) {
                    Some(identity) => WorkerAction::Stop(
                        task,
                        TurnEvent::Failed { identity, error: AiError::cancelled() },
                    ),
                    None => WorkerAction::Ignore,
                }
            },
            WorkerCommand::Shutdown => {
                self.turns = IdMap::new();
                WorkerAction::End
            },
        }
    }
}

/// The calls of a tool are counted, each once.
pub proof fn calls_are_counted(records: Seq<ToolRecord>, tool: Seq<char>) -> (at: Seq<int>)
    ensures
        at.len() == calls_of(records, tool),
        forall|j: int|
            #![trigger at[j]]
            0 <= j < at.len() ==> 0 <= at[j] < records.len() && records[at[j]].tool_id@ == tool,
        forall|i: int, j: int| 0 <= i < j < at.len() ==> at[i] < at[j],
        forall|k: int|
            #![trigger records[k]]
            0 <= k < records.len() && records[k].tool_id@ == tool ==> at.contains(k),
    decreases records.len(),
{
    if records.len() == 0 {
        Seq::empty()
    } else {
        let front = records.drop_last();
        let before = calls_are_counted(front, tool);
        let n = records.len() - 1;
        let taken = records.last().tool_id@ == tool;
        let at = if taken {
            before.push(n)
        } else {
            before
        };
        assert forall|j: int|
            #![trigger at[j]]
            0 <= j < at.len() implies 0 <= at[j] < records.len() && records[at[j]].tool_id@ == tool by {
            if j < before.len() {
                assert(at[j] == before[j]);
                assert(front[before[j]] == records[at[j]]);
            }
        }
        assert forall|k: int|
            #![trigger records[k]]
            0 <= k < records.len() && records[k].tool_id@ == tool implies at.contains(k) by {
            if k < n {
                assert(front[k] == records[k]);
                let j = choose|j: int| 0 <= j < before.len() && before[j] == k;
                assert(at[j] == k);
            } else {
                assert(at[before.len() as int] == n);
            }
        }
        at
    }
}

/// The proposal of a turn is the last one that was made. Returns which result made it,
/// or -1 if none did.
pub proof fn the_last_proposal_counts(
    results: Seq<ToolResult>,
    before: Option<SnippetProposal>,
) -> (k: int)
    ensures
        -1 <= k < results.len(),
        forall|i: int| k < i < results.len() ==> (#[trigger] results[i]).proposal is None,
        k >= 0 ==> results[k].proposal is Some && last_proposal(results, before)
            == results[k].proposal,
        k < 0 ==> last_proposal(results, before) == before,
    decreases results.len(),
{
    if results.len() == 0 {
        -1
    } else if results.last().proposal is Some {
        results.len() - 1
    } else {
        let front = results.drop_last();
        let k = the_last_proposal_counts(front, before);
        assert forall|i: int| k < i < results.len() implies (
        #[trigger] results[i]).proposal is None by {
            if i < front.len() {
                assert(front[i] == results[i]);
            }
        }
        k
    }
}

/// After a round of calls the model is told everything it was told before, then its
/// own calls, and then the result of each call, in order and under the call's
/// identifier. The turn keeps what each call came to.
pub proof fn rounds_tell_every_result(
    after: ToolTurn,
    before: ToolTurn,
    next: ChatRequest,
    request: ChatRequest,
    outcome: StreamOutcome,
    tools: Seq<ToolDef>,
    sources: Seq<BoundSource>,
    cancelled: bool,
    results: Seq<ToolResult>,
)
    requires
        is_round(after, before, next, request, outcome, tools, sources, cancelled, results),
    ensures
        ({
            let calls = outcome.tool_calls@;
            let told = next.messages@;
            let n = request.messages@.len() as int;
            &&& next.system == request.system
            &&& next.tools == request.tools
            &&& told.len() == n + 1 + calls.len()
            &&& forall|i: int| 0 <= i < n ==> #[trigger] told[i] == request.messages@[i]
            &&& told[n].role == ChatRole::Assistant
            &&& told[n].content == outcome.content
            &&& told[n].tool_calls@ == calls
            &&& forall|i: int|
                0 <= i < calls.len() ==> {
                    &&& (#[trigger] told[n + 1 + i]).role == ChatRole::Tool
                    &&& told[n + 1 + i].tool_call_id is Some
                    &&& told[n + 1 + i].tool_call_id->0@ == calls[i].call_id@
                    &&& told[n + 1 + i].content@ == results[i].content@
                }
            &&& after.records@.len() == before.records@.len() + calls.len()
            &&& forall|i: int|
                0 <= i < before.records@.len() ==> #[trigger] after.records@[i]
                    == before.records@[i]
            &&& forall|i: int|
                0 <= i < calls.len() ==> #[trigger] after.records@[before.records@.len() + i]
                    == results[i].record
        }),
{
    let told = next.messages@;
    let n = request.messages@.len() as int;
    assert forall|i: int| 0 <= i < n implies #[trigger] told[i] == request.messages@[i] by {
        assert(told.take(n)[i] == told[i]);
    }
}

/// A call of a tool that has been called as often as it may be in a turn fails. Any
/// other is carried out.
pub proof fn spent_tools_fail(
    r: ToolResult,
    call: ToolCall,
    tools: Seq<ToolDef>,
    sources: Seq<BoundSource>,
    cancelled: bool,
    earlier: Seq<ToolRecord>,
    t: int,
)
    requires
        call_outcome(r, call, tools, sources, cancelled, earlier),
        0 <= t < tools.len(),
        tools[t].id@ == call.tool_id@,
        forall|j: int| 0 <= j < t ==> #[trigger] tools[j].id@ != call.tool_id@,
    ensures
        calls_of(earlier, call.tool_id@) >= tools[t].max_calls_per_turn ==> r.record.status
            == ToolStatus::Failed && r.proposal is None,
        calls_of(earlier, call.tool_id@) < tools[t].max_calls_per_turn ==> tool_outcome(
            r,
            call,
            tools,
            sources,
            cancelled,
        ),
{
    tool_index_is(tools, call.tool_id@, t);
}

} // verus!
