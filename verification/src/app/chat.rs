//! The open conversation: questions, answers and proposals.
use crate::app::answers::{output_content_with_sources, output_text, output_title, output_title_text,
    state_of};
use crate::app::commands::Effect;
use crate::app::context::{are_bound, are_snapshots, has_conversation, is_turn_request,
    turn_sources};
use crate::app::page::{put_card, Chat, HomePage};
use crate::data::ai::provider::{build_provider, AiError, AiErrorKind, ProviderKind};
use crate::data::ai::types::{now_unix, Message, MessageRole, MessageStatus, SnippetProposal,
    SourceRef, ToolRecord};
use crate::data::ai::usage::TokenUsage;
use crate::data::ai::worker::{TurnEvent, TurnIdentity, TurnRequest};
use crate::data::ids::{is_compact_id, ContainerId, ConversationId, EntityId, ExternalFileId,
    ReferenceId, TurnTaskId};
use crate::data::layout::Point;
use crate::data::model::Snippet;
use crate::data::settings::Settings;
use crate::data::workspace::{MemberRole, ReferenceTarget};
use crate::idmap::IdMap;
use crate::text::{join2, join3, trim, trimmed};
use vstd::prelude::*;

verus! {

/// What a finished turn leaves: the parts of an answer.
pub struct AnswerParts {
    pub status: MessageStatus,
    pub sources: Vec<SourceRef>,
    pub usage: TokenUsage,
    pub tools: Vec<ToolRecord>,
    pub proposal: Option<SnippetProposal>,
}

/// An answer with this text and these parts. Counts are kept only if the provider
/// reported any.
pub open spec fn is_answer(
    message: Message,
    task: TurnTaskId,
    content: Seq<char>,
    status: MessageStatus,
    sources: Seq<SourceRef>,
    usage: TokenUsage,
    tools: Seq<ToolRecord>,
    proposal: Option<SnippetProposal>,
) -> bool {
    &&& message.role == MessageRole::Assistant
    &&& message.content@ == content
    &&& message.sources@ == sources
    &&& message.status == status
    &&& message.turn_task == Some(task)
    &&& message.usage == if usage.input_tokens is Some || usage.output_tokens is Some {
        Some(usage)
    } else {
        None
    }
    &&& message.tools@ == tools
    &&& message.proposal == proposal
}

/// An answer that tells why there is none.
pub open spec fn is_notice(message: Message, task: TurnTaskId, text: Seq<char>) -> bool {
    is_answer(
        message,
        task,
        text,
        MessageStatus::Failed,
        Seq::empty(),
        TokenUsage { input_tokens: None, output_tokens: None },
        Seq::empty(),
        None,
    )
}

/// A message was added to a conversation, if there is such a one.
pub open spec fn noted(
    after: HomePage,
    before: HomePage,
    effects: Seq<Effect>,
    ai_box: ContainerId,
    conversation: Seq<char>,
    message: Message,
    now: u64,
) -> bool {
    let boxes = before.ai_boxes@;
    &&& after == (HomePage { ai_boxes: after.ai_boxes, ..before })
    &&& before.ai_boxes.wf() ==> after.ai_boxes.wf()
    &&& effects == if boxes.contains_key(ai_box@) {
        seq![Effect::SaveBox(ai_box)]
    } else {
        Seq::empty()
    }
    &&& if has_conversation(before, ai_box@, conversation) {
        let data = after.ai_boxes@[ai_box@];
        let c = data.conversations@[conversation];
        let d = boxes[ai_box@].conversations@[conversation];
        &&& after.ai_boxes@ == boxes.insert(ai_box@, data)
        &&& data.changed(boxes[ai_box@], conversation)
        &&& c.same_but_messages(d)
        &&& c.messages@ == d.messages@.push(message)
        &&& c.updated_at == now
    } else {
        after.ai_boxes@ == boxes
    }
}

/// What follows a question.
pub enum SendStep {
    /// Nothing is asked.
    Nothing,
    /// A turn is to be run. Its answer keeps the sources as they are now.
    Submit(TurnRequest, Vec<SourceRef>),
}

/// A provider can be built with these settings.
pub open spec fn provider_ready(settings: Settings) -> bool {
    settings.ai_provider == ProviderKind::Fake || trimmed(settings.ai_model@).len() > 0
}

/// The question of the input field was sent, as far as it can be.
pub open spec fn sent(
    after: HomePage,
    before: HomePage,
    step: SendStep,
    effects: Seq<Effect>,
    files: Map<Seq<char>, String>,
    overridden: bool,
) -> bool {
    let text = trimmed(before.chat.input@);
    match before.chat.open {
        None => step is Nothing && after == before && effects == Seq::<Effect>::empty(),
        Some((ai_box, conversation)) => if text.len() == 0 || before.chat.active_turn is Some {
            step is Nothing && after == before && effects == Seq::<Effect>::empty()
        } else if !before.settings.ai_enabled {
            &&& step is Nothing
            &&& exists|message: Message, now: u64, task: TurnTaskId|
                {
                    &&& #[trigger] noted(
                        after,
                        before,
                        effects,
                        ai_box,
                        conversation@,
                        message,
                        now,
                    )
                    &&& #[trigger] is_notice(
                        message,
                        task,
                        "AI is disabled. Enable it in Settings first."@,
                    )
                }
        } else if !overridden && !provider_ready(before.settings) {
            &&& step is Nothing
            &&& exists|message: Message, now: u64, task: TurnTaskId|
                {
                    &&& #[trigger] noted(
                        after,
                        before,
                        effects,
                        ai_box,
                        conversation@,
                        message,
                        now,
                    )
                    &&& #[trigger] is_notice(
                        message,
                        task,
                        "Configure a model in Settings before sending."@,
                    )
                }
        } else {
            &&& exists|question: Message, now: u64|
                {
                    &&& #[trigger] noted(
                        after,
                        before,
                        effects,
                        ai_box,
                        conversation@,
                        question,
                        now,
                    )
                    &&& question.is_plain(MessageRole::User, text, None)
                }
            &&& match step {
                SendStep::Nothing => !has_conversation(before, ai_box@, conversation@),
                SendStep::Submit(turn, snapshots) => {
                    let sources = turn_sources(after, files, ai_box@, conversation@);
                    &&& has_conversation(before, ai_box@, conversation@)
                    &&& turn.identity.ai_box == ai_box
                    &&& turn.identity.conversation == conversation
                    &&& is_turn_request(turn.request, after, files, ai_box@, conversation@)
                    &&& are_snapshots(snapshots@, sources)
                    &&& match turn.tool_context {
                        Some(context) => before.settings.ai_tools_enabled && are_bound(
                            context.sources@,
                            sources,
                        ),
                        None => !before.settings.ai_tools_enabled,
                    }
                },
            }
        },
    }
}

/// The open conversation, if there is one, has few enough sources to number them.
pub open spec fn few_sources(page: HomePage) -> bool {
    match page.chat.open {
        Some((ai_box, conversation)) => has_conversation(page, ai_box@, conversation@)
            ==> page.ai_boxes@[ai_box@].conversations@[conversation@].sources@.len() < u32::MAX,
        None => true,
    }
}

/// The messages without the answers at the end that are not complete.
pub open spec fn stripped(messages: Seq<Message>) -> Seq<Message>
    decreases messages.len(),
{
    if messages.len() > 0 && messages.last().role == MessageRole::Assistant
        && messages.last().status != MessageStatus::Completed {
        stripped(messages.drop_last())
    } else {
        messages
    }
}

/// The question at the end, if there is one.
pub open spec fn open_question(messages: Seq<Message>) -> Option<Seq<char>> {
    if messages.len() > 0 && messages.last().role == MessageRole::User {
        Some(messages.last().content@)
    } else {
        None
    }
}

/// The failed answers at the end of the open conversation are gone, and the
/// question before them is in the input field.
pub open spec fn prepared_retry(after: HomePage, before: HomePage, again: bool, effects: Seq<Effect>) -> bool {
    match before.chat.open {
        None => !again && after == before && effects == Seq::<Effect>::empty(),
        Some((ai_box, conversation)) => if before.chat.active_turn is Some {
            !again && after == before && effects == Seq::<Effect>::empty()
        } else {
            &&& after == (HomePage { ai_boxes: after.ai_boxes, chat: after.chat, ..before })
            &&& before.ai_boxes.wf() ==> after.ai_boxes.wf()
            &&& after.chat == (Chat { input: after.chat.input, ..before.chat })
            &&& if has_conversation(before, ai_box@, conversation@) {
                let boxes = before.ai_boxes@;
                let data = after.ai_boxes@[ai_box@];
                let c = data.conversations@[conversation@];
                let d = boxes[ai_box@].conversations@[conversation@];
                &&& effects == seq![Effect::SaveBox(ai_box)]
                &&& after.ai_boxes@ == boxes.insert(ai_box@, data)
                &&& data.changed(boxes[ai_box@], conversation@)
                &&& c.same_but_messages(d)
                &&& c.messages@ == stripped(d.messages@)
                &&& c.updated_at == d.updated_at
                &&& again == (open_question(c.messages@) is Some)
                &&& after.chat.input@ == match open_question(c.messages@) {
                    Some(question) => question,
                    None => before.chat.input@,
                }
            } else {
                &&& !again
                &&& effects == Seq::<Effect>::empty()
                &&& after.ai_boxes@ == before.ai_boxes@
                &&& after.chat == before.chat
            }
        },
    }
}

/// A snippet was made for an AI workspace: it is kept, and a card for it is put
/// into the workspace if there is one.
pub open spec fn new_output(
    after: HomePage,
    before: HomePage,
    created: Option<EntityId>,
    effects: Seq<Effect>,
    ai_box: ContainerId,
    title: Seq<char>,
    content: Seq<char>,
    slot: Point,
    snippet: Snippet,
    reference: ReferenceId,
) -> bool {
    &&& is_compact_id(snippet.id@)
    &&& snippet.title@ == title
    &&& snippet.content@ == content
    &&& after.all_snippets@ == before.all_snippets@.insert(snippet.id@, snippet)
    &&& before.all_snippets.wf() ==> after.all_snippets.wf()
    &&& if before.workspace.has_container(ai_box@) {
        &&& created == Some(snippet.id)
        &&& put_card(
            (HomePage { all_snippets: before.all_snippets, ..after }),
            before,
            effects.skip(1),
            ai_box,
            reference,
            ReferenceTarget::Snippet(snippet.id),
            MemberRole::Output,
            slot,
        )
        &&& effects.len() > 0
        &&& effects[0] == Effect::SaveSnippet(snippet)
    } else {
        &&& created is None
        &&& after == (HomePage { all_snippets: after.all_snippets, ..before })
        &&& effects == seq![Effect::SaveSnippet(snippet)]
    }
}

/// The message of the open conversation at this place, if there is one.
pub open spec fn message_at(page: HomePage, ai_box: Seq<char>, index: int) -> Option<Message> {
    match page.chat.open {
        Some((_, conversation)) => if has_conversation(page, ai_box, conversation@) {
            let messages = page.ai_boxes@[ai_box].conversations@[conversation@].messages@;
            if 0 <= index < messages.len() {
                Some(messages[index])
            } else {
                None
            }
        } else {
            None
        },
        None => None,
    }
}

/// The proposal of the message at this place, if there is one.
pub open spec fn proposal_at(page: HomePage, ai_box: Seq<char>, index: int) -> Option<SnippetProposal> {
    match message_at(page, ai_box, index) {
        Some(message) => message.proposal,
        None => None,
    }
}

/// The proposal of the message at this place is another one.
pub open spec fn changed_proposal(
    after: HomePage,
    before: HomePage,
    ai_box: Seq<char>,
    index: int,
    proposal: SnippetProposal,
) -> bool {
    &&& before.chat.open matches Some((_, conversation))
    &&& {
        let boxes = before.ai_boxes@;
        let data = after.ai_boxes@[ai_box];
        let c = data.conversations@[conversation@];
        let d = boxes[ai_box].conversations@[conversation@];
        &&& after == (HomePage { ai_boxes: after.ai_boxes, ..before })
        &&& before.ai_boxes.wf() ==> after.ai_boxes.wf()
        &&& after.ai_boxes@ == boxes.insert(ai_box, data)
        &&& data.changed(boxes[ai_box], conversation@)
        &&& c.same_but_messages(d)
        &&& c.updated_at == d.updated_at
        &&& c.messages@ == d.messages@.update(
            index,
            (Message { proposal: Some(proposal), ..d.messages@[index] }),
        )
    }
}

/// A proposal that the user had not decided on was applied: its snippet was made,
/// and the proposal notes which it is.
pub open spec fn applied_proposal(
    after: HomePage,
    before: HomePage,
    effects: Seq<Effect>,
    ai_box: ContainerId,
    index: int,
    slot: Point,
) -> bool {
    match proposal_at(before, ai_box@, index) {
        Some(proposal) => if state_of(proposal) is Undecided {
            exists|mid: HomePage, made: Seq<Effect>, snippet: Snippet, reference: ReferenceId|
                applied_as(
                    after,
                    before,
                    effects,
                    ai_box,
                    index,
                    slot,
                    proposal,
                    mid,
                    made,
                    snippet,
                    reference,
                )
        } else {
            after == before && effects == Seq::<Effect>::empty()
        },
        None => after == before && effects == Seq::<Effect>::empty(),
    }
}

/// A proposal was applied as this snippet.
pub open spec fn applied_as(
    after: HomePage,
    before: HomePage,
    effects: Seq<Effect>,
    ai_box: ContainerId,
    index: int,
    slot: Point,
    proposal: SnippetProposal,
    mid: HomePage,
    made: Seq<Effect>,
    snippet: Snippet,
    reference: ReferenceId,
) -> bool {
    let created = if before.workspace.has_container(ai_box@) {
        Some(snippet.id)
    } else {
        None
    };
    &&& new_output(
        mid,
        before,
        created,
        made,
        ai_box,
        proposal.title@,
        proposal.content@,
        slot,
        snippet,
        reference,
    )
    &&& if created is Some {
        &&& changed_proposal(
            after,
            mid,
            ai_box@,
            index,
            (SnippetProposal { created, ..proposal }),
        )
        &&& effects == made.push(Effect::SaveBox(ai_box))
    } else {
        after == mid && effects == made
    }
}

/// A proposal was rejected, if there is one.
pub open spec fn rejected_proposal(
    after: HomePage,
    before: HomePage,
    effects: Seq<Effect>,
    ai_box: ContainerId,
    index: int,
) -> bool {
    &&& effects == if before.chat.open is Some && before.ai_boxes@.contains_key(ai_box@) {
        seq![Effect::SaveBox(ai_box)]
    } else {
        Seq::empty()
    }
    &&& match proposal_at(before, ai_box@, index) {
        Some(proposal) => changed_proposal(
            after,
            before,
            ai_box@,
            index,
            (SnippetProposal { rejected: true, ..proposal }),
        ),
        None => {
            &&& after == (HomePage { ai_boxes: after.ai_boxes, ..before })
            &&& after.ai_boxes@ == before.ai_boxes@
        },
    }
}

/// The state of the chat after a turn: nothing runs, and the sources are used up.
pub open spec fn turn_over(after: Chat, before: Chat, streaming: Seq<char>) -> bool {
    &&& after == (Chat {
        active_turn: None,
        streaming: after.streaming,
        snapshots: after.snapshots,
        ..before
    })
    &&& after.streaming@ == streaming
    &&& after.snapshots@ == Seq::<SourceRef>::empty()
}

/// The running turn was stopped.
pub open spec fn stopped(
    after: HomePage,
    before: HomePage,
    task: Option<TurnTaskId>,
    effects: Seq<Effect>,
) -> bool {
    match before.chat.active_turn {
        None => task is None && after == before && effects == Seq::<Effect>::empty(),
        Some(turn) => {
            let partial = before.chat.streaming@;
            &&& task == Some(turn.task)
            &&& turn_over(after.chat, before.chat, Seq::empty())
            &&& exists|message: Message, now: u64|
                {
                    &&& #[trigger] noted(
                        (HomePage { chat: before.chat, ..after }),
                        before,
                        effects,
                        turn.ai_box,
                        turn.conversation@,
                        message,
                        now,
                    )
                    &&& is_answer(
                        message,
                        turn.task,
                        if partial.len() == 0 {
                            "(stopped)"@
                        } else {
                            partial
                        },
                        MessageStatus::Stopped,
                        before.chat.snapshots@,
                        TokenUsage { input_tokens: None, output_tokens: None },
                        Seq::empty(),
                        None,
                    )
                }
        },
    }
}

/// An event of a turn arrived. One of another turn than the running one changes
/// nothing.
pub open spec fn took_event(
    after: HomePage,
    before: HomePage,
    effects: Seq<Effect>,
    event: TurnEvent,
) -> bool {
    let ours = before.chat.active_turn matches Some(turn) && is_same_turn(
        event.identity_of(),
        turn,
    );
    if !ours {
        after == before && effects == Seq::<Effect>::empty()
    } else {
        match event {
            TurnEvent::Delta { delta, .. } => {
                &&& effects == Seq::<Effect>::empty()
                &&& after == (HomePage {
                    chat: Chat { streaming: after.chat.streaming, ..before.chat },
                    ..before
                })
                &&& after.chat.streaming@ == before.chat.streaming@ + delta@
            },
            TurnEvent::Done { identity, content, usage, tools, proposal } => {
                &&& turn_over(after.chat, before.chat, before.chat.streaming@)
                &&& exists|message: Message, now: u64|
                    {
                        &&& #[trigger] noted(
                            (HomePage { chat: before.chat, ..after }),
                            before,
                            effects,
                            identity.ai_box,
                            identity.conversation@,
                            message,
                            now,
                        )
                        &&& is_answer(
                            message,
                            identity.task,
                            content@,
                            MessageStatus::Completed,
                            before.chat.snapshots@,
                            usage,
                            tools@,
                            proposal,
                        )
                    }
            },
            TurnEvent::Failed { identity, error } => {
                let partial = before.chat.streaming@;
                &&& turn_over(after.chat, before.chat, Seq::empty())
                &&& exists|message: Message, now: u64|
                    {
                        &&& #[trigger] noted(
                            (HomePage { chat: before.chat, ..after }),
                            before,
                            effects,
                            identity.ai_box,
                            identity.conversation@,
                            message,
                            now,
                        )
                        &&& is_answer(
                            message,
                            identity.task,
                            if partial.len() == 0 {
                                "(error: "@ + error.message@ + ")"@
                            } else {
                                partial
                            },
                            if error.kind == AiErrorKind::Cancelled {
                                MessageStatus::Stopped
                            } else {
                                MessageStatus::Failed
                            },
                            before.chat.snapshots@,
                            TokenUsage { input_tokens: None, output_tokens: None },
                            Seq::empty(),
                            None,
                        )
                    }
            },
        }
    }
}

/// The identities are those of the same turn.
pub open spec fn is_same_turn(a: TurnIdentity, b: TurnIdentity) -> bool {
    a.ai_box@ == b.ai_box@ && a.conversation@ == b.conversation@ && a.task@ == b.task@
}

impl Chat {
    fn end_turn(&mut self) -> (r: Vec<SourceRef>)
        ensures
            r@ == old(self).snapshots@,
            turn_over(*final(self), *old(self), old(self).streaming@),
    {
        let mut snapshots: Vec<SourceRef> = Vec::new();
        snapshots.append(&mut self.snapshots);
        assert(snapshots@ =~= old(self).snapshots@);
        self.active_turn = None;
        snapshots
    }
}

impl HomePage {
    /// Adds a message to a conversation at a given time.
    pub fn note_message(
        &mut self,
        ai_box: &ContainerId,
        conversation: &ConversationId,
        message: Message,
        now: u64,
    ) -> (r: Vec<Effect>)
        ensures
            noted(*final(self), *old(self), r@, *ai_box, conversation@, message, now),
    {
        let mut effects: Vec<Effect> = Vec::new();
        let ghost boxes = self.ai_boxes@;
        match self.ai_boxes.get_mut(ai_box) {
            Some(data) => {
                data.push_message(conversation, message, now);
                effects.push(Effect::SaveBox(ai_box.clone()));
                assert(effects@ =~= seq![Effect::SaveBox(*ai_box)]);
            },
            None => {},
        }
        proof {
            if !has_conversation(*old(self), ai_box@, conversation@) {
                assert(self.ai_boxes@ =~= boxes);
            }
        }
        effects
    }

    /// Adds an answer to its conversation.
    pub fn push_assistant(&mut self, identity: &TurnIdentity, content: &str, parts: AnswerParts) -> (r:
        Vec<Effect>)
        ensures
            exists|message: Message, now: u64|
                {
                    &&& #[trigger] noted(
                        *final(self),
                        *old(self),
                        r@,
                        identity.ai_box,
                        identity.conversation@,
                        message,
                        now,
                    )
                    &&& is_answer(
                        message,
                        identity.task,
                        content@,
                        parts.status,
                        parts.sources@,
                        parts.usage,
                        parts.tools@,
                        parts.proposal,
                    )
                },
    {
        let now = now_unix();
        let mut message = Message::assistant(content, identity.task.clone());
        message.status = parts.status;
        message.sources = parts.sources;
        message.tools = parts.tools;
        if parts.usage.input_tokens.is_some() || parts.usage.output_tokens.is_some() {
            message.usage = Some(parts.usage);
        }
        message.proposal = parts.proposal;
        self.note_message(&identity.ai_box, &identity.conversation, message, now)
    }

    fn push_notice(&mut self, identity: &TurnIdentity, text: &str) -> (r: Vec<Effect>)
        ensures
            exists|message: Message, now: u64|
                {
                    &&& #[trigger] noted(
                        *final(self),
                        *old(self),
                        r@,
                        identity.ai_box,
                        identity.conversation@,
                        message,
                        now,
                    )
                    &&& #[trigger] is_notice(message, identity.task, text@)
                },
    {
        let parts = AnswerParts {
            status: MessageStatus::Failed,
            sources: Vec::new(),
            usage: TokenUsage { input_tokens: None, output_tokens: None },
            tools: Vec::new(),
            proposal: None,
        };
        let effects = self.push_assistant(identity, text, parts);
        proof {
            let (message, now) = choose|message: Message, now: u64|
                {
                    &&& #[trigger] noted(
                        *self,
                        *old(self),
                        effects@,
                        identity.ai_box,
                        identity.conversation@,
                        message,
                        now,
                    )
                    &&& is_answer(
                        message,
                        identity.task,
                        text@,
                        parts.status,
                        parts.sources@,
                        parts.usage,
                        parts.tools@,
                        parts.proposal,
                    )
                };
            assert(is_notice(message, identity.task, text@));
        }
        effects
    }

    /// Sends the question of the input field, as far as it can be sent: it is added
    /// to the open conversation, and the turn to run is returned. `files` holds the
    /// texts of files, and `overridden` tells that a provider is given whatever the
    /// settings say.
    pub fn ai_send(&mut self, files: &IdMap<ExternalFileId, String>, overridden: bool) -> (r: (
        SendStep,
        Vec<Effect>,
    ))
        requires
            few_sources(*old(self)),
        ensures
            sent(*final(self), *old(self), r.0, r.1@, files@, overridden),
    {
        let (ai_box, conversation) = match &self.chat.open {
            Some((ai_box, conversation)) => (ai_box.clone(), conversation.clone()),
            None => {
                return (SendStep::Nothing, Vec::new());
            },
        };
        let text = trim(&self.chat.input);
        if text.as_str().is_empty() || self.chat.active_turn.is_some() {
            return (SendStep::Nothing, Vec::new());
        }
        let identity = TurnIdentity {
            ai_box: ai_box.clone(),
            conversation: conversation.clone(),
            task: TurnTaskId::new(),
        };
        if !self.settings.ai_enabled {
            let effects = self.push_notice(
                &identity,
                "AI is disabled. Enable it in Settings first.",
            );
            return (SendStep::Nothing, effects);
        }
        if !overridden {
            match build_provider(&self.settings.ai_provider_config()) {
                Ok(_) => {},
                Err(_) => {
                    let effects = self.push_notice(
                        &identity,
                        "Configure a model in Settings before sending.",
                    );
                    return (SendStep::Nothing, effects);
                },
            }
        }
        let question = Message::user(&text);
        let ghost asked = question;
        let now = now_unix();
        let effects = self.note_message(&ai_box, &conversation, question, now);
        assert(noted(*self, *old(self), effects@, ai_box, conversation@, asked, now));
        let request = match self.build_turn_request(&ai_box, &conversation, files) {
            Some(request) => request,
            None => {
                return (SendStep::Nothing, effects);
            },
        };
        let snapshots = self.source_snapshots(&ai_box, &conversation, files);
        let tool_context = if self.settings.ai_tools_enabled {
            Some(self.tool_context_for(&ai_box, &conversation, files))
        } else {
            None
        };
        (SendStep::Submit(TurnRequest { identity, request, tool_context }, snapshots), effects)
    }

    /// What follows when a turn was handed to the worker: it runs if it was
    /// accepted, and is answered with a notice if it was not.
    pub fn turn_submitted(
        &mut self,
        identity: TurnIdentity,
        snapshots: Vec<SourceRef>,
        accepted: bool,
    ) -> (r: Vec<Effect>)
        ensures
            if accepted {
                &&& r@ == Seq::<Effect>::empty()
                &&& *final(self) == (HomePage { chat: final(self).chat, ..*old(self) })
                &&& final(self).chat == (Chat {
                    input: final(self).chat.input,
                    active_turn: Some(identity),
                    streaming: final(self).chat.streaming,
                    snapshots,
                    ..old(self).chat
                })
                &&& final(self).chat.input@ == Seq::<char>::empty()
                &&& final(self).chat.streaming@ == Seq::<char>::empty()
            } else {
                exists|message: Message, now: u64|
                    {
                        &&& #[trigger] noted(
                            *final(self),
                            *old(self),
                            r@,
                            identity.ai_box,
                            identity.conversation@,
                            message,
                            now,
                        )
                        &&& is_answer(
                            message,
                            identity.task,
                            "The AI worker is busy or shutting down."@,
                            MessageStatus::Failed,
                            snapshots@,
                            TokenUsage { input_tokens: None, output_tokens: None },
                            Seq::empty(),
                            None,
                        )
                    }
            },
    {
        if accepted {
            self.chat.input = String::new();
            self.chat.active_turn = Some(identity);
            self.chat.streaming = String::new();
            self.chat.snapshots = snapshots;
            return Vec::new();
        }
        self.push_assistant(
            &identity,
            "The AI worker is busy or shutting down.",
            AnswerParts {
                status: MessageStatus::Failed,
                sources: snapshots,
                usage: TokenUsage { input_tokens: None, output_tokens: None },
                tools: Vec::new(),
                proposal: None,
            },
        )
    }

    /// Stops the running turn; what it has answered so far is kept. Returns the
    /// task to cancel.
    pub fn ai_stop(&mut self) -> (r: (Option<TurnTaskId>, Vec<Effect>))
        ensures
            stopped(*final(self), *old(self), r.0, r.1@),
    {
        let turn = match &self.chat.active_turn {
            Some(turn) => turn.clone(),
            None => {
                return (None, Vec::new());
            },
        };
        let ghost chat = self.chat;
        let snapshots = self.chat.end_turn();
        let content = if self.chat.streaming.as_str().is_empty() {
            "(stopped)".to_owned()
        } else {
            self.chat.streaming.clone()
        };
        self.chat.streaming = String::new();
        let ghost mid = *self;
        let effects = self.push_assistant(
            &turn,
            &content,
            AnswerParts {
                status: MessageStatus::Stopped,
                sources: snapshots,
                usage: TokenUsage { input_tokens: None, output_tokens: None },
                tools: Vec::new(),
                proposal: None,
            },
        );
        proof {
            noted_beside(*self, mid, *old(self), effects@, turn.ai_box, turn.conversation@);
        }
        (Some(turn.task), effects)
    }

    /// Takes the failed answers off the end of the open conversation, and puts the
    /// question before them into the input field. Returns whether there is one.
    pub fn prepare_retry(&mut self) -> (r: (bool, Vec<Effect>))
        ensures
            prepared_retry(*final(self), *old(self), r.0, r.1@),
    {
        let mut effects: Vec<Effect> = Vec::new();
        let (ai_box, conversation) = match &self.chat.open {
            Some((ai_box, conversation)) => (ai_box.clone(), conversation.clone()),
            None => {
                return (false, effects);
            },
        };
        if self.chat.active_turn.is_some() {
            return (false, effects);
        }
        let ghost boxes = self.ai_boxes@;
        let mut question: Option<String> = None;
        match self.ai_boxes.get_mut(&ai_box) {
            Some(data) => match data.get_mut(&conversation) {
                Some(c) => {
                    strip_answers(&mut c.messages);
                    question = question_at_end(&c.messages);
                    effects.push(Effect::SaveBox(ai_box.clone()));
                    assert(effects@ =~= seq![Effect::SaveBox(ai_box)]);
                },
                None => {},
            },
            None => {},
        }
        proof {
            if !has_conversation(*old(self), ai_box@, conversation@) {
                assert(self.ai_boxes@ =~= boxes);
            }
        }
        match question {
            Some(text) => {
                self.chat.input = text;
                (true, effects)
            },
            None => (false, effects),
        }
    }

    /// Asks the last question again: failed answers at the end are taken off first.
    pub fn ai_retry(&mut self, files: &IdMap<ExternalFileId, String>, overridden: bool) -> (r: (
        SendStep,
        Vec<Effect>,
    ))
        requires
            few_sources(*old(self)),
        ensures
            exists|mid: HomePage, again: bool, first: Seq<Effect>, second: Seq<Effect>|
                {
                    &&& #[trigger] prepared_retry(mid, *old(self), again, first)
                    &&& r.1@ == #[trigger] (first + second)
                    &&& if again {
                        sent(*final(self), mid, r.0, second, files@, overridden)
                    } else {
                        r.0 is Nothing && *final(self) == mid && second == Seq::<Effect>::empty()
                    }
                },
    {
        let (again, effects) = self.prepare_retry();
        let ghost mid = *self;
        let ghost first = effects@;
        let mut effects = effects;
        if again {
            let (step, mut more) = self.ai_send(files, overridden);
            let ghost second = more@;
            effects.append(&mut more);
            assert(effects@ =~= first + second);
            (step, effects)
        } else {
            assert(effects@ =~= first + Seq::<Effect>::empty());
            (SendStep::Nothing, effects)
        }
    }

    /// Makes a snippet with a card in an AI workspace, at the free place `slot`.
    pub fn create_output_snippet(
        &mut self,
        ai_box: &ContainerId,
        title: String,
        content: String,
        slot: Point,
    ) -> (r: (Option<EntityId>, Vec<Effect>))
        ensures
            exists|snippet: Snippet, reference: ReferenceId| #[trigger]
                new_output(
                    *final(self),
                    *old(self),
                    r.0,
                    r.1@,
                    *ai_box,
                    title@,
                    content@,
                    slot,
                    snippet,
                    reference,
                ),
    {
        let ghost title_text = title@;
        let ghost content_text = content@;
        let snippet = Snippet { id: EntityId::new(), title, content };
        let ghost made = snippet;
        let id = snippet.id.clone();
        let mut effects: Vec<Effect> = Vec::new();
        effects.push(Effect::SaveSnippet(snippet.clone()));
        self.all_snippets.insert(id.clone(), snippet);
        let ghost mid = *self;
        match self.workspace.add_output_reference(ai_box, id.clone()) {
            Ok(reference) => {
                let mut saves = self.board_card(
                    ai_box,
                    reference.clone(),
                    ReferenceTarget::Snippet(id.clone()),
                    MemberRole::Output,
                    slot,
                );
                let ghost later = saves@;
                effects.append(&mut saves);
                assert(effects@.skip(1) =~= later);
                let made_all = (Some(id), effects);
                assert(new_output(
                    *self,
                    *old(self),
                    made_all.0,
                    made_all.1@,
                    *ai_box,
                    title_text,
                    content_text,
                    slot,
                    made,
                    reference,
                ));
                made_all
            },
            Err(_) => {
                let ghost reference: ReferenceId = arbitrary();
                assert(effects@ =~= seq![Effect::SaveSnippet(made)]);
                let made_all: (Option<EntityId>, Vec<Effect>) = (None, effects);
                assert(new_output(
                    *self,
                    *old(self),
                    made_all.0,
                    made_all.1@,
                    *ai_box,
                    title_text,
                    content_text,
                    slot,
                    made,
                    reference,
                ));
                made_all
            },
        }
    }

    /// Makes a snippet of an answer of the open conversation, with a list of the
    /// sources that it used. A blank answer is not saved.
    pub fn ai_save_as_snippet(&mut self, ai_box: &ContainerId, index: usize, slot: Point) -> (r: Vec<
        Effect,
    >)
        ensures
            match message_at(*old(self), ai_box@, index as int) {
                Some(message) => {
                    let content = trimmed(message.content@);
                    if content.len() > 0 {
                        exists|created: Option<EntityId>, snippet: Snippet, reference: ReferenceId|
                            #[trigger]
                            new_output(
                                *final(self),
                                *old(self),
                                created,
                                r@,
                                *ai_box,
                                output_title_text(content),
                                output_text(content, message.sources@),
                                slot,
                                snippet,
                                reference,
                            )
                    } else {
                        *final(self) == *old(self) && r@ == Seq::<Effect>::empty()
                    }
                },
                None => *final(self) == *old(self) && r@ == Seq::<Effect>::empty(),
            },
    {
        let (title, body) = {
            let message = match self.find_message(ai_box, index) {
                Some(message) => message,
                None => {
                    return Vec::new();
                },
            };
            let content = trim(&message.content);
            if content.as_str().is_empty() {
                return Vec::new();
            }
            (output_title(&content), output_content_with_sources(&content, &message.sources))
        };
        let (_, effects) = self.create_output_snippet(ai_box, title, body, slot);
        effects
    }

    fn find_message(&self, ai_box: &ContainerId, index: usize) -> (r: Option<&Message>)
        ensures
            match r {
                Some(message) => message_at(*self, ai_box@, index as int) == Some(*message),
                None => message_at(*self, ai_box@, index as int) is None,
            },
    {
        match &self.chat.open {
            Some((_, conversation)) => match self.ai_boxes.get(ai_box) {
                Some(data) => match data.get(conversation) {
                    Some(c) => if index < c.messages.len() {
                        Some(&c.messages[index])
                    } else {
                        None
                    },
                    None => None,
                },
                None => None,
            },
            None => None,
        }
    }

    fn set_proposal(&mut self, ai_box: &ContainerId, index: usize, proposal: SnippetProposal)
        requires
            message_at(*old(self), ai_box@, index as int) is Some,
        ensures
            changed_proposal(*final(self), *old(self), ai_box@, index as int, proposal),
    {
        let conversation = match &self.chat.open {
            Some((_, conversation)) => conversation.clone(),
            None => {
                return;
            },
        };
        match self.ai_boxes.get_mut(ai_box) {
            Some(data) => match data.get_mut(&conversation) {
                Some(c) => {
                    let ghost messages = c.messages@;
                    c.messages[index].proposal = Some(proposal);
                    assert(c.messages@ =~= messages.update(
                        index as int,
                        (Message { proposal: Some(proposal), ..messages[index as int] }),
                    ));
                },
                None => {},
            },
            None => {},
        }
    }

    /// Makes the snippet that an answer of the open conversation proposes. A
    /// proposal that was applied or rejected is left alone.
    pub fn apply_proposal(&mut self, ai_box: &ContainerId, index: usize, slot: Point) -> (r: Vec<
        Effect,
    >)
        ensures
            applied_proposal(*final(self), *old(self), r@, *ai_box, index as int, slot),
    {
        let proposal = match self.find_message(ai_box, index) {
            Some(message) => match &message.proposal {
                Some(proposal) => {
                    if proposal.created.is_some() || proposal.rejected {
                        return Vec::new();
                    }
                    copy_proposal(proposal)
                },
                None => {
                    return Vec::new();
                },
            },
            None => {
                return Vec::new();
            },
        };
        let ghost asked = proposal;
        let (created, effects) = self.create_output_snippet(
            ai_box,
            proposal.title.clone(),
            proposal.content.clone(),
            slot,
        );
        let ghost mid = *self;
        let ghost made = effects@;
        let ghost (snippet, reference) = choose|snippet: Snippet, reference: ReferenceId| #[trigger]
            new_output(
                mid,
                *old(self),
                created,
                made,
                *ai_box,
                asked.title@,
                asked.content@,
                slot,
                snippet,
                reference,
            );
        let mut effects = effects;
        match created {
            Some(id) => {
                self.set_proposal(
                    ai_box,
                    index,
                    SnippetProposal {
                        title: proposal.title,
                        content: proposal.content,
                        created: Some(id),
                        rejected: proposal.rejected,
                    },
                );
                effects.push(Effect::SaveBox(ai_box.clone()));
            },
            None => {},
        }
        assert(applied_as(
            *self,
            *old(self),
            effects@,
            *ai_box,
            index as int,
            slot,
            asked,
            mid,
            made,
            snippet,
            reference,
        ));
        effects
    }

    /// Rejects what an answer of the open conversation proposes. A snippet that was
    /// made of it stays.
    pub fn reject_proposal(&mut self, ai_box: &ContainerId, index: usize) -> (r: Vec<Effect>)
        ensures
            rejected_proposal(*final(self), *old(self), r@, *ai_box, index as int),
    {
        let mut effects: Vec<Effect> = Vec::new();
        if self.chat.open.is_none() || !self.ai_boxes.contains_key(ai_box) {
            assert(effects@ =~= Seq::<Effect>::empty());
            return effects;
        }
        let found = match self.find_message(ai_box, index) {
            Some(message) => match &message.proposal {
                Some(proposal) => Some(copy_proposal(proposal)),
                None => None,
            },
            None => None,
        };
        match found {
            Some(proposal) => {
                self.set_proposal(
                    ai_box,
                    index,
                    SnippetProposal {
                        title: proposal.title,
                        content: proposal.content,
                        created: proposal.created,
                        rejected: true,
                    },
                );
            },
            None => {},
        }
        effects.push(Effect::SaveBox(ai_box.clone()));
        assert(effects@ =~= seq![Effect::SaveBox(*ai_box)]);
        effects
    }

    /// Takes an event of a turn. Events of other turns than the running one are
    /// dropped.
    pub fn take_event(&mut self, event: TurnEvent) -> (r: Vec<Effect>)
        ensures
            took_event(*final(self), *old(self), r@, event),
    {
        let ours = match &self.chat.active_turn {
            Some(turn) => *event.identity() == *turn,
            None => false,
        };
        if !ours {
            return Vec::new();
        }
        match event {
            TurnEvent::Delta { delta, .. } => {
                self.chat.streaming.append(&delta);
                Vec::new()
            },
            TurnEvent::Done { identity, content, usage, tools, proposal } => {
                let snapshots = self.chat.end_turn();
                let ghost mid = *self;
                let effects = self.push_assistant(
                    &identity,
                    &content,
                    AnswerParts {
                        status: MessageStatus::Completed,
                        sources: snapshots,
                        usage,
                        tools,
                        proposal,
                    },
                );
                proof {
                    noted_beside(
                        *self,
                        mid,
                        *old(self),
                        effects@,
                        identity.ai_box,
                        identity.conversation@,
                    );
                }
                effects
            },
            TurnEvent::Failed { identity, error } => {
                let snapshots = self.chat.end_turn();
                let content = if self.chat.streaming.as_str().is_empty() {
                    join3("(error: ", &error.message, ")")
                } else {
                    self.chat.streaming.clone()
                };
                self.chat.streaming = String::new();
                let status = if error.kind == AiErrorKind::Cancelled {
                    MessageStatus::Stopped
                } else {
                    MessageStatus::Failed
                };
                let ghost mid = *self;
                let effects = self.push_assistant(
                    &identity,
                    &content,
                    AnswerParts {
                        status,
                        sources: snapshots,
                        usage: TokenUsage { input_tokens: None, output_tokens: None },
                        tools: Vec::new(),
                        proposal: None,
                    },
                );
                proof {
                    noted_beside(
                        *self,
                        mid,
                        *old(self),
                        effects@,
                        identity.ai_box,
                        identity.conversation@,
                    );
                }
                effects
            },
        }
    }

    /// Whether the window of the open conversation is shown. It closes when the
    /// conversation is gone.
    pub fn shows_chat(&mut self) -> (r: bool)
        ensures
            match old(self).chat.open {
                Some((ai_box, conversation)) => {
                    &&& r == has_conversation(*old(self), ai_box@, conversation@)
                    &&& *final(self) == (HomePage {
                        chat: Chat {
                            open: if r {
                                old(self).chat.open
                            } else {
                                None
                            },
                            ..old(self).chat
                        },
                        ..*old(self)
                    })
                },
                None => !r && *final(self) == *old(self),
            },
    {
        let known = match &self.chat.open {
            Some((ai_box, conversation)) => match self.ai_boxes.get(ai_box) {
                Some(data) => data.get(conversation).is_some(),
                None => false,
            },
            None => {
                return false;
            },
        };
        if !known {
            self.chat.open = None;
        }
        known
    }

    /// Whether a turn of this conversation is running.
    pub fn turn_running(&self, ai_box: &ContainerId, conversation: &ConversationId) -> (r: bool)
        ensures
            r == (self.chat.active_turn matches Some(turn) && turn.ai_box@ == ai_box@
                && turn.conversation@ == conversation@),
    {
        match &self.chat.active_turn {
            Some(turn) => turn.ai_box == *ai_box && turn.conversation == *conversation,
            None => false,
        }
    }

    /// The model, as the window of a conversation names it.
    pub fn provider_label(&self) -> (r: String)
        ensures
            r@ == if self.settings.ai_enabled {
                self.settings.ai_model@
            } else {
                "AI off"@
            },
    {
        if self.settings.ai_enabled {
            self.settings.ai_model.clone()
        } else {
            "AI off".to_owned()
        }
    }
}

/// The title of the window of a conversation.
pub fn chat_title(title: &str) -> (r: String)
    ensures
        r@ == title@ + " - AI - FloatDea"@,
{
    join2(title, " - AI - FloatDea")
}

fn copy_proposal(proposal: &SnippetProposal) -> (r: SnippetProposal)
    ensures
        r == *proposal,
{
    SnippetProposal {
        title: proposal.title.clone(),
        content: proposal.content.clone(),
        created: match &proposal.created {
            Some(id) => Some(id.clone()),
            None => None,
        },
        rejected: proposal.rejected,
    }
}

fn strip_answers(messages: &mut Vec<Message>)
    ensures
        final(messages)@ == stripped(old(messages)@),
{
    let mut going = true;
    while going
        invariant
            stripped(messages@) == stripped(old(messages)@),
            !going ==> messages@ == stripped(messages@),
        decreases messages@.len(), if going { 1int } else { 0int },
    {
        let n = messages.len();
        if n > 0 && messages[n - 1].role == MessageRole::Assistant && messages[n - 1].status
            != MessageStatus::Completed {
            messages.truncate(n - 1);
            assert(messages@ =~= messages@.take(n - 1));
        } else {
            going = false;
        }
    }
}

fn question_at_end(messages: &Vec<Message>) -> (r: Option<String>)
    ensures
        match r {
            Some(text) => open_question(messages@) == Some(text@),
            None => open_question(messages@) is None,
        },
{
    let n = messages.len();
    if n > 0 && messages[n - 1].role == MessageRole::User {
        Some(messages[n - 1].content.clone())
    } else {
        None
    }
}

/// A message that is added after the chat changed is added to the same
/// conversation as before.
proof fn noted_beside(
    after: HomePage,
    mid: HomePage,
    before: HomePage,
    effects: Seq<Effect>,
    ai_box: ContainerId,
    conversation: Seq<char>,
)
    requires
        mid == (HomePage { chat: mid.chat, ..before }),
    ensures
        forall|message: Message, now: u64| #[trigger]
            noted(after, mid, effects, ai_box, conversation, message, now) ==> noted(
                (HomePage { chat: before.chat, ..after }),
                before,
                effects,
                ai_box,
                conversation,
                message,
                now,
            ),
{
}

/// An event that comes late, from a turn that is over or of another conversation,
/// changes nothing.
pub proof fn late_events_are_dropped(
    after: HomePage,
    before: HomePage,
    effects: Seq<Effect>,
    event: TurnEvent,
)
    requires
        took_event(after, before, effects, event),
        before.chat.active_turn is None || !is_same_turn(
            event.identity_of(),
            before.chat.active_turn->0,
        ),
    ensures
        after == before,
        effects.len() == 0,
{
}

/// A turn that has ended is not answered again: a second event of it is dropped.
pub proof fn turns_end_once(
    after: HomePage,
    mid: HomePage,
    before: HomePage,
    first: Seq<Effect>,
    second: Seq<Effect>,
    ended: TurnEvent,
    late: TurnEvent,
)
    requires
        before.chat.active_turn is Some,
        is_same_turn(ended.identity_of(), before.chat.active_turn->0),
        !(ended is Delta),
        took_event(mid, before, first, ended),
        took_event(after, mid, second, late),
    ensures
        after == mid,
        second.len() == 0,
{
}

/// A proposal is applied once: when it was, applying it again does nothing.
pub proof fn proposals_are_applied_once(
    after: HomePage,
    mid: HomePage,
    before: HomePage,
    first: Seq<Effect>,
    second: Seq<Effect>,
    ai_box: ContainerId,
    index: int,
    slot: Point,
)
    requires
        applied_proposal(mid, before, first, ai_box, index, slot),
        before.workspace.has_container(ai_box@),
        applied_proposal(after, mid, second, ai_box, index, slot),
    ensures
        after == mid,
        second.len() == 0,
{
    match proposal_at(before, ai_box@, index) {
        Some(proposal) => {
            if state_of(proposal) is Undecided {
                let (page, made, snippet, reference) = choose|
                    page: HomePage,
                    made: Seq<Effect>,
                    snippet: Snippet,
                    reference: ReferenceId,
                |
                    applied_as(
                        mid,
                        before,
                        first,
                        ai_box,
                        index,
                        slot,
                        proposal,
                        page,
                        made,
                        snippet,
                        reference,
                    );
                assert(proposal_at(mid, ai_box@, index) is Some);
                assert(state_of(proposal_at(mid, ai_box@, index)->0) is Saved);
            }
        },
        None => {},
    }
}

/// A rejected proposal makes nothing: snippets, cards and canvases are as before,
/// and applying it afterwards does nothing.
pub proof fn rejected_proposals_make_nothing(
    after: HomePage,
    mid: HomePage,
    before: HomePage,
    first: Seq<Effect>,
    second: Seq<Effect>,
    ai_box: ContainerId,
    index: int,
    slot: Point,
)
    requires
        rejected_proposal(mid, before, first, ai_box, index),
        applied_proposal(after, mid, second, ai_box, index, slot),
    ensures
        mid.all_snippets == before.all_snippets,
        mid.workspace == before.workspace,
        mid.boards == before.boards,
        after == mid,
        second.len() == 0,
{
    match proposal_at(before, ai_box@, index) {
        Some(proposal) => {
            assert(proposal_at(mid, ai_box@, index) == Some(
                SnippetProposal { rejected: true, ..proposal },
            ));
        },
        None => {
            assert(proposal_at(mid, ai_box@, index) is None);
        },
    }
}

/// Before a question is asked again, the answers at the end that are not complete go,
/// all of them and nothing else.
pub proof fn only_failed_answers_go(messages: Seq<Message>)
    ensures
        stripped(messages).len() <= messages.len(),
        stripped(messages) == messages.take(stripped(messages).len() as int),
        forall|i: int|
            stripped(messages).len() <= i < messages.len() ==> (#[trigger] messages[i]).role
                == MessageRole::Assistant && messages[i].status != MessageStatus::Completed,
        stripped(messages).len() > 0 ==> stripped(messages).last().role == MessageRole::User
            || stripped(messages).last().status == MessageStatus::Completed,
    decreases messages.len(),
{
    if messages.len() > 0 && messages.last().role == MessageRole::Assistant
        && messages.last().status != MessageStatus::Completed {
        let front = messages.drop_last();
        only_failed_answers_go(front);
        assert(stripped(messages) =~= messages.take(stripped(messages).len() as int));
        assert forall|i: int| stripped(messages).len() <= i < messages.len() implies (
        #[trigger] messages[i]).role == MessageRole::Assistant && messages[i].status
            != MessageStatus::Completed by {
            if i < front.len() {
                assert(front[i] == messages[i]);
            }
        }
    } else {
        assert(messages.take(messages.len() as int) =~= messages);
    }
}

/// The messages of a conversation.
pub open spec fn messages_of(page: HomePage, ai_box: Seq<char>, conversation: Seq<char>) -> Seq<
    Message,
> {
    page.ai_boxes@[ai_box].conversations@[conversation].messages@
}

proof fn noted_adds_one(
    after: HomePage,
    before: HomePage,
    effects: Seq<Effect>,
    ai_box: ContainerId,
    conversation: Seq<char>,
    message: Message,
    now: u64,
)
    requires
        noted(after, before, effects, ai_box, conversation, message, now),
        has_conversation(before, ai_box@, conversation),
    ensures
        messages_of(after, ai_box@, conversation) == messages_of(
            before,
            ai_box@,
            conversation,
        ).push(message),
        effects == seq![Effect::SaveBox(ai_box)],
        other_conversations_stay(after, before, ai_box@, conversation),
{
}

/// Every conversation but this one is as it was.
pub open spec fn other_conversations_stay(
    after: HomePage,
    before: HomePage,
    ai_box: Seq<char>,
    conversation: Seq<char>,
) -> bool {
    forall|b: Seq<char>, c: Seq<char>|
        #![trigger before.ai_boxes@[b].conversations@[c]]
        before.ai_boxes@.contains_key(b) && before.ai_boxes@[b].conversations@.contains_key(c) && (b
            != ai_box || c != conversation) ==> after.ai_boxes@.contains_key(b)
            && after.ai_boxes@[b].conversations@.contains_key(c)
            && after.ai_boxes@[b].conversations@[c] == before.ai_boxes@[b].conversations@[c]
}

/// A question that can be asked is kept at the end of its conversation, without the
/// white space around it, and is saved. A turn is to be run, and every other
/// conversation is as it was.
pub proof fn questions_are_kept(
    after: HomePage,
    before: HomePage,
    step: SendStep,
    effects: Seq<Effect>,
    files: Map<Seq<char>, String>,
    overridden: bool,
    ai_box: ContainerId,
    conversation: ConversationId,
)
    requires
        sent(after, before, step, effects, files, overridden),
        before.chat.open == Some((ai_box, conversation)),
        has_conversation(before, ai_box@, conversation@),
        trimmed(before.chat.input@).len() > 0,
        before.chat.active_turn is None,
        before.settings.ai_enabled,
        overridden || before.settings.ai_provider == ProviderKind::Fake || trimmed(
            before.settings.ai_model@,
        ).len() > 0,
    ensures
        ({
            let old_ones = messages_of(before, ai_box@, conversation@);
            let new_ones = messages_of(after, ai_box@, conversation@);
            &&& step is Submit
            &&& step->Submit_0.identity.ai_box == ai_box
            &&& step->Submit_0.identity.conversation == conversation
            &&& new_ones.len() == old_ones.len() + 1
            &&& new_ones.drop_last() == old_ones
            &&& new_ones.last().role == MessageRole::User
            &&& new_ones.last().content@ == trimmed(before.chat.input@)
            &&& effects.contains(Effect::SaveBox(ai_box))
            &&& other_conversations_stay(after, before, ai_box@, conversation@)
            &&& after.all_snippets == before.all_snippets
            &&& after.workspace == before.workspace
        }),
{
    let (question, now) = choose|question: Message, now: u64|
        {
            &&& #[trigger] noted(
                after,
                before,
                effects,
                ai_box,
                conversation@,
                question,
                now,
            )
            &&& question.is_plain(MessageRole::User, trimmed(before.chat.input@), None)
        };
    noted_adds_one(after, before, effects, ai_box, conversation@, question, now);
    assert(messages_of(after, ai_box@, conversation@).drop_last() =~= messages_of(
        before,
        ai_box@,
        conversation@,
    ));
    assert(effects[0] == Effect::SaveBox(ai_box));
}

/// An answer that is complete is kept at the end of its conversation: the whole text,
/// the sources as they were when the question was asked, what the tools did and what
/// was proposed. It is saved, and nothing runs any more.
pub proof fn answers_are_kept(
    after: HomePage,
    before: HomePage,
    effects: Seq<Effect>,
    identity: TurnIdentity,
    content: String,
    usage: TokenUsage,
    tools: Vec<ToolRecord>,
    proposal: Option<SnippetProposal>,
)
    requires
        took_event(
            after,
            before,
            effects,
            TurnEvent::Done { identity, content, usage, tools, proposal },
        ),
        before.chat.active_turn == Some(identity),
        has_conversation(before, identity.ai_box@, identity.conversation@),
    ensures
        ({
            let old_ones = messages_of(before, identity.ai_box@, identity.conversation@);
            let new_ones = messages_of(after, identity.ai_box@, identity.conversation@);
            &&& after.chat.active_turn is None
            &&& new_ones.len() == old_ones.len() + 1
            &&& new_ones.drop_last() == old_ones
            &&& new_ones.last().role == MessageRole::Assistant
            &&& new_ones.last().status == MessageStatus::Completed
            &&& new_ones.last().content@ == content@
            &&& new_ones.last().sources@ == before.chat.snapshots@
            &&& new_ones.last().tools@ == tools@
            &&& new_ones.last().proposal == proposal
            &&& usage.input_tokens is Some || usage.output_tokens is Some
                ==> new_ones.last().usage == Some(usage)
            &&& effects.contains(Effect::SaveBox(identity.ai_box))
            &&& other_conversations_stay(
                after,
                before,
                identity.ai_box@,
                identity.conversation@,
            )
            &&& after.all_snippets == before.all_snippets
            &&& after.workspace == before.workspace
        }),
{
    let page = HomePage { chat: before.chat, ..after };
    let (message, now) = choose|message: Message, now: u64|
        {
            &&& #[trigger] noted(
                page,
                before,
                effects,
                identity.ai_box,
                identity.conversation@,
                message,
                now,
            )
            &&& is_answer(
                message,
                identity.task,
                content@,
                MessageStatus::Completed,
                before.chat.snapshots@,
                usage,
                tools@,
                proposal,
            )
        };
    noted_adds_one(
        page,
        before,
        effects,
        identity.ai_box,
        identity.conversation@,
        message,
        now,
    );
    assert(messages_of(after, identity.ai_box@, identity.conversation@).drop_last()
        =~= messages_of(before, identity.ai_box@, identity.conversation@));
    assert(effects[0] == Effect::SaveBox(identity.ai_box));
}

/// A turn that fails leaves what had arrived of its answer, or else why it failed. The
/// message is marked as failed, or as stopped if the user stopped it.
pub proof fn failures_are_told(
    after: HomePage,
    before: HomePage,
    effects: Seq<Effect>,
    identity: TurnIdentity,
    error: AiError,
)
    requires
        took_event(after, before, effects, TurnEvent::Failed { identity, error }),
        before.chat.active_turn == Some(identity),
        has_conversation(before, identity.ai_box@, identity.conversation@),
    ensures
        ({
            let old_ones = messages_of(before, identity.ai_box@, identity.conversation@);
            let new_ones = messages_of(after, identity.ai_box@, identity.conversation@);
            &&& after.chat.active_turn is None
            &&& after.chat.streaming@.len() == 0
            &&& new_ones.len() == old_ones.len() + 1
            &&& new_ones.drop_last() == old_ones
            &&& new_ones.last().role == MessageRole::Assistant
            &&& new_ones.last().status == MessageStatus::Stopped <==> error.kind
                == AiErrorKind::Cancelled
            &&& new_ones.last().status == MessageStatus::Failed <==> error.kind
                != AiErrorKind::Cancelled
            &&& before.chat.streaming@.len() > 0 ==> new_ones.last().content@
                == before.chat.streaming@
            &&& before.chat.streaming@.len() == 0 ==> new_ones.last().content@ == "(error: "@
                + error.message@ + ")"@
            &&& new_ones.last().proposal is None
            &&& effects.contains(Effect::SaveBox(identity.ai_box))
        }),
{
    let page = HomePage { chat: before.chat, ..after };
    let partial = before.chat.streaming@;
    let (message, now) = choose|message: Message, now: u64|
        {
            &&& #[trigger] noted(
                page,
                before,
                effects,
                identity.ai_box,
                identity.conversation@,
                message,
                now,
            )
            &&& is_answer(
                message,
                identity.task,
                if partial.len() == 0 {
                    "(error: "@ + error.message@ + ")"@
                } else {
                    partial
                },
                if error.kind == AiErrorKind::Cancelled {
                    MessageStatus::Stopped
                } else {
                    MessageStatus::Failed
                },
                before.chat.snapshots@,
                TokenUsage { input_tokens: None, output_tokens: None },
                Seq::empty(),
                None,
            )
        };
    noted_adds_one(
        page,
        before,
        effects,
        identity.ai_box,
        identity.conversation@,
        message,
        now,
    );
    assert(messages_of(after, identity.ai_box@, identity.conversation@).drop_last()
        =~= messages_of(before, identity.ai_box@, identity.conversation@));
    assert(effects[0] == Effect::SaveBox(identity.ai_box));
}

/// A turn that the user stops leaves what had arrived of its answer.
pub proof fn stopped_turns_leave_their_answer(
    after: HomePage,
    before: HomePage,
    task: Option<TurnTaskId>,
    effects: Seq<Effect>,
    turn: TurnIdentity,
)
    requires
        stopped(after, before, task, effects),
        before.chat.active_turn == Some(turn),
        has_conversation(before, turn.ai_box@, turn.conversation@),
    ensures
        ({
            let old_ones = messages_of(before, turn.ai_box@, turn.conversation@);
            let new_ones = messages_of(after, turn.ai_box@, turn.conversation@);
            &&& task == Some(turn.task)
            &&& after.chat.active_turn is None
            &&& after.chat.streaming@.len() == 0
            &&& new_ones.len() == old_ones.len() + 1
            &&& new_ones.drop_last() == old_ones
            &&& new_ones.last().status == MessageStatus::Stopped
            &&& before.chat.streaming@.len() > 0 ==> new_ones.last().content@
                == before.chat.streaming@
            &&& effects.contains(Effect::SaveBox(turn.ai_box))
        }),
{
    let page = HomePage { chat: before.chat, ..after };
    let partial = before.chat.streaming@;
    let (message, now) = choose|message: Message, now: u64|
        {
            &&& #[trigger] noted(
                page,
                before,
                effects,
                turn.ai_box,
                turn.conversation@,
                message,
                now,
            )
            &&& is_answer(
                message,
                turn.task,
                if partial.len() == 0 {
                    "(stopped)"@
                } else {
                    partial
                },
                MessageStatus::Stopped,
                before.chat.snapshots@,
                TokenUsage { input_tokens: None, output_tokens: None },
                Seq::empty(),
                None,
            )
        };
    noted_adds_one(page, before, effects, turn.ai_box, turn.conversation@, message, now);
    assert(messages_of(after, turn.ai_box@, turn.conversation@).drop_last() =~= messages_of(
        before,
        turn.ai_box@,
        turn.conversation@,
    ));
    assert(effects[0] == Effect::SaveBox(turn.ai_box));
}

/// The pieces of an answer are shown one after the other, as they arrive.
pub proof fn pieces_are_put_together(
    after: HomePage,
    mid: HomePage,
    before: HomePage,
    first: Seq<Effect>,
    second: Seq<Effect>,
    identity: TurnIdentity,
    a: String,
    b: String,
)
    requires
        took_event(mid, before, first, TurnEvent::Delta { identity, delta: a }),
        took_event(after, mid, second, TurnEvent::Delta { identity, delta: b }),
        before.chat.active_turn == Some(identity),
    ensures
        after.chat.streaming@ == before.chat.streaming@ + a@ + b@,
        after.chat.active_turn == Some(identity),
        after.ai_boxes == before.ai_boxes,
        first.len() == 0,
        second.len() == 0,
{
}

/// To ask again, the last question is put back into the input field, and everything up
/// to it stays.
pub proof fn questions_are_asked_again(
    after: HomePage,
    before: HomePage,
    again: bool,
    effects: Seq<Effect>,
    ai_box: ContainerId,
    conversation: ConversationId,
    kept: Seq<Message>,
    question: Message,
    failed: Seq<Message>,
)
    requires
        prepared_retry(after, before, again, effects),
        before.chat.open == Some((ai_box, conversation)),
        before.chat.active_turn is None,
        has_conversation(before, ai_box@, conversation@),
        messages_of(before, ai_box@, conversation@) == kept.push(question) + failed,
        question.role == MessageRole::User,
        forall|i: int|
            0 <= i < failed.len() ==> (#[trigger] failed[i]).role == MessageRole::Assistant
                && failed[i].status != MessageStatus::Completed,
    ensures
        again,
        after.chat.input@ == question.content@,
        messages_of(after, ai_box@, conversation@) == kept.push(question),
        effects.contains(Effect::SaveBox(ai_box)),
        other_conversations_stay(after, before, ai_box@, conversation@),
{
    stripped_is(kept, question, failed);
    assert(effects[0] == Effect::SaveBox(ai_box));
    assert(kept.push(question).last() == question);
}

proof fn stripped_is(kept: Seq<Message>, question: Message, failed: Seq<Message>)
    requires
        question.role == MessageRole::User,
        forall|i: int|
            0 <= i < failed.len() ==> (#[trigger] failed[i]).role == MessageRole::Assistant
                && failed[i].status != MessageStatus::Completed,
    ensures
        stripped(kept.push(question) + failed) == kept.push(question),
    decreases failed.len(),
{
    let all = kept.push(question) + failed;
    if failed.len() == 0 {
        assert(all =~= kept.push(question));
    } else {
        assert(all.last() == failed[failed.len() - 1]);
        let rest = failed.drop_last();
        assert forall|i: int| 0 <= i < rest.len() implies (#[trigger] rest[i]).role
            == MessageRole::Assistant && rest[i].status != MessageStatus::Completed by {
            assert(rest[i] == failed[i]);
        }
        assert(all.drop_last() =~= kept.push(question) + rest);
        stripped_is(kept, question, rest);
    }
}

/// A note that is made of an answer holds the given title and text. It is kept and
/// saved, and gets a card at the end of its AI workspace.
pub proof fn outputs_are_kept(
    after: HomePage,
    before: HomePage,
    created: Option<EntityId>,
    effects: Seq<Effect>,
    ai_box: ContainerId,
    title: Seq<char>,
    content: Seq<char>,
    slot: Point,
    snippet: Snippet,
    reference: ReferenceId,
)
    requires
        new_output(
            after,
            before,
            created,
            effects,
            ai_box,
            title,
            content,
            slot,
            snippet,
            reference,
        ),
        before.workspace.has_container(ai_box@),
    ensures
        created == Some(snippet.id),
        after.all_snippets@.contains_key(snippet.id@),
        after.all_snippets@[snippet.id@].title@ == title,
        after.all_snippets@[snippet.id@].content@ == content,
        forall|id: Seq<char>| #[trigger]
            before.all_snippets@.contains_key(id) && id != snippet.id@
                ==> after.all_snippets@.contains_key(id) && after.all_snippets@[id]
                == before.all_snippets@[id],
        after.workspace.members_of(ai_box@).drop_last() == before.workspace.members_of(ai_box@),
        after.workspace.members_of(ai_box@).last().target == ReferenceTarget::Snippet(snippet.id),
        after.workspace.members_of(ai_box@).last().role == MemberRole::Output,
        effects.contains(Effect::SaveSnippet(snippet)),
        effects.contains(Effect::SaveWorkspace),
{
    assert(after.workspace.members_of(ai_box@).drop_last() =~= before.workspace.members_of(
        ai_box@,
    ));
    assert(effects[0] == Effect::SaveSnippet(snippet));
    let rest = effects.skip(1);
    assert(rest.len() > 0 && rest[0] == Effect::SaveWorkspace);
    assert(rest.len() == effects.len() - 1);
    assert(rest[0] == effects[1]);
    assert(effects[1] == Effect::SaveWorkspace);
}

/// A proposal that is applied becomes a note with the proposed title and text, in the AI
/// workspace. The message keeps which note it became, and everything is saved. The other
/// messages stay as they are.
pub proof fn applied_proposals_become_notes(
    after: HomePage,
    before: HomePage,
    effects: Seq<Effect>,
    ai_box: ContainerId,
    index: int,
    slot: Point,
    conversation: ConversationId,
    proposal: SnippetProposal,
    other: int,
) -> (snippet: Snippet)
    requires
        applied_proposal(after, before, effects, ai_box, index, slot),
        before.chat.open matches Some((_, c)) && c == conversation,
        has_conversation(before, ai_box@, conversation@),
        0 <= index < messages_of(before, ai_box@, conversation@).len(),
        messages_of(before, ai_box@, conversation@)[index].proposal == Some(proposal),
        proposal.created is None,
        !proposal.rejected,
        before.workspace.has_container(ai_box@),
    ensures
        snippet.title@ == proposal.title@,
        snippet.content@ == proposal.content@,
        after.all_snippets@.contains_key(snippet.id@),
        after.all_snippets@[snippet.id@] == snippet,
        after.workspace.members_of(ai_box@).last().target == ReferenceTarget::Snippet(snippet.id),
        messages_of(after, ai_box@, conversation@).len() == messages_of(
            before,
            ai_box@,
            conversation@,
        ).len(),
        messages_of(after, ai_box@, conversation@)[index].proposal is Some,
        messages_of(after, ai_box@, conversation@)[index].proposal->0.created == Some(snippet.id),
        messages_of(after, ai_box@, conversation@)[index].content == messages_of(
            before,
            ai_box@,
            conversation@,
        )[index].content,
        0 <= other < messages_of(before, ai_box@, conversation@).len() && other != index
            ==> messages_of(after, ai_box@, conversation@)[other] == messages_of(
            before,
            ai_box@,
            conversation@,
        )[other],
        effects.contains(Effect::SaveSnippet(snippet)),
        effects.contains(Effect::SaveBox(ai_box)),
{
    assert(proposal_at(before, ai_box@, index) == Some(proposal));
    let (mid, made, snippet, reference) = choose|
        mid: HomePage,
        made: Seq<Effect>,
        snippet: Snippet,
        reference: ReferenceId,
    |
        applied_as(
            after,
            before,
            effects,
            ai_box,
            index,
            slot,
            proposal,
            mid,
            made,
            snippet,
            reference,
        );
    assert(made[0] == Effect::SaveSnippet(snippet));
    assert(effects[0] == Effect::SaveSnippet(snippet));
    assert(effects[effects.len() - 1] == Effect::SaveBox(ai_box));
    snippet
}

/// A proposal that is rejected stays in its message, marked as such, and this is saved.
/// The other messages stay as they are.
pub proof fn rejected_proposals_are_marked(
    after: HomePage,
    before: HomePage,
    effects: Seq<Effect>,
    ai_box: ContainerId,
    index: int,
    conversation: ConversationId,
    proposal: SnippetProposal,
    other: int,
)
    requires
        rejected_proposal(after, before, effects, ai_box, index),
        before.chat.open matches Some((_, c)) && c == conversation,
        has_conversation(before, ai_box@, conversation@),
        0 <= index < messages_of(before, ai_box@, conversation@).len(),
        messages_of(before, ai_box@, conversation@)[index].proposal == Some(proposal),
    ensures
        messages_of(after, ai_box@, conversation@).len() == messages_of(
            before,
            ai_box@,
            conversation@,
        ).len(),
        messages_of(after, ai_box@, conversation@)[index].proposal is Some,
        messages_of(after, ai_box@, conversation@)[index].proposal->0.rejected,
        messages_of(after, ai_box@, conversation@)[index].proposal->0.title == proposal.title,
        messages_of(after, ai_box@, conversation@)[index].proposal->0.content == proposal.content,
        0 <= other < messages_of(before, ai_box@, conversation@).len() && other != index
            ==> messages_of(after, ai_box@, conversation@)[other] == messages_of(
            before,
            ai_box@,
            conversation@,
        )[other],
        effects.contains(Effect::SaveBox(ai_box)),
        after.all_snippets == before.all_snippets,
{
    assert(proposal_at(before, ai_box@, index) == Some(proposal));
    assert(effects[0] == Effect::SaveBox(ai_box));
}

/// A question that cannot be asked, because AI is off or no model is set, is answered in
/// its conversation with the reason. Nothing is run, and the question is not taken.
pub proof fn refused_questions_are_answered(
    after: HomePage,
    before: HomePage,
    step: SendStep,
    effects: Seq<Effect>,
    files: Map<Seq<char>, String>,
    overridden: bool,
    ai_box: ContainerId,
    conversation: ConversationId,
)
    requires
        sent(after, before, step, effects, files, overridden),
        before.chat.open == Some((ai_box, conversation)),
        has_conversation(before, ai_box@, conversation@),
        trimmed(before.chat.input@).len() > 0,
        before.chat.active_turn is None,
        !before.settings.ai_enabled || (!overridden && before.settings.ai_provider
            != ProviderKind::Fake && trimmed(before.settings.ai_model@).len() == 0),
    ensures
        ({
            let old_ones = messages_of(before, ai_box@, conversation@);
            let new_ones = messages_of(after, ai_box@, conversation@);
            &&& step is Nothing
            &&& new_ones.len() == old_ones.len() + 1
            &&& new_ones.drop_last() == old_ones
            &&& new_ones.last().role == MessageRole::Assistant
            &&& new_ones.last().status == MessageStatus::Failed
            &&& new_ones.last().content@ == if !before.settings.ai_enabled {
                "AI is disabled. Enable it in Settings first."@
            } else {
                "Configure a model in Settings before sending."@
            }
            &&& effects.contains(Effect::SaveBox(ai_box))
            &&& after.chat == before.chat
        }),
{
    let text = if !before.settings.ai_enabled {
        "AI is disabled. Enable it in Settings first."@
    } else {
        "Configure a model in Settings before sending."@
    };
    let (message, now, task) = choose|message: Message, now: u64, task: TurnTaskId|
        {
            &&& #[trigger] noted(
                after,
                before,
                effects,
                ai_box,
                conversation@,
                message,
                now,
            )
            &&& #[trigger] is_notice(message, task, text)
        };
    noted_adds_one(after, before, effects, ai_box, conversation@, message, now);
    assert(messages_of(after, ai_box@, conversation@).drop_last() =~= messages_of(
        before,
        ai_box@,
        conversation@,
    ));
    assert(effects[0] == Effect::SaveBox(ai_box));
}

} // verus!
