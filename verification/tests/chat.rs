use floatdea::app::answers::{
    answer_menu, citation_linked_content, destination_text, enter_sends, output_title,
    proposal_preview, proposal_state, receipt_text, sends, status_badge, streaming_text,
    usage_text, AnswerChoice, ProposalState,
};
use floatdea::app::chat::{chat_title, SendStep};
use floatdea::app::commands::{CanvasCommand, Effect, Viewport};
use floatdea::app::page::HomePage;
use floatdea::app::start::{ai_box_ids, starter_snippets};
use floatdea::data::ai::extract::extract_text_from_file;
use floatdea::data::ai::provider::fake::{channel_closed, FakeProvider, FakeStep};
use floatdea::data::ai::provider::{
    AiError, AiErrorKind, ChatRequest, ChatRole, ProviderKind,
};
use floatdea::data::ai::store::AiStore;
use floatdea::data::ai::tool::{ToolContext, ToolRegistry};
use floatdea::data::ai::types::{
    now_unix, AiBoxData, Message, MessageRole, MessageStatus, SnippetProposal, SourceRef,
    SourceTarget, ToolRecord, ToolStatus,
};
use floatdea::data::ai::usage::TokenUsage;
use floatdea::data::ai::worker::{
    busy, delta_event, failed_event, ToolTurn, TurnBook, TurnEvent, TurnIdentity, TurnStep,
    WorkerAction, WorkerCommand,
};
use floatdea::data::ids::{
    ContainerId, ConversationId, EntityId, ExternalFileId, TurnTaskId,
};
use floatdea::data::layout::{ContainerLayout, Point};
use floatdea::data::settings::Settings;
use floatdea::data::workspace::{MemberRole, ReferenceTarget, Workspace, WorkspaceStore};
use floatdea::idmap::IdMap;

fn point() -> Point {
    Point { x: 0, y: 0 }
}

fn open(snippets: Vec<floatdea::data::Snippet>, stored: Option<Workspace>, boxes: Vec<(ContainerId, AiBoxData)>) -> HomePage {
    let store = WorkspaceStore::open("/w");
    let (workspace, _) = store.load_or_initialize(&snippets, stored).unwrap();
    let layout = ContainerLayout::empty(workspace.root.clone());
    let slots = vec![point(); workspace.root().members.len()];
    HomePage::new(snippets, workspace, boxes, Settings::default(), layout, &slots)
}

fn new_page() -> HomePage {
    open(starter_snippets(), None, Vec::new())
}

fn restart(mut page: HomePage) -> HomePage {
    let store = AiStore::open("/w");
    let mut snippets = Vec::new();
    for i in 0..page.all_snippets.len() {
        snippets.push(page.all_snippets.value_at(i).clone());
    }
    let mut boxes = Vec::new();
    for id in ai_box_ids(&page.workspace) {
        let stored = page.ai_boxes.remove(&id);
        boxes.push((id.clone(), store.load_box(&id, stored)));
    }
    open(snippets, Some(page.workspace), boxes)
}

fn process(page: &mut HomePage, command: CanvasCommand) {
    page.process_command(
        command,
        Viewport::Root,
        point(),
        AiBoxData::empty(ContainerId::from_string("loaded")),
    );
}

fn first_snippet_id(page: &HomePage) -> EntityId {
    page.boards
        .root
        .items
        .iter()
        .find_map(|item| match &item.target {
            ReferenceTarget::Snippet(id) => Some(id.clone()),
            _ => None,
        })
        .expect("root has a snippet card")
}

fn new_box(page: &mut HomePage) -> ContainerId {
    let root = page.boards.root.container_id.clone();
    process(page, CanvasCommand::NewAiBox { owner: root, position: None });
    ai_box_ids(&page.workspace).remove(0)
}

fn new_conversation(page: &mut HomePage, ai_box: &ContainerId) -> ConversationId {
    page.process_command(
        CanvasCommand::NewConversation { ai_box: ai_box.clone(), position: None },
        Viewport::Root,
        point(),
        AiBoxData::empty(ai_box.clone()),
    );
    page.ai_boxes.get(ai_box).unwrap().conversations.key_at(0).clone()
}

/// Creates an AI box and a fresh conversation bound to one snippet, and opens the
/// conversation.
fn open_fake_conversation(page: &mut HomePage) -> (ContainerId, ConversationId, EntityId) {
    let ai_box = new_box(page);
    let entity = first_snippet_id(page);
    process(
        page,
        CanvasCommand::LinkAiSource {
            ai_box: ai_box.clone(),
            target: ReferenceTarget::Snippet(entity.clone()),
            position: None,
        },
    );
    let conversation = new_conversation(page, &ai_box);
    process(
        page,
        CanvasCommand::OpenConversation {
            ai_box: ai_box.clone(),
            conversation: conversation.clone(),
        },
    );
    (ai_box, conversation, entity)
}

fn no_files() -> IdMap<ExternalFileId, String> {
    IdMap::new()
}

/// Runs a turn with a provider, round by round, and collects its events.
fn run_turn(
    provider: &FakeProvider,
    identity: &TurnIdentity,
    request: ChatRequest,
    context: &Option<ToolContext>,
) -> Vec<TurnEvent> {
    let mut events = Vec::new();
    let registry = ToolRegistry::builtins();
    let mut turn = ToolTurn::new();
    let mut request = request;
    loop {
        let plan = provider.plan(&request);
        let mut index: usize = 0;
        loop {
            match provider.step(&plan, index, false) {
                FakeStep::Send(delta) => events.push(delta_event(identity, delta)),
                FakeStep::Fail(error) => {
                    events.push(failed_event(identity.clone(), error));
                    return events;
                }
                FakeStep::Finish => break,
            }
            index += 1;
        }
        let outcome = provider.finish(plan);
        match turn.step(identity, request, outcome, &registry, context, false) {
            TurnStep::Continue(next) => request = next,
            TurnStep::Finish(event) => {
                events.push(event);
                return events;
            }
        }
    }
}

fn complete(page: &mut HomePage, step: SendStep, provider: &FakeProvider) {
    match step {
        SendStep::Submit(turn, snapshots) => {
            let identity = turn.identity.clone();
            page.turn_submitted(turn.identity, snapshots, true);
            assert!(page.chat.active_turn.is_some());
            assert!(page.chat.input.is_empty());
            for event in run_turn(provider, &identity, turn.request, &turn.tool_context) {
                page.take_event(event);
            }
        }
        SendStep::Nothing => panic!("a turn is submitted"),
    }
}

fn messages<'a>(page: &'a HomePage, ai_box: &ContainerId, conversation: &ConversationId) -> &'a Vec<Message> {
    &page.ai_boxes.get(ai_box).unwrap().get(conversation).unwrap().messages
}

fn push(page: &mut HomePage, ai_box: &ContainerId, conversation: &ConversationId, message: Message) {
    page.ai_boxes.get_mut(ai_box).unwrap().push_message(conversation, message, now_unix());
}

#[test]
fn send_turn_streams_and_persists_messages_with_fake_provider() {
    let mut page = new_page();
    page.settings.ai_enabled = true;
    let (ai_box, conversation, _) = open_fake_conversation(&mut page);

    page.chat.input = "Hello from the test".to_owned();
    let (step, effects) = page.ai_send(&no_files(), false);
    assert!(matches!(&effects[0], Effect::SaveBox(id) if id == &ai_box));
    complete(&mut page, step, &FakeProvider::new());
    assert!(page.chat.active_turn.is_none(), "the fake turn completes");

    let sent = messages(&page, &ai_box, &conversation);
    assert_eq!(sent.len(), 2);
    assert_eq!(sent[0].role, MessageRole::User);
    assert_eq!(sent[0].content, "Hello from the test");
    assert_eq!(sent[1].role, MessageRole::Assistant);
    assert!(sent[1].content.contains("Hello from the test"));
    // The fake provider reports usage; it is persisted on the message.
    let usage = sent[1].usage.expect("assistant message records token usage");
    assert_eq!(usage.input_tokens, Some(12));
    assert!(usage.output_tokens.is_some());
    assert_eq!(sent[1].sources.len(), 1);

    // Ordinary conversations survive a restart.
    let reloaded = restart(page);
    assert_eq!(messages(&reloaded, &ai_box, &conversation).len(), 2);
}

#[test]
fn save_snippet_creates_an_output_reference_in_the_ai_box() {
    let mut page = new_page();
    let (ai_box, conversation, entity) = open_fake_conversation(&mut page);

    let mut message = Message::assistant("Summary line\n\nDetails", TurnTaskId::new());
    message.sources = vec![SourceRef {
        target: SourceTarget::Snippet(entity.clone()),
        title: "hello".to_owned(),
        content_hash: Some("abc".to_owned()),
    }];
    push(&mut page, &ai_box, &conversation, message);

    let effects = page.ai_save_as_snippet(&ai_box, 0, point());
    let output = match &effects[0] {
        Effect::SaveSnippet(snippet) => snippet.clone(),
        _ => panic!("a new output snippet was created"),
    };
    assert_eq!(output.title, "Summary line");
    assert_eq!(
        output.content,
        format!(
            "Summary line\n\nDetails\n\n## Sources\n\n1. [hello]({}.md)\n",
            entity.as_str()
        )
    );
    assert!(page.all_snippets.contains_key(&output.id));
    assert!(
        page.workspace.containers.get(&ai_box).unwrap().members.iter().any(|reference| {
            reference.role == MemberRole::Output
                && matches!(&reference.target, ReferenceTarget::Snippet(id) if id == &output.id)
        }),
        "the AI box holds an Output reference to the new snippet"
    );
}

#[test]
fn retry_removes_the_failed_answer_and_resends_the_question() {
    let mut page = new_page();
    page.settings.ai_enabled = true;
    let (ai_box, conversation, _) = open_fake_conversation(&mut page);

    // A failed assistant answer following the user question.
    push(&mut page, &ai_box, &conversation, Message::user("question"));
    let mut failed = Message::assistant("oops", TurnTaskId::new());
    failed.status = MessageStatus::Failed;
    push(&mut page, &ai_box, &conversation, failed);

    let (step, _) = page.ai_retry(&no_files(), false);
    complete(&mut page, step, &FakeProvider::new());

    let all = messages(&page, &ai_box, &conversation);
    assert_eq!(all.len(), 3);
    assert_eq!(all[0].role, MessageRole::User);
    assert_eq!(all[1].role, MessageRole::User);
    assert_eq!(all[1].content, "question");
    assert_eq!(all[2].role, MessageRole::Assistant);
    assert_eq!(all[2].status, MessageStatus::Completed);
}

#[test]
fn citation_links_are_built_from_this_answers_sources() {
    let entity = EntityId::new();
    let mut message = Message::assistant(
        "See [1] and [2]; [3] is out of range and [text](https://example.com) is a link.",
        TurnTaskId::new(),
    );
    message.sources = vec![
        SourceRef {
            target: SourceTarget::Snippet(entity.clone()),
            title: "one".to_owned(),
            content_hash: None,
        },
        SourceRef {
            target: SourceTarget::Container(ContainerId::new()),
            title: "two".to_owned(),
            content_hash: None,
        },
    ];

    let linked = citation_linked_content(&message);

    assert!(
        linked.contains(&format!("[1]({}.md)", entity.as_str())),
        "snippet citations become links: {linked}"
    );
    assert!(linked.contains("[2]"), "container citations stay as plain text");
    assert!(linked.contains("[3] is out of range"));
    assert!(linked.contains("[text](https://example.com)"));
}

#[test]
fn citations_are_short_numbers() {
    let entity = EntityId::from_string("abcdefghij0123456789");
    let link = |text: &str| {
        let mut message = Message::assistant(text, TurnTaskId::new());
        message.sources = vec![SourceRef {
            target: SourceTarget::Snippet(EntityId::from_string("abcdefghij0123456789")),
            title: "t".to_owned(),
            content_hash: None,
        }];
        citation_linked_content(&message)
    };
    assert_eq!(link("[01]"), format!("[1]({}.md)", entity.as_str()));
    assert_eq!(link("[00001]"), format!("[1]({}.md)", entity.as_str()));
    assert_eq!(link("[000001]"), "[000001]");
    assert_eq!(link("[]"), "[]");
    assert_eq!(link("[0]"), "[0]");
    assert_eq!(link("[1"), "[1");
    assert_eq!(link("plain"), "plain");
    assert_eq!(
        citation_linked_content(&Message::assistant("[1]", TurnTaskId::new())),
        "[1]"
    );
}

#[test]
fn linking_a_folder_brings_its_members_into_context() {
    let mut page = new_page();
    let ai_box = new_box(&mut page);
    let knowledge = page.workspace.create_container("Knowledge");
    let member = first_snippet_id(&page);
    page.workspace.add_snippet_reference(&knowledge, member.clone()).unwrap();

    // Link the folder itself as a Source.
    process(
        &mut page,
        CanvasCommand::LinkAiSource {
            ai_box: ai_box.clone(),
            target: ReferenceTarget::Container(knowledge.clone()),
            position: None,
        },
    );
    assert!(page.workspace.containers.get(&ai_box).unwrap().members.iter().any(|reference| {
        reference.role == MemberRole::Source
            && matches!(&reference.target, ReferenceTarget::Container(id) if id == &knowledge)
    }));

    // A new conversation binds the folder source; the turn request embeds the
    // folder's direct snippet members into the system prompt.
    let conversation = new_conversation(&mut page, &ai_box);
    let request = page
        .build_turn_request(&ai_box, &conversation, &no_files())
        .expect("a turn request builds");
    let system = request.system.expect("system prompt");
    assert!(system.contains("[1] Folder Knowledge"));
    assert!(system.contains(&page.all_snippets.get(&member).unwrap().content));

    let snapshots = page.source_snapshots(&ai_box, &conversation, &no_files());
    assert_eq!(snapshots.len(), 1);
    assert!(matches!(snapshots[0].target, SourceTarget::Container(_)));
}

#[test]
fn linked_files_bring_their_text_into_context() {
    let mut page = new_page();
    let ai_box = new_box(&mut page);
    page.create_external_file(&ai_box, "/docs/notes.md", None, point());
    let conversation = new_conversation(&mut page, &ai_box);
    let id = match &page.ai_boxes.get(&ai_box).unwrap().get(&conversation).unwrap().sources[0] {
        SourceTarget::ExternalFile(id) => id.clone(),
        _ => panic!("the file is a source"),
    };
    // A file that was not read is left out.
    let request = page.build_turn_request(&ai_box, &conversation, &no_files()).unwrap();
    assert!(request.system.unwrap().ends_with("(No sources are bound to this conversation yet.)"));
    let mut files = no_files();
    let text = extract_text_from_file("/docs/notes.md", Some(b"file text".to_vec())).unwrap();
    files.insert(id, text);
    let request = page.build_turn_request(&ai_box, &conversation, &files).unwrap();
    assert!(request.system.unwrap().ends_with("[1] notes\nfile text"));
    let context = page.tool_context_for(&ai_box, &conversation, &files);
    assert_eq!(context.sources.len(), 1);
    assert_eq!(context.sources[0].index, 1);
    assert_eq!(context.sources[0].content, "file text");
}

#[test]
fn tool_loop_creates_a_proposal_and_records_the_tool_receipt() {
    let mut page = new_page();
    page.settings.ai_enabled = true;
    // Script the fake provider: round 1 requests `core.create_output_proposal`,
    // round 2 streams the final answer.
    let provider = FakeProvider::tool_proposal(
        "Draft Note",
        "# Draft Note\n\nDraft body",
        "Here is the final summary.",
    );
    let (ai_box, conversation, _) = open_fake_conversation(&mut page);

    page.chat.input = "Summarize the sources".to_owned();
    let (step, _) = page.ai_send(&no_files(), true);
    complete(&mut page, step, &provider);
    assert!(page.chat.active_turn.is_none(), "the tool turn completes");

    let all = messages(&page, &ai_box, &conversation);
    assert_eq!(all.len(), 2);
    let answer = &all[1];
    assert!(
        answer.content.contains("final summary"),
        "the final answer comes from the continuation round: {:?}",
        answer.content
    );
    // The tool receipt is a visible, persisted event.
    assert_eq!(answer.tools.len(), 1);
    assert_eq!(answer.tools[0].tool_id, "core.create_output_proposal");
    assert_eq!(answer.tools[0].status, ToolStatus::Succeeded);
    assert!(
        answer.tools[0].summary.contains("Draft Note"),
        "receipt summarises the proposal: {}",
        answer.tools[0].summary
    );
    // The proposal card data is attached to the answer.
    let proposal = answer.proposal.as_ref().expect("a proposal is stored");
    assert_eq!(proposal.title, "Draft Note");
    assert!(proposal.content.contains("# Draft Note"));
    assert!(proposal.created.is_none());
    // No raw proposal JSON leaks into the visible answer.
    assert!(!answer.content.contains("proposal"));
}

#[test]
fn tool_loop_is_skipped_when_tools_are_disabled() {
    let mut page = new_page();
    page.settings.ai_enabled = true;
    page.settings.ai_tools_enabled = false;
    let provider = FakeProvider::tool_proposal("Draft Note", "Body", "Answer without tools");
    let (ai_box, conversation, _) = open_fake_conversation(&mut page);

    page.chat.input = "Hi".to_owned();
    let (step, _) = page.ai_send(&no_files(), true);
    complete(&mut page, step, &provider);

    let answer = &messages(&page, &ai_box, &conversation)[1];
    // With tools disabled the request carries no tool definitions, so the scripted
    // fake behaves like a plain provider (no tool call, no loop).
    assert!(answer.tools.is_empty());
    assert!(answer.proposal.is_none());
    assert!(
        answer.content.contains("Fake provider"),
        "the plain fake reply is used when tools are off: {:?}",
        answer.content
    );
}

#[test]
fn apply_proposal_creates_an_output_snippet_and_records_creation() {
    let mut page = new_page();
    let (ai_box, conversation, _) = open_fake_conversation(&mut page);

    let mut message = Message::assistant("Proposal text", TurnTaskId::new());
    message.proposal = Some(SnippetProposal::new("Draft Note", "# Draft Note\n\nDraft body"));
    push(&mut page, &ai_box, &conversation, message);

    page.apply_proposal(&ai_box, 0, point());

    let proposal = messages(&page, &ai_box, &conversation)[0]
        .proposal
        .as_ref()
        .expect("the proposal is retained on the message");
    let created = proposal.created.clone().expect("the creation is recorded");
    assert!(matches!(proposal_state(proposal), ProposalState::Saved(id) if id == created));
    assert_eq!(page.all_snippets.get(&created).unwrap().title, "Draft Note");
    assert!(page.all_snippets.get(&created).unwrap().content.contains("# Draft Note"));
    assert!(
        page.workspace.containers.get(&ai_box).unwrap().members.iter().any(|reference| {
            reference.role == MemberRole::Output
                && matches!(&reference.target, ReferenceTarget::Snippet(id) if id == &created)
        }),
        "the AI box holds an Output reference to the committed snippet"
    );
}

#[test]
fn apply_proposal_is_idempotent() {
    let mut page = new_page();
    let (ai_box, conversation, _) = open_fake_conversation(&mut page);

    let mut message = Message::assistant("Proposal text", TurnTaskId::new());
    message.proposal = Some(SnippetProposal::new("Draft Note", "Body"));
    push(&mut page, &ai_box, &conversation, message);

    page.apply_proposal(&ai_box, 0, point());
    let count = page.all_snippets.len();
    assert!(page.apply_proposal(&ai_box, 0, point()).is_empty());

    assert!(messages(&page, &ai_box, &conversation)[0]
        .proposal
        .as_ref()
        .unwrap()
        .created
        .is_some());
    assert_eq!(
        page.all_snippets.len(),
        count,
        "double apply must not create a second snippet"
    );
}

#[test]
fn reject_proposal_creates_nothing() {
    let mut page = new_page();
    let (ai_box, conversation, _) = open_fake_conversation(&mut page);

    let mut message = Message::assistant("Proposal text", TurnTaskId::new());
    message.proposal = Some(SnippetProposal::new("Draft Note", "Body"));
    push(&mut page, &ai_box, &conversation, message);

    page.reject_proposal(&ai_box, 0);

    let proposal = messages(&page, &ai_box, &conversation)[0].proposal.as_ref().unwrap();
    assert!(proposal.rejected);
    assert!(proposal.created.is_none());
    assert!(matches!(proposal_state(proposal), ProposalState::Rejected));
    for i in 0..page.all_snippets.len() {
        assert_ne!(
            page.all_snippets.value_at(i).title,
            "Draft Note",
            "rejecting must not create a snippet"
        );
    }
    assert!(
        !page
            .workspace
            .containers
            .get(&ai_box)
            .unwrap()
            .members
            .iter()
            .any(|reference| reference.role == MemberRole::Output),
        "rejecting must not add an Output reference"
    );
    // A rejected proposal is not applied.
    assert!(page.apply_proposal(&ai_box, 0, point()).is_empty());
}

#[test]
fn applied_proposal_and_created_snippet_survive_restart() {
    let mut page = new_page();
    let (ai_box, conversation, _) = open_fake_conversation(&mut page);

    let mut message = Message::assistant("Proposal text", TurnTaskId::new());
    message.proposal = Some(SnippetProposal::new("Draft Note", "Body"));
    push(&mut page, &ai_box, &conversation, message);
    page.apply_proposal(&ai_box, 0, point());
    let created = messages(&page, &ai_box, &conversation)[0]
        .proposal
        .as_ref()
        .unwrap()
        .created
        .clone()
        .unwrap();

    let reloaded = restart(page);
    let proposal =
        messages(&reloaded, &ai_box, &conversation)[0].proposal.as_ref().unwrap();
    assert_eq!(proposal.created.as_ref(), Some(&created));
    assert!(
        reloaded.all_snippets.contains_key(&created),
        "the committed snippet is an ordinary entity after restart"
    );
    assert!(
        reloaded.workspace.containers.get(&ai_box).unwrap().members.iter().any(|reference| {
            reference.role == MemberRole::Output
                && matches!(&reference.target, ReferenceTarget::Snippet(id) if id == &created)
        }),
        "the Output reference survives the restart"
    );
}

#[test]
fn questions_are_refused_with_a_notice() {
    let mut page = new_page();
    let (ai_box, conversation, _) = open_fake_conversation(&mut page);
    // Blank questions are not sent.
    page.chat.input = "  ".to_owned();
    assert!(matches!(page.ai_send(&no_files(), false).0, SendStep::Nothing));
    assert_eq!(messages(&page, &ai_box, &conversation).len(), 0);
    // AI is off.
    page.chat.input = "q".to_owned();
    assert!(matches!(page.ai_send(&no_files(), false).0, SendStep::Nothing));
    let last = &messages(&page, &ai_box, &conversation)[0];
    assert_eq!(last.content, "AI is disabled. Enable it in Settings first.");
    assert_eq!(last.status, MessageStatus::Failed);
    assert!(last.usage.is_none());
    // No model is named.
    page.settings.ai_enabled = true;
    page.settings.ai_provider = ProviderKind::Ollama;
    page.settings.ai_model = " ".to_owned();
    assert!(matches!(page.ai_send(&no_files(), false).0, SendStep::Nothing));
    assert_eq!(
        messages(&page, &ai_box, &conversation)[1].content,
        "Configure a model in Settings before sending."
    );
    // The worker takes no more turns.
    page.settings.ai_provider = ProviderKind::Fake;
    match page.ai_send(&no_files(), false).0 {
        SendStep::Submit(turn, snapshots) => {
            page.turn_submitted(turn.identity, snapshots, false);
        }
        SendStep::Nothing => panic!("the question is sent"),
    }
    assert!(page.chat.active_turn.is_none());
    assert_eq!(page.chat.input, "q");
    assert_eq!(
        messages(&page, &ai_box, &conversation)[3].content,
        "The AI worker is busy or shutting down."
    );
}

fn start_turn(page: &mut HomePage) -> TurnIdentity {
    page.settings.ai_enabled = true;
    page.chat.input = "q".to_owned();
    match page.ai_send(&no_files(), false).0 {
        SendStep::Submit(turn, snapshots) => {
            let identity = turn.identity.clone();
            page.turn_submitted(turn.identity, snapshots, true);
            identity
        }
        SendStep::Nothing => panic!("the question is sent"),
    }
}

#[test]
fn stopped_turns_keep_what_was_answered() {
    let mut page = new_page();
    let (ai_box, conversation, _) = open_fake_conversation(&mut page);
    assert!(page.ai_stop().0.is_none());
    let identity = start_turn(&mut page);
    assert!(page.turn_running(&ai_box, &conversation));
    // A second question has to wait.
    page.chat.input = "other".to_owned();
    assert!(matches!(page.ai_send(&no_files(), false).0, SendStep::Nothing));
    page.take_event(delta_event(&identity, "so ".to_owned()));
    page.take_event(delta_event(&identity, "far".to_owned()));
    assert_eq!(streaming_text(&page.chat.streaming), "so far");
    let (task, effects) = page.ai_stop();
    assert!(task == Some(identity.task.clone()));
    assert_eq!(effects.len(), 1);
    let answer = &messages(&page, &ai_box, &conversation)[1];
    assert_eq!(answer.content, "so far");
    assert_eq!(answer.status, MessageStatus::Stopped);
    assert_eq!(answer.sources.len(), 1);
    // The answer of a turn that was stopped comes too late.
    page.take_event(delta_event(&identity, "late".to_owned()));
    assert!(page.chat.streaming.is_empty());
    assert_eq!(messages(&page, &ai_box, &conversation).len(), 2);
    // Without any text the answer says so.
    start_turn(&mut page);
    page.ai_stop();
    assert_eq!(messages(&page, &ai_box, &conversation)[3].content, "(stopped)");
}

#[test]
fn failed_turns_say_why() {
    let mut page = new_page();
    let (ai_box, conversation, _) = open_fake_conversation(&mut page);
    let identity = start_turn(&mut page);
    let other = TurnIdentity {
        ai_box: identity.ai_box.clone(),
        conversation: identity.conversation.clone(),
        task: TurnTaskId::new(),
    };
    assert!(page
        .take_event(failed_event(other, AiError::new(AiErrorKind::Timeout, "late")))
        .is_empty());
    assert!(page.chat.active_turn.is_some());
    page.take_event(failed_event(
        identity,
        AiError::new(AiErrorKind::Timeout, "took too long"),
    ));
    assert!(page.chat.active_turn.is_none());
    let answer = &messages(&page, &ai_box, &conversation)[1];
    assert_eq!(answer.content, "(error: took too long)");
    assert_eq!(answer.status, MessageStatus::Failed);
    let identity = start_turn(&mut page);
    page.take_event(failed_event(identity, AiError::cancelled()));
    assert_eq!(messages(&page, &ai_box, &conversation)[3].status, MessageStatus::Stopped);
}

#[test]
fn conversations_close_when_they_are_gone() {
    let mut page = new_page();
    assert!(!page.shows_chat());
    let (ai_box, conversation, _) = open_fake_conversation(&mut page);
    assert!(page.shows_chat());
    page.delete_conversation(&ai_box, &conversation);
    assert!(!page.shows_chat());
    assert!(page.chat.open.is_none());
    assert_eq!(page.provider_label(), "AI off");
    page.settings.ai_enabled = true;
    assert_eq!(page.provider_label(), "gpt-4o-mini");
    assert_eq!(chat_title("Plans"), "Plans - AI - FloatDea");
}

#[test]
fn histories_are_bounded() {
    let mut page = new_page();
    let (ai_box, conversation, _) = open_fake_conversation(&mut page);
    for i in 0..30 {
        push(&mut page, &ai_box, &conversation, Message::user(&format!("m{i}")));
    }
    push(&mut page, &ai_box, &conversation, Message::assistant("  ", TurnTaskId::new()));
    let request = page.build_turn_request(&ai_box, &conversation, &no_files()).unwrap();
    assert_eq!(request.messages.len(), 19);
    assert_eq!(request.messages[0].content, "m11");
    assert_eq!(request.messages[0].role, ChatRole::User);
    assert_eq!(request.tools.len(), 4);
}

#[test]
fn answers_are_shown_with_their_state() {
    assert_eq!(status_badge(MessageStatus::Completed), None);
    assert_eq!(status_badge(MessageStatus::Stopped), Some("STOPPED"));
    assert_eq!(status_badge(MessageStatus::Failed), Some("FAILED"));
    assert_eq!(status_badge(MessageStatus::Stale), Some("SOURCE CHANGED"));
    let usage = |input: Option<u32>, output: Option<u32>| {
        usage_text(&Some(TokenUsage { input_tokens: input, output_tokens: output }))
    };
    assert_eq!(usage(Some(12), Some(7)), Some("in 12 · out 7 tokens".to_owned()));
    assert_eq!(usage(None, Some(7)), Some("out 7 tokens".to_owned()));
    assert_eq!(usage(None, None), None);
    assert_eq!(usage_text(&None), None);
    assert_eq!(
        receipt_text(&ToolRecord {
            tool_id: "core.x".to_owned(),
            status: ToolStatus::Succeeded,
            summary: "done".to_owned(),
        }),
        "tool core.x: done"
    );
    assert_eq!(proposal_preview(""), None);
    assert_eq!(proposal_preview("short"), Some("short".to_owned()));
    let long = "a".repeat(201);
    assert_eq!(proposal_preview(&long), Some(format!("{}…", "a".repeat(200))));
    assert_eq!(output_title("\n  \n first  \nsecond"), "first");
    assert_eq!(output_title(&"b".repeat(50)), "b".repeat(40));
    let mut message = Message::assistant("x", TurnTaskId::new());
    assert_eq!(answer_menu(&message), vec![AnswerChoice::Copy, AnswerChoice::SaveAsSnippet]);
    message.status = MessageStatus::Failed;
    assert_eq!(answer_menu(&message), vec![AnswerChoice::Copy, AnswerChoice::Retry]);
    let workspace = Workspace::empty();
    assert_eq!(
        destination_text(&workspace, &ContainerId::new()),
        "Save to: (deleted AI box)"
    );
    assert_eq!(destination_text(&workspace, &workspace.root), "Save to: Home");
    assert!(enter_sends(true, false, false));
    assert!(!enter_sends(true, true, false));
    assert!(!enter_sends(true, false, true));
    assert!(sends(true, false, "x"));
    assert!(!sends(true, true, "  "));
    assert_eq!(streaming_text(""), "…");
}

fn identity() -> TurnIdentity {
    TurnIdentity {
        ai_box: ContainerId::new(),
        conversation: ConversationId::new(),
        task: TurnTaskId::new(),
    }
}

fn user_request(text: &str) -> ChatRequest {
    ChatRequest::new(
        Some("system".to_owned()),
        vec![floatdea::data::ai::ChatMessage::new(ChatRole::User, text)],
    )
}

#[test]
fn worker_streams_deltas_then_done() {
    let identity = identity();
    let events = run_turn(&FakeProvider::new(), &identity, user_request("hello"), &None);
    let mut deltas = String::new();
    let mut content = None;
    for event in &events {
        match event {
            TurnEvent::Delta { delta, .. } => deltas.push_str(delta),
            TurnEvent::Done { content: text, .. } => content = Some(text.clone()),
            TurnEvent::Failed { .. } => panic!("fake provider completes"),
        }
    }
    let content = content.expect("the turn is done");
    assert!(!deltas.is_empty(), "deltas were streamed");
    assert!(content.contains("hello"), "reply answers the question");
    assert_eq!(content, deltas);
}

#[test]
fn worker_delivers_events_with_full_turn_identity() {
    let identity = identity();
    let events = run_turn(
        &FakeProvider::new(),
        &identity,
        ChatRequest::new(None, Vec::new()),
        &None,
    );
    assert!(events.iter().all(|event| *event.identity() == identity));
    assert!(events.last().unwrap().is_terminal());
    assert!(
        matches!(events.last().unwrap(), TurnEvent::Done { content, .. } if !content.is_empty())
    );
}

#[test]
fn worker_cancels_a_running_turn() {
    let identity = identity();
    let mut book = TurnBook::new();
    assert!(matches!(
        book.take(WorkerCommand::Run(identity.clone())),
        WorkerAction::Start(task) if task == identity.task
    ));
    match book.take(WorkerCommand::Cancel(identity.task.clone())) {
        WorkerAction::Stop(task, TurnEvent::Failed { identity: got, error }) => {
            assert!(task == identity.task);
            assert!(got == identity);
            assert_eq!(error.kind, AiErrorKind::Cancelled);
        }
        _ => panic!("a cancelled turn must not report a normal completion"),
    }
    // A turn is cancelled once.
    assert!(matches!(
        book.take(WorkerCommand::Cancel(identity.task.clone())),
        WorkerAction::Ignore
    ));
    assert!(matches!(book.take(WorkerCommand::Shutdown), WorkerAction::End));
    assert_eq!(busy().kind, AiErrorKind::ProviderUnavailable);
    assert_eq!(channel_closed().kind, AiErrorKind::Cancelled);
}

#[test]
fn worker_drops_late_events_for_other_turns() {
    let mut page = new_page();
    let (ai_box, conversation, _) = open_fake_conversation(&mut page);
    let first = start_turn(&mut page);
    for event in run_turn(&FakeProvider::new(), &first, user_request("one"), &None) {
        page.take_event(event);
    }
    assert_eq!(messages(&page, &ai_box, &conversation).len(), 2);
    // A second, unrelated turn: events for the first turn must never be confused
    // with this one.
    let second = start_turn(&mut page);
    for event in run_turn(&FakeProvider::new(), &first, user_request("one"), &None) {
        assert!(page.take_event(event).is_empty());
    }
    assert!(page.chat.streaming.is_empty());
    for event in run_turn(&FakeProvider::new(), &second, user_request("two"), &None) {
        page.take_event(event);
    }
    assert_eq!(messages(&page, &ai_box, &conversation).len(), 4);
    assert!(messages(&page, &ai_box, &conversation)[3].content.contains("two"));
}

#[test]
fn code_and_links_hold_no_citations() {
    let linked = |text: &str| {
        let mut message = Message::assistant(text, TurnTaskId::new());
        message.sources = vec![SourceRef {
            target: SourceTarget::Snippet(EntityId::from_string("0123456789abcdef0123")),
            title: "one".to_owned(),
            content_hash: None,
        }];
        citation_linked_content(&message)
    };
    for kept in [
        "`a[1]` and [1](https://e.x)",
        "``a ` [1]`` b",
        "x\n```rust\na[1]\n````\n",
        "~~~\n[1]\n```\n[1]",
        "![1](picture.png)",
        "[see [1](a.md)",
    ] {
        assert_eq!(linked(kept), kept);
    }
    let link = "[1](0123456789abcdef0123.md)";
    assert_eq!(linked("a [1] b"), format!("a {link} b"));
    assert_eq!(linked("`a` [1]"), format!("`a` {link}"));
    // Backticks that nothing closes are no code.
    assert_eq!(linked("a ` b [1]"), format!("a ` b {link}"));
    assert_eq!(linked("a \\`b [1]` c"), format!("a \\`b {link}` c"));
    assert_eq!(linked("```\n[1]\n```\n[1]"), format!("```\n[1]\n```\n{link}"));
    assert_eq!(linked("```a``` [1]"), format!("```a``` {link}"));
    assert_eq!(linked("[1] (x)"), format!("{link} (x)"));
}
