use floatdea::data::ai::json::{Json, JsonNumber};
use floatdea::data::ai::provider::fake::{FakeProvider, FakeStep};
use floatdea::data::ai::provider::wire::{canonical_tool_name, map_error, RemoteFailure};
use floatdea::data::ai::provider::{
    build_provider, AiError, AiErrorKind, CancelFlag, ChatMessage, ChatRequest, ChatToolCall,
    ProviderChoice, ProviderConfig, ProviderKind, StreamOutcome, TokenUsage,
};
use floatdea::data::ai::tool::{
    builtin_tools, excerpt, execute_tool_call, validate_arguments, BoundSource, ToolCall, ToolContext, ToolRegistry,
    ToolSideEffect, TOOL_CREATE_OUTPUT_PROPOSAL, TOOL_LIST_SOURCES, TOOL_READ_SOURCE,
    TOOL_SEARCH_SOURCES,
};
use floatdea::data::ai::types::{SourceTarget, ToolStatus};
use floatdea::data::ai::worker::{ToolTurn, TurnIdentity, TurnStep};
use floatdea::data::ids::{ContainerId, ConversationId, EntityId, TurnTaskId};

fn source(index: u32, target: SourceTarget, title: &str, content: &str, hash: &str) -> BoundSource {
    BoundSource {
        index,
        target,
        title: title.to_owned(),
        content: content.to_owned(),
        content_hash: hash.to_owned(),
    }
}

fn context() -> ToolContext {
    ToolContext {
        sources: vec![
            source(
                1,
                SourceTarget::Snippet(EntityId::new()),
                "Alpha",
                "FloatDea is a local-first notes app.",
                "h1",
            ),
            source(
                2,
                SourceTarget::Container(ContainerId::new()),
                "Beta",
                "AI boxes keep their scope read-only.",
                "h2",
            ),
        ],
    }
}

fn registry() -> ToolRegistry {
    ToolRegistry::builtins()
}

fn text(value: &str) -> Json {
    Json::Text(value.to_owned())
}

fn object(members: Vec<(&str, Json)>) -> Json {
    Json::Object(members.into_iter().map(|(name, value)| (name.to_owned(), value)).collect())
}

fn number(n: u64) -> Json {
    Json::Number(JsonNumber::Natural(n))
}

fn call(tool_id: &str, arguments: Json) -> ToolCall {
    ToolCall { call_id: "call_1".to_owned(), tool_id: tool_id.to_owned(), arguments }
}

fn run(tool_id: &str, arguments: Json) -> floatdea::data::ai::tool::ToolResult {
    execute_tool_call(&call(tool_id, arguments), &registry(), &context(), false)
}

#[test]
fn builtins_contain_the_four_first_phase_tools() {
    let registry = registry();
    let ids: Vec<&str> = registry.definitions().iter().map(|def| def.id.as_str()).collect();
    assert_eq!(
        ids,
        vec![
            TOOL_LIST_SOURCES,
            TOOL_READ_SOURCE,
            TOOL_SEARCH_SOURCES,
            TOOL_CREATE_OUTPUT_PROPOSAL
        ]
    );
    assert_eq!(
        registry.def(TOOL_CREATE_OUTPUT_PROPOSAL).unwrap().side_effect,
        ToolSideEffect::Proposal
    );
}

#[test]
fn list_sources_returns_numbers_and_titles_without_content() {
    let result = run(TOOL_LIST_SOURCES, object(vec![]));
    assert_eq!(result.record.status, ToolStatus::Succeeded);
    assert!(result.content.contains("1. [Alpha] (snippet"));
    assert!(result.content.contains("2. [Beta] (container"));
    assert!(!result.content.contains("local-first"));
    assert_eq!(result.record.summary, "listed 2 bound source(s)");
}

#[test]
fn read_source_returns_bounded_content_of_the_requested_number() {
    let result = run(TOOL_READ_SOURCE, object(vec![("source", number(2))]));
    assert_eq!(result.record.status, ToolStatus::Succeeded);
    assert!(result.content.contains("read-only"));
    assert!(!result.content.contains("local-first"));
    // Out-of-range numbers fail instead of expanding the scope.
    let out = run(TOOL_READ_SOURCE, object(vec![("source", number(9))]));
    assert_eq!(out.record.status, ToolStatus::Failed);
}

#[test]
fn search_sources_only_finds_bound_sources() {
    let result = run(TOOL_SEARCH_SOURCES, object(vec![("query", text("read-only"))]));
    assert_eq!(result.record.status, ToolStatus::Succeeded);
    assert!(result.content.contains("[Beta]"));
    assert!(!result.content.contains("[Alpha]"));
    assert_eq!(result.record.summary, "searched sources for 'read-only' (1 hit(s))");
}

#[test]
fn create_output_proposal_returns_a_proposal_without_writing() {
    let result = run(
        TOOL_CREATE_OUTPUT_PROPOSAL,
        object(vec![("title", text("Summary")), ("content", text("# Summary\n\nBody"))]),
    );
    assert_eq!(result.record.status, ToolStatus::Succeeded);
    let proposal = result.proposal.expect("a proposal is produced");
    assert_eq!(proposal.title, "Summary");
    assert!(proposal.content.contains("# Summary"));
    assert!(proposal.created.is_none());
    assert!(!proposal.rejected);
}

#[test]
fn proposal_tool_rejects_ids_and_unknown_arguments() {
    let with_container = run(
        TOOL_CREATE_OUTPUT_PROPOSAL,
        object(vec![
            ("title", text("T")),
            ("content", text("Body")),
            ("container_id", text("abc")),
        ]),
    );
    assert_eq!(with_container.record.status, ToolStatus::Failed);
    assert!(with_container.proposal.is_none());
    let missing_content =
        run(TOOL_CREATE_OUTPUT_PROPOSAL, object(vec![("title", text("T"))]));
    assert_eq!(missing_content.record.status, ToolStatus::Failed);
}

#[test]
fn unknown_tools_and_malformed_arguments_fail_fast() {
    let unknown = run("core.delete_everything", object(vec![]));
    assert_eq!(unknown.record.status, ToolStatus::Failed);
    let not_an_object = run(TOOL_LIST_SOURCES, Json::Array(vec![number(1), number(2)]));
    assert_eq!(not_an_object.record.status, ToolStatus::Failed);
    let wrong_type = run(TOOL_READ_SOURCE, object(vec![("source", text("one"))]));
    assert_eq!(wrong_type.record.status, ToolStatus::Failed);
}

#[test]
fn cancelled_calls_do_nothing() {
    let result =
        execute_tool_call(&call(TOOL_LIST_SOURCES, object(vec![])), &registry(), &context(), true);
    assert_eq!(result.record.status, ToolStatus::Failed);
    assert_eq!(result.content, "Error: cancelled before execution");
}

#[test]
fn tools_are_not_called_more_often_than_they_may_be() {
    let identity = TurnIdentity {
        ai_box: ContainerId::new(),
        conversation: ConversationId::new(),
        task: TurnTaskId::new(),
    };
    let calls = (0..3)
        .map(|i| ChatToolCall {
            call_id: format!("c{i}"),
            fn_name: TOOL_LIST_SOURCES.to_owned(),
            arguments: object(vec![]),
        })
        .collect();
    let outcome = StreamOutcome {
        content: "thinking".to_owned(),
        usage: TokenUsage { input_tokens: None, output_tokens: None },
        tool_calls: calls,
    };
    let mut turn = ToolTurn::new();
    let request = ChatRequest::new(None, vec![ChatMessage::user("q")]);
    match turn.step(&identity, request, outcome, &registry(), &Some(context()), false) {
        TurnStep::Continue(next) => {
            assert_eq!(next.messages.len(), 5);
            assert_eq!(next.messages[1].content, "thinking");
            assert_eq!(next.messages[1].tool_calls.len(), 3);
            assert_eq!(next.messages[4].tool_call_id.as_deref(), Some("c2"));
            assert_eq!(
                next.messages[4].content,
                "Error: the call limit of 'core.list_sources' is reached"
            );
        }
        TurnStep::Finish(_) => panic!("tools are asked for"),
    }
    assert_eq!(turn.records.len(), 3);
    assert_eq!(turn.records[1].status, ToolStatus::Succeeded);
    assert_eq!(turn.records[2].status, ToolStatus::Failed);
}

/// Runs one round of a provider.
fn collect(
    provider: &FakeProvider,
    request: &ChatRequest,
    cancel: &CancelFlag,
) -> (Vec<String>, Result<StreamOutcome, AiError>) {
    let plan = provider.plan(request);
    let mut deltas = Vec::new();
    let mut index: usize = 0;
    loop {
        match provider.step(&plan, index, cancel.is_cancelled()) {
            FakeStep::Send(delta) => deltas.push(delta),
            FakeStep::Fail(error) => return (deltas, Err(error)),
            FakeStep::Finish => return (deltas, Ok(provider.finish(plan))),
        }
        index += 1;
    }
}

fn empty_request() -> ChatRequest {
    ChatRequest::new(None, Vec::new())
}

#[test]
fn fake_provider_streams_deltas_and_returns_outcome() {
    let provider = FakeProvider::canned(vec!["hello ", "world"], 0, None);
    let request = ChatRequest::new(
        None,
        vec![ChatMessage::user("question?"), ChatMessage::user("hi")],
    );
    let (deltas, outcome) = collect(&provider, &request, &CancelFlag::new());
    assert_eq!(deltas, vec!["hello ", "world"]);
    let outcome = outcome.expect("no scripted failure");
    assert_eq!(outcome.content, "hello world");
    assert_eq!(outcome.usage.input_tokens, Some(12));
}

#[test]
fn fake_provider_default_answers_deterministically() {
    let provider = FakeProvider::new();
    let request = ChatRequest::new(None, vec![ChatMessage::user("What is 2+2?")]);
    let (_, outcome) = collect(&provider, &request, &CancelFlag::new());
    let content = outcome.expect("default fake never fails").content;
    assert!(content.contains("What is 2+2?"));
    assert!(content.contains("Fake provider"));
}

#[test]
fn fake_provider_honours_cancellation() {
    let provider = FakeProvider::canned(vec!["a", "b", "c", "d"], 0, None);
    let cancel = CancelFlag::new();
    cancel.clone().cancel();
    let (deltas, outcome) = collect(&provider, &empty_request(), &cancel);
    assert!(deltas.is_empty());
    assert_eq!(outcome.expect_err("cancelled").kind, AiErrorKind::Cancelled);
}

#[test]
fn fake_provider_can_fail_mid_stream() {
    let provider = FakeProvider::canned(vec!["a", "b", "c"], 0, Some(2));
    let (_, outcome) = collect(&provider, &empty_request(), &CancelFlag::new());
    let error = outcome.expect_err("scripted failure after two chunks");
    assert_eq!(error.kind, AiErrorKind::Protocol);
}

#[test]
fn scripted_proposal_round_requests_the_tool_then_answers() {
    let cancel = CancelFlag::new();
    // First call: only a tool request, no text (scripted tool calls only fire when
    // the request actually carries tool definitions).
    let provider = FakeProvider::tool_proposal("Draft", "# Draft\n\nBody", "Saved!");
    let (deltas, first) =
        collect(&provider, &empty_request().with_tools(builtin_tools()), &cancel);
    let first = first.expect("tool round succeeds");
    assert!(deltas.is_empty(), "tool-call rounds stream no text");
    assert!(first.content.is_empty());
    assert_eq!(first.tool_calls.len(), 1);
    assert_eq!(first.tool_calls[0].fn_name, TOOL_CREATE_OUTPUT_PROPOSAL);

    // Continuation round (a tool-role message is present): final answer.
    let mut continuation = empty_request().with_tools(builtin_tools());
    continuation.messages.push(ChatMessage::tool_result("call_propose", "ok"));
    let (_, second) = collect(&provider, &continuation, &cancel);
    let second = second.expect("continuation round succeeds");
    assert!(second.tool_calls.is_empty());
    assert!(second.content.contains("Saved!"));
}

#[test]
fn scripted_reads_ask_for_the_first_source() {
    let provider = FakeProvider::tool_read_source("Read it.");
    let (_, first) = collect(
        &provider,
        &empty_request().with_tools(builtin_tools()),
        &CancelFlag::new(),
    );
    let first = first.unwrap();
    assert_eq!(first.tool_calls[0].fn_name, TOOL_READ_SOURCE);
    assert_eq!(first.tool_calls[0].arguments.get("source").unwrap().as_u64(), Some(1));
}

#[test]
fn build_fake_provider_requires_no_network() {
    let config = ProviderConfig {
        kind: ProviderKind::Fake,
        model: String::new(),
        base_url: None,
        api_key: None,
    };
    assert_eq!(build_provider(&config).expect("fake provider builds"), ProviderChoice::Fake);
    let provider = FakeProvider::new();
    assert!(provider.capabilities().streaming);
    assert!(provider.label().contains("Fake"));
}

#[test]
fn remote_providers_need_a_model() {
    let config = |model: &str| ProviderConfig {
        kind: ProviderKind::OpenAiCompatible,
        model: model.to_owned(),
        base_url: Some("  ".to_owned()),
        api_key: Some("k".to_owned()),
    };
    let error = build_provider(&config(" ")).unwrap_err();
    assert_eq!(error.kind, AiErrorKind::Protocol);
    assert_eq!(error.message, "a model name is required for remote providers");
    match build_provider(&config(" m ")).unwrap() {
        ProviderChoice::Remote(setup) => {
            assert_eq!(setup.model, "m");
            assert_eq!(setup.base_url, None);
            assert_eq!(setup.api_key.as_deref(), Some("k"));
        }
        ProviderChoice::Fake => panic!("a remote provider"),
    }
}

#[test]
fn wire_names_lead_back_to_tools() {
    let tools = builtin_tools();
    assert_eq!(canonical_tool_name(&tools, "core_read_source"), TOOL_READ_SOURCE);
    assert_eq!(canonical_tool_name(&tools, "other"), "other");
}

#[test]
fn failures_have_kinds() {
    let kind = |failure: RemoteFailure| map_error(failure, "m").kind;
    assert_eq!(kind(RemoteFailure::Status(401)), AiErrorKind::Authentication);
    assert_eq!(kind(RemoteFailure::Status(429)), AiErrorKind::RateLimited);
    assert_eq!(AiError::disabled().kind, AiErrorKind::Disabled);
    assert_eq!(
        AiError::new(AiErrorKind::Timeout, "x").describe(),
        "timed out: x"
    );
}

#[test]
fn closed_schemas_refuse_what_they_do_not_list() {
    let member = |name: &str, value: Json| (name.to_owned(), value);
    let closed = Json::Object(vec![member("additionalProperties", Json::Bool(false))]);
    let open = Json::Object(Vec::new());
    let arguments = Json::Object(vec![member("x", Json::Bool(true))]);

    assert_eq!(
        validate_arguments(&closed, &arguments),
        Err("unexpected argument 'x'".to_owned())
    );
    assert!(validate_arguments(&open, &arguments).is_ok());
    assert!(validate_arguments(&closed, &open).is_ok());
}

#[test]
fn excerpts_lie_around_the_hit() {
    assert_eq!(excerpt("  Some Needle here ", "needle"), "Some Needle here");
    // Each of these characters becomes two in lower case.
    let text = format!("{}the Needle", "\u{130}".repeat(200));
    let shown = excerpt(&text, "needle");
    assert!(shown.to_lowercase().contains("needle"), "{shown}");
    assert!(shown.starts_with('…') && shown.chars().count() <= 162);
    // The needle begins within what one character became.
    let text = format!("{}\u{130}x", "\u{130}a".repeat(200));
    assert!(excerpt(&text, "\u{307}x").to_lowercase().contains("\u{307}x"));
}
