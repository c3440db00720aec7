//! What the library knows of chat providers: requests, outcomes and errors.
pub mod fake;
pub mod wire;

pub use crate::data::ai::usage::TokenUsage;
pub use fake::FakeProvider;
use crate::data::ai::json::Json;
use crate::data::ai::tool::ToolDef;
use crate::data::workspace::copy_optional_text;
use crate::text::{join3, trim, trimmed};
use std::sync::atomic::AtomicBool;
use std::sync::Arc;
use vstd::prelude::*;

verus! {

/// The provider family that is configured.
#[derive(Clone, Copy, Debug, PartialEq, Eq, Structural)]
pub enum ProviderKind {
    /// Answers in process, without a network.
    Fake,
    /// An OpenAI-compatible endpoint.
    OpenAiCompatible,
    /// A local Ollama service.
    Ollama,
}

impl Default for ProviderKind {
    fn default() -> (r: Self)
        ensures
            r == ProviderKind::Fake,
    {
        ProviderKind::Fake
    }
}

impl ProviderKind {
    /// The text of the name for the user.
    pub open spec fn label_text(self) -> Seq<char> {
        match self {
            ProviderKind::Fake => "Fake"@,
            ProviderKind::OpenAiCompatible => "OpenAI-compatible"@,
            ProviderKind::Ollama => "Ollama"@,
        }
    }

    /// The name for the user.
    pub fn label(self) -> (r: &'static str)
        ensures
            r@ == self.label_text(),
    {
        match self {
            ProviderKind::Fake => "Fake",
            ProviderKind::OpenAiCompatible => "OpenAI-compatible",
            ProviderKind::Ollama => "Ollama",
        }
    }
}

/// The kinds of provider failures.
#[derive(Clone, Copy, Debug, PartialEq, Eq, Structural)]
pub enum AiErrorKind {
    /// AI is switched off.
    Disabled,
    /// Credentials are missing or wrong.
    Authentication,
    /// The provider limits the rate.
    RateLimited,
    /// The request timed out.
    Timeout,
    /// The request is too large for the provider.
    ContextTooLarge,
    /// The service cannot be reached.
    ProviderUnavailable,
    /// The provider cannot do what is asked.
    UnsupportedCapability,
    /// The provider answered with something unexpected.
    Protocol,
    /// The turn was cancelled.
    Cancelled,
}

/// The text of an error kind for the user.
pub open spec fn error_kind_text(kind: AiErrorKind) -> Seq<char> {
    match kind {
        AiErrorKind::Disabled => "AI disabled"@,
        AiErrorKind::Authentication => "authentication failed"@,
        AiErrorKind::RateLimited => "rate limited"@,
        AiErrorKind::Timeout => "timed out"@,
        AiErrorKind::ContextTooLarge => "context too large"@,
        AiErrorKind::ProviderUnavailable => "provider unavailable"@,
        AiErrorKind::UnsupportedCapability => "unsupported capability"@,
        AiErrorKind::Protocol => "protocol error"@,
        AiErrorKind::Cancelled => "cancelled"@,
    }
}

/// An error kind, for the user.
pub fn error_kind_label(kind: AiErrorKind) -> (r: &'static str)
    ensures
        r@ == error_kind_text(kind),
{
    match kind {
        AiErrorKind::Disabled => "AI disabled",
        AiErrorKind::Authentication => "authentication failed",
        AiErrorKind::RateLimited => "rate limited",
        AiErrorKind::Timeout => "timed out",
        AiErrorKind::ContextTooLarge => "context too large",
        AiErrorKind::ProviderUnavailable => "provider unavailable",
        AiErrorKind::UnsupportedCapability => "unsupported capability",
        AiErrorKind::Protocol => "protocol error",
        AiErrorKind::Cancelled => "cancelled",
    }
}

/// A provider failure.
#[derive(Debug, PartialEq, Eq)]
pub struct AiError {
    pub kind: AiErrorKind,
    /// The provider's own words.
    pub message: String,
}

impl AiError {
    pub fn new(kind: AiErrorKind, message: &str) -> (r: Self)
        ensures
            r.kind == kind,
            r.message@ == message@,
    {
        AiError { kind, message: message.to_owned() }
    }

    /// The turn was cancelled.
    pub fn cancelled() -> (r: Self)
        ensures
            r.kind == AiErrorKind::Cancelled,
            r.message@ == "the turn was cancelled"@,
    {
        AiError::new(AiErrorKind::Cancelled, "the turn was cancelled")
    }

    /// AI is switched off.
    pub fn disabled() -> (r: Self)
        ensures
            r.kind == AiErrorKind::Disabled,
            r.message@ == "AI is disabled"@,
    {
        AiError::new(AiErrorKind::Disabled, "AI is disabled")
    }

    /// The whole error, for the user.
    pub fn describe(&self) -> (r: String)
        ensures
            r@ == error_kind_text(self.kind) + ": "@ + self.message@,
    {
        join3(error_kind_label(self.kind), ": ", &self.message)
    }
}

impl Clone for AiError {
    fn clone(&self) -> (r: Self)
        ensures
            r == *self,
    {
        AiError { kind: self.kind, message: self.message.clone() }
    }
}

/// Who a message of a request is from.
#[derive(Clone, Copy, Debug, PartialEq, Eq, Structural)]
pub enum ChatRole {
    System,
    User,
    Assistant,
    /// The result of a tool call.
    Tool,
}

/// A tool call that a provider asks for.
#[derive(Debug, PartialEq, Eq)]
pub struct ChatToolCall {
    /// Ties the result to the call.
    pub call_id: String,
    /// The identifier of the tool.
    pub fn_name: String,
    pub arguments: Json,
}

impl ChatToolCall {
    /// The same call.
    pub open spec fn same(&self, other: &Self) -> bool {
        &&& self.call_id@ == other.call_id@
        &&& self.fn_name@ == other.fn_name@
        &&& self.arguments.same(other.arguments)
    }
}

impl Clone for ChatToolCall {
    fn clone(&self) -> (r: Self)
        ensures
            self.same(&r),
    {
        ChatToolCall {
            call_id: self.call_id.clone(),
            fn_name: self.fn_name.clone(),
            arguments: self.arguments.clone(),
        }
    }
}

/// One message of a request.
#[derive(Debug, PartialEq, Eq)]
pub struct ChatMessage {
    pub role: ChatRole,
    pub content: String,
    /// The tool calls that the assistant asked for in this message.
    pub tool_calls: Vec<ChatToolCall>,
    /// The call that this message is the result of.
    pub tool_call_id: Option<String>,
}

impl Clone for ChatMessage {
    fn clone(&self) -> (r: Self)
        ensures
            r.role == self.role,
            r.content@ == self.content@,
            r.tool_call_id == self.tool_call_id,
            r.tool_calls@.len() == self.tool_calls@.len(),
            forall|i: int|
                0 <= i < self.tool_calls@.len() ==> (#[trigger] self.tool_calls@[i]).same(
                    &r.tool_calls@[i],
                ),
    {
        let mut tool_calls: Vec<ChatToolCall> = Vec::new();
        let mut i: usize = 0;
        while i < self.tool_calls.len()
            invariant
                i <= self.tool_calls@.len(),
                tool_calls@.len() == i,
                forall|j: int|
                    0 <= j < i ==> (#[trigger] self.tool_calls@[j]).same(&tool_calls@[j]),
            decreases self.tool_calls@.len() - i,
        {
            tool_calls.push(self.tool_calls[i].clone());
            i = i + 1;
        }
        ChatMessage {
            role: self.role,
            content: self.content.clone(),
            tool_calls,
            tool_call_id: copy_optional_text(&self.tool_call_id),
        }
    }
}

impl ChatMessage {
    /// The message has this role and text, and nothing else.
    pub open spec fn is_plain(&self, role: ChatRole, content: Seq<char>) -> bool {
        &&& self.role == role
        &&& self.content@ == content
        &&& self.tool_calls@ == Seq::<ChatToolCall>::empty()
        &&& self.tool_call_id is None
    }

    pub fn new(role: ChatRole, content: &str) -> (r: Self)
        ensures
            r.is_plain(role, content@),
    {
        ChatMessage { role, content: content.to_owned(), tool_calls: Vec::new(), tool_call_id: None }
    }

    pub fn system(content: &str) -> (r: Self)
        ensures
            r.is_plain(ChatRole::System, content@),
    {
        ChatMessage::new(ChatRole::System, content)
    }

    pub fn user(content: &str) -> (r: Self)
        ensures
            r.is_plain(ChatRole::User, content@),
    {
        ChatMessage::new(ChatRole::User, content)
    }

    pub fn assistant(content: &str) -> (r: Self)
        ensures
            r.is_plain(ChatRole::Assistant, content@),
    {
        ChatMessage::new(ChatRole::Assistant, content)
    }

    /// The message is the result of a tool call.
    pub open spec fn is_tool_result(&self, call_id: Seq<char>, content: Seq<char>) -> bool {
        &&& self.role == ChatRole::Tool
        &&& self.content@ == content
        &&& self.tool_calls@ == Seq::<ChatToolCall>::empty()
        &&& self.tool_call_id matches Some(id)
        &&& id@ == call_id
    }

    /// The result of a tool call, for the provider.
    pub fn tool_result(call_id: &str, content: &str) -> (r: Self)
        ensures
            r.is_tool_result(call_id@, content@),
    {
        ChatMessage {
            role: ChatRole::Tool,
            content: content.to_owned(),
            tool_calls: Vec::new(),
            tool_call_id: Some(call_id.to_owned()),
        }
    }
}

/// The request of one turn: the history and sources of one conversation, and the
/// tools that may be called.
pub struct ChatRequest {
    pub system: Option<String>,
    pub messages: Vec<ChatMessage>,
    pub tools: Vec<ToolDef>,
}

impl ChatRequest {
    /// A request without tools.
    pub fn new(system: Option<String>, messages: Vec<ChatMessage>) -> (r: Self)
        ensures
            r.system == system,
            r.messages == messages,
            r.tools@ == Seq::<ToolDef>::empty(),
    {
        ChatRequest { system, messages, tools: Vec::new() }
    }

    /// The request with these tools.
    pub fn with_tools(self, tools: Vec<ToolDef>) -> (r: Self)
        ensures
            r.system == self.system,
            r.messages == self.messages,
            r.tools == tools,
    {
        ChatRequest { system: self.system, messages: self.messages, tools }
    }
}

/// A piece of text that a provider streams.
#[derive(Debug, PartialEq, Eq)]
pub enum StreamEvent {
    Delta(String),
}

/// The end of a stream.
#[derive(Debug, PartialEq, Eq)]
pub struct StreamOutcome {
    pub content: String,
    pub usage: TokenUsage,
    pub tool_calls: Vec<ChatToolCall>,
}

/// What a provider can do.
#[derive(Clone, Copy, Debug, PartialEq, Eq, Structural)]
pub struct Capabilities {
    pub streaming: bool,
    pub tool_calls: bool,
}

/// The flag by which a turn is cancelled. Its copies share one state, which other
/// threads can change at any time, so that nothing is stated of what is read.
pub struct CancelFlag {
    flag: Arc<AtomicBool>,
}

impl CancelFlag {
    /// A flag that is not set.
    pub fn new() -> (r: Self) {
        CancelFlag { flag: Arc::new(AtomicBool::new(false)) }
    }

    /// Sets the flag, for all its copies.
    pub fn cancel(&self) {
        self.flag.store(true, std::sync::atomic::Ordering::SeqCst);
    }

    /// Whether the flag is set.
    pub fn is_cancelled(&self) -> (r: bool) {
        self.flag.load(std::sync::atomic::Ordering::SeqCst)
    }
}

impl Clone for CancelFlag {
    fn clone(&self) -> (r: Self)
        ensures
            r == *self,
    {
        CancelFlag { flag: self.flag.clone() }
    }
}

/// How to reach a provider.
#[derive(Debug, PartialEq, Eq)]
pub struct ProviderConfig {
    pub kind: ProviderKind,
    /// The model, as the user wrote it.
    pub model: String,
    pub base_url: Option<String>,
    pub api_key: Option<String>,
}

/// What a remote client is set up with.
#[derive(Debug, PartialEq, Eq)]
pub struct RemoteSetup {
    /// The model that is asked for.
    pub model: String,
    /// The endpoint, where it is not the default one.
    pub base_url: Option<String>,
    /// The key, where it is not taken from the environment.
    pub api_key: Option<String>,
    /// The name for the user.
    pub label: String,
}

/// The provider to build for a configuration.
#[derive(Debug, PartialEq, Eq)]
pub enum ProviderChoice {
    Fake,
    Remote(RemoteSetup),
}

/// An optional text that holds more than white space, or nothing.
pub open spec fn unless_blank(text: Option<String>) -> Option<String> {
    match text {
        Some(t) => if trimmed(t@).len() == 0 {
            None
        } else {
            Some(t)
        },
        None => None,
    }
}

/// Leaves out an optional text that holds only white space.
pub fn drop_blank(text: &Option<String>) -> (r: Option<String>)
    ensures
        r == unless_blank(*text),
{
    match text {
        Some(t) => {
            if trim(t).as_str().is_empty() {
                None
            } else {
                Some(t.clone())
            }
        },
        None => None,
    }
}

/// The setup is that of a remote provider with this configuration.
pub open spec fn is_remote_setup(setup: RemoteSetup, config: ProviderConfig) -> bool {
    &&& setup.model@ == trimmed(config.model@)
    &&& setup.base_url == unless_blank(config.base_url)
    &&& setup.api_key == unless_blank(config.api_key)
    &&& setup.label@ == config.kind.label_text() + " · "@ + config.model@
}

/// Sets up a remote provider. The in-process provider has no remote client, and
/// a model has to be named.
pub fn remote_setup(config: &ProviderConfig) -> (r: Result<RemoteSetup, AiError>)
    ensures
        match r {
            Ok(setup) => config.kind != ProviderKind::Fake && trimmed(config.model@).len() > 0
                && is_remote_setup(setup, *config),
            Err(error) => if config.kind == ProviderKind::Fake {
                error.kind == AiErrorKind::UnsupportedCapability && error.message@
                    == "the fake provider is in-process and has no genai adapter"@
            } else {
                trimmed(config.model@).len() == 0 && error.kind == AiErrorKind::Protocol
                    && error.message@ == "a model name is required for remote providers"@
            },
        },
{
    if config.kind == ProviderKind::Fake {
        return Err(
            AiError::new(
                AiErrorKind::UnsupportedCapability,
                "the fake provider is in-process and has no genai adapter",
            ),
        );
    }
    let model = trim(&config.model);
    if model.as_str().is_empty() {
        return Err(
            AiError::new(AiErrorKind::Protocol, "a model name is required for remote providers"),
        );
    }
    Ok(
        RemoteSetup {
            model,
            base_url: drop_blank(&config.base_url),
            api_key: drop_blank(&config.api_key),
            label: join3(config.kind.label(), " · ", &config.model),
        },
    )
}

/// Chooses the provider for a configuration. No request is made.
pub fn build_provider(config: &ProviderConfig) -> (r: Result<ProviderChoice, AiError>)
    ensures
        match r {
            Ok(ProviderChoice::Fake) => config.kind == ProviderKind::Fake,
            Ok(ProviderChoice::Remote(setup)) => config.kind != ProviderKind::Fake && trimmed(
                config.model@,
            ).len() > 0 && is_remote_setup(setup, *config),
            Err(error) => config.kind != ProviderKind::Fake && trimmed(config.model@).len() == 0
                && error.kind == AiErrorKind::Protocol && error.message@
                == "a model name is required for remote providers"@,
        },
{
    if config.kind == ProviderKind::Fake {
        return Ok(ProviderChoice::Fake);
    }
    match remote_setup(config) {
        Ok(setup) => Ok(ProviderChoice::Remote(setup)),
        Err(error) => Err(error),
    }
}

/// A remote provider is set up with what the user wrote: the model without the white
/// space around it, and the endpoint and the key unless they are blank.
pub proof fn setups_keep_what_was_written(setup: RemoteSetup, config: ProviderConfig)
    requires
        is_remote_setup(setup, config),
    ensures
        setup.model@ == trimmed(config.model@),
        config.base_url matches Some(url) ==> trimmed(url@).len() > 0 ==> setup.base_url == Some(
            url,
        ),
        config.base_url matches Some(url) ==> trimmed(url@).len() == 0 ==> setup.base_url is None,
        config.base_url is None ==> setup.base_url is None,
        config.api_key matches Some(key) ==> trimmed(key@).len() > 0 ==> setup.api_key == Some(key),
        config.api_key matches Some(key) ==> trimmed(key@).len() == 0 ==> setup.api_key is None,
        config.api_key is None ==> setup.api_key is None,
{
}

} // verus!
