//! AI workspaces: conversations, tools and providers.
//!
//! Conversations are kept beside the workspace, one file for each AI workspace.
//! They are no snippets and have no part in the graph of references; only what the
//! user saves of them becomes a snippet.
pub mod extract;
pub mod json;
pub mod lengths;
pub mod nesting;
pub mod outline;
pub mod pdf;
pub mod provider;
pub mod store;
pub mod tool;
pub mod types;
pub mod usage;
pub mod worker;

pub use provider::{build_provider, ChatMessage, ChatRequest};
pub use store::AiStore;
pub use tool::ToolRegistry;
pub use types::{content_hash, now_unix, AiBoxData, Conversation, Message, MessageRole,
    MessageStatus, SourceRef, SourceTarget, AI_BOX_DATA_VERSION};
pub use usage::TokenUsage;
