//! Data that does not depend on the user interface.
pub mod ai;
pub mod attachment;
pub mod ids;
pub mod layout;
pub mod markdown_targets;
pub mod model;
pub mod paths;
pub mod settings;
pub mod storage;
pub mod workspace;
pub mod workspace_store;

pub use ids::{AttachmentId, ContainerId, ConversationId, EntityId, ExternalFileId, ReferenceId,
    TextId, TurnTaskId};
pub use layout::CanvasText;
pub use markdown_targets::{parse_attachment_link, parse_local_markdown_targets, parse_snippet_link,
    LocalMarkdownTarget, ParsedMarkdownTarget};
pub use model::Snippet;
pub use settings::{Settings, SettingsStore, ThemeSetting};
pub use workspace::{ContainerKind, ExternalFileRef, ImageAttachment, ImageFit, MemberRole};
