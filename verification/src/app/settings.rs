//! The settings window: its labels, the rows it shows, and what an edit changes.
use crate::app::page::HomePage;
use crate::data::ai::provider::ProviderKind;
use crate::data::settings::{Settings, ThemeSetting, WindowMode};
use vstd::prelude::*;

verus! {

/// The size of the main window where each canvas has a window of its own.
pub const ROOT_CANVAS_SIZE: [u32; 2] = [640, 480];

/// The size of the main window where the other windows float in it.
pub const FLOATING_MAIN_SIZE: [u32; 2] = [1280, 800];

/// The label of a theme.
pub open spec fn theme_text(theme: ThemeSetting) -> Seq<char> {
    match theme {
        ThemeSetting::System => "System"@,
        ThemeSetting::Light => "Light"@,
        ThemeSetting::Dark => "Dark"@,
    }
}

/// The label of a theme.
pub fn theme_label(theme: ThemeSetting) -> (r: &'static str)
    ensures
        r@ == theme_text(theme),
{
    match theme {
        ThemeSetting::System => "System",
        ThemeSetting::Light => "Light",
        ThemeSetting::Dark => "Dark",
    }
}

/// The label of a window mode.
pub open spec fn mode_text(mode: WindowMode) -> Seq<char> {
    match mode {
        WindowMode::Native => "Native windows"@,
        WindowMode::Floating => "Floating (single window)"@,
    }
}

/// The label of a window mode.
pub fn mode_label(mode: WindowMode) -> (r: &'static str)
    ensures
        r@ == mode_text(mode),
{
    match mode {
        WindowMode::Native => "Native windows",
        WindowMode::Floating => "Floating (single window)",
    }
}

/// The size of the main window in a mode.
pub fn main_window_size(mode: WindowMode) -> (r: [u32; 2])
    ensures
        r == match mode {
            WindowMode::Native => ROOT_CANVAS_SIZE,
            WindowMode::Floating => FLOATING_MAIN_SIZE,
        },
{
    match mode {
        WindowMode::Native => ROOT_CANVAS_SIZE,
        WindowMode::Floating => FLOATING_MAIN_SIZE,
    }
}

/// A row of the section about AI.
#[derive(Clone, Copy, Debug, PartialEq, Eq, Structural)]
pub enum AiRow {
    /// The master switch.
    Enabled,
    /// Tells that AI is off.
    OffNotice,
    /// Whether the model may call tools.
    Tools,
    Provider,
    Model,
    SummarizerModel,
    BaseUrl,
    ApiKey,
    /// Tells what the provider does with the conversation.
    RemoteNotice,
    /// Tells that the provider runs in the process.
    FakeNotice,
}

/// The rows of the section about AI: nothing but the switch while AI is off, and
/// no endpoint or key for the provider that needs none.
pub open spec fn ai_rows_of(enabled: bool, provider: ProviderKind) -> Seq<AiRow> {
    if !enabled {
        seq![AiRow::Enabled, AiRow::OffNotice]
    } else if provider == ProviderKind::Fake {
        seq![
            AiRow::Enabled,
            AiRow::Tools,
            AiRow::Provider,
            AiRow::Model,
            AiRow::SummarizerModel,
            AiRow::FakeNotice,
        ]
    } else {
        seq![
            AiRow::Enabled,
            AiRow::Tools,
            AiRow::Provider,
            AiRow::Model,
            AiRow::SummarizerModel,
            AiRow::BaseUrl,
            AiRow::ApiKey,
            AiRow::RemoteNotice,
        ]
    }
}

/// The rows of the section about AI.
pub fn ai_rows(settings: &Settings) -> (r: Vec<AiRow>)
    ensures
        r@ == ai_rows_of(settings.ai_enabled, settings.ai_provider),
{
    let mut rows: Vec<AiRow> = Vec::new();
    rows.push(AiRow::Enabled);
    if !settings.ai_enabled {
        rows.push(AiRow::OffNotice);
    } else {
        rows.push(AiRow::Tools);
        rows.push(AiRow::Provider);
        rows.push(AiRow::Model);
        rows.push(AiRow::SummarizerModel);
        if settings.ai_provider != ProviderKind::Fake {
            rows.push(AiRow::BaseUrl);
            rows.push(AiRow::ApiKey);
            rows.push(AiRow::RemoteNotice);
        } else {
            rows.push(AiRow::FakeNotice);
        }
    }
    assert(rows@ =~= ai_rows_of(settings.ai_enabled, settings.ai_provider));
    rows
}

/// What is told about a provider.
pub open spec fn provider_notice_text(provider: ProviderKind) -> Seq<char> {
    match provider {
        ProviderKind::Fake => "Fake provider: deterministic local replies, no network. Good for testing the AI workbench offline."@,
        ProviderKind::OpenAiCompatible => "Sends the conversation to the configured endpoint when you send a message."@,
        ProviderKind::Ollama => "Connects to a local Ollama service (default http://localhost:11434)."@,
    }
}

/// What is told about a provider.
pub fn provider_notice(provider: ProviderKind) -> (r: &'static str)
    ensures
        r@ == provider_notice_text(provider),
{
    match provider {
        ProviderKind::Fake => "Fake provider: deterministic local replies, no network. Good for testing the AI workbench offline.",
        ProviderKind::OpenAiCompatible => "Sends the conversation to the configured endpoint when you send a message.",
        ProviderKind::Ollama => "Connects to a local Ollama service (default http://localhost:11434).",
    }
}

/// The providers to choose from.
pub fn provider_kinds() -> (r: Vec<ProviderKind>)
    ensures
        r@ == seq![ProviderKind::Fake, ProviderKind::OpenAiCompatible, ProviderKind::Ollama],
{
    let mut kinds: Vec<ProviderKind> = Vec::new();
    kinds.push(ProviderKind::Fake);
    kinds.push(ProviderKind::OpenAiCompatible);
    kinds.push(ProviderKind::Ollama);
    assert(kinds@ =~= seq![
        ProviderKind::Fake,
        ProviderKind::OpenAiCompatible,
        ProviderKind::Ollama,
    ]);
    kinds
}

/// An edit in the settings window. Sizes are the bit patterns of single-precision
/// numbers.
#[derive(Debug)]
pub enum SettingsEdit {
    Theme(ThemeSetting),
    PreviewFontSize(u32),
    MathCapScale(u32),
    SnapToGrid(bool),
    ShowGrid(bool),
    Mode(WindowMode),
    AiEnabled(bool),
    AiTools(bool),
    Provider(ProviderKind),
    Model(String),
    SummarizerModel(String),
    BaseUrl(String),
    ApiKey(String),
}

/// The settings with an edit, which changes its field and nothing else.
pub open spec fn edited(settings: Settings, edit: SettingsEdit) -> Settings {
    match edit {
        SettingsEdit::Theme(theme) => Settings { theme, ..settings },
        SettingsEdit::PreviewFontSize(preview_font_size) => Settings {
            preview_font_size,
            ..settings
        },
        SettingsEdit::MathCapScale(math_cap_scale) => Settings { math_cap_scale, ..settings },
        SettingsEdit::SnapToGrid(snap_to_grid) => Settings { snap_to_grid, ..settings },
        SettingsEdit::ShowGrid(show_grid) => Settings { show_grid, ..settings },
        SettingsEdit::Mode(window_mode) => Settings { window_mode, ..settings },
        SettingsEdit::AiEnabled(ai_enabled) => Settings { ai_enabled, ..settings },
        SettingsEdit::AiTools(ai_tools_enabled) => Settings { ai_tools_enabled, ..settings },
        SettingsEdit::Provider(ai_provider) => Settings { ai_provider, ..settings },
        SettingsEdit::Model(ai_model) => Settings { ai_model, ..settings },
        SettingsEdit::SummarizerModel(summarizer_model) => Settings {
            summarizer_model,
            ..settings
        },
        SettingsEdit::BaseUrl(ai_base_url) => Settings { ai_base_url, ..settings },
        SettingsEdit::ApiKey(ai_api_key) => Settings { ai_api_key, ..settings },
    }
}

impl HomePage {
    /// Makes an edit of the settings, which then have to be saved. Returns the new
    /// size of the main window where the window mode was changed.
    pub fn edit_settings(&mut self, edit: SettingsEdit) -> (r: Option<[u32; 2]>)
        ensures
            *final(self) == (HomePage { settings: edited(old(self).settings, edit), ..*old(self) }),
            r == match edit {
                SettingsEdit::Mode(WindowMode::Native) => Some(ROOT_CANVAS_SIZE),
                SettingsEdit::Mode(WindowMode::Floating) => Some(FLOATING_MAIN_SIZE),
                _ => None,
            },
    {
        match edit {
            SettingsEdit::Theme(theme) => {
                self.settings.theme = theme;
            },
            SettingsEdit::PreviewFontSize(size) => {
                self.settings.preview_font_size = size;
            },
            SettingsEdit::MathCapScale(scale) => {
                self.settings.math_cap_scale = scale;
            },
            SettingsEdit::SnapToGrid(on) => {
                self.settings.snap_to_grid = on;
            },
            SettingsEdit::ShowGrid(on) => {
                self.settings.show_grid = on;
            },
            SettingsEdit::Mode(mode) => {
                self.settings.window_mode = mode;
                return Some(main_window_size(mode));
            },
            SettingsEdit::AiEnabled(on) => {
                self.settings.ai_enabled = on;
            },
            SettingsEdit::AiTools(on) => {
                self.settings.ai_tools_enabled = on;
            },
            SettingsEdit::Provider(provider) => {
                self.settings.ai_provider = provider;
            },
            SettingsEdit::Model(model) => {
                self.settings.ai_model = model;
            },
            SettingsEdit::SummarizerModel(model) => {
                self.settings.summarizer_model = model;
            },
            SettingsEdit::BaseUrl(url) => {
                self.settings.ai_base_url = url;
            },
            SettingsEdit::ApiKey(key) => {
                self.settings.ai_api_key = key;
            },
        }
        None
    }
}

/// An edit changes the setting that it is about to the given value, and no other one.
pub proof fn edits_change_one_setting(settings: Settings, edit: SettingsEdit)
    ensures
        edited(settings, edit).version == settings.version,
        edited(settings, edit).theme == match edit {
            SettingsEdit::Theme(value) => value,
            _ => settings.theme,
        },
        edited(settings, edit).preview_font_size == match edit {
            SettingsEdit::PreviewFontSize(value) => value,
            _ => settings.preview_font_size,
        },
        edited(settings, edit).math_cap_scale == match edit {
            SettingsEdit::MathCapScale(value) => value,
            _ => settings.math_cap_scale,
        },
        edited(settings, edit).snap_to_grid == match edit {
            SettingsEdit::SnapToGrid(value) => value,
            _ => settings.snap_to_grid,
        },
        edited(settings, edit).show_grid == match edit {
            SettingsEdit::ShowGrid(value) => value,
            _ => settings.show_grid,
        },
        edited(settings, edit).window_mode == match edit {
            SettingsEdit::Mode(value) => value,
            _ => settings.window_mode,
        },
        edited(settings, edit).ai_enabled == match edit {
            SettingsEdit::AiEnabled(value) => value,
            _ => settings.ai_enabled,
        },
        edited(settings, edit).ai_tools_enabled == match edit {
            SettingsEdit::AiTools(value) => value,
            _ => settings.ai_tools_enabled,
        },
        edited(settings, edit).ai_provider == match edit {
            SettingsEdit::Provider(value) => value,
            _ => settings.ai_provider,
        },
        edited(settings, edit).ai_model == match edit {
            SettingsEdit::Model(value) => value,
            _ => settings.ai_model,
        },
        edited(settings, edit).summarizer_model == match edit {
            SettingsEdit::SummarizerModel(value) => value,
            _ => settings.summarizer_model,
        },
        edited(settings, edit).ai_base_url == match edit {
            SettingsEdit::BaseUrl(value) => value,
            _ => settings.ai_base_url,
        },
        edited(settings, edit).ai_api_key == match edit {
            SettingsEdit::ApiKey(value) => value,
            _ => settings.ai_api_key,
        },
{
}

/// The rows for AI: with AI off nothing but the switch can be set, and an endpoint and a
/// key are asked for exactly if the provider is a remote one.
pub proof fn ai_rows_follow_the_provider(enabled: bool, provider: ProviderKind)
    ensures
        ai_rows_of(enabled, provider).contains(AiRow::Enabled),
        ai_rows_of(enabled, provider).contains(AiRow::OffNotice) <==> !enabled,
        ai_rows_of(enabled, provider).contains(AiRow::Provider) <==> enabled,
        ai_rows_of(enabled, provider).contains(AiRow::Model) <==> enabled,
        ai_rows_of(enabled, provider).contains(AiRow::Tools) <==> enabled,
        ai_rows_of(enabled, provider).contains(AiRow::SummarizerModel) <==> enabled,
        ai_rows_of(enabled, provider).contains(AiRow::BaseUrl) <==> enabled && provider
            != ProviderKind::Fake,
        ai_rows_of(enabled, provider).contains(AiRow::ApiKey) <==> enabled && provider
            != ProviderKind::Fake,
{
    let rows = ai_rows_of(enabled, provider);
    assert(rows[0] == AiRow::Enabled);
    if enabled {
        assert(rows[1] == AiRow::Tools);
        assert(rows[2] == AiRow::Provider);
        assert(rows[3] == AiRow::Model);
        assert(rows[4] == AiRow::SummarizerModel);
        if provider != ProviderKind::Fake {
            assert(rows[5] == AiRow::BaseUrl);
            assert(rows[6] == AiRow::ApiKey);
        }
    } else {
        assert(rows[1] == AiRow::OffNotice);
    }
}

/// The labels that the user chooses from.
pub proof fn choices_have_their_labels(theme: ThemeSetting, mode: WindowMode)
    ensures
        theme_text(theme) == "System"@ <==> theme == ThemeSetting::System,
        theme_text(theme) == "Light"@ <==> theme == ThemeSetting::Light,
        theme_text(theme) == "Dark"@ <==> theme == ThemeSetting::Dark,
        mode_text(mode) == "Native windows"@ <==> mode == WindowMode::Native,
        mode_text(mode) == "Floating (single window)"@ <==> mode == WindowMode::Floating,
{
    reveal_strlit("System");
    reveal_strlit("Light");
    reveal_strlit("Dark");
    reveal_strlit("Native windows");
    reveal_strlit("Floating (single window)");
    assert("System"@.len() == 6 && "Light"@.len() == 5 && "Dark"@.len() == 4);
    assert("Native windows"@.len() == 14 && "Floating (single window)"@.len() == 24);
}

} // verus!
