//! User settings of a workspace.
use crate::data::ai::provider::{ProviderConfig, ProviderKind};
use crate::data::paths::{join_path, joined_path};
use crate::text::{trim, trimmed};
use vstd::prelude::*;

verus! {

/// Version of the settings file that is written.
pub const SETTINGS_VERSION: u32 = 1;

/// Default font size of the preview, 16 points, as the bit pattern of a
/// single-precision number.
pub const DEFAULT_PREVIEW_FONT_SIZE: u32 = 0x4180_0000;

/// Default height cap of formulas, 1.15 lines, as the bit pattern of a
/// single-precision number.
pub const DEFAULT_MATH_CAP_SCALE: u32 = 0x3f93_3333;

/// The color theme.
#[derive(Clone, Copy, Debug, PartialEq, Eq, Structural)]
pub enum ThemeSetting {
    /// The theme of the operating system.
    System,
    Light,
    Dark,
}

impl Default for ThemeSetting {
    fn default() -> (r: Self)
        ensures
            r == ThemeSetting::System,
    {
        ThemeSetting::System
    }
}

/// How snippets and folders are presented.
#[derive(Clone, Copy, Debug, PartialEq, Eq, Structural)]
pub enum WindowMode {
    /// Each in a window of the operating system.
    Native,
    /// As windows that float inside the main window.
    Floating,
}

impl Default for WindowMode {
    fn default() -> (r: Self)
        ensures
            r == WindowMode::Native,
    {
        WindowMode::Native
    }
}

/// The settings.
#[derive(Debug, PartialEq, Eq)]
pub struct Settings {
    pub version: u32,
    pub theme: ThemeSetting,
    /// Font size of the preview in points, as the bit pattern of a
    /// single-precision number.
    pub preview_font_size: u32,
    /// Height cap of formulas in lines of text, as the bit pattern of a
    /// single-precision number.
    pub math_cap_scale: u32,
    /// Dragged cards snap to the grid.
    pub snap_to_grid: bool,
    /// The grid is drawn.
    pub show_grid: bool,
    pub window_mode: WindowMode,
    /// Models may be asked. Off by default: no request is made then.
    pub ai_enabled: bool,
    pub ai_provider: ProviderKind,
    /// The model, as the user wrote it.
    pub ai_model: String,
    /// An endpoint in place of the default one, or blank.
    pub ai_base_url: String,
    /// The key, or blank.
    pub ai_api_key: String,
    /// The model may call tools.
    pub ai_tools_enabled: bool,
    /// A model for small tasks, or blank for the main model.
    pub summarizer_model: String,
}

/// The trimmed text, or nothing if it is blank.
pub open spec fn trimmed_unless_blank(text: Seq<char>) -> Option<Seq<char>> {
    if trimmed(text).len() == 0 {
        None
    } else {
        Some(trimmed(text))
    }
}

/// The optional text is the trimmed text, or missing if that is blank.
pub open spec fn is_trimmed(value: Option<String>, text: Seq<char>) -> bool {
    match value {
        Some(v) => trimmed_unless_blank(text) == Some(v@),
        None => trimmed_unless_blank(text) is None,
    }
}

fn trim_or_none(text: &str) -> (r: Option<String>)
    ensures
        is_trimmed(r, text@),
{
    let t = trim(text);
    if t.as_str().is_empty() {
        None
    } else {
        Some(t)
    }
}

impl Settings {
    /// The settings of a new workspace.
    pub open spec fn are_default(&self) -> bool {
        &&& self.version == SETTINGS_VERSION
        &&& self.theme == ThemeSetting::System
        &&& self.preview_font_size == DEFAULT_PREVIEW_FONT_SIZE
        &&& self.math_cap_scale == DEFAULT_MATH_CAP_SCALE
        &&& self.snap_to_grid
        &&& self.show_grid
        &&& self.window_mode == WindowMode::Native
        &&& !self.ai_enabled
        &&& self.ai_provider == ProviderKind::Fake
        &&& self.ai_model@ == "gpt-4o-mini"@
        &&& self.ai_base_url@ == ""@
        &&& self.ai_api_key@ == ""@
        &&& self.ai_tools_enabled
        &&& self.summarizer_model@ == ""@
    }

    /// The configuration of the provider for conversations. A blank endpoint or
    /// key is left out.
    pub fn ai_provider_config(&self) -> (r: ProviderConfig)
        ensures
            r.kind == self.ai_provider,
            r.model@ == self.ai_model@,
            is_trimmed(r.base_url, self.ai_base_url@),
            is_trimmed(r.api_key, self.ai_api_key@),
    {
        ProviderConfig {
            kind: self.ai_provider,
            model: self.ai_model.clone(),
            base_url: trim_or_none(&self.ai_base_url),
            api_key: trim_or_none(&self.ai_api_key),
        }
    }

    /// The configuration of the provider for small tasks: that for conversations,
    /// with another model if one is named.
    pub fn summarizer_provider_config(&self) -> (r: ProviderConfig)
        ensures
            r.kind == self.ai_provider,
            r.model@ == match trimmed_unless_blank(self.summarizer_model@) {
                Some(model) => model,
                None => self.ai_model@,
            },
            is_trimmed(r.base_url, self.ai_base_url@),
            is_trimmed(r.api_key, self.ai_api_key@),
    {
        let model = trim(&self.summarizer_model);
        if model.as_str().is_empty() {
            return self.ai_provider_config();
        }
        ProviderConfig {
            kind: self.ai_provider,
            model,
            base_url: trim_or_none(&self.ai_base_url),
            api_key: trim_or_none(&self.ai_api_key),
        }
    }
}

impl Default for Settings {
    fn default() -> (r: Self)
        ensures
            r.are_default(),
    {
        Settings {
            version: SETTINGS_VERSION,
            theme: ThemeSetting::default(),
            preview_font_size: DEFAULT_PREVIEW_FONT_SIZE,
            math_cap_scale: DEFAULT_MATH_CAP_SCALE,
            snap_to_grid: true,
            show_grid: true,
            window_mode: WindowMode::default(),
            ai_enabled: false,
            ai_provider: ProviderKind::Fake,
            ai_model: "gpt-4o-mini".to_owned(),
            ai_base_url: "".to_owned(),
            ai_api_key: "".to_owned(),
            ai_tools_enabled: true,
            summarizer_model: "".to_owned(),
        }
    }
}

/// Where the settings of a workspace are kept.
#[derive(Debug)]
pub struct SettingsStore {
    path: String,
}

impl SettingsStore {
    /// The path of the settings file.
    pub closed spec fn path_text(&self) -> Seq<char> {
        self.path@
    }

    /// The store of the workspace at `root`.
    pub fn open(root: &str) -> (r: Self)
        ensures
            r.path_text() == joined_path(root@, ".floatdea/settings.json"@),
    {
        SettingsStore { path: join_path(root, ".floatdea/settings.json") }
    }

    /// The path of the settings file.
    pub fn path(&self) -> (r: &str)
        ensures
            r@ == self.path_text(),
    {
        self.path.as_str()
    }

    /// The settings to work with. `stored` is what the settings file holds; a
    /// missing or damaged file holds none.
    pub fn load(&self, stored: Option<Settings>) -> (r: Settings)
        ensures
            match stored {
                Some(settings) => r == settings,
                None => r.are_default(),
            },
    {
        match stored {
            Some(settings) => settings,
            None => Settings::default(),
        }
    }

    /// The path to write the settings to.
    pub fn save(&self) -> (r: String)
        ensures
            r@ == self.path_text(),
    {
        self.path.clone()
    }
}

/// A setting that may be left out is what was typed, without the white space around it,
/// and is left out exactly if that is blank.
pub proof fn blank_settings_are_left_out(text: Seq<char>)
    ensures
        trimmed_unless_blank(text) is None <==> trimmed(text).len() == 0,
        trimmed_unless_blank(text) matches Some(t) ==> t == trimmed(text),
{
}

} // verus!
