//! Application settings: the theme, the AI writing provider with its endpoint
//! and model, the translation and voice service keys, and collaboration.

use vstd::prelude::*;

verus! {

/// Theme preset selection.
#[derive(Debug, Clone, Copy, PartialEq, Eq, Structural)]
pub enum ThemePreset {
    Dark,
    Light,
    Custom,
}

pub open spec fn preset_label(p: ThemePreset) -> Seq<char> {
    match p {
        ThemePreset::Dark => "Dark"@,
        ThemePreset::Light => "Light"@,
        ThemePreset::Custom => "Custom"@,
    }
}

pub open spec fn preset_next(p: ThemePreset) -> ThemePreset {
    match p {
        ThemePreset::Dark => ThemePreset::Light,
        ThemePreset::Light => ThemePreset::Custom,
        ThemePreset::Custom => ThemePreset::Dark,
    }
}

impl ThemePreset {
    /// The name shown for the preset.
    pub fn label(self) -> (r: &'static str)
        ensures
            r@ == preset_label(self),
    {
        match self {
            ThemePreset::Dark => "Dark",
            ThemePreset::Light => "Light",
            ThemePreset::Custom => "Custom",
        }
    }

    /// The next preset in the cycle Dark, Light, Custom.
    pub fn next(self) -> (r: ThemePreset)
        ensures
            r == preset_next(self),
    {
        match self {
            ThemePreset::Dark => ThemePreset::Light,
            ThemePreset::Light => ThemePreset::Custom,
            ThemePreset::Custom => ThemePreset::Dark,
        }
    }
}

impl Default for ThemePreset {
    fn default() -> (r: ThemePreset)
        ensures
            r == ThemePreset::Dark,
    {
        ThemePreset::Dark
    }
}

/// Cycling through the presets comes back to the start after three steps,
/// and never earlier.
pub proof fn law_preset_cycle(p: ThemePreset)
    ensures
        preset_next(preset_next(preset_next(p))) == p,
        preset_next(p) != p,
        preset_next(preset_next(p)) != p,
{
}

/// User-configurable theme settings.
#[derive(Debug, Clone)]
pub struct ThemeConfig {
    pub preset: ThemePreset,
    pub font_size: u16,
    pub accent_color: [u8; 3],
}

/// The font size used when none is configured.
pub fn default_font_size() -> (r: u16)
    ensures
        r == 14,
{
    14
}

/// The accent color used when none is configured.
pub fn default_accent_color() -> (r: [u8; 3])
    ensures
        r@ == seq![100u8, 160u8, 255u8],
{
    [100, 160, 255]
}

impl Default for ThemeConfig {
    fn default() -> (r: ThemeConfig)
        ensures
            r.preset == ThemePreset::Dark,
            r.font_size == 14,
            r.accent_color@ == seq![100u8, 160u8, 255u8],
    {
        ThemeConfig { preset: ThemePreset::Dark, font_size: default_font_size(), accent_color: default_accent_color() }
    }
}

/// The service the AI writing assistant talks to.
#[derive(Debug, Clone, Copy, PartialEq, Eq, Structural)]
pub enum AIProvider {
    OpenAI,
    Anthropic,
    Gemini,
}

pub open spec fn provider_label(p: AIProvider) -> Seq<char> {
    match p {
        AIProvider::OpenAI => "OpenAI"@,
        AIProvider::Anthropic => "Anthropic"@,
        AIProvider::Gemini => "Gemini"@,
    }
}

impl AIProvider {
    /// The name shown for the provider.
    pub fn label(self) -> (r: &'static str)
        ensures
            r@ == provider_label(self),
    {
        match self {
            AIProvider::OpenAI => "OpenAI",
            AIProvider::Anthropic => "Anthropic",
            AIProvider::Gemini => "Gemini",
        }
    }
}

impl Default for AIProvider {
    fn default() -> (r: AIProvider)
        ensures
            r == AIProvider::OpenAI,
    {
        AIProvider::OpenAI
    }
}

/// The endpoint of the OpenAI-compatible API.
pub fn default_ai_base_url() -> (r: String)
    ensures
        r@ == "https://api.openai.com/v1"@,
{
    crate::text::owned("https://api.openai.com/v1")
}

/// The model used with the OpenAI-compatible API.
pub fn default_ai_model() -> (r: String)
    ensures
        r@ == "gpt-4o"@,
{
    crate::text::owned("gpt-4o")
}

/// The OpenAI-compatible endpoint of Gemini.
pub fn default_gemini_base_url() -> (r: String)
    ensures
        r@ == "https://generativelanguage.googleapis.com/v1beta/openai"@,
{
    crate::text::owned("https://generativelanguage.googleapis.com/v1beta/openai")
}

/// The model used with Gemini.
pub fn default_gemini_model() -> (r: String)
    ensures
        r@ == "gemini-2.0-flash"@,
{
    crate::text::owned("gemini-2.0-flash")
}

/// The port a collaboration session is hosted on by default.
pub fn default_collab_port() -> (r: u16)
    ensures
        r == 9847,
{
    9847
}

/// Persistent application settings.
#[derive(Debug, Clone)]
pub struct AppSettings {
    pub deepl_api_key: Option<String>,
    pub deepl_use_pro: bool,
    pub elevenlabs_api_key: Option<String>,
    pub collab_username: String,
    pub collab_default_port: u16,
    pub theme: ThemeConfig,
    pub ai_provider: AIProvider,
    pub ai_api_key: Option<String>,
    pub ai_base_url: String,
    pub ai_model: String,
}

/// The default settings for a user name: no service keys, the default port,
/// theme and OpenAI endpoint and model.
pub open spec fn is_default_for(s: AppSettings, user: Seq<char>) -> bool {
    &&& s.deepl_api_key is None
    &&& !s.deepl_use_pro
    &&& s.elevenlabs_api_key is None
    &&& s.collab_username@ == user
    &&& s.collab_default_port == 9847
    &&& s.theme.preset == ThemePreset::Dark
    &&& s.theme.font_size == 14
    &&& s.theme.accent_color@ == seq![100u8, 160u8, 255u8]
    &&& s.ai_provider == AIProvider::OpenAI
    &&& s.ai_api_key is None
    &&& s.ai_base_url@ == "https://api.openai.com/v1"@
    &&& s.ai_model@ == "gpt-4o"@
}

impl AppSettings {
    /// The default settings of the user `name`.
    pub fn for_user(name: String) -> (s: AppSettings)
        ensures
            is_default_for(s, name@),
    {
        AppSettings {
            deepl_api_key: None,
            deepl_use_pro: false,
            elevenlabs_api_key: None,
            collab_username: name,
            collab_default_port: default_collab_port(),
            theme: ThemeConfig::default(),
            ai_provider: AIProvider::OpenAI,
            ai_api_key: None,
            ai_base_url: default_ai_base_url(),
            ai_model: default_ai_model(),
        }
    }

    /// Sets the endpoint and model that go with the provider now selected,
    /// after the user switched providers: the OpenAI defaults, no endpoint
    /// (the model is kept) for Anthropic, or the Gemini defaults. Returns whether the
    /// provider changed, in which case the caller refreshes the model list.
    pub fn provider_selected(&mut self, previous: AIProvider) -> (changed: bool)
        ensures
            changed == (old(self).ai_provider != previous),
            !changed ==> *final(self) == *old(self),
            changed ==> final(self).ai_provider == old(self).ai_provider,
            changed && old(self).ai_provider == AIProvider::OpenAI ==> final(self).ai_base_url@ == "https://api.openai.com/v1"@
                && final(self).ai_model@ == "gpt-4o"@,
            changed && old(self).ai_provider == AIProvider::Anthropic ==> final(self).ai_base_url@ == Seq::<char>::empty()
                && final(self).ai_model == old(self).ai_model,
            changed && old(self).ai_provider == AIProvider::Gemini
                ==> final(self).ai_base_url@ == "https://generativelanguage.googleapis.com/v1beta/openai"@
                && final(self).ai_model@ == "gemini-2.0-flash"@,
            final(self).deepl_api_key == old(self).deepl_api_key,
            final(self).deepl_use_pro == old(self).deepl_use_pro,
            final(self).elevenlabs_api_key == old(self).elevenlabs_api_key,
            final(self).collab_username == old(self).collab_username,
            final(self).collab_default_port == old(self).collab_default_port,
            final(self).theme == old(self).theme,
            final(self).ai_api_key == old(self).ai_api_key,
    {
        if self.ai_provider == previous {
            return false;
        }
        match self.ai_provider {
            AIProvider::OpenAI => {
                self.ai_base_url = default_ai_base_url();
                self.ai_model = default_ai_model();
            },
            AIProvider::Anthropic => {
                self.ai_base_url = String::new();
            },
            AIProvider::Gemini => {
                self.ai_base_url = default_gemini_base_url();
                self.ai_model = default_gemini_model();
            },
        }
        true
    }
}

impl Default for AppSettings {
    /// The default settings, for a user named "User" (the application puts
    /// the login name in their place).
    fn default() -> (s: AppSettings)
        ensures
            is_default_for(s, "User"@),
    {
        AppSettings::for_user(crate::text::owned("User"))
    }
}

/// Action requested by the settings window.
pub enum SettingsAction {
    FetchModels,
    ProviderChanged,
}

/// Current collaboration mode.
#[derive(Debug, Clone, Copy, PartialEq, Eq, Structural)]
pub enum CollabMode {
    Offline,
    Hosting,
    Joined,
}

impl Default for CollabMode {
    fn default() -> (r: CollabMode)
        ensures
            r == CollabMode::Offline,
    {
        CollabMode::Offline
    }
}

/// A voice offered by the speech service.
pub struct VoiceInfo {
    pub voice_id: String,
    pub name: String,
    pub category: String,
}

} // verus!
