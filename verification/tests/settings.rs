use talenode::settings::{AIProvider, AppSettings, CollabMode, ThemeConfig, ThemePreset};

#[test]
fn default_settings() {
    let s = AppSettings::default();
    assert!(s.deepl_api_key.is_none());
    assert!(!s.deepl_use_pro);
    assert!(s.elevenlabs_api_key.is_none());
    assert_eq!(s.collab_default_port, 9847);
    assert_eq!(s.ai_provider, AIProvider::OpenAI);
    assert!(s.ai_api_key.is_none());
    assert_eq!(s.ai_base_url, "https://api.openai.com/v1");
    assert_eq!(s.ai_model, "gpt-4o");
}

#[test]
fn theme_config_default() {
    let config = ThemeConfig::default();
    assert_eq!(config.preset, ThemePreset::Dark);
    assert_eq!(config.font_size, 14);
    assert_eq!(config.accent_color, [100, 160, 255]);
}

#[test]
fn preset_cycle() {
    assert_eq!(ThemePreset::Dark.next(), ThemePreset::Light);
    assert_eq!(ThemePreset::Light.next(), ThemePreset::Custom);
    assert_eq!(ThemePreset::Custom.next(), ThemePreset::Dark);
}

#[test]
fn default_mode_is_offline() {
    assert_eq!(CollabMode::default(), CollabMode::Offline);
}
