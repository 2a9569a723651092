use branchy_text_editor::app_config::{EditorConfig, EditorTheme, ThemeConfig};
use branchy_text_editor::treesitter_backend::theme::{Basic, Javascript, LanguageTheme, Rust, Theme};

#[test]
fn default_theme_rules() {
    let basic = Theme::<Basic>::default();
    assert_eq!(basic.rules.len(), 8);
    assert_eq!(basic.rules[0].token, "keyword");
    assert_eq!(basic.rules[0].foreground, "#DD91FA");
    assert_eq!(basic.rules[7].token, "class");
    assert_eq!(basic.rules[7].foreground, "#D1B9FF");

    let js = Theme::<Javascript>::default();
    assert_eq!(js.rules.len(), 9);
    assert_eq!(js.rules[8].token, "local");
    assert_eq!(js.rules[8].foreground, "#aaaaaa");

    let rust = Theme::<Rust>::default();
    assert_eq!(rust.rules.len(), 10);
    assert_eq!(rust.rules[8].token, "macro");
    assert_eq!(rust.rules[9].token, "struct");
    assert_eq!(rust.rules[9].foreground, "#5DC9B3");
}

#[test]
fn set_default_fills_known_languages() {
    let mut theme = LanguageTheme::default();
    assert!(theme.javascript.is_none());
    assert!(theme.rust.is_none());
    theme.set_default("javascript".to_string());
    assert!(theme.javascript.is_some());
    assert!(theme.rust.is_none());
    theme.set_default("rust".to_string());
    assert!(theme.rust.is_some());
    theme.set_default("python".to_string());
    assert!(theme.python.is_none());
}

#[test]
fn editor_config_defaults() {
    let config = EditorConfig::new("data/config.json".to_string());
    assert_eq!(config.config_path, "data/config.json");
    assert_eq!(config.theme().editor_theme().background, "");
    assert!(config.theme().language_theme().ruby.is_none());

    let theme_config = ThemeConfig::default();
    assert_eq!(theme_config.editor.background, "");

    let editor_theme = EditorTheme::default();
    assert_eq!(editor_theme.background, "");
}
