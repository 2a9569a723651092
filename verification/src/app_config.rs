//! The persisted editor configuration, as plain data: the theme
//! settings and the path of the file they were loaded from. Reading
//! and writing `config.json` is the caller's concern.

use crate::treesitter_backend::theme::LanguageTheme;
use vstd::prelude::*;

verus! {

#[derive(Debug)]
pub struct LastSection;

/// The editor chrome's own theme.
#[derive(Debug)]
pub struct EditorTheme {
    pub background: String,
}

impl Default for EditorTheme {
    fn default() -> (r: EditorTheme)
        ensures
            r.background@ == Seq::<char>::empty(),
    {
        EditorTheme { background: String::new() }
    }
}

/// The two halves of the theme configuration: language colours and the
/// editor chrome.
#[derive(Debug)]
pub struct ThemeConfig {
    pub language: LanguageTheme,
    pub editor: EditorTheme,
}

impl Default for ThemeConfig {
    fn default() -> (r: ThemeConfig)
        ensures
            r.language.javascript is None,
            r.language.rust is None,
            r.editor.background@ == Seq::<char>::empty(),
    {
        ThemeConfig { language: LanguageTheme::default(), editor: EditorTheme::default() }
    }
}

impl ThemeConfig {
    pub fn language_theme(&self) -> (r: &LanguageTheme)
        ensures
            r == self.language,
    {
        &self.language
    }

    pub fn editor_theme(&self) -> (r: &EditorTheme)
        ensures
            r == self.editor,
    {
        &self.editor
    }
}

/// The loaded configuration and where it came from.
#[derive(Debug)]
pub struct EditorConfig {
    pub theme: ThemeConfig,
    pub config_path: String,
}

impl EditorConfig {
    /// A default configuration bound to the given path.
    pub fn new(path: String) -> (r: EditorConfig)
        ensures
            r.config_path == path,
            r.theme.language.javascript is None,
            r.theme.language.rust is None,
            r.theme.editor.background@ == Seq::<char>::empty(),
    {
        EditorConfig { config_path: path, theme: ThemeConfig::default() }
    }

    pub fn theme(&self) -> (r: &ThemeConfig)
        ensures
            r == self.theme,
    {
        &self.theme
    }
}

} // verus!
