//! The read-only commands: theme configuration, token legends and the
//! list of supported languages.

use crate::app_config::{EditorConfig, EditorTheme};
use crate::error::{Error, NotFoundError};
use crate::language::{spec_lang_name, Lang};
use crate::treesitter_backend::parser::ParserHelper;
use crate::treesitter_backend::query::{QueryManager, SemanticLegend};
use crate::treesitter_backend::theme::LanguageTheme;
use vstd::prelude::*;

verus! {

/// The language-theme half of the loaded configuration.
pub fn get_current_language_theme(editor_config: &EditorConfig) -> (r: &LanguageTheme)
    ensures
        r == editor_config.theme.language,
{
    editor_config.theme().language_theme()
}

/// Both halves of the loaded configuration.
pub fn get_editor_config(editor_config: &EditorConfig) -> (r: (&LanguageTheme, &EditorTheme))
    ensures
        r.0 == editor_config.theme.language,
        r.1 == editor_config.theme.editor,
{
    let theme = editor_config.theme();
    (theme.language_theme(), theme.editor_theme())
}

/// The modified legend of a language: the token-type and modifier
/// vocabulary the front-end decodes the stream with.
pub fn get_tokens_legend(query_iter: &QueryManager, lang: Lang) -> (r: Result<
    SemanticLegend,
    Error,
>)
    ensures
        !query_iter.spec_has_query(lang) ==> (r matches Err(e) && e matches Error::NotFoundError(
            ne,
        ) && ne matches NotFoundError::QueryNotFoundError(s) && s@ == spec_lang_name(lang)),
        query_iter.spec_entry(lang) matches Some(qd) ==> (r matches Ok(l) && l.types()
            == qd.modified_legend.types() && l.modifiers() == qd.modified_legend.modifiers()),
{
    match query_iter.get_legend(&lang) {
        Ok(l) => Ok(l),
        Err(e) => Err(Error::NotFoundError(e)),
    }
}

/// The language tags that have a pooled parser.
pub fn get_currently_supported_language(parser_helper: &ParserHelper) -> (r: Vec<Lang>)
    ensures
        r@ == parser_helper.spec_langs(),
{
    parser_helper.currently_supported_language()
}

} // verus!
