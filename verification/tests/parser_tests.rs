use branchy_text_editor::files_api::FileManager;
use branchy_text_editor::treesitter_backend::parser::{ChangesRange, CustomPoint, ParserHelper};
use branchy_text_editor::language::Lang;

const MAIN_JS: &[u8] = b"function main() { for (let i = 0; i < 10; i++) {} } main();";

const MAIN_JS_SEXP: &str = "(program (function_declaration name: (identifier) parameters: (formal_parameters) body: (statement_block (for_statement initializer: (lexical_declaration (variable_declarator name: (identifier) value: (number))) condition: (expression_statement (binary_expression left: (identifier) right: (number))) increment: (update_expression argument: (identifier)) body: (statement_block)))) (expression_statement (call_expression function: (identifier) arguments: (arguments))))";

#[test]
fn check_parsing_a_tree() {
    let mut parser_helper = ParserHelper::default();
    let mut file_manager = FileManager::new();
    let id = file_manager
        .load_file("../../test_home/test.js".to_string())
        .unwrap();
    let source_code = MAIN_JS.to_vec();
    let file_language = file_manager.get_file_language(&id.0).unwrap();
    parser_helper.append_tree(&id.0, file_language).unwrap();
    file_manager
        .update_source_code_for_file(&id.0, &source_code)
        .unwrap();
    parser_helper.update_tree(&id.0, None).unwrap();
    parser_helper
        .parse(
            &id.0,
            &file_language.unwrap(),
            &file_manager.get_source_code_from_file(&id.0).unwrap(),
        )
        .unwrap();

    assert_eq!(parser_helper.get_tree_sexp(&id.0).unwrap(), MAIN_JS_SEXP);
}

#[test]
fn check_parsing_a_tree_with_changes() {
    let mut parser_helper = ParserHelper::default();
    let mut file_manager = FileManager::new();
    let id = file_manager
        .load_file("../../test_home/test.js".to_string())
        .unwrap();
    let source_code = MAIN_JS.to_vec();
    let file_language = file_manager.get_file_language(&id.0).unwrap();
    parser_helper.append_tree(&id.0, file_language).unwrap();
    file_manager
        .update_source_code_for_file(&id.0, &source_code)
        .unwrap();
    parser_helper.update_tree(&id.0, None).unwrap();
    parser_helper
        .parse(&id.0, &file_language.unwrap(), &source_code)
        .unwrap();
    let source_code = b"console.log(Hello World);".to_vec();

    let input_edit = Some(ChangesRange {
        start_byte: 8,
        old_end_byte: 8,
        new_end_byte: 14,
        start_position: CustomPoint::new(4, 0),
        old_end_position: CustomPoint::new(5, 8),
        new_end_position: CustomPoint::new(5, 14),
    });
    file_manager
        .update_source_code_for_file(&id.0, &source_code)
        .unwrap();
    parser_helper.update_tree(&id.0, input_edit).unwrap();
    parser_helper
        .parse(&id.0, &file_language.unwrap(), &source_code)
        .unwrap();
}

#[test]
fn incremental_reparse_matches_full_parse() {
    // parse the old buffer, patch the tree with the edit, reparse the
    // new buffer incrementally; a fresh parse of the new buffer must
    // yield the same tree shape
    let old_buffer = b"let x = 1;\n".to_vec();
    let new_buffer = b"let xy = 1;\n".to_vec();

    let mut incremental = ParserHelper::default();
    let mut fm = FileManager::new();
    let id = fm.load_file("edit.js".to_string()).unwrap().0;
    let lang = fm.get_file_language(&id).unwrap();
    incremental.append_tree(&id, lang).unwrap();
    incremental.parse(&id, &lang.unwrap(), &old_buffer).unwrap();
    let edit = Some(ChangesRange {
        start_byte: 5,
        old_end_byte: 5,
        new_end_byte: 6,
        start_position: CustomPoint::new(0, 5),
        old_end_position: CustomPoint::new(0, 5),
        new_end_position: CustomPoint::new(0, 6),
    });
    incremental.update_tree(&id, edit).unwrap();
    incremental.parse(&id, &lang.unwrap(), &new_buffer).unwrap();

    let mut fresh = ParserHelper::default();
    fresh.append_tree(&id, lang).unwrap();
    fresh.parse(&id, &lang.unwrap(), &new_buffer).unwrap();

    assert_eq!(
        incremental.get_tree_sexp(&id).unwrap(),
        fresh.get_tree_sexp(&id).unwrap()
    );
}

#[test]
fn tree_cache_slots() {
    let mut ph = ParserHelper::default();
    // unknown id: every tree operation reports the missing slot
    assert!(ph.get_tree(&7).is_err());
    assert!(ph.update_tree(&7, None).is_err());
    assert!(ph.parse(&7, &branchy_text_editor::language::Lang::Javascript, &b"1".to_vec()).is_err());
    // a slot appears once a language is attached, empty until parsed
    ph.append_tree(&7, Some(branchy_text_editor::language::Lang::Javascript))
        .unwrap();
    assert!(ph.get_tree(&7).unwrap().is_none());
    assert_eq!(ph.get_tree_sexp(&7).unwrap(), "None");
    ph.parse(&7, &branchy_text_editor::language::Lang::Javascript, &b"1;".to_vec())
        .unwrap();
    assert!(ph.get_tree(&7).unwrap().is_some());
    // no slot is made for a file without a language
    ph.append_tree(&8, None).unwrap();
    assert!(ph.get_tree(&8).is_err());
    ph.remove_tree(&7);
    assert!(ph.get_tree(&7).is_err());
}

#[test]
fn supported_languages() {
    let ph = ParserHelper::default();
    let langs = ph.currently_supported_language();
    assert_eq!(
        langs,
        vec![Lang::Javascript, Lang::Rust, Lang::Html, Lang::Json, Lang::Java]
    );
    assert!(ph.parser_exist(&Lang::Javascript));
    assert!(!ph.parser_exist(&Lang::Python));
}
