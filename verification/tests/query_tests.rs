use branchy_text_editor::files_api::FileManager;
use branchy_text_editor::treesitter_backend::parser::ParserHelper;
use branchy_text_editor::treesitter_backend::query::QueryManager;
use branchy_text_editor::language::Lang;
use branchy_text_editor::error::NotFoundError;
use branchy_text_editor::treesitter_backend::query::derive_modified_legend;

const MAIN_JS: &[u8] = b"function main() { for (let i = 0; i < 10; i++) {} } main();";

#[test]
fn test_query() {
    let mut parser_helper = ParserHelper::default();
    let mut file_manager = FileManager::new();
    let query_analyser = QueryManager::default();
    let id = file_manager
        .load_file("../../test_home/test.js".to_string())
        .unwrap();
    let source_code = MAIN_JS.to_vec();
    let file_language = file_manager.get_file_language(&id.0).unwrap();
    file_manager
        .update_source_code_for_file(&id.0, &source_code)
        .unwrap();
    parser_helper.append_tree(&id.0, file_language).unwrap();
    parser_helper.update_tree(&id.0, None).unwrap();
    parser_helper
        .parse(&id.0, &file_language.unwrap(), &source_code)
        .unwrap();
    let tokens = query_analyser
        .iter_query(
            &parser_helper.get_tree(&id.0).unwrap(),
            &file_language.unwrap(),
            &source_code,
        )
        .unwrap();
    assert!(!tokens.is_empty());

    let result = query_analyser.sort_layer(tokens, &file_language.unwrap());
    assert!(result.is_ok());
}

#[test]
fn legend_remap_totality() {
    // every head of an unmodified capture name appears among the
    // modified token types, and every differing tail among the
    // modifiers, for each compiled language
    let qm = QueryManager::default();
    for lang in [Lang::Javascript, Lang::Rust, Lang::Typescript, Lang::Html] {
        let unmodified = qm.get_unmodified_legend(&lang).unwrap();
        let modified = qm.get_legend(&lang).unwrap();
        let types = modified.get_token_types();
        let modifiers = modified.get_modifier();
        for name in unmodified.get_token_types() {
            let head = name.split('.').next().unwrap();
            let tail = name.split('.').last().unwrap();
            assert!(
                types.iter().any(|t| t == head),
                "head missing for {}",
                name
            );
            if head != tail {
                assert!(
                    modifiers.iter().any(|m| m == tail),
                    "tail missing for {}",
                    name
                );
            }
        }
    }
}

#[test]
fn missing_query_is_reported() {
    let qm = QueryManager::default();
    match qm.get_legend(&Lang::Python) {
        Err(NotFoundError::QueryNotFoundError(s)) => assert_eq!(s, "python"),
        _ => panic!("expected a missing-query error"),
    }
    match qm.iter_query(&None, &Lang::Ruby, &Vec::new()) {
        Err(NotFoundError::QueryNotFoundError(s)) => assert_eq!(s, "ruby"),
        _ => panic!("expected a missing-query error"),
    }
}

#[test]
fn html_query_carries_no_injection_captures() {
    // injection queries are not concatenated, so no capture of the
    // compiled HTML query is injection-classified
    let qm = QueryManager::default();
    let unmodified = qm.get_unmodified_legend(&Lang::Html).unwrap();
    for name in unmodified.get_token_types() {
        assert!(!name.starts_with("injection."), "unexpected capture {}", name);
    }
}

#[test]
fn iter_query_without_tree_is_empty() {
    let qm = QueryManager::default();
    let tokens = qm.iter_query(&None, &Lang::Javascript, &Vec::new()).unwrap();
    assert!(tokens.is_empty());
}

#[test]
fn modified_legend_derivation() {
    let names: Vec<String> = ["variable.builtin", "function", "variable", "local.scope"]
        .iter()
        .map(|s| s.to_string())
        .collect();
    let legend = derive_modified_legend(&names);
    assert_eq!(
        legend.get_token_types(),
        vec!["variable".to_string(), "function".to_string(), "local".to_string()]
    );
    assert_eq!(
        legend.get_modifier(),
        vec!["builtin".to_string(), "scope".to_string()]
    );
}
