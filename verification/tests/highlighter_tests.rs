use branchy_text_editor::files_api::FileManager;
use branchy_text_editor::treesitter_backend::highlighter::{Highlights, MonacoHighlights};
use branchy_text_editor::treesitter_backend::parser::ParserHelper;
use branchy_text_editor::treesitter_backend::highlighter::HighlightIter;
use branchy_text_editor::treesitter_backend::query::{
    derive_modified_legend, QueryManager, RangePoint, SemanticLegend, Token,
};

const MAIN_JS: &[u8] = b"function main() { for (let i = 0; i < 10; i++) {} } main();";

fn token(token_type: u32, length: u32, row: u32, col: u32) -> Token {
    Token {
        token_type,
        modifier: 0,
        length,
        range: RangePoint(row, col, row, col + length),
    }
}

#[test]
fn see_the_node_children() {
    let mut parser_helper = ParserHelper::default();
    let mut file_manager = FileManager::new();
    let query_iter = QueryManager::default();
    let id = file_manager
        .load_file("../../test_home/test.js".to_string())
        .unwrap();
    let source_code = MAIN_JS.to_vec();
    let file_language = file_manager.get_file_language(&id.0).unwrap();
    parser_helper.append_tree(&id.0, file_language).unwrap();
    file_manager
        .update_source_code_for_file(&id.0, &source_code)
        .unwrap();
    parser_helper.update_tree(&id.0, None).unwrap();
    parser_helper
        .parse(&id.0, &file_language.unwrap(), &source_code)
        .unwrap();
    let tokens = query_iter
        .iter_query(
            &parser_helper.get_tree(&id.0).unwrap(),
            &file_language.unwrap(),
            &source_code,
        )
        .unwrap();

    let mut token_data = query_iter
        .sort_layer(tokens, &file_language.unwrap())
        .unwrap();

    let highlights = token_data.analyse_layer();

    let result = MonacoHighlights::emit(&highlights);
    assert_eq!(result.len() % 5, 0);
    assert!(!result.is_empty());
}

#[test]
fn emit_delta_encoding_exact() {
    // three tokens over two rows: the first is absolute, the second
    // relative on the same row, the third restarts its column count
    let highlights = Highlights(vec![
        token(2, 3, 0, 1),
        token(4, 2, 0, 6),
        token(1, 5, 2, 4),
    ]);
    let data = MonacoHighlights::emit(&highlights);
    assert_eq!(
        data,
        vec![
            0, 1, 3, 2, 0, // row 0, col 1
            0, 5, 2, 4, 0, // same row, col 6 - 1
            2, 4, 5, 1, 0, // two rows down, absolute col
        ]
    );
}

#[test]
fn emit_sorts_by_position() {
    // tokens arrive in capture order; the stream is emitted in
    // position order
    let highlights = Highlights(vec![token(1, 2, 3, 0), token(2, 2, 1, 0)]);
    let data = MonacoHighlights::emit(&highlights);
    assert_eq!(data, vec![1, 0, 2, 2, 0, 2, 0, 2, 1, 0]);
}

#[test]
fn emit_drops_repeated_ranges() {
    // a later capture of the very same range is redundant: only the
    // first survives
    let first = token(1, 4, 0, 0);
    let duplicate = Token { token_type: 9, ..first };
    let highlights = Highlights(vec![first, duplicate, token(2, 1, 0, 6)]);
    let data = MonacoHighlights::emit(&highlights);
    assert_eq!(data, vec![0, 0, 4, 1, 0, 0, 6, 1, 2, 0]);
}

#[test]
fn emit_empty() {
    let data = MonacoHighlights::emit(&Highlights(Vec::new()));
    assert!(data.is_empty());
}

#[test]
fn analyse_layer_resolves_locals() {
    // names: 0 variable, 1 local.scope, 2 local.definition, 3 local.reference
    let names: Vec<String> = ["variable", "local.scope", "local.definition", "local.reference"]
        .iter()
        .map(|s| s.to_string())
        .collect();
    let modified = derive_modified_legend(&names);
    let unmodified = SemanticLegend::create(names);

    // a scope spans rows 0..4; inside it one variable matches a
    // definition and another matches nothing
    let scope = Token { token_type: 1, modifier: 0, length: 40, range: RangePoint(0, 0, 4, 0) };
    let inside_defined = token(0, 3, 1, 2);
    let definition = Token { token_type: 2, ..inside_defined };
    let inside_plain = token(0, 3, 2, 2);
    let outside = token(0, 3, 7, 0);

    let mut iter = HighlightIter::new(
        vec![inside_defined, inside_plain, outside],
        vec![scope],
        vec![definition],
        Vec::new(),
        unmodified,
        modified,
    );
    let highlights = iter.analyse_layer();
    let data = MonacoHighlights::emit(&highlights);
    // modified legend: types [variable, local], modifiers [scope, definition, reference]
    assert_eq!(
        data,
        vec![
            1, 2, 3, 1, 1, // the defined variable became local.definition
            1, 2, 3, 0, 0, // the plain variable kept its class
            5, 0, 3, 0, 0, // outside any scope: untouched
        ]
    );
}

#[test]
fn highlight_getters() {
    let names: Vec<String> = vec!["variable".to_string()];
    let modified = derive_modified_legend(&names);
    let unmodified = SemanticLegend::create(names);
    let t = token(0, 1, 0, 0);
    let iter = HighlightIter::new(
        vec![t],
        Vec::new(),
        Vec::new(),
        Vec::new(),
        unmodified,
        modified,
    );
    assert_eq!(iter.get_highlights_data().len(), 1);
    assert!(iter.get_scopes_data().is_empty());
    assert_eq!(iter.get_unmodified_legend().get_token_types(), vec!["variable".to_string()]);
    assert_eq!(iter.get_modified_legend().get_token_types(), vec!["variable".to_string()]);
    assert!(iter.check_whether_in_scope(RangePoint(1, 0, 1, 5)).is_none());
    assert_eq!(iter.remaping(0), (0, 0));
}

#[test]
fn range_point_accessors() {
    let r = RangePoint(1, 2, 3, 4);
    assert_eq!(r.start_row(), 1);
    assert_eq!(r.start_col(), 2);
    assert_eq!(r.end_row(), 3);
    assert_eq!(r.end_col(), 4);
    // strict row containment
    assert!(RangePoint(0, 0, 4, 0).within(RangePoint(1, 0, 3, 0)));
    assert!(!RangePoint(1, 0, 3, 0).within(RangePoint(1, 0, 3, 0)));
}

#[test]
fn token_remap_writes_pair() {
    let mut t = token(3, 2, 0, 0);
    t.remap_token_n_modifier((7, 9));
    assert_eq!(t.token_type(), 7);
    assert_eq!(t.modifier(), 9);
    assert_eq!(t.length(), 2);
}
