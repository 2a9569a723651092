use branchy_text_editor::backend_api::file_data::{
    get_source_code_if_any, handle_file_changes, reset, set_highlights,
};
use branchy_text_editor::backend_api::file_system::{close_file, open_file};
use branchy_text_editor::error::Error;
use branchy_text_editor::files_api::FileManager;
use branchy_text_editor::language::Lang;
use branchy_text_editor::treesitter_backend::parser::{ChangesRange, CustomPoint, ParserHelper};
use branchy_text_editor::treesitter_backend::query::{QueryManager, RangePoint};
use branchy_text_editor::app_config::EditorConfig;
use branchy_text_editor::backend_api::editor_info::{
    get_current_language_theme, get_currently_supported_language, get_editor_config,
    get_tokens_legend,
};

const MAIN_JS: &str = "function main() { for (let i = 0; i < 10; i++) {} } main();";

struct Session {
    fm: FileManager,
    ph: ParserHelper,
    qm: QueryManager,
}

fn session() -> Session {
    Session { fm: FileManager::new(), ph: ParserHelper::default(), qm: QueryManager::default() }
}

#[test]
fn open_parses_and_highlights_javascript() {
    let mut s = session();
    let opened = open_file(&mut s.fm, "home/test.js".to_string()).unwrap();
    assert_eq!(opened.name, "test.js");
    assert_eq!(opened.language, Some(Lang::Javascript));
    assert!(!opened.same_name_exist);
    assert_eq!(opened.path, "home/test.js");

    let text = get_source_code_if_any(
        &mut s.fm,
        &mut s.ph,
        opened.id,
        MAIN_JS.as_bytes().to_vec(),
    )
    .unwrap();
    assert_eq!(text, MAIN_JS);

    let data = set_highlights(
        &s.fm,
        &s.ph,
        &s.qm,
        opened.id,
        MAIN_JS.to_string(),
        RangePoint(0, 0, 0, MAIN_JS.len() as u32),
    )
    .unwrap();
    assert_eq!(data.len() % 5, 0);
    assert!(!data.is_empty());
    // the first token starts on the first row
    assert_eq!(data[0], 0);
    // reconstructing the absolute positions yields a monotone sequence
    let mut row: u64 = 0;
    let mut col: u64 = 0;
    let mut positions = Vec::new();
    for chunk in data.chunks(5) {
        row += chunk[0] as u64;
        col = if chunk[0] == 0 { col + chunk[1] as u64 } else { chunk[1] as u64 };
        positions.push((row, col));
    }
    for pair in positions.windows(2) {
        assert!(pair[0] <= pair[1]);
    }
}

#[test]
fn open_close_drops_file_and_tree() {
    let mut s = session();
    let opened = open_file(&mut s.fm, "p/q.js".to_string()).unwrap();
    get_source_code_if_any(&mut s.fm, &mut s.ph, opened.id, b"1;".to_vec()).unwrap();
    assert!(s.fm.file_exists(&opened.id));
    assert!(s.ph.get_tree(&opened.id).is_ok());
    close_file(&mut s.fm, &mut s.ph, opened.id).unwrap();
    assert!(!s.fm.file_exists(&opened.id));
    assert!(s.ph.get_tree(&opened.id).is_err());
}

#[test]
fn change_then_highlight() {
    let mut s = session();
    let opened = open_file(&mut s.fm, "c/change.js".to_string()).unwrap();
    get_source_code_if_any(&mut s.fm, &mut s.ph, opened.id, b"let x = 1;\n".to_vec()).unwrap();
    let edit = Some(ChangesRange {
        start_byte: 5,
        old_end_byte: 5,
        new_end_byte: 6,
        start_position: CustomPoint::new(0, 5),
        old_end_position: CustomPoint::new(0, 5),
        new_end_position: CustomPoint::new(0, 6),
    });
    handle_file_changes(&mut s.fm, &mut s.ph, opened.id, "let xy = 1;\n".to_string(), edit)
        .unwrap();
    let data = set_highlights(
        &s.fm,
        &s.ph,
        &s.qm,
        opened.id,
        "let xy = 1;\n".to_string(),
        RangePoint(0, 0, 1, 0),
    )
    .unwrap();
    assert_eq!(data.len() % 5, 0);
    assert!(!data.is_empty());
}

#[test]
fn unsupported_language_passthrough() {
    let mut s = session();
    let opened = open_file(&mut s.fm, "docs/readme.md".to_string()).unwrap();
    assert_eq!(opened.language, None);
    assert!(!opened.same_name_exist);
    let text = get_source_code_if_any(&mut s.fm, &mut s.ph, opened.id, b"# title".to_vec())
        .unwrap();
    assert_eq!(text, "# title");
    match set_highlights(&s.fm, &s.ph, &s.qm, opened.id, "# title".to_string(), RangePoint(0, 0, 0, 7)) {
        Err(e) => assert_eq!(
            e.to_string(),
            "FileError : Language not supported for extension (md)"
        ),
        Ok(_) => panic!("expected the unsupported-language error"),
    }
}

#[test]
fn unknown_extension_passthrough() {
    let mut s = session();
    let opened = open_file(&mut s.fm, "a.xyz".to_string()).unwrap();
    assert_eq!(opened.language, None);
    assert!(!opened.same_name_exist);
    let text = get_source_code_if_any(&mut s.fm, &mut s.ph, opened.id, b"payload".to_vec())
        .unwrap();
    assert_eq!(text, "payload");
    match set_highlights(&s.fm, &s.ph, &s.qm, opened.id, "payload".to_string(), RangePoint(0, 0, 0, 7)) {
        Err(Error::FileError(fe)) => {
            assert_eq!(fe.to_string(), "Language not supported for extension (xyz)")
        },
        _ => panic!("expected the unsupported-language error"),
    }
}

#[test]
fn highlights_over_a_shorter_slice() {
    // the cached tree spans the whole buffer; a request over a prefix
    // slice, or even an empty one, must still answer with a
    // well-formed stream
    let mut s = session();
    let opened = open_file(&mut s.fm, "part/test.js".to_string()).unwrap();
    get_source_code_if_any(&mut s.fm, &mut s.ph, opened.id, MAIN_JS.as_bytes().to_vec())
        .unwrap();
    let prefix = &MAIN_JS[..13];
    let data = set_highlights(
        &s.fm,
        &s.ph,
        &s.qm,
        opened.id,
        prefix.to_string(),
        RangePoint(0, 0, 0, prefix.len() as u32),
    )
    .unwrap();
    assert_eq!(data.len() % 5, 0);
    let data = set_highlights(&s.fm, &s.ph, &s.qm, opened.id, String::new(), RangePoint(0, 0, 0, 0))
        .unwrap();
    assert_eq!(data.len() % 5, 0);
}

#[test]
fn highlights_of_unknown_file_are_empty() {
    let s = session();
    let data = set_highlights(&s.fm, &s.ph, &s.qm, 7, String::new(), RangePoint(0, 0, 0, 0))
        .unwrap();
    assert!(data.is_empty());
}

#[test]
fn reset_clears_state() {
    let mut s = session();
    let opened = open_file(&mut s.fm, "r/reset.js".to_string()).unwrap();
    get_source_code_if_any(&mut s.fm, &mut s.ph, opened.id, b"1;".to_vec()).unwrap();
    reset(&mut s.fm, &mut s.ph).unwrap();
    assert!(!s.fm.file_exists(&opened.id));
    assert!(s.ph.get_tree(&opened.id).is_err());
}

#[test]
fn invalid_utf8_buffer_is_reported() {
    let mut s = session();
    let opened = open_file(&mut s.fm, "bin/data.xyz".to_string()).unwrap();
    match get_source_code_if_any(&mut s.fm, &mut s.ph, opened.id, vec![0xff, 0xfe]) {
        Err(e) => {
            let msg = e.to_string();
            assert_eq!(
                msg,
                format!(
                    "FileError : The file contains non UTF-8 characters id : {}",
                    opened.id
                )
            );
        },
        Ok(_) => panic!("expected the invalid-utf8 error"),
    }
}

#[test]
fn tokens_legend_command() {
    let s = session();
    let legend = get_tokens_legend(&s.qm, Lang::Javascript).unwrap();
    assert!(!legend.get_token_types().is_empty());
    match get_tokens_legend(&s.qm, Lang::Css) {
        Err(e) => assert_eq!(e.to_string(), "NotFoundError : Query not found for language : css"),
        Ok(_) => panic!("expected a missing-query error"),
    }
    let langs = get_currently_supported_language(&s.ph);
    assert!(langs.contains(&Lang::Javascript));
}

#[test]
fn editor_config_commands() {
    let config = EditorConfig::new("conf/config.json".to_string());
    let theme = get_current_language_theme(&config);
    assert!(theme.javascript.is_none());
    assert_eq!(theme.default.rules.len(), 8);
    let (language_theme, editor_theme) = get_editor_config(&config);
    assert_eq!(language_theme.default.rules.len(), 8);
    assert_eq!(editor_theme.background, "");
}
