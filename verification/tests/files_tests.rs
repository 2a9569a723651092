use branchy_text_editor::error::Error;
use branchy_text_editor::files_api::FileManager;
use branchy_text_editor::language::Lang;

#[test]
fn load_and_close_conservation() {
    let mut fm = FileManager::new();
    let (id, same) = fm.load_file("src/app.js".to_string()).unwrap();
    assert!(!same);
    assert!(fm.file_exists(&id));
    fm.close_file(&id);
    assert!(!fm.file_exists(&id));
}

#[test]
fn same_name_detection() {
    let mut fm = FileManager::new();
    let (_, first) = fm.load_file("a/main.rs".to_string()).unwrap();
    assert!(!first);
    let (_, second) = fm.load_file("b/main.rs".to_string()).unwrap();
    assert!(second);
    let (_, third) = fm.load_file("c/other.rs".to_string()).unwrap();
    assert!(!third);
}

#[test]
fn close_unknown_id_is_silent() {
    // idempotent close: removing an id that is not open succeeds and
    // changes nothing
    let mut fm = FileManager::new();
    fm.close_file(&42);
    assert!(!fm.file_exists(&42));
}

#[test]
fn name_extension_language_derivation() {
    let mut fm = FileManager::new();
    let (id, _) = fm.load_file("dir/sub/archive.tar.gz".to_string()).unwrap();
    let (name, language, path) = fm.get_file_info(&id).unwrap();
    assert_eq!(name, "archive.tar.gz");
    assert_eq!(language, None);
    assert_eq!(path, "dir/sub/archive.tar.gz");
    assert_eq!(fm.get_file_extension(&id).unwrap(), "gz");

    let (id2, _) = fm.load_file("noextension".to_string()).unwrap();
    assert_eq!(fm.get_file_extension(&id2).unwrap(), "unknown");

    let (id3, _) = fm.load_file("dir/.gitignore".to_string()).unwrap();
    assert_eq!(fm.get_file_extension(&id3).unwrap(), "unknown");

    let (id4, _) = fm.load_file("x/mod.rs".to_string()).unwrap();
    assert_eq!(fm.get_file_language(&id4).unwrap(), Some(Lang::Rust));
}

#[test]
fn buffer_update_and_read() {
    let mut fm = FileManager::new();
    let (id, _) = fm.load_file("t.js".to_string()).unwrap();
    assert!(fm.get_source_code_from_file(&id).unwrap().is_empty());
    let bytes = b"let a = 1;".to_vec();
    fm.update_source_code_for_file(&id, &bytes).unwrap();
    assert_eq!(fm.get_source_code_from_file(&id).unwrap(), bytes);
    match fm.update_source_code_for_file(&99, &bytes) {
        Err(Error::NotFoundError(_)) => (),
        _ => panic!("expected a missing-file error"),
    }
}

#[test]
fn idempotent_save() {
    let mut fm = FileManager::new();
    let (id, _) = fm.load_file("save/me.js".to_string()).unwrap();
    fm.update_source_code_for_file(&id, &b"x".to_vec()).unwrap();
    let first = fm.save_file(&id).unwrap();
    let second = fm.save_file(&id).unwrap();
    assert_eq!(first.0, second.0);
    assert_eq!(first.1, second.1);
    assert_eq!(first.0, "save/me.js");
    assert_eq!(first.1, b"x".to_vec());
    // the table is untouched by saving
    assert!(fm.file_exists(&id));
    assert_eq!(fm.get_source_code_from_file(&id).unwrap(), b"x".to_vec());
}

#[test]
fn save_unknown_file_fails() {
    let fm = FileManager::new();
    match fm.save_file(&5) {
        Err(e) => assert_eq!(
            e.to_string(),
            "FileError : Could not save the file Could not be found. file id : 5"
        ),
        Ok(_) => panic!("expected an error"),
    }
}

#[test]
fn clear_empties_the_table() {
    let mut fm = FileManager::new();
    let (a, _) = fm.load_file("a.js".to_string()).unwrap();
    let (b, _) = fm.load_file("b.js".to_string()).unwrap();
    fm.clear();
    assert!(!fm.file_exists(&a));
    assert!(!fm.file_exists(&b));
}

#[test]
fn fresh_ids_are_distinct() {
    let mut fm = FileManager::new();
    let (a, _) = fm.load_file("one.js".to_string()).unwrap();
    let (b, _) = fm.load_file("two.js".to_string()).unwrap();
    assert_ne!(a, b);
}
