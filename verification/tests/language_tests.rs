use branchy_text_editor::language::Lang;

#[test]
fn extension_mapping_canonical_table() {
    assert_eq!(Lang::check_lang("java"), Some(Lang::Java));
    assert_eq!(Lang::check_lang("rs"), Some(Lang::Rust));
    assert_eq!(Lang::check_lang("ts"), Some(Lang::Typescript));
    assert_eq!(Lang::check_lang("tsx"), Some(Lang::Typescript));
    assert_eq!(Lang::check_lang("js"), Some(Lang::Javascript));
    assert_eq!(Lang::check_lang("jsx"), Some(Lang::Javascript));
    assert_eq!(Lang::check_lang("py"), Some(Lang::Python));
    assert_eq!(Lang::check_lang("rb"), Some(Lang::Ruby));
    assert_eq!(Lang::check_lang("htm"), Some(Lang::Html));
    assert_eq!(Lang::check_lang("html"), Some(Lang::Html));
    assert_eq!(Lang::check_lang("css"), Some(Lang::Css));
    assert_eq!(Lang::check_lang("scss"), Some(Lang::Css));
    assert_eq!(Lang::check_lang("sass"), Some(Lang::Css));
    assert_eq!(Lang::check_lang("json"), Some(Lang::Json));
}

#[test]
fn extension_mapping_rejects_unknown() {
    assert_eq!(Lang::check_lang(""), None);
    assert_eq!(Lang::check_lang("md"), None);
    assert_eq!(Lang::check_lang("xyz"), None);
    assert_eq!(Lang::check_lang("jsx "), None);
}

#[test]
fn extension_mapping_folds_case() {
    assert_eq!(Lang::check_lang("JS"), Some(Lang::Javascript));
    assert_eq!(Lang::check_lang("Rs"), Some(Lang::Rust));
    assert_eq!(Lang::check_lang("HTML"), Some(Lang::Html));
    assert_eq!(Lang::check_lang("Json"), Some(Lang::Json));
}

#[test]
fn language_names() {
    assert_eq!(Lang::Javascript.to_string(), "javascript");
    assert_eq!(Lang::Typescript.to_string(), "typescript");
    assert_eq!(Lang::Rust.to_string(), "rust");
    assert_eq!(Lang::Python.to_string(), "python");
    assert_eq!(Lang::Java.to_string(), "java");
    assert_eq!(Lang::Ruby.to_string(), "ruby");
    assert_eq!(Lang::Html.to_string(), "html");
    assert_eq!(Lang::Css.to_string(), "css");
    assert_eq!(Lang::Json.to_string(), "json");
}
