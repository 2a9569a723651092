//! The closed set of source languages the editor recognises, and the
//! mapping from a file extension to a language tag.

use crate::textutil::{lower_seq, str_eq_lower};
use vstd::prelude::*;

verus! {

#[derive(Debug, Clone, Copy, PartialEq, Eq, Structural, Hash)]
pub enum Lang {
    Javascript,
    Typescript,
    Rust,
    Python,
    Java,
    Ruby,
    Html,
    Css,
    Json,
}

/// The canonical extension table: which language tag, if any, an
/// extension maps to. The match folds ASCII case, so `JS` and `js`
/// name the same language.
pub open spec fn spec_check_lang(ext: Seq<char>) -> Option<Lang> {
    let low = lower_seq(ext);
    if low == "java"@ {
        Some(Lang::Java)
    } else if low == "rs"@ {
        Some(Lang::Rust)
    } else if low == "ts"@ || low == "tsx"@ {
        Some(Lang::Typescript)
    } else if low == "js"@ || low == "jsx"@ {
        Some(Lang::Javascript)
    } else if low == "py"@ {
        Some(Lang::Python)
    } else if low == "rb"@ {
        Some(Lang::Ruby)
    } else if low == "htm"@ || low == "html"@ {
        Some(Lang::Html)
    } else if low == "css"@ || low == "scss"@ || low == "sass"@ {
        Some(Lang::Css)
    } else if low == "json"@ {
        Some(Lang::Json)
    } else {
        None
    }
}

/// The lower-case name of a language tag.
pub open spec fn spec_lang_name(lang: Lang) -> Seq<char> {
    match lang {
        Lang::Javascript => "javascript"@,
        Lang::Typescript => "typescript"@,
        Lang::Rust => "rust"@,
        Lang::Python => "python"@,
        Lang::Java => "java"@,
        Lang::Ruby => "ruby"@,
        Lang::Html => "html"@,
        Lang::Css => "css"@,
        Lang::Json => "json"@,
    }
}

impl Lang {
    /// Maps a file extension onto a language tag following the canonical
    /// table, ignoring ASCII case; unknown extensions map to no
    /// language at all.
    pub fn check_lang(file_extension: &str) -> (r: Option<Lang>)
        ensures
            r == spec_check_lang(file_extension@),
    {
        if str_eq_lower(file_extension, "java") {
            Some(Lang::Java)
        } else if str_eq_lower(file_extension, "rs") {
            Some(Lang::Rust)
        } else if str_eq_lower(file_extension, "ts") || str_eq_lower(file_extension, "tsx") {
            Some(Lang::Typescript)
        } else if str_eq_lower(file_extension, "js") || str_eq_lower(file_extension, "jsx") {
            Some(Lang::Javascript)
        } else if str_eq_lower(file_extension, "py") {
            Some(Lang::Python)
        } else if str_eq_lower(file_extension, "rb") {
            Some(Lang::Ruby)
        } else if str_eq_lower(file_extension, "htm") || str_eq_lower(file_extension, "html") {
            Some(Lang::Html)
        } else if str_eq_lower(file_extension, "css") || str_eq_lower(file_extension, "scss") || str_eq_lower(file_extension,
            "sass",
        ) {
            Some(Lang::Css)
        } else if str_eq_lower(file_extension, "json") {
            Some(Lang::Json)
        } else {
            None
        }
    }

    /// The language's lower-case name, as shown to the front-end.
    pub fn to_string(&self) -> (r: String)
        ensures
            r@ == spec_lang_name(*self),
    {
        match self {
            Lang::Javascript => "javascript".to_owned(),
            Lang::Typescript => "typescript".to_owned(),
            Lang::Rust => "rust".to_owned(),
            Lang::Python => "python".to_owned(),
            Lang::Java => "java".to_owned(),
            Lang::Ruby => "ruby".to_owned(),
            Lang::Html => "html".to_owned(),
            Lang::Css => "css".to_owned(),
            Lang::Json => "json".to_owned(),
        }
    }
}

} // verus!
