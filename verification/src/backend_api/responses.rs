//! The payloads the command surface hands back to the front-end.

use crate::language::Lang;
use vstd::prelude::*;

verus! {

/// What `open_file` returns: the fresh id, the file's name, language
/// and path, and whether another open file already carries the name.
#[derive(Debug)]
pub struct OpenFile {
    pub id: u32,
    pub name: String,
    pub language: Option<Lang>,
    pub same_name_exist: bool,
    pub path: String,
}

impl OpenFile {
    pub fn create(id: u32, same_name_exist: bool, file: (String, Option<Lang>, String)) -> (r:
        OpenFile)
        ensures
            r.id == id,
            r.same_name_exist == same_name_exist,
            r.name == file.0,
            r.language == file.1,
            r.path == file.2,
    {
        OpenFile { id, same_name_exist, name: file.0, language: file.1, path: file.2 }
    }
}

} // verus!
