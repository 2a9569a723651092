//! Opening and closing files: the parts that touch only the file
//! table and the tree cache. Path resolution and directory listing
//! are the caller's concern.

use crate::backend_api::responses::OpenFile;
use crate::error::Error;
use crate::files_api::{spec_extension, spec_file_name, spec_same_name_exists, FileManager};
use crate::language::spec_check_lang;
use crate::treesitter_backend::parser::ParserHelper;
use vstd::prelude::*;

verus! {

/// Opens a path: stores a fresh record for it and reports the file's
/// name, language and whether the name is already taken by another
/// open file. After the call the id is in the table.
pub fn open_file(file_manager: &mut FileManager, path: String) -> (r: Result<OpenFile, Error>)
    requires
        old(file_manager).wf(),
        old(file_manager).ids@.len() < u32::MAX,
    ensures
        final(file_manager).wf(),
        r matches Ok(of) && !old(file_manager).files@.contains_key(of.id) && final(file_manager).files@.contains_key(of.id) && final(file_manager).files@.dom() == old(file_manager).files@.dom().insert(of.id) && of.name@ == spec_file_name(path@) && of.language
            == spec_check_lang(spec_extension(path@)) && of.path@ == path@ && of.same_name_exist
            == spec_same_name_exists(old(file_manager).files@, spec_file_name(path@)) && final(file_manager).files@[of.id].source_code@ == Seq::<u8>::empty(),
{
    let ghost path_view = path@;
    let file_info = match file_manager.load_file(path) {
        Ok(info) => info,
        Err(e) => {
            return Err(e);
        },
    };
    let same_name_exist = file_info.1;
    let id = file_info.0;
    let file_info = match file_manager.get_file_info(&id) {
        Ok(info) => info,
        Err(e) => {
            return Err(e);
        },
    };
    Ok(OpenFile::create(id, same_name_exist, file_info))
}

/// Closes a file: the tree cache drops its slot and the table drops
/// the record. Closing an id that is not open succeeds and changes
/// nothing.
pub fn close_file(file_manager: &mut FileManager, parser_helper: &mut ParserHelper, id: u32) -> (r:
    Result<(), Error>)
    requires
        old(file_manager).wf(),
    ensures
        final(file_manager).wf(),
        r is Ok,
        !final(file_manager).files@.contains_key(id),
        !final(parser_helper).spec_has_tree(id),
        final(file_manager).files@ == old(file_manager).files@.remove(id),
        final(parser_helper).trees@ == old(parser_helper).trees@.remove(id),
        final(parser_helper).parsers == old(parser_helper).parsers,
{
    parser_helper.remove_tree(&id);
    file_manager.close_file(&id);
    Ok(())
}

/// Same-name detection: once a file with some name is open, opening
/// any other path that carries the same file name reports the clash.
pub proof fn lemma_same_name_detection(
    m: Map<u32, crate::files_api::OpenedFile>,
    id: u32,
    first_path: Seq<char>,
    second_path: Seq<char>,
)
    requires
        m.contains_key(id),
        m[id].name@ == spec_file_name(first_path),
        spec_file_name(second_path) == spec_file_name(first_path),
    ensures
        spec_same_name_exists(m, spec_file_name(second_path)),
{
    assert(m.contains_key(id) && m[id].name@ == spec_file_name(second_path));
}

} // verus!
