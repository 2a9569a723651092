//! The commands that work on an open file's buffer and tree: loading
//! source into the table, applying edits, reparsing, and producing the
//! delta-encoded highlight stream.

use crate::error::{Error, FileError, NotFoundError};
use crate::files_api::FileManager;
use crate::language::spec_lang_name;
use crate::textutil::bytes_to_utf8_string;
use crate::treesitter_backend::highlighter::MonacoHighlights;
use crate::treesitter_backend::parser::{ChangesRange, ParserHelper};
use crate::treesitter_backend::query::{QueryManager, RangePoint};
use vstd::prelude::*;
use vstd::slice::slice_to_vec;
use vstd::utf8::{encode_utf8, valid_utf8};

verus! {

/// Stores the bytes read from disk as the file's buffer, reparses when
/// the language has a pooled parser, and hands the buffer back decoded
/// as UTF-8. For a file whose language has no pooled parser the call
/// succeeds exactly when the bytes are valid UTF-8; through a parser
/// the grammar may additionally give the parse up.
pub fn get_source_code_if_any(
    file_manager: &mut FileManager,
    parser_helper: &mut ParserHelper,
    id: u32,
    disk_bytes: Vec<u8>,
) -> (r: Result<String, Error>)
    requires
        old(file_manager).wf(),
    ensures
        final(file_manager).wf(),
        final(parser_helper).spec_langs() == old(parser_helper).spec_langs(),
        !old(file_manager).files@.contains_key(id) ==> r == Err::<String, Error>(
            Error::NotFoundError(NotFoundError::FileNotFoundError(id)),
        ) && final(file_manager).files@ == old(file_manager).files@ && final(parser_helper).trees@
            == old(parser_helper).trees@,
        old(file_manager).files@.contains_key(id) ==> final(file_manager).files@.dom() == old(file_manager).files@.dom() && final(file_manager).files@[id].source_code@ == disk_bytes@ && final(file_manager).files@[id].language == old(file_manager).files@[id].language,
        r matches Ok(s) ==> valid_utf8(disk_bytes@) && encode_utf8(s@) == disk_bytes@,
        old(file_manager).files@.contains_key(id) && (old(file_manager).files@[id].language is None
            || !old(parser_helper).spec_has_parser(
            old(file_manager).files@[id].language.unwrap(),
        )) ==> (r is Ok <==> valid_utf8(disk_bytes@)) && (!valid_utf8(disk_bytes@) ==> r == Err::<
            String,
            Error,
        >(Error::FileError(FileError::InvalidUtf8StringError(id)))) && final(parser_helper).trees@
            == old(parser_helper).trees@,
        old(file_manager).files@.contains_key(id) && old(file_manager).files@[id].language is Some
            && old(parser_helper).spec_has_parser(old(file_manager).files@[id].language.unwrap())
            ==> final(parser_helper).trees@.dom() == old(parser_helper).trees@.dom().insert(id) && (
        forall|k: u32|
            k != id && old(parser_helper).trees@.contains_key(k) ==> final(parser_helper).trees@[k] == old(parser_helper).trees@[k]) && match r {
            Ok(_) => final(parser_helper).trees@[id] is Some,
            Err(e) => (e == Error::ParseFailed(id) && final(parser_helper).trees@[id] is None) || (
            e == Error::FileError(FileError::InvalidUtf8StringError(id)) && !valid_utf8(
                disk_bytes@,
            ) && final(parser_helper).trees@[id] is Some),
        },
{
    match file_manager.update_source_code_for_file(&id, &disk_bytes) {
        Ok(_) => (),
        Err(e) => {
            return Err(e);
        },
    }
    let file_language = match file_manager.get_file_language(&id) {
        Ok(l) => l,
        Err(e) => {
            return Err(e);
        },
    };
    if file_language.is_some() {
        let lang = match file_language {
            Some(l) => l,
            None => {
                return Err(Error::NotFoundError(NotFoundError::FileNotFoundError(id)));
            },
        };
        if parser_helper.parser_exist(&lang) {
            match parser_helper.append_tree(&id, Some(lang)) {
                Ok(_) => (),
                Err(e) => {
                    return Err(Error::MutexLockError(e));
                },
            }
            proof {
                assert(parser_helper.trees@.dom() =~= old(parser_helper).trees@.dom().insert(id));
            }
            match parser_helper.parse(&id, &lang, &disk_bytes) {
                Ok(_) => (),
                Err(e) => {
                    return Err(e);
                },
            }
            proof {
                assert(final(parser_helper).trees@.dom() =~= old(parser_helper).trees@.dom().insert(id));
            }
        }
    }
    if disk_bytes.len() > 0 {
        match bytes_to_utf8_string(disk_bytes) {
            Some(s) => Ok(s),
            None => Err(Error::FileError(FileError::InvalidUtf8StringError(id))),
        }
    } else {
        proof {
            assert(encode_utf8(Seq::<char>::empty()) =~= Seq::<u8>::empty());
        }
        Ok(String::new())
    }
}

/// Clears the file table and the tree cache.
pub fn reset(file_manager: &mut FileManager, parser_helper: &mut ParserHelper) -> (r: Result<
    (),
    Error,
>)
    ensures
        r is Ok,
        final(file_manager).wf(),
        final(file_manager).files@ == Map::<u32, crate::files_api::OpenedFile>::empty(),
        final(parser_helper).trees@ == Map::<u32, Option<tree_sitter::Tree>>::empty(),
        final(parser_helper).parsers == old(parser_helper).parsers,
{
    file_manager.clear();
    parser_helper.clear_trees();
    Ok(())
}

/// Replaces the file's buffer with the new text, patches the cached
/// tree with the edit descriptor, and reparses incrementally.
pub fn handle_file_changes(
    file_manager: &mut FileManager,
    parser_helper: &mut ParserHelper,
    id: u32,
    source_code: String,
    range: Option<ChangesRange>,
) -> (r: Result<(), Error>)
    requires
        old(file_manager).wf(),
    ensures
        final(file_manager).wf(),
        final(parser_helper).spec_langs() == old(parser_helper).spec_langs(),
        !old(file_manager).files@.contains_key(id) ==> r == Err::<(), Error>(
            Error::NotFoundError(NotFoundError::FileNotFoundError(id)),
        ) && final(file_manager).files@ == old(file_manager).files@ && final(parser_helper).trees@
            == old(parser_helper).trees@,
        old(file_manager).files@.contains_key(id) ==> final(file_manager).files@.dom() == old(file_manager).files@.dom() && final(file_manager).files@[id].source_code@ == encode_utf8(source_code@)
            && final(file_manager).files@[id].language == old(file_manager).files@[id].language,
        old(file_manager).files@.contains_key(id) && (old(file_manager).files@[id].language is None
            || (old(file_manager).files@[id].language matches Some(l) && !old(parser_helper).spec_has_parser(l))) ==> r is Ok && final(parser_helper).trees@ == old(parser_helper).trees@,
        old(file_manager).files@.contains_key(id) && (old(file_manager).files@[id].language
            matches Some(l) && old(parser_helper).spec_has_parser(l)) && !old(parser_helper).spec_has_tree(id) ==> r == Err::<(), Error>(
            Error::NotFoundError(NotFoundError::TreeNotFoundError(id)),
        ) && final(parser_helper).trees@ == old(parser_helper).trees@,
        old(file_manager).files@.contains_key(id) && (old(file_manager).files@[id].language
            matches Some(l) && old(parser_helper).spec_has_parser(l)) && old(parser_helper).spec_has_tree(id) ==> final(parser_helper).trees@.dom() == old(parser_helper).trees@.dom() && (forall|k: u32|
            k != id && old(parser_helper).trees@.contains_key(k) ==> final(parser_helper).trees@[k]
                == old(parser_helper).trees@[k]) && match r {
            Ok(_) => final(parser_helper).trees@[id] is Some,
            Err(e) => e == Error::ParseFailed(id) && (final(parser_helper).trees@[id] is Some <==> old(parser_helper).trees@[id] is Some),
        },
{
    let source_code_in_bytes: Vec<u8> = slice_to_vec(source_code.as_str().as_bytes());
    match file_manager.update_source_code_for_file(&id, &source_code_in_bytes) {
        Ok(_) => (),
        Err(e) => {
            return Err(e);
        },
    }
    let file_language = match file_manager.get_file_language(&id) {
        Ok(l) => l,
        Err(e) => {
            return Err(e);
        },
    };
    if let Some(lang) = file_language {
        if parser_helper.parser_exist(&lang) {
            match parser_helper.update_tree(&id, range) {
                Ok(_) => (),
                Err(e) => {
                    return Err(Error::NotFoundError(e));
                },
            }
            match parser_helper.parse(&id, &lang, &source_code_in_bytes) {
                Ok(_) => (),
                Err(e) => {
                    return Err(e);
                },
            }
        }
    }
    Ok(())
}

/// Runs the highlight pipeline for a file over the supplied slice of
/// its buffer: query, bin, resolve, remap, sort, dedup, delta-encode.
/// A file that is not open yields an empty stream; a file without a
/// recognised language cannot be highlighted.
pub fn set_highlights(
    file_manager: &FileManager,
    parser_helper: &ParserHelper,
    query_iter: &QueryManager,
    id: u32,
    ranged_source_code: String,
    range: RangePoint,
) -> (r: Result<Vec<u32>, Error>)
    requires
        query_iter.wf(),
    ensures
        !file_manager.files@.contains_key(id) ==> (r matches Ok(v) && v@ == Seq::<u32>::empty()),
        file_manager.files@.contains_key(id) && file_manager.files@[id].language is None ==> (r
            matches Err(e) && e matches Error::FileError(fe) && fe
            matches FileError::LanguageNotSupportError(ext) && ext@
            == file_manager.files@[id].extension@),
        file_manager.files@.contains_key(id) && file_manager.files@[id].language is Some
            && !parser_helper.spec_has_tree(id) ==> r == Err::<Vec<u32>, Error>(
            Error::NotFoundError(NotFoundError::TreeNotFoundError(id)),
        ),
        file_manager.files@.contains_key(id) && file_manager.files@[id].language is Some
            && parser_helper.spec_has_tree(id) && !query_iter.spec_has_query(
            file_manager.files@[id].language.unwrap(),
        ) ==> (r matches Err(e) && e matches Error::NotFoundError(ne) && ne
            matches NotFoundError::QueryNotFoundError(s) && s@ == spec_lang_name(
            file_manager.files@[id].language.unwrap(),
        )),
        file_manager.files@.contains_key(id) && file_manager.files@[id].language is Some
            && parser_helper.spec_has_tree(id) && query_iter.spec_has_query(
            file_manager.files@[id].language.unwrap(),
        ) ==> (r matches Ok(v) && v@.len() % 5 == 0 && exists|tokens: Seq<
            crate::treesitter_backend::query::Token,
        >|
            crate::treesitter_backend::highlighter::tokens_bounded(
                tokens,
                query_iter.spec_entry(
                    file_manager.files@[id].language.unwrap(),
                ).unwrap().legend.types().len() as int,
            ) && v@ == #[trigger] crate::treesitter_backend::query::spec_pipeline(
                tokens,
                query_iter.spec_entry(file_manager.files@[id].language.unwrap()).unwrap(),
            )),
{
    if !file_manager.file_exists(&id) {
        return Ok(Vec::new());
    }
    let source_code_in_bytes: Vec<u8> = slice_to_vec(ranged_source_code.as_str().as_bytes());
    let file_language = match file_manager.get_file_language(&id) {
        Ok(l) => l,
        Err(e) => {
            return Err(e);
        },
    };
    match file_language {
        Some(language) => {
            let tree = match parser_helper.get_tree(&id) {
                Ok(t) => t,
                Err(e) => {
                    return Err(Error::NotFoundError(e));
                },
            };
            let tokens = match query_iter.iter_query(&tree, &language, &source_code_in_bytes) {
                Ok(t) => t,
                Err(e) => {
                    return Err(Error::NotFoundError(e));
                },
            };
            let ghost tokens_view = tokens@;
            let mut token_data = match query_iter.sort_layer(tokens, &language) {
                Ok(h) => h,
                Err(e) => {
                    return Err(Error::NotFoundError(e));
                },
            };
            let highlights = token_data.analyse_layer();
            let data = MonacoHighlights::emit(&highlights);
            proof {
                let qd = query_iter.spec_entry(language).unwrap();
                let hl = crate::treesitter_backend::query::highlights_of(
                    tokens_view,
                    qd._local_scope,
                    qd._local_reference,
                    qd._local_definition,
                );
                let analysed = Seq::new(
                    hl.len(),
                    |i: int|
                        crate::treesitter_backend::highlighter::spec_remap_token(
                            crate::treesitter_backend::highlighter::spec_resolve(
                                hl[i],
                                crate::treesitter_backend::query::bin_of(
                                    tokens_view,
                                    qd._local_scope,
                                ),
                                crate::treesitter_backend::query::bin_of(
                                    tokens_view,
                                    qd._local_definition,
                                ),
                                crate::treesitter_backend::query::bin_of(
                                    tokens_view,
                                    qd._local_reference,
                                ),
                            ),
                            qd.legend.types(),
                            qd.modified_legend.types(),
                            qd.modified_legend.modifiers(),
                        ),
                );
                assert(highlights@ =~= analysed);
                assert(data@ == crate::treesitter_backend::query::spec_pipeline(tokens_view, qd));
            }
            Ok(data)
        },
        None => {
            let extension = match file_manager.get_file_extension(&id) {
                Ok(e) => e,
                Err(e) => {
                    return Err(e);
                },
            };
            Err(Error::FileError(FileError::LanguageNotSupportError(extension)))
        },
    }
}

/// Saving is idempotent: the save payload is a pure function of the
/// table, and producing it does not alter the table (`save_file` takes
/// the manager by shared reference), so an immediate second save
/// returns the same path and bytes and succeeds whenever the first
/// did.
pub proof fn lemma_idempotent_save(before: FileManager, after: FileManager, id: u32)
    requires
        after == before,
    ensures
        after.files@.contains_key(id) == before.files@.contains_key(id),
        after.files@.contains_key(id) ==> after.files@[id].path@ == before.files@[id].path@
            && after.files@[id].source_code@ == before.files@[id].source_code@,
{
}

} // verus!
