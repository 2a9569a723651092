//! The parser pool and the per-file tree cache.
//!
//! One reusable parser per supported language, and for every open file
//! with a supported language a slot holding the most recent parse tree
//! (or nothing, before the first parse). Trees are edited in place with
//! the front-end's edit descriptor and reparsed incrementally.

use crate::error::{Error, MutexLockError, NotFoundError};
use crate::language::{spec_lang_name, Lang};
use crate::treesitter_backend::{
    get_tree_sitter_language, ts_parser_new, ts_parser_parse, ts_parser_set_language,
    ts_tree_clone, ts_tree_sexp,
};
use std::collections::HashMap;
use vstd::prelude::*;

verus! {

broadcast use vstd::std_specs::hash::group_hash_axioms;

/// A position in the buffer, in 0-based byte rows and columns.
#[derive(Debug, Clone, Copy, PartialEq, Eq, Structural)]
pub struct CustomPoint {
    pub row: u32,
    pub column: u32,
}

impl CustomPoint {
    pub fn new(row: u32, column: u32) -> (r: CustomPoint)
        ensures
            r == (CustomPoint { row, column }),
    {
        CustomPoint { row, column }
    }
}

/// The edit descriptor the front-end sends with a change: the edited
/// byte span before and after, with the matching row/column positions.
#[derive(Debug, Clone, Copy, PartialEq, Eq, Structural)]
pub struct ChangesRange {
    pub start_byte: u32,
    pub old_end_byte: u32,
    pub new_end_byte: u32,
    pub start_position: CustomPoint,
    pub old_end_position: CustomPoint,
    pub new_end_position: CustomPoint,
}

/// Relies on tree_sitter::Tree::edit: patches the tree with the edit
/// descriptor so the next reparse can reuse unchanged subtrees.
#[verifier::external_body]
fn ts_tree_edit(tree: &mut tree_sitter::Tree, changes: &ChangesRange) {
    let point = |p: &CustomPoint| tree_sitter::Point { row: p.row as usize, column: p.column as usize };
    tree.edit(
        &tree_sitter::InputEdit {
            start_byte: changes.start_byte as usize,
            old_end_byte: changes.old_end_byte as usize,
            new_end_byte: changes.new_end_byte as usize,
            start_position: point(&changes.start_position),
            old_end_position: point(&changes.old_end_position),
            new_end_position: point(&changes.new_end_position),
        },
    );
}

/// The parser pool and the tree cache, keyed by file id.
pub struct ParserHelper {
    pub parsers: Vec<(Lang, tree_sitter::Parser)>,
    pub trees: HashMap<u32, Option<tree_sitter::Tree>>,
}

impl ParserHelper {
    /// The language tags that have a parser, in pool order.
    pub open spec fn spec_langs(self) -> Seq<Lang> {
        self.parsers@.map_values(|p: (Lang, tree_sitter::Parser)| p.0)
    }

    pub open spec fn spec_has_parser(self, lang: Lang) -> bool {
        self.spec_langs().contains(lang)
    }

    pub open spec fn spec_has_tree(self, id: u32) -> bool {
        self.trees@.contains_key(id)
    }

    /// Index of the parser for `lang`, if one is pooled.
    fn find_parser(&self, lang: &Lang) -> (r: Option<usize>)
        ensures
            match r {
                Some(i) => i < self.parsers@.len() && self.parsers@[i as int].0 == *lang,
                None => !self.spec_has_parser(*lang),
            },
    {
        let n = self.parsers.len();
        let mut i: usize = 0;
        while i < n
            invariant
                n == self.parsers@.len(),
                i <= n,
                forall|j: int| 0 <= j < i ==> (#[trigger] self.parsers@[j]).0 != *lang,
            decreases n - i,
        {
            if self.parsers[i].0 == *lang {
                return Some(i);
            }
            i = i + 1;
        }
        proof {
            assert forall|k: int|
                0 <= k < self.spec_langs().len() implies self.spec_langs()[k] != *lang by {
                assert(self.spec_langs()[k] == self.parsers@[k].0);
            }
        }
        None
    }

    pub fn currently_supported_language(&self) -> (r: Vec<Lang>)
        ensures
            r@ == self.spec_langs(),
    {
        let n = self.parsers.len();
        let mut out: Vec<Lang> = Vec::new();
        let mut i: usize = 0;
        while i < n
            invariant
                n == self.parsers@.len(),
                i <= n,
                out@.len() == i,
                forall|j: int| 0 <= j < i ==> out@[j] == (#[trigger] self.parsers@[j]).0,
            decreases n - i,
        {
            out.push(self.parsers[i].0);
            i = i + 1;
        }
        proof {
            assert(out@ =~= self.spec_langs());
        }
        out
    }

    pub fn parser_exist(&self, language: &Lang) -> (r: bool)
        ensures
            r == self.spec_has_parser(*language),
    {
        match self.find_parser(language) {
            Some(i) => {
                proof {
                    assert(self.spec_langs()[i as int] == self.parsers@[i as int].0);
                }
                true
            },
            None => false,
        }
    }

    /// Drops the cached tree slot of a file.
    pub fn remove_tree(&mut self, id: &u32)
        ensures
            final(self).trees@ == old(self).trees@.remove(*id),
            final(self).parsers == old(self).parsers,
    {
        self.trees.remove(id);
    }

    /// Drops every cached tree slot.
    pub fn clear_trees(&mut self)
        ensures
            final(self).trees@ == Map::<u32, Option<tree_sitter::Tree>>::empty(),
            final(self).parsers == old(self).parsers,
    {
        self.trees.clear();
    }

    /// Makes an (empty) tree slot for a file that has a language; a
    /// file without one gets no slot.
    pub fn append_tree(&mut self, id: &u32, file_language: Option<Lang>) -> (r: Result<
        (),
        MutexLockError,
    >)
        ensures
            r is Ok,
            final(self).parsers == old(self).parsers,
            file_language is Some ==> final(self).trees@ == old(self).trees@.insert(*id, None),
            file_language is None ==> final(self).trees@ == old(self).trees@,
    {
        if file_language.is_some() {
            self.trees.insert(*id, None);
        }
        Ok(())
    }

    /// Applies the edit descriptor to the cached tree of `id`, so the
    /// next reparse can reuse unchanged subtrees. Editing a slot that
    /// has no tree yet, or applying no edit, leaves the slot as it is.
    pub fn update_tree(&mut self, id: &u32, input_edit: Option<ChangesRange>) -> (r: Result<
        (),
        NotFoundError,
    >)
        ensures
            final(self).parsers == old(self).parsers,
            !old(self).spec_has_tree(*id) ==> r == Err::<(), NotFoundError>(
                NotFoundError::TreeNotFoundError(*id),
            ) && final(self).trees@ == old(self).trees@,
            old(self).spec_has_tree(*id) ==> r is Ok && final(self).trees@.dom()
                == old(self).trees@.dom() && (final(self).trees@[*id] is Some <==> old(self).trees@[*id] is Some) && (forall|k: u32|
                k != *id && old(self).trees@.contains_key(k) ==> final(self).trees@[k] == old(self).trees@[k]),
    {
        let slot = match self.trees.remove(id) {
            None => {
                return Err(NotFoundError::TreeNotFoundError(*id));
            },
            Some(slot) => slot,
        };
        let new_slot = match slot {
            Some(mut tree) => {
                if let Some(edit) = input_edit {
                    ts_tree_edit(&mut tree, &edit);
                }
                Some(tree)
            },
            None => None,
        };
        self.trees.insert(*id, new_slot);
        proof {
            assert(final(self).trees@.dom() =~= old(self).trees@.dom());
        }
        Ok(())
    }

    /// Reparses the file's buffer with the language's pooled parser,
    /// handing the previous tree to the grammar as an incremental
    /// hint. A parse the grammar gives up on keeps the old tree and
    /// surfaces an error.
    pub fn parse(&mut self, id: &u32, language: &Lang, source_code: &Vec<u8>) -> (r: Result<
        (),
        Error,
    >)
        ensures
            final(self).spec_langs() == old(self).spec_langs(),
            !old(self).spec_has_tree(*id) ==> r == Err::<(), Error>(
                Error::NotFoundError(NotFoundError::TreeNotFoundError(*id)),
            ) && final(self).trees@ == old(self).trees@,
            old(self).spec_has_tree(*id) && !old(self).spec_has_parser(*language) ==> final(self).trees@ == old(self).trees@ && (r matches Err(e) && e matches Error::NotFoundError(ne)
                && ne matches NotFoundError::ParserNotFoundError(s) && s@ == spec_lang_name(
                *language,
            )),
            old(self).spec_has_tree(*id) && old(self).spec_has_parser(*language) ==> match r {
                Ok(_) => final(self).trees@.dom() == old(self).trees@.dom() && final(self).trees@[*id] is Some && (forall|k: u32|
                    k != *id && old(self).trees@.contains_key(k) ==> final(self).trees@[k] == old(self).trees@[k]),
                Err(e) => e == Error::ParseFailed(*id) && final(self).trees@ == old(self).trees@,
            },
    {
        let old_tree: Option<tree_sitter::Tree> = match self.trees.get(id) {
            None => {
                return Err(Error::NotFoundError(NotFoundError::TreeNotFoundError(*id)));
            },
            Some(slot) => match slot {
                Some(tree) => Some(ts_tree_clone(tree)),
                None => None,
            },
        };
        let pidx = match self.find_parser(language) {
            None => {
                return Err(
                    Error::NotFoundError(NotFoundError::ParserNotFoundError(language.to_string())),
                );
            },
            Some(i) => i,
        };
        proof {
            assert(self.spec_langs()[pidx as int] == self.parsers@[pidx as int].0);
            assert(self.spec_has_parser(*language));
        }
        let ghost parsers0 = self.parsers@;
        let (plang, mut parser) = self.parsers.remove(pidx);
        let new_tree = ts_parser_parse(&mut parser, source_code, old_tree.as_ref());
        self.parsers.insert(pidx, (plang, parser));
        proof {
            assert(self.spec_langs() =~= old(self).spec_langs()) by {
                assert forall|j: int|
                    0 <= j < self.parsers@.len() implies self.parsers@[j].0 == parsers0[j].0 by {
                    if j < pidx {
                    } else if j == pidx {
                        assert(self.parsers@[j] == (plang, parser));
                    } else {
                        assert(self.parsers@[j] == parsers0.remove(pidx as int).insert(
                            pidx as int,
                            (plang, parser),
                        )[j]);
                    }
                }
            }
        }
        match new_tree {
            Some(tree) => {
                self.trees.insert(*id, Some(tree));
                proof {
                    assert(final(self).trees@.dom() =~= old(self).trees@.dom());
                }
                Ok(())
            },
            None => Err(Error::ParseFailed(*id)),
        }
    }

    /// A handle to the cached tree of `id`: present once a parse has
    /// succeeded for the file.
    pub fn get_tree(&self, id: &u32) -> (r: Result<Option<tree_sitter::Tree>, NotFoundError>)
        ensures
            r is Ok <==> self.spec_has_tree(*id),
            !self.spec_has_tree(*id) ==> r == Err::<Option<tree_sitter::Tree>, NotFoundError>(
                NotFoundError::TreeNotFoundError(*id),
            ),
            r matches Ok(o) ==> (o is Some <==> self.trees@[*id] is Some),
    {
        match self.trees.get(id) {
            None => Err(NotFoundError::TreeNotFoundError(*id)),
            Some(slot) => match slot {
                Some(tree) => Ok(Some(ts_tree_clone(tree))),
                None => Ok(None),
            },
        }
    }

    /// The S-expression of the cached tree, or `"None"` for a slot
    /// that has not been parsed yet.
    pub fn get_tree_sexp(&self, id: &u32) -> (r: Result<String, NotFoundError>)
        ensures
            r is Ok <==> self.spec_has_tree(*id),
            !self.spec_has_tree(*id) ==> r == Err::<String, NotFoundError>(
                NotFoundError::TreeNotFoundError(*id),
            ),
            self.spec_has_tree(*id) && self.trees@[*id] is None ==> (r matches Ok(s) && s@
                == "None"@),
    {
        match self.trees.get(id) {
            None => Err(NotFoundError::TreeNotFoundError(*id)),
            Some(slot) => match slot {
                Some(tree) => Ok(ts_tree_sexp(tree)),
                None => Ok("None".to_owned()),
            },
        }
    }
}

impl Default for ParserHelper {
    /// A pool with one configured parser for each language that ships
    /// a grammar, and an empty tree cache.
    fn default() -> (r: ParserHelper)
        ensures
            r.spec_langs() == seq![
                Lang::Javascript,
                Lang::Rust,
                Lang::Html,
                Lang::Json,
                Lang::Java,
            ],
            r.trees@ == Map::<u32, Option<tree_sitter::Tree>>::empty(),
    {
        let mut parsers: Vec<(Lang, tree_sitter::Parser)> = Vec::new();
        let mut parser = ts_parser_new();
        let _ = ts_parser_set_language(&mut parser, &get_tree_sitter_language(&Lang::Javascript));
        parsers.push((Lang::Javascript, parser));
        let mut parser = ts_parser_new();
        let _ = ts_parser_set_language(&mut parser, &get_tree_sitter_language(&Lang::Rust));
        parsers.push((Lang::Rust, parser));
        let mut parser = ts_parser_new();
        let _ = ts_parser_set_language(&mut parser, &get_tree_sitter_language(&Lang::Html));
        parsers.push((Lang::Html, parser));
        let mut parser = ts_parser_new();
        let _ = ts_parser_set_language(&mut parser, &get_tree_sitter_language(&Lang::Json));
        parsers.push((Lang::Json, parser));
        let mut parser = ts_parser_new();
        let _ = ts_parser_set_language(&mut parser, &get_tree_sitter_language(&Lang::Java));
        parsers.push((Lang::Java, parser));
        let r = ParserHelper { parsers, trees: HashMap::new() };
        proof {
            assert(r.spec_langs() =~= seq![
                Lang::Javascript,
                Lang::Rust,
                Lang::Html,
                Lang::Json,
                Lang::Java,
            ]);
        }
        r
    }
}

} // verus!
