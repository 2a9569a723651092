//! The file table: one record per open file, keyed by a random id.
//!
//! A record holds the file's name, path, extension, recognised language
//! and in-memory byte buffer. Reading the file from disk and writing it
//! back are done by the caller; the table itself only keeps the
//! metadata and the buffer in sync.

use crate::error::{
    spec_not_found_error_message, Error, FileError, NotFoundError,
};
use crate::language::{spec_check_lang, Lang};
use crate::textutil::str_eq;
use crate::treesitter_backend::query::{find_after_last_dot, last_dot, lemma_last_dot};
use std::collections::HashMap;
use vstd::prelude::*;
use vstd::set_lib::{lemma_len_subset, lemma_set_subset_finite};
use vstd::string::StrSliceExecFns;

verus! {

broadcast use vstd::std_specs::hash::group_hash_axioms, vstd::seq_lib::seq_to_set_is_finite, vstd::set::group_set_axioms;

/// Index of the last `/` in `s`, or `-1` if there is none.
pub open spec fn last_slash(s: Seq<char>) -> int
    decreases s.len(),
{
    if s.len() == 0 {
        -1
    } else if s[s.len() - 1] == '/' {
        s.len() - 1
    } else {
        last_slash(s.drop_last())
    }
}

pub proof fn lemma_last_slash(s: Seq<char>)
    ensures
        -1 <= last_slash(s) < s.len(),
        last_slash(s) >= 0 ==> s[last_slash(s)] == '/',
        forall|j: int| last_slash(s) < j < s.len() ==> s[j] != '/',
    decreases s.len(),
{
    if s.len() == 0 {
    } else if s[s.len() - 1] == '/' {
    } else {
        lemma_last_slash(s.drop_last());
        assert forall|j: int| last_slash(s) < j < s.len() implies s[j] != '/' by {
            if j < s.len() - 1 {
                assert(s[j] == s.drop_last()[j]);
            }
        }
    }
}

/// The file name a path carries: what follows the last `/`, or
/// `unknown` when nothing does.
pub open spec fn spec_file_name(path: Seq<char>) -> Seq<char> {
    let tail = path.skip(last_slash(path) + 1);
    if tail.len() == 0 {
        "unknown"@
    } else {
        tail
    }
}

/// The extension of a file name: what follows the last `.`, as long as
/// that dot is not the name's first character; `unknown` otherwise.
pub open spec fn spec_extension(path: Seq<char>) -> Seq<char> {
    let name = spec_file_name(path);
    if last_dot(name) > 0 {
        name.skip(last_dot(name) + 1)
    } else {
        "unknown"@
    }
}

/// What follows the last `/` of the path, or `unknown`.
fn file_name_part(path: &str) -> (r: String)
    ensures
        r@ == spec_file_name(path@),
{
    let n = path.unicode_len();
    let mut i: usize = n;
    while i > 0
        invariant
            n == path@.len(),
            i <= n,
            forall|j: int| i <= j < n ==> path@[j] != '/',
        decreases i,
    {
        if path.get_char(i - 1) == '/' {
            proof {
                lemma_last_slash(path@);
            }
            let tail = path.substring_char(i, n);
            if tail.unicode_len() == 0 {
                return "unknown".to_owned();
            }
            return tail.to_owned();
        }
        i = i - 1;
    }
    proof {
        lemma_last_slash(path@);
        assert(path@.skip(0) =~= path@);
    }
    if n == 0 {
        "unknown".to_owned()
    } else {
        path.to_owned()
    }
}

/// What follows the last `.` of the name, or `unknown`.
fn extension_part(name: &str) -> (r: String)
    ensures
        r@ == (if last_dot(name@) > 0 {
            name@.skip(last_dot(name@) + 1)
        } else {
            "unknown"@
        }),
{
    let i = find_after_last_dot(name);
    proof {
        lemma_last_dot(name@);
    }
    if i > 1 {
        let n = name.unicode_len();
        name.substring_char(i, n).to_owned()
    } else {
        "unknown".to_owned()
    }
}

/// One open file: its metadata and its in-memory buffer.
#[derive(Debug)]
pub struct OpenedFile {
    pub name: String,
    pub language: Option<Lang>,
    pub path: String,
    pub openable: bool,
    pub extension: String,
    pub source_code: Vec<u8>,
}

impl OpenedFile {
    /// A record for a path: the name and extension are cut out of the
    /// path string, the language read off the extension, and the
    /// buffer starts empty.
    pub fn new(path_string: String) -> (r: OpenedFile)
        ensures
            r.name@ == spec_file_name(path_string@),
            r.extension@ == spec_extension(path_string@),
            r.language == spec_check_lang(spec_extension(path_string@)),
            r.path == path_string,
            r.openable == true,
            r.source_code@ == Seq::<u8>::empty(),
    {
        let name = file_name_part(path_string.as_str());
        let extension = extension_part(name.as_str());
        let language = Lang::check_lang(extension.as_str());
        OpenedFile {
            name,
            language,
            path: path_string,
            openable: true,
            extension,
            source_code: Vec::new(),
        }
    }

    /// Replaces the buffer.
    fn update_source_code(&mut self, source_code: &Vec<u8>)
        ensures
            final(self).source_code@ == source_code@,
            final(self).name == old(self).name,
            final(self).language == old(self).language,
            final(self).path == old(self).path,
            final(self).openable == old(self).openable,
            final(self).extension == old(self).extension,
    {
        let mut copy: Vec<u8> = Vec::new();
        let n = source_code.len();
        let mut i: usize = 0;
        while i < n
            invariant
                n == source_code@.len(),
                i <= n,
                copy@ == source_code@.take(i as int),
            decreases n - i,
        {
            copy.push(source_code[i]);
            proof {
                assert(copy@ =~= source_code@.take(i + 1));
            }
            i = i + 1;
        }
        proof {
            assert(source_code@.take(n as int) =~= source_code@);
        }
        self.source_code = copy;
    }
}

/// Whether some open file already carries this name.
pub open spec fn spec_same_name_exists(m: Map<u32, OpenedFile>, name: Seq<char>) -> bool {
    exists|k: u32| m.contains_key(k) && (#[trigger] m[k]).name@ == name
}

/// The table of open files.
#[derive(Debug)]
pub struct FileManager {
    pub files: HashMap<u32, OpenedFile>,
    pub ids: Vec<u32>,
}

impl FileManager {
    /// The id list mirrors the table's keys, without duplicates.
    pub open spec fn wf(self) -> bool {
        &&& forall|i: int, j: int|
            0 <= i < j < self.ids@.len() ==> self.ids@[i] != self.ids@[j]
        &&& forall|i: int|
            0 <= i < self.ids@.len() ==> self.files@.contains_key(#[trigger] self.ids@[i])
        &&& forall|k: u32| self.files@.contains_key(k) ==> self.ids@.contains(k)
    }

    pub fn new() -> (r: FileManager)
        ensures
            r.wf(),
            r.files@ == Map::<u32, OpenedFile>::empty(),
    {
        FileManager { files: HashMap::new(), ids: Vec::new() }
    }

    pub fn file_exists(&self, id: &u32) -> (r: bool)
        ensures
            r == self.files@.contains_key(*id),
    {
        self.files.contains_key(id)
    }

    /// Removes the file from the table; removing an id that is not
    /// open changes nothing.
    pub fn close_file(&mut self, id: &u32)
        requires
            old(self).wf(),
        ensures
            final(self).wf(),
            final(self).files@ == old(self).files@.remove(*id),
    {
        self.files.remove(id);
        let n = self.ids.len();
        let mut i: usize = 0;
        while i < n
            invariant
                old(self).wf(),
                self.ids@ == old(self).ids@,
                self.files@ == old(self).files@.remove(*id),
                n == self.ids@.len(),
                i <= n,
                forall|j: int| 0 <= j < i ==> self.ids@[j] != *id,
            decreases n - i,
        {
            if self.ids[i] == *id {
                let ghost ids0 = self.ids@;
                self.ids.remove(i);
                proof {
                    assert forall|k: u32|
                        self.files@.contains_key(k) implies self.ids@.contains(k) by {
                        assert(k != *id);
                        assert(old(self).files@.contains_key(k));
                        assert(ids0.contains(k));
                        let w = choose|w: int| 0 <= w < ids0.len() && ids0[w] == k;
                        if w < i {
                            assert(self.ids@[w] == k);
                        } else {
                            assert(w != i);
                            assert(self.ids@[w - 1] == k);
                        }
                    }
                    assert forall|a: int, b: int|
                        0 <= a < b < self.ids@.len() implies self.ids@[a] != self.ids@[b] by {
                        if a < i && b < i {
                            assert(self.ids@[a] == ids0[a] && self.ids@[b] == ids0[b]);
                        } else if a < i {
                            assert(self.ids@[a] == ids0[a] && self.ids@[b] == ids0[b + 1]);
                        } else {
                            assert(self.ids@[a] == ids0[a + 1] && self.ids@[b] == ids0[b + 1]);
                        }
                    }
                    assert forall|a: int|
                        0 <= a < self.ids@.len() implies self.files@.contains_key(
                        #[trigger] self.ids@[a],
                    ) by {
                        if a < i {
                            assert(self.ids@[a] == ids0[a]);
                            assert(ids0[a] != *id);
                        } else {
                            assert(self.ids@[a] == ids0[a + 1]);
                            assert(ids0[a + 1] != ids0[i as int]);
                        }
                        assert(old(self).files@.contains_key(self.ids@[a]));
                    }
                }
                return ;
            }
            i = i + 1;
        }
        proof {
            assert forall|k: u32|
                self.files@.contains_key(k) implies self.ids@.contains(k) by {
                assert(old(self).files@.contains_key(k));
            }
            assert forall|a: int|
                0 <= a < self.ids@.len() implies self.files@.contains_key(
                #[trigger] self.ids@[a],
            ) by {
                assert(self.ids@[a] != *id);
                assert(old(self).files@.contains_key(self.ids@[a]));
            }
        }
    }

    /// Empties the table.
    pub fn clear(&mut self)
        ensures
            final(self).wf(),
            final(self).files@ == Map::<u32, OpenedFile>::empty(),
    {
        self.files.clear();
        self.ids.clear();
    }

    pub fn get_file_language(&self, id: &u32) -> (r: Result<Option<Lang>, Error>)
        ensures
            self.files@.contains_key(*id) ==> r == Ok::<Option<Lang>, Error>(
                self.files@[*id].language,
            ),
            !self.files@.contains_key(*id) ==> r == Err::<Option<Lang>, Error>(
                Error::NotFoundError(NotFoundError::FileNotFoundError(*id)),
            ),
    {
        match self.files.get(id) {
            None => Err(Error::NotFoundError(NotFoundError::FileNotFoundError(*id))),
            Some(file) => Ok(file.language),
        }
    }

    pub fn get_file_extension(&self, id: &u32) -> (r: Result<String, Error>)
        ensures
            self.files@.contains_key(*id) ==> (r matches Ok(s) && s@ == self.files@[*id].extension@),
            !self.files@.contains_key(*id) ==> r == Err::<String, Error>(
                Error::NotFoundError(NotFoundError::FileNotFoundError(*id)),
            ),
    {
        match self.files.get(id) {
            None => Err(Error::NotFoundError(NotFoundError::FileNotFoundError(*id))),
            Some(file) => Ok(file.extension.clone()),
        }
    }

    /// Replaces the in-memory buffer of the file; the tree cache is
    /// not touched.
    pub fn update_source_code_for_file(&mut self, id: &u32, source_code: &Vec<u8>) -> (r: Result<
        (),
        Error,
    >)
        requires
            old(self).wf(),
        ensures
            final(self).wf(),
            !old(self).files@.contains_key(*id) ==> r == Err::<(), Error>(
                Error::NotFoundError(NotFoundError::FileNotFoundError(*id)),
            ) && final(self).files@ == old(self).files@,
            old(self).files@.contains_key(*id) ==> r is Ok && final(self).files@.dom() == old(self).files@.dom() && (forall|k: u32|
                k != *id && old(self).files@.contains_key(k) ==> final(self).files@[k] == old(self).files@[k]) && final(self).files@[*id].source_code@ == source_code@ && final(self).files@[*id].name == old(self).files@[*id].name && final(self).files@[*id].language
                == old(self).files@[*id].language && final(self).files@[*id].path == old(self).files@[*id].path && final(self).files@[*id].extension == old(self).files@[*id].extension,
    {
        let mut file = match self.files.remove(id) {
            None => {
                return Err(Error::NotFoundError(NotFoundError::FileNotFoundError(*id)));
            },
            Some(file) => file,
        };
        file.update_source_code(source_code);
        self.files.insert(*id, file);
        proof {
            assert(final(self).files@.dom() =~= old(self).files@.dom());
            assert forall|i: int|
                0 <= i < final(self).ids@.len() implies final(self).files@.contains_key(
                #[trigger] final(self).ids@[i],
            ) by {
                assert(old(self).files@.contains_key(old(self).ids@[i]));
            }
        }
        Ok(())
    }

    pub fn get_source_code_from_file(&self, id: &u32) -> (r: Result<Vec<u8>, Error>)
        ensures
            self.files@.contains_key(*id) ==> (r matches Ok(v) && v@
                == self.files@[*id].source_code@),
            !self.files@.contains_key(*id) ==> r == Err::<Vec<u8>, Error>(
                Error::NotFoundError(NotFoundError::FileNotFoundError(*id)),
            ),
    {
        match self.files.get(id) {
            None => Err(Error::NotFoundError(NotFoundError::FileNotFoundError(*id))),
            Some(file) => {
                let mut copy: Vec<u8> = Vec::new();
                let n = file.source_code.len();
                let mut i: usize = 0;
                while i < n
                    invariant
                        n == file.source_code@.len(),
                        i <= n,
                        copy@ == file.source_code@.take(i as int),
                    decreases n - i,
                {
                    copy.push(file.source_code[i]);
                    proof {
                        assert(copy@ =~= file.source_code@.take(i + 1));
                    }
                    i = i + 1;
                }
                proof {
                    assert(file.source_code@.take(n as int) =~= file.source_code@);
                }
                Ok(copy)
            },
        }
    }

    /// Whether some open file already carries this name.
    fn search_same_name(&self, name: &str) -> (r: bool)
        requires
            self.wf(),
        ensures
            r == spec_same_name_exists(self.files@, name@),
    {
        let n = self.ids.len();
        let mut i: usize = 0;
        while i < n
            invariant
                self.wf(),
                n == self.ids@.len(),
                i <= n,
                forall|j: int|
                    0 <= j < i ==> self.files@[#[trigger] self.ids@[j]].name@ != name@,
            decreases n - i,
        {
            let id = self.ids[i];
            match self.files.get(&id) {
                Some(file) => {
                    if str_eq(file.name.as_str(), name) {
                        proof {
                            assert(self.files@.contains_key(id) && self.files@[id].name@ == name@);
                        }
                        return true;
                    }
                },
                None => {
                    proof {
                        assert(self.files@.contains_key(self.ids@[i as int]));
                    }
                },
            }
            i = i + 1;
        }
        proof {
            assert forall|k: u32|
                self.files@.contains_key(k) implies (#[trigger] self.files@[k]).name@ != name@ by {
                assert(self.ids@.contains(k));
                let w = choose|w: int| 0 <= w < self.ids@.len() && self.ids@[w] == k;
                assert(self.files@[self.ids@[w]].name@ != name@);
            }
        }
        false
    }

    /// A file id no open file uses yet: a random draw, or, if that
    /// collides, the first free value counting up from zero.
    fn fresh_id(&self) -> (r: u32)
        requires
            self.wf(),
            self.ids@.len() < u32::MAX,
        ensures
            !self.files@.contains_key(r),
    {
        let id = random_u32();
        if !self.files.contains_key(&id) {
            return id;
        }
        let n = self.ids.len();
        let ghost mut taken: Set<u32> = Set::empty();
        let mut i: usize = 0;
        while i <= n
            invariant
                self.wf(),
                n == self.ids@.len(),
                n < u32::MAX,
                i <= n + 1,
                taken.finite(),
                taken.len() == i,
                forall|x: u32| taken.contains(x) ==> x < i,
                taken.subset_of(self.files@.dom()),
            decreases n + 1 - i,
        {
            let cand = i as u32;
            if !self.files.contains_key(&cand) {
                return cand;
            }
            proof {
                assert(!taken.contains(cand));
                taken = taken.insert(cand);
            }
            i = i + 1;
        }
        proof {
            // every candidate was taken, yet there are more candidates
            // than open files: impossible
            self.ids@.lemma_cardinality_of_set();
            assert(self.files@.dom().subset_of(self.ids@.to_set())) by {
                assert forall|k: u32|
                    self.files@.dom().contains(k) implies self.ids@.to_set().contains(k) by {
                    assert(self.ids@.contains(k));
                }
            }
            lemma_set_subset_finite(self.ids@.to_set(), self.files@.dom());
            lemma_len_subset(self.files@.dom(), self.ids@.to_set());
            lemma_len_subset(taken, self.files@.dom());
            assert(false);
        }
        0
    }

    /// Opens a path: derives the record, assigns a fresh id, reports
    /// whether another open file already carries the same name, and
    /// stores the record with an empty buffer.
    pub fn load_file(&mut self, path: String) -> (r: Result<(u32, bool), Error>)
        requires
            old(self).wf(),
            old(self).ids@.len() < u32::MAX,
        ensures
            final(self).wf(),
            r matches Ok(pair) && !old(self).files@.contains_key(pair.0) && pair.1
                == spec_same_name_exists(old(self).files@, spec_file_name(path@)) && final(self).files@.dom() == old(self).files@.dom().insert(pair.0) && (forall|k: u32|
                k != pair.0 && old(self).files@.contains_key(k) ==> final(self).files@[k] == old(self).files@[k]) && final(self).files@[pair.0].name@ == spec_file_name(path@) && final(self).files@[pair.0].extension@ == spec_extension(path@) && final(self).files@[pair.0].language == spec_check_lang(spec_extension(path@)) && final(self).files@[pair.0].path@ == path@ && final(self).files@[pair.0].source_code@
                == Seq::<u8>::empty(),
    {
        let ghost path_view = path@;
        let file = OpenedFile::new(path);
        let same_name_exist = self.search_same_name(file.name.as_str());
        let id = self.fresh_id();
        self.files.insert(id, file);
        self.ids.push(id);
        proof {
            assert(final(self).files@.dom() =~= old(self).files@.dom().insert(id));
            assert forall|i: int, j: int|
                0 <= i < j < final(self).ids@.len() implies final(self).ids@[i] != final(self).ids@[j] by {
                if j < final(self).ids@.len() - 1 {
                } else {
                    assert(final(self).ids@[j] == id);
                    assert(old(self).files@.contains_key(old(self).ids@[i]));
                }
            }
            assert forall|i: int|
                0 <= i < final(self).ids@.len() implies final(self).files@.contains_key(
                #[trigger] final(self).ids@[i],
            ) by {
                if i < final(self).ids@.len() - 1 {
                    assert(old(self).files@.contains_key(old(self).ids@[i]));
                }
            }
            assert forall|k: u32|
                final(self).files@.contains_key(k) implies final(self).ids@.contains(k) by {
                if k == id {
                    assert(final(self).ids@[final(self).ids@.len() - 1] == k);
                } else {
                    assert(old(self).ids@.contains(k));
                    let w = choose|w: int| 0 <= w < old(self).ids@.len() && old(self).ids@[w] == k;
                    assert(final(self).ids@[w] == k);
                }
            }
        }
        Ok((id, same_name_exist))
    }

    /// The path and buffer to write when the file is saved. The caller
    /// performs the write; the table itself is left untouched.
    pub fn save_file(&self, id: &u32) -> (r: Result<(String, Vec<u8>), Error>)
        ensures
            self.files@.contains_key(*id) ==> (r matches Ok(p) && p.0@ == self.files@[*id].path@
                && p.1@ == self.files@[*id].source_code@),
            !self.files@.contains_key(*id) ==> (r matches Err(e) && e matches Error::FileError(fe)
                && fe matches FileError::SavingFileError(m) && m@ == spec_not_found_error_message(
                NotFoundError::FileNotFoundError(*id),
            )),
    {
        match self.files.get(id) {
            None => {
                let inner = NotFoundError::FileNotFoundError(*id);
                Err(Error::FileError(FileError::SavingFileError(inner.to_string())))
            },
            Some(file) => {
                let path = file.path.clone();
                let bytes = match self.get_source_code_from_file(id) {
                    Ok(bytes) => bytes,
                    Err(_) => Vec::new(),
                };
                Ok((path, bytes))
            },
        }
    }

    /// The file's name, language and path, as shown to the front-end.
    pub fn get_file_info(&self, id: &u32) -> (r: Result<(String, Option<Lang>, String), Error>)
        ensures
            self.files@.contains_key(*id) ==> (r matches Ok(info) && info.0@
                == self.files@[*id].name@ && info.1 == self.files@[*id].language && info.2@
                == self.files@[*id].path@),
            !self.files@.contains_key(*id) ==> (r matches Err(e) && e matches Error::FileError(fe)
                && fe matches FileError::ReadFileError(m) && m@ == spec_not_found_error_message(
                NotFoundError::FileNotFoundError(*id),
            )),
    {
        match self.files.get(id) {
            None => {
                let inner = NotFoundError::FileNotFoundError(*id);
                Err(Error::FileError(FileError::ReadFileError(inner.to_string())))
            },
            Some(file) => Ok((file.name.clone(), file.language, file.path.clone())),
        }
    }
}

/// Relies on rand::random: a 32-bit value drawn from the thread's
/// generator; nothing is promised of it.
#[verifier::external_body]
fn random_u32() -> u32 {
    rand::random::<u32>()
}

} // verus!
