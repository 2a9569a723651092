//! Tokens, capture ranges and the two legends of a language's query.
//!
//! A compiled query assigns each capture a name such as `variable.builtin`.
//! The ordered capture-name list is the *unmodified legend*. The *modified
//! legend* is derived from it: each name is split on `.`, the first segment
//! becomes a token type and the last segment (when it differs from the
//! first) becomes a modifier; duplicates collapse, first occurrence wins.

use crate::error::NotFoundError;
use crate::language::{spec_lang_name, Lang};
use crate::textutil::str_eq;
use crate::treesitter_backend::highlighter::{
    spec_emit, spec_remap_token, spec_resolve, tokens_bounded, HighlightIter,
};
use crate::treesitter_backend::{
    get_query_from_each_language, get_tree_sitter_language, ts_query_capture_names,
    ts_query_captures, ts_query_new, RawCapture,
};
use vstd::prelude::*;
use vstd::string::StrSliceExecFns;

verus! {

/// A capture's position: `(start_row, start_col, end_row, end_col)`,
/// rows and columns 0-based and byte-indexed.
#[derive(Debug, Clone, Copy, PartialEq, Eq, Structural)]
pub struct RangePoint(pub u32, pub u32, pub u32, pub u32);

impl RangePoint {
    pub fn start_row(&self) -> (r: u32)
        ensures
            r == self.0,
    {
        self.0
    }

    pub fn start_col(&self) -> (r: u32)
        ensures
            r == self.1,
    {
        self.1
    }

    pub fn end_row(&self) -> (r: u32)
        ensures
            r == self.2,
    {
        self.2
    }

    pub fn end_col(&self) -> (r: u32)
        ensures
            r == self.3,
    {
        self.3
    }

    /// `value` lies strictly within `self`, row-wise: `self` starts on an
    /// earlier row and ends on a later row than `value`.
    pub open spec fn spec_within(self, value: RangePoint) -> bool {
        value.0 > self.0 && value.2 < self.2
    }

    pub fn within(&self, value: RangePoint) -> (r: bool)
        ensures
            r == self.spec_within(value),
    {
        value.start_row() > self.start_row() && value.end_row() < self.end_row()
    }
}

/// One highlight token: an index into a legend, a modifier index, the
/// byte length of the capture and its position.
#[derive(Debug, Clone, Copy, PartialEq, Eq, Structural)]
pub struct Token {
    pub token_type: u32,
    pub modifier: u32,
    pub length: u32,
    pub range: RangePoint,
}

/// The token a raw capture becomes: the capture index as token type, no
/// modifier yet, the byte length of the capture, and its point range.
pub open spec fn spec_token_of(c: RawCapture) -> Token {
    Token {
        token_type: c.index,
        modifier: 0,
        length: (c.end_byte - c.start_byte) as u32,
        range: RangePoint(c.start_row, c.start_col, c.end_row, c.end_col),
    }
}

impl Token {
    pub fn new(capture: &RawCapture) -> (r: Token)
        requires
            capture.start_byte <= capture.end_byte,
            capture.end_byte <= u32::MAX,
        ensures
            r == spec_token_of(*capture),
    {
        Token {
            token_type: capture.index,
            modifier: 0,
            length: (capture.end_byte - capture.start_byte) as u32,
            range: RangePoint(
                capture.start_row,
                capture.start_col,
                capture.end_row,
                capture.end_col,
            ),
        }
    }

    pub fn token_type(&self) -> (r: u32)
        ensures
            r == self.token_type,
    {
        self.token_type
    }

    pub fn modifier(&self) -> (r: u32)
        ensures
            r == self.modifier,
    {
        self.modifier
    }

    pub fn length(&self) -> (r: u32)
        ensures
            r == self.length,
    {
        self.length
    }

    pub fn range(&self) -> (r: RangePoint)
        ensures
            r == self.range,
    {
        self.range
    }

    /// Writes the remapped `(token_type, modifier)` pair back into the token.
    pub fn remap_token_n_modifier(&mut self, index: (u32, u32))
        ensures
            *final(self) == (Token { token_type: index.0, modifier: index.1, ..*old(self) }),
    {
        self.token_type = index.0;
        self.modifier = index.1;
    }
}

/// An ordered capture-name vocabulary: token types and modifiers.
#[derive(Debug, Clone)]
pub struct SemanticLegend {
    pub _token_types: Vec<String>,
    pub _token_modifier: Vec<String>,
}

impl SemanticLegend {
    /// The token-type names, as sequences of characters.
    pub open spec fn types(&self) -> Seq<Seq<char>> {
        self._token_types.deep_view()
    }

    /// The modifier names, as sequences of characters.
    pub open spec fn modifiers(&self) -> Seq<Seq<char>> {
        self._token_modifier.deep_view()
    }

    /// A legend whose token types are the given names, with no modifiers.
    pub fn create(name: Vec<String>) -> (r: SemanticLegend)
        ensures
            r.types() == name.deep_view(),
            r.modifiers() == Seq::<Seq<char>>::empty(),
    {
        let r = SemanticLegend { _token_types: name, _token_modifier: Vec::new() };
        proof {
            assert(r.modifiers() =~= Seq::<Seq<char>>::empty());
        }
        r
    }

    pub fn get_token_types(&self) -> (r: Vec<String>)
        ensures
            r.deep_view() == self.types(),
    {
        let r = self._token_types.clone();
        proof {
            assert(r.deep_view() =~= self.types());
        }
        r
    }

    pub fn get_modifier(&self) -> (r: Vec<String>)
        ensures
            r.deep_view() == self.modifiers(),
    {
        let r = self._token_modifier.clone();
        proof {
            assert(r.deep_view() =~= self.modifiers());
        }
        r
    }
}

/// Index of the first `.` in `s`, or `s.len()` if there is none.
pub open spec fn first_dot(s: Seq<char>) -> int
    decreases s.len(),
{
    if s.len() == 0 {
        0
    } else if s[0] == '.' {
        0
    } else {
        1 + first_dot(s.drop_first())
    }
}

/// Index of the last `.` in `s`, or `-1` if there is none.
pub open spec fn last_dot(s: Seq<char>) -> int
    decreases s.len(),
{
    if s.len() == 0 {
        -1
    } else if s[s.len() - 1] == '.' {
        s.len() - 1
    } else {
        last_dot(s.drop_last())
    }
}

/// The segment of a capture name before its first `.` (the whole name
/// when there is no dot).
pub open spec fn head_of(s: Seq<char>) -> Seq<char> {
    s.take(first_dot(s))
}

/// The segment of a capture name after its last `.` (the whole name
/// when there is no dot).
pub open spec fn tail_of(s: Seq<char>) -> Seq<char> {
    if last_dot(s) == -1 {
        s
    } else {
        s.skip(last_dot(s) + 1)
    }
}

pub proof fn lemma_first_dot(s: Seq<char>)
    ensures
        0 <= first_dot(s) <= s.len(),
        first_dot(s) < s.len() ==> s[first_dot(s)] == '.',
        forall|j: int| 0 <= j < first_dot(s) ==> s[j] != '.',
    decreases s.len(),
{
    if s.len() == 0 {
    } else if s[0] == '.' {
    } else {
        lemma_first_dot(s.drop_first());
        assert forall|j: int| 0 <= j < first_dot(s) implies s[j] != '.' by {
            if j >= 1 {
                assert(s[j] == s.drop_first()[j - 1]);
            }
        }
    }
}

pub proof fn lemma_last_dot(s: Seq<char>)
    ensures
        -1 <= last_dot(s) < s.len(),
        last_dot(s) >= 0 ==> s[last_dot(s)] == '.',
        forall|j: int| last_dot(s) < j < s.len() ==> s[j] != '.',
    decreases s.len(),
{
    if s.len() == 0 {
    } else if s[s.len() - 1] == '.' {
    } else {
        lemma_last_dot(s.drop_last());
        assert forall|j: int| last_dot(s) < j < s.len() implies s[j] != '.' by {
            if j < s.len() - 1 {
                assert(s[j] == s.drop_last()[j]);
            }
        }
    }
}

/// The token types of the modified legend: the heads of the names, in
/// first-occurrence order, without duplicates.
pub open spec fn types_of(names: Seq<Seq<char>>) -> Seq<Seq<char>>
    decreases names.len(),
{
    if names.len() == 0 {
        Seq::empty()
    } else {
        let prev = types_of(names.drop_last());
        if prev.contains(head_of(names.last())) {
            prev
        } else {
            prev.push(head_of(names.last()))
        }
    }
}

/// The modifiers of the modified legend: the tails of the names whose
/// tail differs from their head, in first-occurrence order, without
/// duplicates.
pub open spec fn mods_of(names: Seq<Seq<char>>) -> Seq<Seq<char>>
    decreases names.len(),
{
    if names.len() == 0 {
        Seq::empty()
    } else {
        let prev = mods_of(names.drop_last());
        let name = names.last();
        if head_of(name) == tail_of(name) || prev.contains(tail_of(name)) {
            prev
        } else {
            prev.push(tail_of(name))
        }
    }
}

/// Finds the first `.` of a string slice.
fn find_first_dot(s: &str) -> (i: usize)
    ensures
        i == first_dot(s@),
{
    let n = s.unicode_len();
    let mut i: usize = 0;
    while i < n
        invariant
            n == s@.len(),
            i <= n,
            forall|j: int| 0 <= j < i ==> s@[j] != '.',
        decreases n - i,
    {
        if s.get_char(i) == '.' {
            proof {
                lemma_first_dot(s@);
            }
            return i;
        }
        i = i + 1;
    }
    proof {
        lemma_first_dot(s@);
    }
    i
}

/// Finds the last `.` of a string slice; returns its index plus one, or
/// zero when there is no dot.
pub(crate) fn find_after_last_dot(s: &str) -> (i: usize)
    ensures
        i == last_dot(s@) + 1,
{
    let n = s.unicode_len();
    let mut i: usize = n;
    while i > 0
        invariant
            n == s@.len(),
            i <= n,
            forall|j: int| i <= j < n ==> s@[j] != '.',
        decreases i,
    {
        if s.get_char(i - 1) == '.' {
            proof {
                lemma_last_dot(s@);
            }
            return i;
        }
        i = i - 1;
    }
    proof {
        lemma_last_dot(s@);
    }
    0
}

/// The segment of a capture name before its first dot, as an owned string.
pub fn split_head(s: &str) -> (r: String)
    ensures
        r@ == head_of(s@),
{
    let i = find_first_dot(s);
    proof {
        lemma_first_dot(s@);
    }
    s.substring_char(0, i).to_owned()
}

/// The segment of a capture name after its last dot, as an owned string.
pub fn split_tail(s: &str) -> (r: String)
    ensures
        r@ == tail_of(s@),
{
    let i = find_after_last_dot(s);
    proof {
        lemma_last_dot(s@);
    }
    let n = s.unicode_len();
    s.substring_char(i, n).to_owned()
}

/// Whether one of the strings in `v` reads as `x`.
pub fn contains_string(v: &Vec<String>, x: &str) -> (r: bool)
    ensures
        r == v.deep_view().contains(x@),
{
    let n = v.len();
    let mut i: usize = 0;
    while i < n
        invariant
            n == v@.len(),
            i <= n,
            forall|j: int| 0 <= j < i ==> v.deep_view()[j] != x@,
        decreases n - i,
    {
        if str_eq(v[i].as_str(), x) {
            proof {
                assert(v.deep_view()[i as int] == x@);
            }
            return true;
        }
        i = i + 1;
    }
    false
}

/// Index of the first element of `v` equal to `x`, or `v.len()` if none is.
pub open spec fn idx_of(v: Seq<Seq<char>>, x: Seq<char>) -> int
    decreases v.len(),
{
    if v.len() == 0 {
        0
    } else if v[0] == x {
        0
    } else {
        1 + idx_of(v.drop_first(), x)
    }
}

pub proof fn lemma_idx_of(v: Seq<Seq<char>>, x: Seq<char>)
    ensures
        0 <= idx_of(v, x) <= v.len(),
        idx_of(v, x) < v.len() ==> v[idx_of(v, x)] == x,
        forall|j: int| 0 <= j < idx_of(v, x) ==> v[j] != x,
        v.contains(x) ==> idx_of(v, x) < v.len(),
    decreases v.len(),
{
    if v.len() == 0 {
    } else if v[0] == x {
    } else {
        lemma_idx_of(v.drop_first(), x);
        assert forall|j: int| 0 <= j < idx_of(v, x) implies v[j] != x by {
            if j >= 1 {
                assert(v[j] == v.drop_first()[j - 1]);
            }
        }
        if v.contains(x) {
            let w = choose|w: int| 0 <= w < v.len() && v[w] == x;
            assert(v.drop_first()[w - 1] == x);
            assert(v.drop_first().contains(x));
        }
    }
}

/// Position of the first string of `v` that reads as `x`; `v.len()` when
/// there is none.
pub fn find_index(v: &Vec<String>, x: &str) -> (r: usize)
    ensures
        r == idx_of(v.deep_view(), x@),
{
    let n = v.len();
    let mut i: usize = 0;
    while i < n
        invariant
            n == v@.len(),
            i <= n,
            forall|j: int| 0 <= j < i ==> v.deep_view()[j] != x@,
        decreases n - i,
    {
        if str_eq(v[i].as_str(), x) {
            proof {
                assert(v.deep_view()[i as int] == x@);
                lemma_idx_of(v.deep_view(), x@);
            }
            return i;
        }
        i = i + 1;
    }
    proof {
        lemma_idx_of(v.deep_view(), x@);
    }
    n
}

pub proof fn lemma_types_of_len(names: Seq<Seq<char>>)
    ensures
        types_of(names).len() <= names.len(),
        mods_of(names).len() <= names.len(),
    decreases names.len(),
{
    if names.len() > 0 {
        lemma_types_of_len(names.drop_last());
    }
}

/// Legend remap totality: the head of every capture name appears among
/// the modified legend's token types, and its tail, whenever it differs
/// from the head, appears among the modifiers.
pub proof fn lemma_legend_remap_totality(names: Seq<Seq<char>>)
    ensures
        forall|i: int|
            0 <= i < names.len() ==> types_of(names).contains(head_of(#[trigger] names[i])),
        forall|i: int|
            0 <= i < names.len() && head_of(names[i]) != tail_of(names[i]) ==> mods_of(
                names,
            ).contains(tail_of(#[trigger] names[i])),
    decreases names.len(),
{
    if names.len() > 0 {
        let prefix = names.drop_last();
        lemma_legend_remap_totality(prefix);
        let prev_types = types_of(prefix);
        let prev_mods = mods_of(prefix);
        assert forall|i: int|
            0 <= i < names.len() implies types_of(names).contains(
            head_of(#[trigger] names[i]),
        ) by {
            if i < names.len() - 1 {
                assert(prefix[i] == names[i]);
                assert(prev_types.contains(head_of(names[i])));
                let w = choose|w: int| 0 <= w < prev_types.len() && prev_types[w] == head_of(
                    names[i],
                );
                if !prev_types.contains(head_of(names.last())) {
                    assert(types_of(names)[w] == head_of(names[i]));
                }
            } else {
                if !prev_types.contains(head_of(names.last())) {
                    assert(types_of(names).last() == head_of(names.last()));
                }
            }
        }
        assert forall|i: int|
            0 <= i < names.len() && head_of(names[i]) != tail_of(names[i]) implies mods_of(
            names,
        ).contains(tail_of(#[trigger] names[i])) by {
            if i < names.len() - 1 {
                assert(prefix[i] == names[i]);
                assert(prev_mods.contains(tail_of(names[i])));
                let w = choose|w: int| 0 <= w < prev_mods.len() && prev_mods[w] == tail_of(
                    names[i],
                );
                if !(head_of(names.last()) == tail_of(names.last()) || prev_mods.contains(
                    tail_of(names.last()),
                )) {
                    assert(mods_of(names)[w] == tail_of(names[i]));
                }
            } else {
                if !(head_of(names.last()) == tail_of(names.last()) || prev_mods.contains(
                    tail_of(names.last()),
                )) {
                    assert(mods_of(names).last() == tail_of(names.last()));
                }
            }
        }
    }
}

/// Derives the modified legend from the capture names of a query:
/// heads become token types, differing tails become modifiers.
pub fn derive_modified_legend(names: &Vec<String>) -> (r: SemanticLegend)
    ensures
        r.types() == types_of(names.deep_view()),
        r.modifiers() == mods_of(names.deep_view()),
{
    let n = names.len();
    let mut token_types: Vec<String> = Vec::new();
    let mut modifiers: Vec<String> = Vec::new();
    let mut i: usize = 0;
    proof {
        assert(names.deep_view().take(0) =~= Seq::<Seq<char>>::empty());
        assert(token_types.deep_view() =~= Seq::<Seq<char>>::empty());
        assert(modifiers.deep_view() =~= Seq::<Seq<char>>::empty());
    }
    while i < n
        invariant
            n == names@.len(),
            i <= n,
            token_types.deep_view() == types_of(names.deep_view().take(i as int)),
            modifiers.deep_view() == mods_of(names.deep_view().take(i as int)),
        decreases n - i,
    {
        let ghost prev_types = token_types.deep_view();
        let ghost prev_mods = modifiers.deep_view();
        let head = split_head(names[i].as_str());
        let tail = split_tail(names[i].as_str());
        if !contains_string(&token_types, head.as_str()) {
            token_types.push(head.clone());
        }
        if !str_eq(head.as_str(), tail.as_str()) && !contains_string(&modifiers, tail.as_str()) {
            modifiers.push(tail);
        }
        proof {
            let dv = names.deep_view();
            assert(dv.take(i + 1).drop_last() =~= dv.take(i as int));
            assert(dv.take(i + 1).last() == dv[i as int]);
            if !prev_types.contains(head_of(dv[i as int])) {
                assert(token_types.deep_view() =~= prev_types.push(head_of(dv[i as int])));
            }
            if head_of(dv[i as int]) != tail_of(dv[i as int]) && !prev_mods.contains(
                tail_of(dv[i as int]),
            ) {
                assert(modifiers.deep_view() =~= prev_mods.push(tail_of(dv[i as int])));
            }
        }
        i = i + 1;
    }
    proof {
        assert(names.deep_view().take(n as int) =~= names.deep_view());
    }
    SemanticLegend { _token_types: token_types, _token_modifier: modifiers }
}

/// Position of `key` among the capture names, as the recorded index of
/// a special capture; absent names record nothing.
pub open spec fn spec_special_index(names: Seq<Seq<char>>, key: Seq<char>) -> Option<u32> {
    if idx_of(names, key) < names.len() {
        Some(idx_of(names, key) as u32)
    } else {
        None
    }
}

fn find_special(names: &Vec<String>, key: &str) -> (r: Option<u32>)
    requires
        names.deep_view().len() <= u32::MAX,
    ensures
        r == spec_special_index(names.deep_view(), key@),
{
    let i = find_index(names, key);
    proof {
        lemma_idx_of(names.deep_view(), key@);
    }
    if i < names.len() {
        Some(i as u32)
    } else {
        None
    }
}

/// One language's compiled query with its two legends and the recorded
/// indices of the special captures. Immutable after construction.
pub struct QueryData {
    pub query: tree_sitter::Query,
    pub legend: SemanticLegend,
    pub modified_legend: SemanticLegend,
    pub _local_scope: Option<u32>,
    pub _local_reference: Option<u32>,
    pub _local_definition: Option<u32>,
    pub _injection_content: Option<u32>,
    pub _injection_language: Option<u32>,
}

impl QueryData {
    /// The modified legend is derived from the capture names, and each
    /// special index records where its capture name stands among them.
    pub open spec fn wf(self) -> bool {
        &&& self.modified_legend.types() == types_of(self.legend.types())
        &&& self.modified_legend.modifiers() == mods_of(self.legend.types())
        &&& self.legend.types().len() <= u32::MAX
        &&& self._local_scope == spec_special_index(self.legend.types(), "local.scope"@)
        &&& self._local_reference == spec_special_index(self.legend.types(), "local.reference"@)
        &&& self._local_definition == spec_special_index(self.legend.types(), "local.definition"@)
        &&& self._injection_content == spec_special_index(
            self.legend.types(),
            "injection.content"@,
        )
        &&& self._injection_language == spec_special_index(
            self.legend.types(),
            "injection.language"@,
        )
    }
}

/// Compiles the language's query and derives everything the pipeline
/// needs from its capture names; `None` when the grammar refuses the
/// query text.
fn build_query_data(lang: &Lang) -> (r: Option<QueryData>)
    ensures
        r matches Some(qd) ==> qd.wf(),
{
    let language = get_tree_sitter_language(lang);
    let text = get_query_from_each_language(lang);
    let query = match ts_query_new(&language, text.as_str()) {
        None => {
            return None;
        },
        Some(q) => q,
    };
    let names = ts_query_capture_names(&query);
    if names.len() > (u32::MAX as usize) {
        return None;
    }
    let modified_legend = derive_modified_legend(&names);
    let local_scope = find_special(&names, "local.scope");
    let local_reference = find_special(&names, "local.reference");
    let local_definition = find_special(&names, "local.definition");
    let injection_content = find_special(&names, "injection.content");
    let injection_language = find_special(&names, "injection.language");
    let legend = SemanticLegend::create(names);
    Some(
        QueryData {
            query,
            legend,
            modified_legend,
            _local_scope: local_scope,
            _local_reference: local_reference,
            _local_definition: local_definition,
            _injection_content: injection_content,
            _injection_language: injection_language,
        },
    )
}

/// Index of the first entry for `lang`, or the number of entries when
/// there is none.
pub open spec fn first_lang_entry(entries: Seq<(Lang, QueryData)>, lang: Lang) -> int
    decreases entries.len(),
{
    if entries.len() == 0 {
        0
    } else if entries[0].0 == lang {
        0
    } else {
        1 + first_lang_entry(entries.drop_first(), lang)
    }
}

pub proof fn lemma_first_lang_entry(entries: Seq<(Lang, QueryData)>, lang: Lang)
    ensures
        0 <= first_lang_entry(entries, lang) <= entries.len(),
        first_lang_entry(entries, lang) < entries.len() ==> entries[first_lang_entry(
            entries,
            lang,
        )].0 == lang,
        forall|j: int|
            0 <= j < first_lang_entry(entries, lang) ==> (#[trigger] entries[j]).0 != lang,
    decreases entries.len(),
{
    if entries.len() == 0 {
    } else if entries[0].0 == lang {
    } else {
        lemma_first_lang_entry(entries.drop_first(), lang);
        assert forall|j: int|
            0 <= j < first_lang_entry(entries, lang) implies (#[trigger] entries[j]).0 != lang by {
            if j >= 1 {
                assert(entries[j] == entries.drop_first()[j - 1]);
            }
        }
    }
}

/// Whether `t` is classified by the special capture index `idx`.
pub open spec fn is_special(idx: Option<u32>, t: Token) -> bool {
    idx matches Some(i) && t.token_type == i
}

/// The tokens of `s` classified by the special capture index `idx`, in
/// order.
pub open spec fn bin_of(s: Seq<Token>, idx: Option<u32>) -> Seq<Token>
    decreases s.len(),
{
    if s.len() == 0 {
        s
    } else {
        let prev = bin_of(s.drop_last(), idx);
        if is_special(idx, s.last()) {
            prev.push(s.last())
        } else {
            prev
        }
    }
}

/// The tokens of `s` classified by none of the three local captures:
/// the pre-remap highlight list.
pub open spec fn highlights_of(
    s: Seq<Token>,
    scope: Option<u32>,
    reference: Option<u32>,
    definition: Option<u32>,
) -> Seq<Token>
    decreases s.len(),
{
    if s.len() == 0 {
        s
    } else {
        let prev = highlights_of(s.drop_last(), scope, reference, definition);
        if is_special(scope, s.last()) || is_special(reference, s.last()) || is_special(
            definition,
            s.last(),
        ) {
            prev
        } else {
            prev.push(s.last())
        }
    }
}

/// The whole pipeline on one captured token list: bin the tokens,
/// resolve each highlight against the scopes and locals, remap it onto
/// the modified legend, then sort, deduplicate and delta-encode.
pub open spec fn spec_pipeline(tokens: Seq<Token>, qd: QueryData) -> Seq<u32> {
    let hl = highlights_of(tokens, qd._local_scope, qd._local_reference, qd._local_definition);
    let scopes = bin_of(tokens, qd._local_scope);
    let definitions = bin_of(tokens, qd._local_definition);
    let references = bin_of(tokens, qd._local_reference);
    spec_emit(
        Seq::new(
            hl.len(),
            |i: int|
                spec_remap_token(
                    spec_resolve(hl[i], scopes, definitions, references),
                    qd.legend.types(),
                    qd.modified_legend.types(),
                    qd.modified_legend.modifiers(),
                ),
        ),
    )
}

/// The per-language registry of compiled queries.
pub struct QueryManager(pub Vec<(Lang, QueryData)>);

impl QueryManager {
    pub open spec fn wf(self) -> bool {
        forall|i: int| 0 <= i < self.0@.len() ==> (#[trigger] self.0@[i]).1.wf()
    }

    /// The registry's entry for a language, first match winning.
    pub open spec fn spec_entry(self, lang: Lang) -> Option<QueryData> {
        if first_lang_entry(self.0@, lang) < self.0@.len() {
            Some(self.0@[first_lang_entry(self.0@, lang)].1)
        } else {
            None
        }
    }

    pub open spec fn spec_has_query(self, lang: Lang) -> bool {
        self.spec_entry(lang) is Some
    }

    fn find_entry(&self, lang: &Lang) -> (r: Option<usize>)
        ensures
            match r {
                Some(i) => i == first_lang_entry(self.0@, *lang) && i < self.0@.len(),
                None => first_lang_entry(self.0@, *lang) == self.0@.len(),
            },
    {
        let n = self.0.len();
        let mut i: usize = 0;
        while i < n
            invariant
                n == self.0@.len(),
                i <= n,
                forall|j: int| 0 <= j < i ==> (#[trigger] self.0@[j]).0 != *lang,
            decreases n - i,
        {
            if self.0[i].0 == *lang {
                proof {
                    lemma_first_lang_entry(self.0@, *lang);
                }
                return Some(i);
            }
            i = i + 1;
        }
        proof {
            lemma_first_lang_entry(self.0@, *lang);
        }
        None
    }

    /// The modified legend of a language: what `get_tokens_legend`
    /// hands to the front-end.
    pub fn get_legend(&self, lang: &Lang) -> (r: Result<SemanticLegend, NotFoundError>)
        ensures
            !self.spec_has_query(*lang) ==> (r matches Err(e) && e
                matches NotFoundError::QueryNotFoundError(s) && s@ == spec_lang_name(*lang)),
            self.spec_entry(*lang) matches Some(qd) ==> r matches Ok(l) && l.types()
                == qd.modified_legend.types() && l.modifiers() == qd.modified_legend.modifiers(),
    {
        match self.find_entry(lang) {
            None => Err(NotFoundError::QueryNotFoundError(lang.to_string())),
            Some(i) => {
                let qd = &self.0[i].1;
                Ok(
                    SemanticLegend {
                        _token_types: qd.modified_legend.get_token_types(),
                        _token_modifier: qd.modified_legend.get_modifier(),
                    },
                )
            },
        }
    }

    /// The unmodified legend of a language: the capture names as the
    /// query text wrote them.
    pub fn get_unmodified_legend(&self, lang: &Lang) -> (r: Result<SemanticLegend, NotFoundError>)
        ensures
            !self.spec_has_query(*lang) ==> (r matches Err(e) && e
                matches NotFoundError::QueryNotFoundError(s) && s@ == spec_lang_name(*lang)),
            self.spec_entry(*lang) matches Some(qd) ==> r matches Ok(l) && l.types()
                == qd.legend.types() && l.modifiers() == qd.legend.modifiers(),
    {
        match self.find_entry(lang) {
            None => Err(NotFoundError::QueryNotFoundError(lang.to_string())),
            Some(i) => {
                let qd = &self.0[i].1;
                Ok(
                    SemanticLegend {
                        _token_types: qd.legend.get_token_types(),
                        _token_modifier: qd.legend.get_modifier(),
                    },
                )
            },
        }
    }

    /// Runs the language's query over the tree and turns every capture
    /// into a token carrying its capture index, byte length and range.
    /// With no cached tree there is nothing to capture.
    pub fn iter_query(
        &self,
        tree: &Option<tree_sitter::Tree>,
        language: &Lang,
        ranged_source_code: &Vec<u8>,
    ) -> (r: Result<Vec<Token>, NotFoundError>)
        ensures
            !self.spec_has_query(*language) ==> (r matches Err(e) && e
                matches NotFoundError::QueryNotFoundError(s) && s@ == spec_lang_name(*language)),
            self.spec_entry(*language) matches Some(qd) ==> r matches Ok(tokens) && tokens_bounded(
                tokens@,
                qd.legend.types().len() as int,
            ) && (forall|i: int| 0 <= i < tokens@.len() ==> (#[trigger] tokens@[i]).modifier == 0)
                && (tree is None ==> tokens@.len() == 0),
    {
        let i = match self.find_entry(language) {
            None => {
                return Err(NotFoundError::QueryNotFoundError(language.to_string()));
            },
            Some(i) => i,
        };
        let qd = &self.0[i].1;
        let mut data: Vec<Token> = Vec::new();
        match tree {
            None => Ok(data),
            Some(tree) => {
                let raw = ts_query_captures(&qd.query, tree, ranged_source_code);
                let legend_len = qd.legend._token_types.len();
                let n = raw.len();
                let mut k: usize = 0;
                while k < n
                    invariant
                        n == raw@.len(),
                        k <= n,
                        legend_len == qd.legend.types().len(),
                        forall|j: int|
                            0 <= j < raw@.len() ==> (#[trigger] raw@[j]).start_byte
                                <= raw@[j].end_byte && raw@[j].end_byte <= u32::MAX,
                        tokens_bounded(data@, legend_len as int),
                        forall|j: int|
                            0 <= j < data@.len() ==> (#[trigger] data@[j]).modifier == 0,
                    decreases n - k,
                {
                    let capture = raw[k];
                    if (capture.index as usize) < legend_len {
                        data.push(Token::new(&capture));
                    }
                    k = k + 1;
                }
                Ok(data)
            },
        }
    }

    /// Partitions the captured tokens into the scope, definition,
    /// reference and highlight bins of the language, and pairs them
    /// with its legends.
    pub fn sort_layer(&self, tokens: Vec<Token>, lang: &Lang) -> (r: Result<
        HighlightIter,
        NotFoundError,
    >)
        requires
            self.wf(),
            self.spec_entry(*lang) matches Some(qd) ==> tokens_bounded(
                tokens@,
                qd.legend.types().len() as int,
            ),
        ensures
            !self.spec_has_query(*lang) ==> (r matches Err(e) && e
                matches NotFoundError::QueryNotFoundError(s) && s@ == spec_lang_name(*lang)),
            self.spec_entry(*lang) matches Some(qd) ==> r matches Ok(h) && h.wf()
                && h.spec_unmodified().types() == qd.legend.types() && h.spec_modified().types()
                == qd.modified_legend.types() && h.spec_modified().modifiers()
                == qd.modified_legend.modifiers() && h.spec_scopes() == bin_of(
                tokens@,
                qd._local_scope,
            ) && h.spec_definitions() == bin_of(tokens@, qd._local_definition)
                && h.spec_references() == bin_of(tokens@, qd._local_reference)
                && h.spec_highlights() == highlights_of(
                tokens@,
                qd._local_scope,
                qd._local_reference,
                qd._local_definition,
            ),
    {
        let ei = match self.find_entry(lang) {
            None => {
                return Err(NotFoundError::QueryNotFoundError(lang.to_string()));
            },
            Some(i) => i,
        };
        let qd = &self.0[ei].1;
        let ghost bound = qd.legend.types().len() as int;
        let n = tokens.len();
        let mut scope: Vec<Token> = Vec::new();
        let mut local_definition: Vec<Token> = Vec::new();
        let mut local_reference: Vec<Token> = Vec::new();
        let mut highlights_data: Vec<Token> = Vec::new();
        let mut i: usize = 0;
        proof {
            assert(tokens@.take(0) =~= Seq::<Token>::empty());
        }
        while i < n
            invariant
                n == tokens@.len(),
                i <= n,
                tokens_bounded(tokens@, bound),
                scope@ == bin_of(tokens@.take(i as int), qd._local_scope),
                local_definition@ == bin_of(tokens@.take(i as int), qd._local_definition),
                local_reference@ == bin_of(tokens@.take(i as int), qd._local_reference),
                highlights_data@ == highlights_of(
                    tokens@.take(i as int),
                    qd._local_scope,
                    qd._local_reference,
                    qd._local_definition,
                ),
                tokens_bounded(scope@, bound),
                tokens_bounded(local_definition@, bound),
                tokens_bounded(local_reference@, bound),
                tokens_bounded(highlights_data@, bound),
            decreases n - i,
        {
            let token = tokens[i];
            proof {
                assert(tokens@.take(i + 1).drop_last() =~= tokens@.take(i as int));
                assert(tokens@.take(i + 1).last() == tokens@[i as int]);
            }
            let mut special = false;
            if let Some(idx) = qd._local_scope {
                if token.token_type() == idx {
                    scope.push(token);
                    special = true;
                }
            }
            if let Some(idx) = qd._local_definition {
                if token.token_type() == idx {
                    local_definition.push(token);
                }
            }
            if let Some(idx) = qd._local_reference {
                if token.token_type() == idx {
                    local_reference.push(token);
                }
            }
            if !special {
                let mut is_ref_or_def = false;
                if let Some(idx) = qd._local_reference {
                    if token.token_type() == idx {
                        is_ref_or_def = true;
                    }
                }
                if let Some(idx) = qd._local_definition {
                    if token.token_type() == idx {
                        is_ref_or_def = true;
                    }
                }
                if !is_ref_or_def {
                    highlights_data.push(token);
                }
            }
            i = i + 1;
        }
        proof {
            assert(tokens@.take(n as int) =~= tokens@);
        }
        let legend = SemanticLegend {
            _token_types: qd.legend.get_token_types(),
            _token_modifier: qd.legend.get_modifier(),
        };
        let modified = SemanticLegend {
            _token_types: qd.modified_legend.get_token_types(),
            _token_modifier: qd.modified_legend.get_modifier(),
        };
        Ok(
            HighlightIter::new(
                highlights_data,
                scope,
                local_definition,
                local_reference,
                legend,
                modified,
            ),
        )
    }
}

/// Where a language stands in the registry's build order; languages
/// the registry never attempts sort last.
pub open spec fn spec_attempt_order(lang: Lang) -> int {
    match lang {
        Lang::Javascript => 0,
        Lang::Rust => 1,
        Lang::Typescript => 2,
        Lang::Json => 3,
        Lang::Html => 4,
        _ => 5,
    }
}

impl Default for QueryManager {
    /// Compiles the query of every language that ships one; a language
    /// whose query text does not compile is left out. Whatever the
    /// grammars accept, the entries are drawn from the five attempted
    /// languages, at most one each, in attempt order.
    fn default() -> (r: QueryManager)
        ensures
            r.wf(),
            forall|i: int| 0 <= i < r.0@.len() ==> spec_attempt_order((#[trigger] r.0@[i]).0) < 5,
            forall|i: int, j: int|
                0 <= i < j < r.0@.len() ==> spec_attempt_order(r.0@[i].0) < spec_attempt_order(
                    r.0@[j].0,
                ),
    {
        let mut queries: Vec<(Lang, QueryData)> = Vec::new();
        if let Some(qd) = build_query_data(&Lang::Javascript) {
            queries.push((Lang::Javascript, qd));
        }
        if let Some(qd) = build_query_data(&Lang::Rust) {
            queries.push((Lang::Rust, qd));
        }
        if let Some(qd) = build_query_data(&Lang::Typescript) {
            queries.push((Lang::Typescript, qd));
        }
        if let Some(qd) = build_query_data(&Lang::Json) {
            queries.push((Lang::Json, qd));
        }
        if let Some(qd) = build_query_data(&Lang::Html) {
            queries.push((Lang::Html, qd));
        }
        QueryManager(queries)
    }
}

} // verus!
