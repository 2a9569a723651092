//! The highlight pipeline: scope/locals resolution, legend remap, and the
//! delta-encoded emit stage.
//!
//! `HighlightIter` carries the four bins of captured tokens (ordinary
//! highlights, `local.scope`, `local.definition`, `local.reference`)
//! together with the language's two legends. `analyse_layer` resolves each
//! highlight against the enclosing scopes and remaps it onto the modified
//! legend; `MonacoHighlights::emit` sorts, deduplicates and delta-encodes
//! the result.

use crate::treesitter_backend::query::{
    head_of, idx_of, lemma_idx_of, lemma_legend_remap_totality, lemma_types_of_len, mods_of,
    tail_of, types_of, RangePoint, SemanticLegend, Token,
};
use vstd::prelude::*;

verus! {

/// Index of the first token of `v` whose range strictly contains `r`,
/// or `v.len()` if there is none.
pub open spec fn first_within(v: Seq<Token>, r: RangePoint) -> int
    decreases v.len(),
{
    if v.len() == 0 {
        0
    } else if v[0].range.spec_within(r) {
        0
    } else {
        1 + first_within(v.drop_first(), r)
    }
}

pub proof fn lemma_first_within(v: Seq<Token>, r: RangePoint)
    ensures
        0 <= first_within(v, r) <= v.len(),
        first_within(v, r) < v.len() ==> v[first_within(v, r)].range.spec_within(r),
        forall|j: int| 0 <= j < first_within(v, r) ==> !(#[trigger] v[j]).range.spec_within(r),
    decreases v.len(),
{
    if v.len() == 0 {
    } else if v[0].range.spec_within(r) {
    } else {
        lemma_first_within(v.drop_first(), r);
        assert forall|j: int|
            0 <= j < first_within(v, r) implies !(#[trigger] v[j]).range.spec_within(r) by {
            if j >= 1 {
                assert(v[j] == v.drop_first()[j - 1]);
            }
        }
    }
}

/// Index of the first token of `v` whose range equals `r`, or `v.len()`
/// if there is none.
pub open spec fn first_range_eq(v: Seq<Token>, r: RangePoint) -> int
    decreases v.len(),
{
    if v.len() == 0 {
        0
    } else if v[0].range == r {
        0
    } else {
        1 + first_range_eq(v.drop_first(), r)
    }
}

pub proof fn lemma_first_range_eq(v: Seq<Token>, r: RangePoint)
    ensures
        0 <= first_range_eq(v, r) <= v.len(),
        first_range_eq(v, r) < v.len() ==> v[first_range_eq(v, r)].range == r,
        forall|j: int| 0 <= j < first_range_eq(v, r) ==> (#[trigger] v[j]).range != r,
    decreases v.len(),
{
    if v.len() == 0 {
    } else if v[0].range == r {
    } else {
        lemma_first_range_eq(v.drop_first(), r);
        assert forall|j: int|
            0 <= j < first_range_eq(v, r) implies (#[trigger] v[j]).range != r by {
            if j >= 1 {
                assert(v[j] == v.drop_first()[j - 1]);
            }
        }
    }
}

/// The effective classification of a highlight token: inside an enclosing
/// scope, an equal-ranged `local.reference` (or, failing that, an
/// equal-ranged `local.definition`) replaces it; otherwise it is kept.
pub open spec fn spec_resolve(t: Token, scopes: Seq<Token>, defs: Seq<Token>, refs: Seq<
    Token,
>) -> Token {
    if first_within(scopes, t.range) < scopes.len() {
        if first_range_eq(refs, t.range) < refs.len() {
            refs[first_range_eq(refs, t.range)]
        } else if first_range_eq(defs, t.range) < defs.len() {
            defs[first_range_eq(defs, t.range)]
        } else {
            t
        }
    } else {
        t
    }
}

/// Where an unmodified-legend index lands in the modified legend: the
/// position of its name's head among the token types, and of its tail
/// among the modifiers (zero when the tail repeats the head).
pub open spec fn spec_remap_pair(
    un: Seq<Seq<char>>,
    types: Seq<Seq<char>>,
    mods: Seq<Seq<char>>,
    idx: int,
) -> (u32, u32) {
    let name = un[idx];
    let t = idx_of(types, head_of(name)) as u32;
    let m = if head_of(name) == tail_of(name) {
        0u32
    } else {
        idx_of(mods, tail_of(name)) as u32
    };
    (t, m)
}

/// A token rewritten onto the modified legend.
pub open spec fn spec_remap_token(
    t: Token,
    un: Seq<Seq<char>>,
    types: Seq<Seq<char>>,
    mods: Seq<Seq<char>>,
) -> Token {
    let p = spec_remap_pair(un, types, mods, t.token_type as int);
    Token { token_type: p.0, modifier: p.1, ..t }
}

/// Every token of `v` carries an index into a legend of `n` names.
pub open spec fn tokens_bounded(v: Seq<Token>, n: int) -> bool {
    forall|i: int| 0 <= i < v.len() ==> (#[trigger] v[i]).token_type < n
}

/// The post-remap token list, in capture order.
#[derive(Debug)]
pub struct Highlights(pub Vec<Token>);

impl View for Highlights {
    type V = Seq<Token>;

    open spec fn view(&self) -> Seq<Token> {
        self.0@
    }
}

/// The four bins of one highlight request, with the two legends they
/// are interpreted against.
#[derive(Debug)]
pub struct HighlightIter {
    pub highlights: Vec<Token>,
    pub scopes: Vec<Token>,
    pub local_definition: Vec<Token>,
    pub local_reference: Vec<Token>,
    pub legend_based_on: SemanticLegend,
    pub legend_modified_to: SemanticLegend,
}

impl HighlightIter {
    /// The second legend is the one derived from the first, and every
    /// binned token indexes into the first.
    pub open spec fn wf(self) -> bool {
        &&& self.legend_modified_to.types() == types_of(self.legend_based_on.types())
        &&& self.legend_modified_to.modifiers() == mods_of(self.legend_based_on.types())
        &&& self.legend_based_on.types().len() <= u32::MAX
        &&& tokens_bounded(self.highlights@, self.legend_based_on.types().len() as int)
        &&& tokens_bounded(self.local_definition@, self.legend_based_on.types().len() as int)
        &&& tokens_bounded(self.local_reference@, self.legend_based_on.types().len() as int)
    }

    pub open spec fn spec_highlights(self) -> Seq<Token> {
        self.highlights@
    }

    pub open spec fn spec_scopes(self) -> Seq<Token> {
        self.scopes@
    }

    pub open spec fn spec_definitions(self) -> Seq<Token> {
        self.local_definition@
    }

    pub open spec fn spec_references(self) -> Seq<Token> {
        self.local_reference@
    }

    pub open spec fn spec_unmodified(self) -> SemanticLegend {
        self.legend_based_on
    }

    pub open spec fn spec_modified(self) -> SemanticLegend {
        self.legend_modified_to
    }

    /// What `analyse_layer` returns: each highlight resolved against the
    /// scopes and locals, then remapped onto the modified legend.
    pub open spec fn spec_analyse(self) -> Seq<Token> {
        Seq::new(
            self.highlights@.len(),
            |i: int|
                spec_remap_token(
                    spec_resolve(
                        self.highlights@[i],
                        self.scopes@,
                        self.local_definition@,
                        self.local_reference@,
                    ),
                    self.legend_based_on.types(),
                    self.legend_modified_to.types(),
                    self.legend_modified_to.modifiers(),
                ),
        )
    }

    pub fn new(
        highlights: Vec<Token>,
        scopes: Vec<Token>,
        local_definition: Vec<Token>,
        local_reference: Vec<Token>,
        legend_based_on: SemanticLegend,
        legend_modified_to: SemanticLegend,
    ) -> (r: HighlightIter)
        ensures
            r.spec_highlights() == highlights@,
            r.spec_scopes() == scopes@,
            r.spec_definitions() == local_definition@,
            r.spec_references() == local_reference@,
            r.spec_unmodified() == legend_based_on,
            r.spec_modified() == legend_modified_to,
    {
        HighlightIter {
            highlights,
            scopes,
            local_definition,
            local_reference,
            legend_based_on,
            legend_modified_to,
        }
    }

    /// The first scope in capture order whose range strictly contains
    /// `range`, if any. Which of several nested scopes is returned
    /// does not matter to the pipeline: resolution only asks whether
    /// one exists, and the replacement is looked up by the highlight's
    /// own range.
    pub fn check_whether_in_scope(&self, range: RangePoint) -> (r: Option<Token>)
        ensures
            first_within(self.spec_scopes(), range) < self.spec_scopes().len() ==> r == Some(
                self.spec_scopes()[first_within(self.spec_scopes(), range)],
            ),
            first_within(self.spec_scopes(), range) == self.spec_scopes().len() ==> r is None,
    {
        let n = self.scopes.len();
        let mut i: usize = 0;
        while i < n
            invariant
                n == self.scopes@.len(),
                i <= n,
                forall|j: int| 0 <= j < i ==> !(#[trigger] self.scopes@[j]).range.spec_within(range),
            decreases n - i,
        {
            let scope = self.scopes[i];
            if scope.range().within(range) {
                proof {
                    lemma_first_within(self.scopes@, range);
                }
                return Some(scope);
            }
            i = i + 1;
        }
        proof {
            lemma_first_within(self.scopes@, range);
        }
        None
    }

    /// Translates one unmodified-legend index to its modified-legend
    /// `(token_type, modifier)` pair.
    pub fn remaping(&self, identifier_index: u32) -> (r: (u32, u32))
        requires
            self.legends_wf(),
            identifier_index < self.spec_unmodified().types().len(),
        ensures
            r == spec_remap_pair(
                self.spec_unmodified().types(),
                self.spec_modified().types(),
                self.spec_modified().modifiers(),
                identifier_index as int,
            ),
    {
        proof {
            lemma_legend_remap_totality(self.legend_based_on.types());
            lemma_types_of_len(self.legend_based_on.types());
            lemma_idx_of(
                self.legend_modified_to.types(),
                head_of(self.legend_based_on.types()[identifier_index as int]),
            );
            lemma_idx_of(
                self.legend_modified_to.modifiers(),
                tail_of(self.legend_based_on.types()[identifier_index as int]),
            );
        }
        let name = &self.legend_based_on._token_types[identifier_index as usize];
        let head = crate::treesitter_backend::query::split_head(name.as_str());
        let tail = crate::treesitter_backend::query::split_tail(name.as_str());
        let token_type_index = crate::treesitter_backend::query::find_index(
            &self.legend_modified_to._token_types,
            head.as_str(),
        );
        let mut modifier_index: usize = 0;
        if !crate::textutil::str_eq(head.as_str(), tail.as_str()) {
            modifier_index = crate::treesitter_backend::query::find_index(
                &self.legend_modified_to._token_modifier,
                tail.as_str(),
            );
        }
        (token_type_index as u32, modifier_index as u32)
    }

    /// The legend halves of `wf`.
    pub open spec fn legends_wf(self) -> bool {
        &&& self.legend_modified_to.types() == types_of(self.legend_based_on.types())
        &&& self.legend_modified_to.modifiers() == mods_of(self.legend_based_on.types())
        &&& self.legend_based_on.types().len() <= u32::MAX
    }

    /// Resolves every highlight against the enclosing scopes and locals
    /// and remaps it onto the modified legend.
    pub fn analyse_layer(&mut self) -> (r: Highlights)
        requires
            old(self).wf(),
        ensures
            *final(self) == *old(self),
            r@ == old(self).spec_analyse(),
    {
        let mut result: Vec<Token> = Vec::new();
        let legend_len = self.legend_based_on._token_types.len();
        let mut cached_index: Vec<Option<(u32, u32)>> = vec![None; legend_len];
        let n = self.highlights.len();
        let mut i: usize = 0;
        while i < n
            invariant
                *self == *old(self),
                old(self).wf(),
                n == self.highlights@.len(),
                i <= n,
                result@.len() == i,
                forall|k: int| 0 <= k < i ==> result@[k] == old(self).spec_analyse()[k],
                cached_index@.len() == legend_len,
                legend_len == self.legend_based_on.types().len(),
                forall|k: int|
                    0 <= k < legend_len ==> ((#[trigger] cached_index@[k]) matches Some(p) ==> p
                        == spec_remap_pair(
                        self.legend_based_on.types(),
                        self.legend_modified_to.types(),
                        self.legend_modified_to.modifiers(),
                        k,
                    )),
            decreases n - i,
        {
            let token = self.highlights[i];
            let range = token.range();
            let current_scope = self.check_whether_in_scope(range);
            let mut new_token = token;
            if current_scope.is_some() {
                match find_equal_range(&self.local_reference, range) {
                    Some(reference) => {
                        new_token = reference;
                    },
                    None => {
                        match find_equal_range(&self.local_definition, range) {
                            Some(definition) => {
                                new_token = definition;
                            },
                            None => {},
                        }
                    },
                }
            }
            proof {
                lemma_first_within(self.scopes@, range);
                lemma_first_range_eq(self.local_reference@, range);
                lemma_first_range_eq(self.local_definition@, range);
                assert(new_token == spec_resolve(
                    self.highlights@[i as int],
                    self.scopes@,
                    self.local_definition@,
                    self.local_reference@,
                ));
            }
            let identifier = new_token.token_type();
            let pair: (u32, u32) = match cached_index[identifier as usize] {
                Some(p) => p,
                None => {
                    let p = self.remaping(identifier);
                    cached_index[identifier as usize] = Some(p);
                    p
                },
            };
            new_token.remap_token_n_modifier(pair);
            result.push(new_token);
            i = i + 1;
        }
        Highlights(result)
    }

    pub fn get_highlights_data(&self) -> (r: Vec<Token>)
        ensures
            r@ == self.spec_highlights(),
    {
        let r = self.highlights.clone();
        proof {
            assert(r@ =~= self.highlights@);
        }
        r
    }

    pub fn get_scopes_data(&self) -> (r: Vec<Token>)
        ensures
            r@ == self.spec_scopes(),
    {
        let r = self.scopes.clone();
        proof {
            assert(r@ =~= self.scopes@);
        }
        r
    }

    pub fn get_unmodified_legend(&self) -> (r: SemanticLegend)
        ensures
            r.types() == self.spec_unmodified().types(),
            r.modifiers() == self.spec_unmodified().modifiers(),
    {
        SemanticLegend {
            _token_types: self.legend_based_on.get_token_types(),
            _token_modifier: self.legend_based_on.get_modifier(),
        }
    }

    pub fn get_modified_legend(&self) -> (r: SemanticLegend)
        ensures
            r.types() == self.spec_modified().types(),
            r.modifiers() == self.spec_modified().modifiers(),
    {
        SemanticLegend {
            _token_types: self.legend_modified_to.get_token_types(),
            _token_modifier: self.legend_modified_to.get_modifier(),
        }
    }
}

/// Token `a` starts no later than token `b`, comparing `(row, col)`
/// lexicographically.
pub open spec fn token_le(a: Token, b: Token) -> bool {
    a.range.0 < b.range.0 || (a.range.0 == b.range.0 && a.range.1 <= b.range.1)
}

/// Token `a` starts strictly before token `b`.
pub open spec fn token_lt(a: Token, b: Token) -> bool {
    a.range.0 < b.range.0 || (a.range.0 == b.range.0 && a.range.1 < b.range.1)
}

/// The tokens of `s` are in non-decreasing start-position order.
pub open spec fn sorted_tokens(s: Seq<Token>) -> bool {
    forall|i: int, j: int| 0 <= i < j < s.len() ==> token_le(#[trigger] s[i], #[trigger] s[j])
}

/// Index of the first token of `s` that starts strictly after `t`, or
/// `s.len()` if none does: where a stable insertion sort places `t`.
pub open spec fn first_after(s: Seq<Token>, t: Token) -> int
    decreases s.len(),
{
    if s.len() == 0 {
        0
    } else if token_lt(t, s[0]) {
        0
    } else {
        1 + first_after(s.drop_first(), t)
    }
}

/// `t` inserted into `s` before the first token that starts strictly
/// after it (so equal starts keep their arrival order).
pub open spec fn insert_sorted(s: Seq<Token>, t: Token) -> Seq<Token>
    decreases s.len(),
{
    if s.len() == 0 {
        seq![t]
    } else if token_lt(t, s[0]) {
        seq![t] + s
    } else {
        seq![s[0]] + insert_sorted(s.drop_first(), t)
    }
}

/// Stable insertion sort of `s` by start position.
pub open spec fn sort_tokens(s: Seq<Token>) -> Seq<Token>
    decreases s.len(),
{
    if s.len() == 0 {
        Seq::empty()
    } else {
        insert_sorted(sort_tokens(s.drop_last()), s.last())
    }
}

pub proof fn lemma_first_after(s: Seq<Token>, t: Token)
    ensures
        0 <= first_after(s, t) <= s.len(),
        first_after(s, t) < s.len() ==> token_lt(t, s[first_after(s, t)]),
        forall|j: int| 0 <= j < first_after(s, t) ==> !token_lt(t, #[trigger] s[j]),
    decreases s.len(),
{
    if s.len() == 0 {
    } else if token_lt(t, s[0]) {
    } else {
        lemma_first_after(s.drop_first(), t);
        assert forall|j: int| 0 <= j < first_after(s, t) implies !token_lt(t, #[trigger] s[j]) by {
            if j >= 1 {
                assert(s[j] == s.drop_first()[j - 1]);
            }
        }
    }
}

pub proof fn lemma_insert_sorted_as_insert(s: Seq<Token>, t: Token)
    ensures
        insert_sorted(s, t) == s.insert(first_after(s, t), t),
        insert_sorted(s, t).len() == s.len() + 1,
    decreases s.len(),
{
    lemma_first_after(s, t);
    if s.len() == 0 {
        assert(insert_sorted(s, t) =~= s.insert(0, t));
    } else if token_lt(t, s[0]) {
        assert(insert_sorted(s, t) =~= s.insert(0, t));
    } else {
        lemma_insert_sorted_as_insert(s.drop_first(), t);
        lemma_first_after(s.drop_first(), t);
        assert(insert_sorted(s, t) =~= s.insert(first_after(s, t), t));
    }
}

pub proof fn lemma_insert_sorted_props(s: Seq<Token>, t: Token)
    requires
        sorted_tokens(s),
    ensures
        sorted_tokens(insert_sorted(s, t)),
        insert_sorted(s, t).len() == s.len() + 1,
        forall|x: Token|
            #![trigger insert_sorted(s, t).contains(x)]
            insert_sorted(s, t).contains(x) <==> (s.contains(x) || x == t),
{
    lemma_first_after(s, t);
    lemma_insert_sorted_as_insert(s, t);
    let p = first_after(s, t);
    let r = s.insert(p, t);
    assert forall|i: int, j: int| 0 <= i < j < r.len() implies token_le(
        #[trigger] r[i],
        #[trigger] r[j],
    ) by {
        if i < p && j < p {
            assert(r[i] == s[i] && r[j] == s[j]);
        } else if i < p && j == p {
            assert(r[i] == s[i] && r[j] == t);
            assert(!token_lt(t, s[i]));
        } else if i < p && j > p {
            assert(r[i] == s[i] && r[j] == s[j - 1]);
        } else if i == p && j > p {
            assert(r[i] == t && r[j] == s[j - 1]);
            if j - 1 == p {
                assert(token_lt(t, s[p]));
            } else {
                assert(token_lt(t, s[p]));
                assert(token_le(s[p], s[j - 1]));
            }
        } else if i > p && j > p {
            assert(r[i] == s[i - 1] && r[j] == s[j - 1]);
        }
    }
    assert forall|x: Token| r.contains(x) <==> (s.contains(x) || x == t) by {
        if r.contains(x) {
            let k = choose|k: int| 0 <= k < r.len() && r[k] == x;
            if k < p {
                assert(s[k] == x);
            } else if k > p {
                assert(s[k - 1] == x);
            }
        }
        if s.contains(x) {
            let k = choose|k: int| 0 <= k < s.len() && s[k] == x;
            if k < p {
                assert(r[k] == x);
            } else {
                assert(r[k + 1] == x);
            }
        }
        if x == t {
            assert(r[p] == x);
        }
    }
}

pub proof fn lemma_sort_tokens_props(s: Seq<Token>)
    ensures
        sorted_tokens(sort_tokens(s)),
        sort_tokens(s).len() == s.len(),
        forall|x: Token| sort_tokens(s).contains(x) <==> s.contains(x),
    decreases s.len(),
{
    if s.len() == 0 {
    } else {
        let init = s.drop_last();
        lemma_sort_tokens_props(init);
        lemma_insert_sorted_props(sort_tokens(init), s.last());
        assert forall|x: Token| sort_tokens(s).contains(x) implies s.contains(x) by {
            if x == s.last() {
                assert(s[s.len() - 1] == x);
            } else {
                assert(sort_tokens(init).contains(x));
                assert(init.contains(x));
                let k = choose|k: int| 0 <= k < init.len() && init[k] == x;
                assert(s[k] == x);
            }
        }
        assert forall|x: Token| s.contains(x) implies sort_tokens(s).contains(x) by {
            let k = choose|k: int| 0 <= k < s.len() && s[k] == x;
            if k < s.len() - 1 {
                assert(init[k] == x);
                assert(init.contains(x));
                assert(sort_tokens(init).contains(x));
            } else {
                assert(x == s.last());
            }
            assert(sort_tokens(init).contains(x) || x == s.last());
            assert(insert_sorted(sort_tokens(init), s.last()).contains(x));
        }
    }
}

/// Drops every token whose range repeats the range of the token just
/// before it: the tie-break that keeps only the first capture per range.
pub open spec fn dedup_ranges(s: Seq<Token>) -> Seq<Token>
    decreases s.len(),
{
    if s.len() == 0 {
        s
    } else {
        let prev = dedup_ranges(s.drop_last());
        if s.len() >= 2 && s.last().range == s[s.len() - 2].range {
            prev
        } else {
            prev.push(s.last())
        }
    }
}

pub proof fn lemma_dedup_ranges_props(s: Seq<Token>)
    requires
        sorted_tokens(s),
    ensures
        sorted_tokens(dedup_ranges(s)),
        dedup_ranges(s).len() <= s.len(),
        s.len() > 0 ==> dedup_ranges(s).len() > 0 && dedup_ranges(s).last().range
            == s.last().range,
        forall|x: Token| dedup_ranges(s).contains(x) ==> s.contains(x),
    decreases s.len(),
{
    if s.len() == 0 {
    } else {
        let init = s.drop_last();
        assert(sorted_tokens(init)) by {
            assert forall|i: int, j: int| 0 <= i < j < init.len() implies token_le(
                #[trigger] init[i],
                #[trigger] init[j],
            ) by {
                assert(init[i] == s[i] && init[j] == s[j]);
            }
        }
        lemma_dedup_ranges_props(init);
        let prev = dedup_ranges(init);
        if s.len() >= 2 && s.last().range == s[s.len() - 2].range {
            assert forall|x: Token| dedup_ranges(s).contains(x) implies s.contains(x) by {
                if prev.contains(x) {
                    assert(init.contains(x));
                    let k = choose|k: int| 0 <= k < init.len() && init[k] == x;
                    assert(s[k] == x);
                }
            }
        } else {
            let r = prev.push(s.last());
            assert forall|i: int, j: int| 0 <= i < j < r.len() implies token_le(
                #[trigger] r[i],
                #[trigger] r[j],
            ) by {
                if j < prev.len() {
                } else {
                    assert(r[j] == s.last());
                    if i < prev.len() {
                        if init.len() > 0 {
                            assert(token_le(prev[i], prev.last()));
                            assert(prev.last().range == init.last().range);
                            assert(token_le(init.last(), s.last()));
                        }
                    }
                }
            }
            assert forall|x: Token| dedup_ranges(s).contains(x) implies s.contains(x) by {
                if r.contains(x) {
                    let k = choose|k: int| 0 <= k < r.len() && r[k] == x;
                    if k < prev.len() {
                        assert(init.contains(x));
                        let w = choose|w: int| 0 <= w < init.len() && init[w] == x;
                        assert(s[w] == x);
                    } else {
                        assert(s[s.len() - 1] == x);
                    }
                }
            }
        }
    }
}

/// The five integers one token contributes to the stream, relative to
/// the previously emitted position.
pub open spec fn quintuple(prev_row: u32, prev_col: u32, t: Token) -> Seq<u32> {
    seq![
        (t.range.0 - prev_row) as u32,
        if t.range.0 == prev_row {
            (t.range.1 - prev_col) as u32
        } else {
            t.range.1
        },
        t.length,
        t.token_type,
        t.modifier,
    ]
}

/// The delta-encoded stream of a (sorted, deduplicated) token list:
/// each token's row and column are encoded relative to the previous
/// token's start, the first relative to `(0, 0)`.
pub open spec fn delta_encode(s: Seq<Token>) -> Seq<u32>
    decreases s.len(),
{
    if s.len() == 0 {
        Seq::empty()
    } else {
        let prev_row = if s.len() >= 2 {
            s[s.len() - 2].range.0
        } else {
            0u32
        };
        let prev_col = if s.len() >= 2 {
            s[s.len() - 2].range.1
        } else {
            0u32
        };
        delta_encode(s.drop_last()) + quintuple(prev_row, prev_col, s.last())
    }
}

pub proof fn lemma_delta_encode_len(s: Seq<Token>)
    ensures
        delta_encode(s).len() == 5 * s.len(),
    decreases s.len(),
{
    if s.len() > 0 {
        lemma_delta_encode_len(s.drop_last());
    }
}

/// What `MonacoHighlights::emit` produces for a given post-remap token
/// list: sort by start position, drop repeated ranges, delta-encode.
pub open spec fn spec_emit(tokens: Seq<Token>) -> Seq<u32> {
    delta_encode(dedup_ranges(sort_tokens(tokens)))
}

/// The absolute row of the `i`-th quintuple of a delta stream: the sum
/// of the row deltas up to and including it.
pub open spec fn abs_row(out: Seq<u32>, i: int) -> int
    decreases i,
{
    if i <= 0 {
        out[0] as int
    } else {
        abs_row(out, i - 1) + out[5 * i]
    }
}

/// The absolute column of the `i`-th quintuple of a delta stream: the
/// column delta is relative when the row delta is zero, absolute
/// otherwise.
pub open spec fn abs_col(out: Seq<u32>, i: int) -> int
    decreases i,
{
    if i <= 0 {
        out[1] as int
    } else if out[5 * i] == 0 {
        abs_col(out, i - 1) + out[5 * i + 1]
    } else {
        out[5 * i + 1] as int
    }
}

proof fn lemma_abs_prefix(out: Seq<u32>, ext: Seq<u32>, i: int)
    requires
        0 <= i,
        5 * i + 2 <= out.len(),
    ensures
        abs_row(out + ext, i) == abs_row(out, i),
        abs_col(out + ext, i) == abs_col(out, i),
    decreases i,
{
    if i > 0 {
        lemma_abs_prefix(out, ext, i - 1);
        assert((out + ext)[5 * i] == out[5 * i]);
        assert((out + ext)[5 * i + 1] == out[5 * i + 1]);
    } else {
        assert((out + ext)[0] == out[0]);
        assert((out + ext)[1] == out[1]);
    }
}

proof fn lemma_abs_positions(d: Seq<Token>)
    requires
        sorted_tokens(d),
    ensures
        forall|i: int|
            0 <= i < d.len() ==> abs_row(delta_encode(d), i) == (#[trigger] d[i]).range.0 as int
                && abs_col(delta_encode(d), i) == d[i].range.1 as int,
        forall|i: int|
            0 <= i < d.len() ==> delta_encode(d)[5 * i + 2] == (#[trigger] d[i]).length
                && delta_encode(d)[5 * i + 3] == d[i].token_type && delta_encode(d)[5 * i + 4]
                == d[i].modifier,
    decreases d.len(),
{
    if d.len() == 0 {
    } else {
        let init = d.drop_last();
        assert(sorted_tokens(init)) by {
            assert forall|a: int, b: int| 0 <= a < b < init.len() implies token_le(
                #[trigger] init[a],
                #[trigger] init[b],
            ) by {
                assert(init[a] == d[a] && init[b] == d[b]);
            }
        }
        lemma_abs_positions(init);
        lemma_delta_encode_len(init);
        lemma_delta_encode_len(d);
        let prev_row = if d.len() >= 2 {
            d[d.len() - 2].range.0
        } else {
            0u32
        };
        let prev_col = if d.len() >= 2 {
            d[d.len() - 2].range.1
        } else {
            0u32
        };
        let q = quintuple(prev_row, prev_col, d.last());
        assert(delta_encode(d) == delta_encode(init) + q);
        if d.len() >= 2 {
            assert(token_le(d[d.len() - 2], d[d.len() - 1]));
        }
        assert forall|i: int|
            0 <= i < d.len() implies abs_row(delta_encode(d), i) == (#[trigger] d[i]).range.0 as int
                && abs_col(delta_encode(d), i) == d[i].range.1 as int by {
            let k = d.len() - 1;
            if i < k {
                lemma_abs_prefix(delta_encode(init), q, i);
                assert(init[i] == d[i]);
            } else {
                // the last quintuple: its deltas are relative to the
                // previous token's start (or to (0, 0) for the first)
                assert(delta_encode(d)[5 * k] == q[0]);
                assert(delta_encode(d)[5 * k + 1] == q[1]);
                if k > 0 {
                    lemma_abs_prefix(delta_encode(init), q, k - 1);
                    assert(init[k - 1] == d[k - 1]);
                    assert(abs_row(delta_encode(d), k - 1) == d[k - 1].range.0 as int);
                    assert(abs_col(delta_encode(d), k - 1) == d[k - 1].range.1 as int);
                }
            }
        }
        assert forall|i: int|
            0 <= i < d.len() implies delta_encode(d)[5 * i + 2] == (#[trigger] d[i]).length
                && delta_encode(d)[5 * i + 3] == d[i].token_type && delta_encode(d)[5 * i + 4]
                == d[i].modifier by {
            let k = d.len() - 1;
            if i < k {
                assert(delta_encode(d)[5 * i + 2] == delta_encode(init)[5 * i + 2]);
                assert(delta_encode(d)[5 * i + 3] == delta_encode(init)[5 * i + 3]);
                assert(delta_encode(d)[5 * i + 4] == delta_encode(init)[5 * i + 4]);
                assert(init[i] == d[i]);
            } else {
                assert(delta_encode(d)[5 * k + 2] == q[2]);
                assert(delta_encode(d)[5 * k + 3] == q[3]);
                assert(delta_encode(d)[5 * k + 4] == q[4]);
            }
        }
    }
}

/// Well-formedness of the emitted delta stream. Its length is a
/// multiple of five; the absolute positions reconstructed from the
/// deltas are exactly the start positions of the sorted, deduplicated
/// tokens, hence non-decreasing; and every quintuple's length, token
/// type and modifier are those of one of the tokens that went in.
pub proof fn lemma_delta_stream_wellformed(tokens: Seq<Token>)
    ensures
        spec_emit(tokens).len() % 5 == 0,
        spec_emit(tokens).len() == 5 * dedup_ranges(sort_tokens(tokens)).len(),
        forall|i: int|
            0 <= i < dedup_ranges(sort_tokens(tokens)).len() ==> abs_row(spec_emit(tokens), i) == (
            #[trigger] dedup_ranges(sort_tokens(tokens))[i]).range.0 as int && abs_col(
                spec_emit(tokens),
                i,
            ) == dedup_ranges(sort_tokens(tokens))[i].range.1 as int,
        forall|i: int, j: int|
            0 <= i < j < dedup_ranges(sort_tokens(tokens)).len() ==> abs_row(spec_emit(tokens), i)
                < abs_row(spec_emit(tokens), j) || (abs_row(spec_emit(tokens), i) == abs_row(
                spec_emit(tokens),
                j,
            ) && abs_col(spec_emit(tokens), i) <= abs_col(spec_emit(tokens), j)),
        forall|i: int|
            0 <= i < dedup_ranges(sort_tokens(tokens)).len() ==> tokens.contains(
                #[trigger] dedup_ranges(sort_tokens(tokens))[i],
            ) && spec_emit(tokens)[5 * i + 2] == dedup_ranges(sort_tokens(tokens))[i].length
                && spec_emit(tokens)[5 * i + 3] == dedup_ranges(sort_tokens(tokens))[i].token_type
                && spec_emit(tokens)[5 * i + 4] == dedup_ranges(sort_tokens(tokens))[i].modifier,
{
    lemma_sort_tokens_props(tokens);
    lemma_dedup_ranges_props(sort_tokens(tokens));
    let d = dedup_ranges(sort_tokens(tokens));
    lemma_delta_encode_len(d);
    lemma_abs_positions(d);
    assert forall|i: int, j: int|
        0 <= i < j < d.len() implies abs_row(spec_emit(tokens), i) < abs_row(spec_emit(tokens), j)
        || (abs_row(spec_emit(tokens), i) == abs_row(spec_emit(tokens), j) && abs_col(
        spec_emit(tokens),
        i,
    ) <= abs_col(spec_emit(tokens), j)) by {
        assert(token_le(d[i], d[j]));
    }
    assert forall|i: int| 0 <= i < d.len() implies tokens.contains(#[trigger] d[i]) && spec_emit(
        tokens,
    )[5 * i + 2] == d[i].length && spec_emit(tokens)[5 * i + 3] == d[i].token_type && spec_emit(
        tokens,
    )[5 * i + 4] == d[i].modifier by {
        assert(d.contains(d[i]));
        assert(sort_tokens(tokens).contains(d[i]));
        assert(tokens.contains(d[i]));
    }
}

/// The emit stage of the pipeline.
pub struct MonacoHighlights;

impl MonacoHighlights {
    /// Sorts the remapped tokens by start position, drops tokens whose
    /// range repeats the previous one, and delta-encodes the rest.
    pub fn emit(highlights: &Highlights) -> (r: Vec<u32>)
        ensures
            r@ == spec_emit(highlights@),
            r@.len() == 5 * dedup_ranges(sort_tokens(highlights@)).len(),
    {
        let sorted = sort_by_position(&highlights.0);
        proof {
            lemma_sort_tokens_props(highlights.0@);
        }
        let mut data: Vec<u32> = Vec::new();
        let mut prev_line: u32 = 0;
        let mut prev_col: u32 = 0;
        let n = sorted.len();
        let mut i: usize = 0;
        proof {
            assert(sorted@.take(0) =~= Seq::<Token>::empty());
            assert(data@ =~= delta_encode(dedup_ranges(sorted@.take(0))));
        }
        while i < n
            invariant
                n == sorted@.len(),
                i <= n,
                sorted_tokens(sorted@),
                data@ == delta_encode(dedup_ranges(sorted@.take(i as int))),
                dedup_ranges(sorted@.take(i as int)).len() == 0 ==> i == 0 && prev_line == 0
                    && prev_col == 0,
                dedup_ranges(sorted@.take(i as int)).len() > 0 ==> i > 0 && prev_line
                    == dedup_ranges(sorted@.take(i as int)).last().range.0 && prev_col
                    == dedup_ranges(sorted@.take(i as int)).last().range.1 && sorted@[i - 1].range
                    == dedup_ranges(sorted@.take(i as int)).last().range,
            decreases n - i,
        {
            let token = sorted[i];
            let ghost pre = sorted@.take(i as int);
            let ghost cur = sorted@.take(i + 1);
            proof {
                assert(cur.drop_last() =~= pre);
                assert(cur.last() == sorted@[i as int]);
                assert(sorted_tokens(pre)) by {
                    assert forall|a: int, b: int| 0 <= a < b < pre.len() implies token_le(
                        #[trigger] pre[a],
                        #[trigger] pre[b],
                    ) by {
                        assert(pre[a] == sorted@[a] && pre[b] == sorted@[b]);
                    }
                }
                lemma_dedup_ranges_props(pre);
            }
            let emit_this = if i == 0 {
                true
            } else {
                let range = token.range();
                let prev_token = sorted[i - 1];
                !(range == prev_token.range())
            };
            if emit_this {
                let range = token.range();
                let delta_start_row = range.start_row() - prev_line;
                let delta_start_col = if range.start_row() == prev_line {
                    range.start_col() - prev_col
                } else {
                    range.start_col()
                };
                data.push(delta_start_row);
                data.push(delta_start_col);
                data.push(token.length());
                data.push(token.token_type());
                data.push(token.modifier());
                prev_line = range.start_row();
                prev_col = range.start_col();
                proof {
                    let d = dedup_ranges(pre);
                    if i > 0 {
                        assert(cur[cur.len() - 2] == sorted@[i - 1]);
                    }
                    assert(dedup_ranges(cur) == d.push(cur.last()));
                    let dn = d.push(cur.last());
                    assert(dn.drop_last() =~= d);
                    if d.len() > 0 {
                        assert(dn[dn.len() - 2] == d.last());
                    }
                    assert(data@ =~= delta_encode(d) + quintuple(
                        if d.len() > 0 {
                            d.last().range.0
                        } else {
                            0u32
                        },
                        if d.len() > 0 {
                            d.last().range.1
                        } else {
                            0u32
                        },
                        cur.last(),
                    ));
                    assert(data@ == delta_encode(dedup_ranges(cur)));
                }
            } else {
                proof {
                    assert(cur[cur.len() - 2] == sorted@[i - 1]);
                    assert(dedup_ranges(cur) == dedup_ranges(pre));
                }
            }
            i = i + 1;
        }
        proof {
            assert(sorted@.take(n as int) =~= sorted@);
            lemma_delta_encode_len(dedup_ranges(sorted@));
        }
        data
    }
}

/// Whether token `a` starts strictly before token `b`.
fn starts_before(a: Token, b: Token) -> (r: bool)
    ensures
        r == token_lt(a, b),
{
    a.range.0 < b.range.0 || (a.range.0 == b.range.0 && a.range.1 < b.range.1)
}

/// Stable insertion sort of the tokens by `(start_row, start_col)`.
fn sort_by_position(v: &Vec<Token>) -> (r: Vec<Token>)
    ensures
        r@ == sort_tokens(v@),
{
    let n = v.len();
    let mut out: Vec<Token> = Vec::new();
    let mut i: usize = 0;
    proof {
        assert(v@.take(0) =~= Seq::<Token>::empty());
    }
    while i < n
        invariant
            n == v@.len(),
            i <= n,
            out@ == sort_tokens(v@.take(i as int)),
        decreases n - i,
    {
        let t = v[i];
        let m = out.len();
        let mut j: usize = 0;
        while j < m && !starts_before(t, out[j])
            invariant
                m == out@.len(),
                j <= m,
                forall|k: int| 0 <= k < j ==> !token_lt(t, #[trigger] out@[k]),
            decreases m - j,
        {
            j = j + 1;
        }
        proof {
            lemma_first_after(out@, t);
            assert(j == first_after(out@, t));
            lemma_insert_sorted_as_insert(out@, t);
        }
        out.insert(j, t);
        proof {
            assert(v@.take(i + 1).drop_last() =~= v@.take(i as int));
            assert(v@.take(i + 1).last() == v@[i as int]);
        }
        i = i + 1;
    }
    proof {
        assert(v@.take(n as int) =~= v@);
    }
    out
}

/// The first token of `v` whose range equals `range`, if any.
fn find_equal_range(v: &Vec<Token>, range: RangePoint) -> (r: Option<Token>)
    ensures
        first_range_eq(v@, range) < v@.len() ==> r == Some(v@[first_range_eq(v@, range)]),
        first_range_eq(v@, range) == v@.len() ==> r is None,
{
    let n = v.len();
    let mut i: usize = 0;
    while i < n
        invariant
            n == v@.len(),
            i <= n,
            forall|j: int| 0 <= j < i ==> (#[trigger] v@[j]).range != range,
        decreases n - i,
    {
        let token = v[i];
        if token.range() == range {
            proof {
                lemma_first_range_eq(v@, range);
            }
            return Some(token);
        }
        i = i + 1;
    }
    proof {
        lemma_first_range_eq(v@, range);
    }
    None
}

} // verus!
