//! The syntax-tree side of the editor: parsers, compiled queries, the
//! highlight pipeline and the language themes.
//!
//! This module also holds the declarations and trusted wrappers for the
//! tree-sitter types the library carries. The grammar objects, trees and
//! compiled queries are opaque to the verifier; everything the logic
//! reads out of them crosses this boundary as plain values.

use crate::language::Lang;
use vstd::prelude::*;

pub mod highlighter;
pub mod parser;
pub mod query;
pub mod theme;

verus! {

#[verifier::external_type_specification]
#[verifier::external_body]
pub struct ExLanguage(tree_sitter::Language);

#[verifier::external_type_specification]
#[verifier::external_body]
pub struct ExParser(tree_sitter::Parser);

#[verifier::external_type_specification]
#[verifier::external_body]
pub struct ExTree(tree_sitter::Tree);

#[verifier::external_type_specification]
#[verifier::external_body]
pub struct ExQuery(tree_sitter::Query);

/// One capture as the query engine reported it: the capture's index
/// into the query's capture-name list, and its byte and point range as
/// plain integers.
#[derive(Debug, Clone, Copy, PartialEq, Eq, Structural)]
pub struct RawCapture {
    pub index: u32,
    pub start_byte: usize,
    pub end_byte: usize,
    pub start_row: u32,
    pub start_col: u32,
    pub end_row: u32,
    pub end_col: u32,
}

/// Relies on tree_sitter_javascript::language: the JavaScript grammar handle.
#[verifier::external_body]
pub(crate) fn ts_language_javascript() -> tree_sitter::Language {
    tree_sitter_javascript::language()
}

/// Relies on tree_sitter_typescript::language_typescript: the TypeScript grammar handle.
#[verifier::external_body]
pub(crate) fn ts_language_typescript() -> tree_sitter::Language {
    tree_sitter_typescript::language_typescript()
}

/// Relies on tree_sitter_rust::language: the Rust grammar handle.
#[verifier::external_body]
pub(crate) fn ts_language_rust() -> tree_sitter::Language {
    tree_sitter_rust::language()
}

/// Relies on tree_sitter_html::language: the HTML grammar handle.
#[verifier::external_body]
pub(crate) fn ts_language_html() -> tree_sitter::Language {
    tree_sitter_html::language()
}

/// The text of a grammar crate's highlight query: fixed at build
/// time, a function of the language alone.
pub uninterp spec fn highlight_query_text(lang: Lang) -> Seq<char>;

/// The text of a grammar crate's locals query: fixed at build time, a
/// function of the language alone.
pub uninterp spec fn locals_query_text(lang: Lang) -> Seq<char>;

/// Relies on tree_sitter_javascript::HIGHLIGHT_QUERY: the grammar's
/// highlight query text.
#[verifier::external_body]
pub(crate) fn js_highlight_query() -> (r: String)
    ensures
        r@ == highlight_query_text(Lang::Javascript),
{
    tree_sitter_javascript::HIGHLIGHT_QUERY.to_owned()
}

/// Relies on tree_sitter_javascript::LOCALS_QUERY: the grammar's locals
/// query text.
#[verifier::external_body]
pub(crate) fn js_locals_query() -> (r: String)
    ensures
        r@ == locals_query_text(Lang::Javascript),
{
    tree_sitter_javascript::LOCALS_QUERY.to_owned()
}

/// Relies on tree_sitter_typescript::HIGHLIGHTS_QUERY: the grammar's
/// highlight query text.
#[verifier::external_body]
pub(crate) fn typescript_highlight_query() -> (r: String)
    ensures
        r@ == highlight_query_text(Lang::Typescript),
{
    tree_sitter_typescript::HIGHLIGHTS_QUERY.to_owned()
}

/// Relies on tree_sitter_rust::HIGHLIGHTS_QUERY: the grammar's highlight
/// query text.
#[verifier::external_body]
pub(crate) fn rust_highlight_query() -> (r: String)
    ensures
        r@ == highlight_query_text(Lang::Rust),
{
    tree_sitter_rust::HIGHLIGHTS_QUERY.to_owned()
}

/// Relies on tree_sitter_html::HIGHLIGHTS_QUERY: the grammar's highlight
/// query text.
#[verifier::external_body]
pub(crate) fn html_highlight_query() -> (r: String)
    ensures
        r@ == highlight_query_text(Lang::Html),
{
    tree_sitter_html::HIGHLIGHTS_QUERY.to_owned()
}

/// Relies on tree_sitter::Parser::new: a parser with no language set.
#[verifier::external_body]
pub(crate) fn ts_parser_new() -> tree_sitter::Parser {
    tree_sitter::Parser::new()
}

/// Relies on tree_sitter::Parser::set_language: configures the parser
/// for a grammar; reports whether the grammar was accepted.
#[verifier::external_body]
pub(crate) fn ts_parser_set_language(
    parser: &mut tree_sitter::Parser,
    language: &tree_sitter::Language,
) -> bool {
    parser.set_language(language).is_ok()
}

/// Relies on tree_sitter::Parser::parse: parses the bytes, reusing the
/// previous tree as an incremental hint; `None` when the grammar
/// produced no tree.
#[verifier::external_body]
pub(crate) fn ts_parser_parse(
    parser: &mut tree_sitter::Parser,
    source: &Vec<u8>,
    old_tree: Option<&tree_sitter::Tree>,
) -> Option<tree_sitter::Tree> {
    parser.parse(source.as_slice(), old_tree)
}

/// Relies on tree_sitter::Tree::clone: an independent handle to the
/// same immutable syntax tree.
#[verifier::external_body]
pub(crate) fn ts_tree_clone(tree: &tree_sitter::Tree) -> tree_sitter::Tree {
    tree.clone()
}

/// Relies on tree_sitter::Tree::root_node and tree_sitter::Node::to_sexp:
/// the S-expression of the whole tree.
#[verifier::external_body]
pub(crate) fn ts_tree_sexp(tree: &tree_sitter::Tree) -> String {
    tree.root_node().to_sexp()
}

/// Relies on tree_sitter::Query::new: compiles a query from its text;
/// `None` when the text does not compile against the grammar.
#[verifier::external_body]
pub(crate) fn ts_query_new(
    language: &tree_sitter::Language,
    text: &str,
) -> Option<tree_sitter::Query> {
    tree_sitter::Query::new(language, text).ok()
}

/// Relies on tree_sitter::Query::capture_names: the query's ordered
/// capture-name list.
#[verifier::external_body]
pub(crate) fn ts_query_capture_names(query: &tree_sitter::Query) -> Vec<String> {
    let mut names: Vec<String> = Vec::new();
    for name in query.capture_names() {
        names.push((*name).to_owned());
    }
    names
}

/// Relies on tree_sitter::QueryCursor::captures over
/// tree_sitter::Tree::root_node: the captures of the query on the
/// tree, in engine order. The byte slice takes no part in matching
/// itself: it bounds the cursor's byte range (except that the engine
/// treats a zero end as no bound, so a zero-length slice leaves the
/// range unbounded) and feeds the query's text predicates, clamped to
/// the slice so their evaluation is total whatever length the caller
/// supplies. Node byte offsets are 32-bit in the grammar runtime, so
/// each capture's byte range is ordered and fits `u32`.
#[verifier::external_body]
pub(crate) fn ts_query_captures(
    query: &tree_sitter::Query,
    tree: &tree_sitter::Tree,
    source: &Vec<u8>,
) -> (r: Vec<RawCapture>)
    ensures
        forall|i: int|
            0 <= i < r@.len() ==> (#[trigger] r@[i]).start_byte <= r@[i].end_byte && r@[i].end_byte
                <= u32::MAX,
{
    let mut cursor = tree_sitter::QueryCursor::new();
    cursor.set_byte_range(0..source.len());
    let text = |n: tree_sitter::Node| std::iter::once(source.get(n.byte_range()).unwrap_or(&[]));
    let mut out: Vec<RawCapture> = Vec::new();
    for m in cursor.captures(query, tree.root_node(), text) {
        for capture in m.0.captures {
            let r = capture.node.range();
            out.push(RawCapture {
                index: capture.index, start_byte: r.start_byte, end_byte: r.end_byte,
                start_row: r.start_point.row as u32, start_col: r.start_point.column as u32,
                end_row: r.end_point.row as u32, end_col: r.end_point.column as u32,
            });
        }
    }
    out
}

/// The grammar handle for a language tag; tags without a grammar of
/// their own fall back to the JavaScript grammar.
pub fn get_tree_sitter_language(lang: &Lang) -> tree_sitter::Language {
    match lang {
        Lang::Javascript => ts_language_javascript(),
        Lang::Typescript => ts_language_typescript(),
        Lang::Rust => ts_language_rust(),
        Lang::Html => ts_language_html(),
        _ => ts_language_javascript(),
    }
}

/// The query text a language's registry entry is compiled from: the
/// highlight query, with the locals query appended where the grammar
/// ships one (JavaScript); injection queries are not concatenated.
/// Tags without a query of their own fall back to the JavaScript
/// highlight query, matching the grammar fallback.
pub open spec fn spec_combined_query_text(lang: Lang) -> Seq<char> {
    match lang {
        Lang::Javascript => highlight_query_text(Lang::Javascript) + locals_query_text(
            Lang::Javascript,
        ),
        Lang::Typescript => highlight_query_text(Lang::Typescript),
        Lang::Rust => highlight_query_text(Lang::Rust),
        Lang::Html => highlight_query_text(Lang::Html),
        _ => highlight_query_text(Lang::Javascript),
    }
}

/// The combined highlight-plus-locals query text for a language tag.
pub fn get_query_from_each_language(language: &Lang) -> (r: String)
    ensures
        r@ == spec_combined_query_text(*language),
{
    let mut query_combine = String::new();
    match language {
        Lang::Javascript => {
            query_combine.append(js_highlight_query().as_str());
            query_combine.append(js_locals_query().as_str());
        },
        Lang::Typescript => {
            query_combine.append(typescript_highlight_query().as_str());
        },
        Lang::Rust => {
            query_combine.append(rust_highlight_query().as_str());
        },
        Lang::Html => {
            query_combine.append(html_highlight_query().as_str());
        },
        _ => {
            query_combine.append(js_highlight_query().as_str());
        },
    }
    proof {
        assert(query_combine@ =~= spec_combined_query_text(*language));
    }
    query_combine
}

} // verus!
