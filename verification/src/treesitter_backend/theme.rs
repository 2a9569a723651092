//! Language colour themes: per-token foreground colours, grouped per
//! language, with a basic fallback theme.

use crate::textutil::str_eq;
use core::marker::PhantomData;
use vstd::prelude::*;
use vstd::string::StrSliceExecFns;

verus! {

/// One theme rule: a token kind and its foreground colour.
#[derive(Debug)]
pub struct Token {
    pub token: String,
    pub foreground: String,
}

impl Token {
    fn new(token: &str, foreground: &str) -> (r: Token)
        ensures
            r.token@ == token@,
            r.foreground@ == foreground@,
    {
        Token { token: token.to_owned(), foreground: foreground.to_owned() }
    }
}

/// The rule list of one language's theme; the type parameter names the
/// language the rules belong to.
#[derive(Debug)]
#[verifier::reject_recursive_types(T)]
pub struct Theme<T> {
    pub rules: Vec<Token>,
    pub shadow_data: PhantomData<T>,
}

#[derive(Debug, Clone, Copy)]
pub struct Basic;

#[derive(Debug, Clone, Copy)]
pub struct Javascript;

#[derive(Debug, Clone, Copy)]
pub struct Rust;

#[derive(Debug, Clone, Copy)]
pub struct Java;

#[derive(Debug, Clone, Copy)]
pub struct Html;

#[derive(Debug, Clone, Copy)]
pub struct Css;

#[derive(Debug, Clone, Copy)]
pub struct Python;

#[derive(Debug, Clone, Copy)]
pub struct Ruby;

/// The eight rules every default theme starts with, in order.
pub open spec fn spec_common_rules(rules: Seq<Token>) -> bool {
    &&& rules.len() >= 8
    &&& rules[0].token@ == "keyword"@ && rules[0].foreground@ == "#DD91FA"@
    &&& rules[1].token@ == "function"@ && rules[1].foreground@ == "#71B1FF"@
    &&& rules[2].token@ == "type"@ && rules[2].foreground@ == "#DCAE80"@
    &&& rules[3].token@ == "variable"@ && rules[3].foreground@ == "#9CDCFE"@
    &&& rules[4].token@ == "number"@ && rules[4].foreground@ == "#b4d5ff"@
    &&& rules[5].token@ == "string"@ && rules[5].foreground@ == "#72c0ff"@
    &&& rules[6].token@ == "comment"@ && rules[6].foreground@ == "#93d0ff"@
    &&& rules[7].token@ == "class"@ && rules[7].foreground@ == "#D1B9FF"@
}

/// The fallback theme's exact rule table.
pub open spec fn is_default_basic_theme(t: Theme<Basic>) -> bool {
    t.rules@.len() == 8 && spec_common_rules(t.rules@)
}

/// The JavaScript default theme's exact rule table: the shared rules
/// plus a colour for resolved locals.
pub open spec fn is_default_javascript_theme(t: Theme<Javascript>) -> bool {
    &&& t.rules@.len() == 9
    &&& spec_common_rules(t.rules@)
    &&& t.rules@[8].token@ == "local"@ && t.rules@[8].foreground@ == "#aaaaaa"@
}

/// The Rust default theme's exact rule table: the shared rules plus
/// colours for macros and structs.
pub open spec fn is_default_rust_theme(t: Theme<Rust>) -> bool {
    &&& t.rules@.len() == 10
    &&& spec_common_rules(t.rules@)
    &&& t.rules@[8].token@ == "macro"@ && t.rules@[8].foreground@ == "#BEB7FF"@
    &&& t.rules@[9].token@ == "struct"@ && t.rules@[9].foreground@ == "#5DC9B3"@
}

fn push_rule(rules: &mut Vec<Token>, token: &str, foreground: &str)
    ensures
        final(rules)@.len() == old(rules)@.len() + 1,
        forall|i: int| 0 <= i < old(rules)@.len() ==> final(rules)@[i] == old(rules)@[i],
        final(rules)@.last().token@ == token@,
        final(rules)@.last().foreground@ == foreground@,
{
    rules.push(Token::new(token, foreground));
}

/// The eight rules every theme shares.
fn common_rules() -> (r: Vec<Token>)
    ensures
        r@.len() == 8,
        r@[0].token@ == "keyword"@ && r@[0].foreground@ == "#DD91FA"@,
        r@[1].token@ == "function"@ && r@[1].foreground@ == "#71B1FF"@,
        r@[2].token@ == "type"@ && r@[2].foreground@ == "#DCAE80"@,
        r@[3].token@ == "variable"@ && r@[3].foreground@ == "#9CDCFE"@,
        r@[4].token@ == "number"@ && r@[4].foreground@ == "#b4d5ff"@,
        r@[5].token@ == "string"@ && r@[5].foreground@ == "#72c0ff"@,
        r@[6].token@ == "comment"@ && r@[6].foreground@ == "#93d0ff"@,
        r@[7].token@ == "class"@ && r@[7].foreground@ == "#D1B9FF"@,
{
    let mut rules: Vec<Token> = Vec::new();
    push_rule(&mut rules, "keyword", "#DD91FA");
    push_rule(&mut rules, "function", "#71B1FF");
    push_rule(&mut rules, "type", "#DCAE80");
    push_rule(&mut rules, "variable", "#9CDCFE");
    push_rule(&mut rules, "number", "#b4d5ff");
    push_rule(&mut rules, "string", "#72c0ff");
    push_rule(&mut rules, "comment", "#93d0ff");
    push_rule(&mut rules, "class", "#D1B9FF");
    rules
}

impl Default for Theme<Basic> {
    /// The fallback theme: the eight shared rules.
    fn default() -> (r: Theme<Basic>)
        ensures
            is_default_basic_theme(r),
    {
        Theme { rules: common_rules(), shadow_data: PhantomData }
    }
}

impl Default for Theme<Javascript> {
    /// The shared rules plus a colour for resolved locals.
    fn default() -> (r: Theme<Javascript>)
        ensures
            is_default_javascript_theme(r),
    {
        let mut rules = common_rules();
        push_rule(&mut rules, "local", "#aaaaaa");
        Theme { rules, shadow_data: PhantomData }
    }
}

impl Default for Theme<Rust> {
    /// The shared rules plus colours for macros and structs.
    fn default() -> (r: Theme<Rust>)
        ensures
            is_default_rust_theme(r),
    {
        let mut rules = common_rules();
        push_rule(&mut rules, "macro", "#BEB7FF");
        push_rule(&mut rules, "struct", "#5DC9B3");
        Theme { rules, shadow_data: PhantomData }
    }
}

/// The theme configuration: a default theme and optional per-language
/// overrides.
#[derive(Debug)]
pub struct LanguageTheme {
    pub default: Theme<Basic>,
    pub javascript: Option<Theme<Javascript>>,
    pub rust: Option<Theme<Rust>>,
    pub java: Option<Theme<Java>>,
    pub html: Option<Theme<Html>>,
    pub css: Option<Theme<Css>>,
    pub python: Option<Theme<Python>>,
    pub ruby: Option<Theme<Ruby>>,
}

impl Default for LanguageTheme {
    /// Only the fallback theme; no per-language override is set.
    fn default() -> (r: LanguageTheme)
        ensures
            is_default_basic_theme(r.default),
            r.javascript is None,
            r.rust is None,
            r.java is None,
            r.html is None,
            r.css is None,
            r.python is None,
            r.ruby is None,
    {
        LanguageTheme {
            default: Theme::<Basic>::default(),
            javascript: None,
            rust: None,
            java: None,
            html: None,
            css: None,
            python: None,
            ruby: None,
        }
    }
}

impl LanguageTheme {
    /// Fills the named language's slot with its default theme; only
    /// the languages that have one can be set.
    pub fn set_default(&mut self, language: String)
        ensures
            language@ == "javascript"@ ==> (final(self).javascript matches Some(t)
                && is_default_javascript_theme(t)) && final(self).rust == old(self).rust,
            language@ == "rust"@ ==> (final(self).rust matches Some(t) && is_default_rust_theme(t))
                && final(self).javascript == old(self).javascript,
            language@ != "javascript"@ && language@ != "rust"@ ==> *final(self) == *old(self),
            final(self).default == old(self).default,
            final(self).java == old(self).java,
            final(self).html == old(self).html,
            final(self).css == old(self).css,
            final(self).python == old(self).python,
            final(self).ruby == old(self).ruby,
    {
        proof {
            reveal_strlit("javascript");
            reveal_strlit("rust");
            assert("rust"@.len() == 4 && "javascript"@.len() == 10);
            assert("rust"@ != "javascript"@);
        }
        if str_eq(language.as_str(), "javascript") {
            self.javascript = Some(Theme::<Javascript>::default());
        } else if str_eq(language.as_str(), "rust") {
            self.rust = Some(Theme::<Rust>::default());
        }
    }
}

} // verus!
