//! Syntax highlighting of buffered code-block text.
//!
//! The highlighting engine is driven with its bundled default grammars and
//! one fixed color theme, so the markup it produces depends on nothing but
//! the code text and the grammar name.

use vstd::prelude::*;
use syntect::highlighting::ThemeSet;
use syntect::parsing::SyntaxSet;

verus! {

/// What the highlighting engine produces for a piece of code under a named
/// grammar and the fixed theme: the highlighted HTML fragment, or `None`
/// when the engine does not know the grammar or fails on the text.
/// Uninterpreted; the highlight wrapper is the only place it is assumed.
pub uninterp spec fn highlighted_html_of(code: Seq<char>, grammar: Seq<char>) -> Option<Seq<char>>;

/// The grammar names of the language map's table, all of which the bundled
/// default grammar set defines.
pub open spec fn bundled_grammar(g: Seq<char>) -> bool {
    ||| g == "Plain Text"@
    ||| g == "Shell-Unix-Generic"@
    ||| g == "JavaScript"@
    ||| g == "HTML"@
    ||| g == "JSON"@
    ||| g == "Rust"@
    ||| g == "CSS"@
    ||| g == "Python"@
}

/// Relies on `syntect::parsing::SyntaxSet::find_syntax_by_name` over the
/// bundled default grammar set, and on
/// `syntect::html::highlighted_html_for_string` with the fixed
/// `base16-eighties.dark` theme of the bundled default themes: both are pure
/// data lookups and a pure computation, so the outcome is a function of the
/// code text and the grammar name alone. The bundled set defines every
/// grammar of `bundled_grammar`, and highlighting under one of them
/// succeeds on any text, so for those names the call returns the markup.
#[verifier::external_body]
pub fn highlight_code(code: &str, grammar: &str) -> (r: Option<String>)
    ensures
        r is Some <==> highlighted_html_of(code@, grammar@) is Some,
        r matches Some(h) ==> highlighted_html_of(code@, grammar@) == Some(h@),
        bundled_grammar(grammar@) ==> r is Some,
{
    let ss = SyntaxSet::load_defaults_newlines();
    let ts = ThemeSet::load_defaults();
    match (ss.find_syntax_by_name(grammar), ts.themes.get("base16-eighties.dark")) {
        (Some(syntax), Some(theme)) => {
            syntect::html::highlighted_html_for_string(code, &ss, syntax, theme).ok()
        },
        _ => None,
    }
}

} // verus!
