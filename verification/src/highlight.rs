//! Syntax highlighting of fenced code blocks, through syntect.

use vstd::prelude::*;
use crate::text::{str_eq, concat2};
use crate::board::opt_view;
use syntect::easy::HighlightLines;
use syntect::highlighting::ThemeSet;
use syntect::parsing::SyntaxSet;
use syntect::util::{as_24_bit_terminal_escaped, LinesWithEndings};

verus! {

/// What syntect renders for `code` in the syntax of file extension `ext`
/// with theme `theme`: 24-bit terminal escapes, line by line; `None` when
/// no default syntax has that extension, the theme is not a default one,
/// or a line fails to parse.
pub uninterp spec fn syntect_highlighted(code: Seq<char>, ext: Seq<char>, theme: Seq<char>) -> Option<Seq<char>>;

/// Runs syntect's `HighlightLines` over `code` with its default syntax set
/// (`SyntaxSet::load_defaults_newlines`, looked up by
/// `find_syntax_by_extension`) and default theme set
/// (`ThemeSet::load_defaults`), rendering each line with
/// `as_24_bit_terminal_escaped` without background. The contract names the
/// result; it depends on the three arguments alone, since the default sets
/// are compiled into the crate.
#[verifier::external_body]
fn syntect_highlight(code: &str, ext: &str, theme: &str) -> (r: Option<String>)
    ensures
        opt_view(r) == syntect_highlighted(code@, ext@, theme@),
{
    let ss = SyntaxSet::load_defaults_newlines();
    let ts = ThemeSet::load_defaults();
    let syntax = ss.find_syntax_by_extension(ext)?;
    let mut h = HighlightLines::new(syntax, ts.themes.get(theme)?);
    let mut out = String::new();
    for line in LinesWithEndings::from(code) {
        out.push_str(&as_24_bit_terminal_escaped(&h.highlight_line(line, &ss).ok()?, false));
    }
    Some(out)
}

/// The file extension syntect knows a fenced-code language tag by.
pub open spec fn lang_extension(lang: Seq<char>) -> Seq<char> {
    if lang == "rust"@ || lang == "rs"@ { "rs"@ }
    else if lang == "python"@ || lang == "py"@ { "py"@ }
    else if lang == "javascript"@ || lang == "js"@ { "js"@ }
    else if lang == "typescript"@ || lang == "ts"@ { "ts"@ }
    else if lang == "ruby"@ || lang == "rb"@ { "rb"@ }
    else if lang == "shell"@ || lang == "bash"@ || lang == "sh"@ || lang == "zsh"@ { "sh"@ }
    else if lang == "yaml"@ || lang == "yml"@ { "yaml"@ }
    else if lang == "cpp"@ || lang == "c++"@ || lang == "cxx"@ { "cpp"@ }
    else if lang == "markdown"@ || lang == "md"@ { "md"@ }
    else if lang == "diff"@ || lang == "patch"@ { "diff"@ }
    else { lang }
}

/// Maps a fenced-code language tag to a file extension.
pub fn lang_to_extension(lang: &str) -> (r: &str)
    ensures
        r@ == lang_extension(lang@),
{
    if str_eq(lang, "rust") || str_eq(lang, "rs") { "rs" }
    else if str_eq(lang, "python") || str_eq(lang, "py") { "py" }
    else if str_eq(lang, "javascript") || str_eq(lang, "js") { "js" }
    else if str_eq(lang, "typescript") || str_eq(lang, "ts") { "ts" }
    else if str_eq(lang, "ruby") || str_eq(lang, "rb") { "rb" }
    else if str_eq(lang, "shell") || str_eq(lang, "bash") || str_eq(lang, "sh") || str_eq(lang, "zsh") { "sh" }
    else if str_eq(lang, "yaml") || str_eq(lang, "yml") { "yaml" }
    else if str_eq(lang, "cpp") || str_eq(lang, "c++") || str_eq(lang, "cxx") { "cpp" }
    else if str_eq(lang, "markdown") || str_eq(lang, "md") { "md" }
    else if str_eq(lang, "diff") || str_eq(lang, "patch") { "diff" }
    else { lang }
}

/// The colour theme of highlighted code.
pub open spec fn code_theme() -> Seq<char> {
    "base16-ocean.dark"@
}

/// A highlighted code block: syntect's rendering, then a full reset.
pub open spec fn highlight_spec(code: Seq<char>, lang: Seq<char>) -> Option<Seq<char>> {
    match syntect_highlighted(code, lang_extension(lang), code_theme()) {
        Some(h) => Some(h + "\x1b[0m"@),
        None => None,
    }
}

/// Highlights a code block for the terminal; `None` when the language is
/// not recognised (callers fall back to plain rendering).
pub fn highlight_code_block(code: &str, lang: &str) -> (r: Option<String>)
    ensures
        opt_view(r) == highlight_spec(code@, lang@),
{
    let ext = lang_to_extension(lang);
    match syntect_highlight(code, ext, "base16-ocean.dark") {
        Some(h) => Some(concat2(h.as_str(), "\x1b[0m")),
        None => None,
    }
}

} // verus!
