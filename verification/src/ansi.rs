//! ANSI styling through `owo_colors`, and the width that a styled string
//! occupies on a terminal.

use owo_colors::AnsiColors;
use owo_colors::OwoColorize;
use vstd::prelude::*;
use crate::text::{concat2, owned, spaces, spaces_str, str_chars};

verus! {

/// Foreground colours used by the renderers.
#[derive(Clone, Copy, Debug, PartialEq, Eq, Structural)]
pub enum Color {
    Red,
    Green,
    Yellow,
    Blue,
    Magenta,
    Cyan,
    BrightBlue,
}

/// The SGR parameter that selects a foreground colour.
pub open spec fn color_code(c: Color) -> Seq<char> {
    match c {
        Color::Red => seq!['3', '1'],
        Color::Green => seq!['3', '2'],
        Color::Yellow => seq!['3', '3'],
        Color::Blue => seq!['3', '4'],
        Color::Magenta => seq!['3', '5'],
        Color::Cyan => seq!['3', '6'],
        Color::BrightBlue => seq!['9', '4'],
    }
}

/// A "select graphic rendition" escape: ESC `[` parameters `m`.
pub open spec fn sgr(code: Seq<char>) -> Seq<char> {
    seq!['\x1b', '['] + code + seq!['m']
}

/// `text` in the foreground colour `c`, followed by a default-colour reset.
pub open spec fn fg_spec(c: Color, text: Seq<char>) -> Seq<char> {
    sgr(color_code(c)) + text + sgr(seq!['3', '9'])
}

/// `text` in bold, followed by a full reset.
pub open spec fn bold_spec(text: Seq<char>) -> Seq<char> {
    sgr(seq!['1']) + text + sgr(seq!['0'])
}

/// `text` dimmed, followed by a full reset.
pub open spec fn dim_spec(text: Seq<char>) -> Seq<char> {
    sgr(seq!['2']) + text + sgr(seq!['0'])
}

/// Colours `text` with `owo_colors::OwoColorize::color`, rendered through `Display`.
/// The crate writes `ESC[<fg>m`, the text, then `ESC[39m` (colors.rs, `impl_fmt_for_dyn`).
#[verifier::external_body]
pub fn fg(text: &str, c: Color) -> (r: String)
    ensures
        r@ == fg_spec(c, text@),
{
    let color = match c {
        Color::Red => AnsiColors::Red,
        Color::Green => AnsiColors::Green,
        Color::Yellow => AnsiColors::Yellow,
        Color::Blue => AnsiColors::Blue,
        Color::Magenta => AnsiColors::Magenta,
        Color::Cyan => AnsiColors::Cyan,
        Color::BrightBlue => AnsiColors::BrightBlue,
    };
    format!("{}", text.color(color))
}

/// Bolds `text` with `owo_colors::OwoColorize::bold`, rendered through `Display`.
/// The crate writes `ESC[1m`, the text, then `ESC[0m` (styles.rs, `impl_fmt_for_style`).
#[verifier::external_body]
pub fn bold(text: &str) -> (r: String)
    ensures
        r@ == bold_spec(text@),
{
    format!("{}", text.bold())
}

/// Dims `text` with `owo_colors::OwoColorize::dimmed`, rendered through `Display`.
/// The crate writes `ESC[2m`, the text, then `ESC[0m` (styles.rs, `impl_fmt_for_style`).
#[verifier::external_body]
pub fn dimmed(text: &str) -> (r: String)
    ensures
        r@ == dim_spec(text@),
{
    format!("{}", text.dimmed())
}

/// A parameter character of a control sequence.
pub open spec fn is_param_char(c: char) -> bool {
    ('0' <= c && c <= '9') || c == ';'
}

/// The final character of a control sequence.
pub open spec fn is_final_char(c: char) -> bool {
    ('a' <= c && c <= 'z') || ('A' <= c && c <= 'Z')
}

/// Number of parameter characters at the start of `s`.
pub open spec fn params_len(s: Seq<char>) -> nat
    decreases s.len(),
{
    if s.len() > 0 && is_param_char(s[0]) {
        1 + params_len(s.drop_first())
    } else {
        0
    }
}

/// Length of the control sequence `ESC [ params final` that starts `s`, or 0 if none does.
pub open spec fn escape_len(s: Seq<char>) -> nat {
    if s.len() >= 2 && s[0] == '\x1b' && s[1] == '[' {
        let k = params_len(s.skip(2));
        if 2 + k < s.len() && is_final_char(s[2 + k as int]) {
            3 + k
        } else {
            0
        }
    } else {
        0
    }
}

/// Terminal width of `s`: every character counts one column, except the
/// characters of ANSI control sequences, which take none.
pub open spec fn visible_width_spec(s: Seq<char>) -> nat
    decreases s.len(),
{
    if s.len() == 0 {
        0
    } else {
        let e = escape_len(s);
        if e > 0 && e <= s.len() {
            visible_width_spec(s.skip(e as int))
        } else {
            1 + visible_width_spec(s.drop_first())
        }
    }
}

proof fn lemma_params_step(s: Seq<char>, j: int)
    requires
        0 <= j < s.len(),
        is_param_char(s[j]),
    ensures
        params_len(s.skip(j)) == 1 + params_len(s.skip(j + 1)),
{
    assert(s.skip(j).drop_first() =~= s.skip(j + 1));
}

proof fn lemma_params_len_bound(s: Seq<char>)
    ensures
        params_len(s) <= s.len(),
        forall|k: int| 0 <= k < params_len(s) ==> is_param_char(#[trigger] s[k]),
    decreases s.len(),
{
    if s.len() > 0 && is_param_char(s[0]) {
        lemma_params_len_bound(s.drop_first());
        assert forall|k: int| 0 <= k < params_len(s) implies is_param_char(#[trigger] s[k]) by {
            if k > 0 {
                assert(s.drop_first()[k - 1] == s[k]);
            }
        }
    }
}

fn is_param(c: char) -> (b: bool)
    ensures
        b == is_param_char(c),
{
    ('0' <= c && c <= '9') || c == ';'
}

fn is_final(c: char) -> (b: bool)
    ensures
        b == is_final_char(c),
{
    ('a' <= c && c <= 'z') || ('A' <= c && c <= 'Z')
}

/// Length of the control sequence starting at `cs[i]` (0 if none).
fn escape_len_at(cs: &[char], i: usize) -> (e: usize)
    requires
        i < cs.len(),
    ensures
        e == escape_len(cs@.skip(i as int)),
        e <= cs.len() - i,
{
    let ghost s = cs@.skip(i as int);
    if i + 1 < cs.len() && cs[i] == '\x1b' && cs[i + 1] == '[' {
        let mut j: usize = i + 2;
        assert(s.skip(2) =~= cs@.skip(i + 2));
        while j < cs.len() && is_param(cs[j])
            invariant
                i + 2 <= j <= cs.len(),
                s == cs@.skip(i as int),
                params_len(s.skip(2)) == (j - (i + 2)) + params_len(cs@.skip(j as int)),
            decreases cs.len() - j,
        {
            proof {
                lemma_params_step(cs@, j as int);
            }
            j = j + 1;
        }
        assert(s.skip(2) =~= cs@.skip(i + 2));
        assert(params_len(s.skip(2)) == j - (i + 2));
        if j < cs.len() && is_final(cs[j]) {
            assert(s[2 + (j - (i + 2))] == cs@[j as int]);
            j + 1 - i
        } else {
            0
        }
    } else {
        0
    }
}

/// Terminal width of `s` (ANSI control sequences take no columns).
pub fn visible_width(s: &str) -> (w: usize)
    ensures
        w == visible_width_spec(s@),
{
    let cs = str_chars(s);
    let mut i: usize = 0;
    let mut w: usize = 0;
    assert(s@.skip(0) =~= s@);
    while i < cs.len()
        invariant
            cs@ == s@,
            i <= cs.len(),
            w <= i,
            w + visible_width_spec(s@.skip(i as int)) == visible_width_spec(s@),
        decreases cs.len() - i,
    {
        let ghost rest = s@.skip(i as int);
        let e = escape_len_at(cs.as_slice(), i);
        if e > 0 {
            assert(rest.skip(e as int) =~= s@.skip(i + e));
            i = i + e;
        } else {
            assert(rest.drop_first() =~= s@.skip(i + 1));
            w = w + 1;
            i = i + 1;
        }
    }
    assert(s@.skip(i as int).len() == 0);
    w
}

/// Pads `s` with blanks on the right up to `target` visible columns.
pub fn pad_to_width(s: &str, target: usize) -> (r: String)
    ensures
        r@ == if visible_width_spec(s@) >= target {
            s@
        } else {
            s@ + spaces((target - visible_width_spec(s@)) as nat)
        },
{
    let w = visible_width(s);
    if w >= target {
        owned(s)
    } else {
        let pad = spaces_str(target - w);
        concat2(s, pad.as_str())
    }
}

} // verus!
