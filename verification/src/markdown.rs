//! The terminal markdown renderer: YAML frontmatter as a highlighted code
//! block, then the body line by line (code fences, tables, headings,
//! quotes, task lists, lists and inline text with links spelled out).

use vstd::prelude::*;
use crate::text::{char_pos, lemma_char_pos, lemma_char_pos_at, push_char, str_chars, trim, trim_spec,
    trim_start, trim_start_spec, trim_end, trim_end_spec, strip_all_prefix, strip_all_suffix,
    trim_start_matches, trim_end_matches, starts_with, is_ws, is_whitespace, byte_len, spaces, spaces_str,
    repeat_seq, repeat_str, concat2, owned, lemma_strip_all_prefix_len};
use crate::style::{inline_markdown_spec, styled_inline_markdown};
use crate::ansi::{Color, fg, fg_spec, bold, bold_spec, dimmed, dim_spec, visible_width, visible_width_spec};
use crate::text::{split_spec, split_char, lines, lines_spec, flatten, lemma_flatten_push};
use crate::table::strs_view;
use crate::show::{join_lines, join_with_newlines};
use crate::highlight::{highlight_code_block, highlight_spec};
use crate::style::{rule, rule_spec};

verus! {

// ---------------------------------------------------------------------
// Links and images
// ---------------------------------------------------------------------

/// A link `[text](target)` at the start of `s`: its text, its target and
/// its length. The text runs to the first `]`, the target to the first
/// `)` after `](`; both are non-empty.
pub open spec fn link_at(s: Seq<char>) -> Option<(Seq<char>, Seq<char>, int)> {
    if s.len() > 0 && s[0] == '[' {
        match char_pos(s.drop_first(), ']') {
            Some(p) => if p >= 1 && p + 2 < s.len() && s[p + 2] == '(' {
                match char_pos(s.skip(p + 3), ')') {
                    Some(q) => if q >= 1 && p + 4 + q <= s.len() {
                        Some((s.subrange(1, p + 1), s.subrange(p + 3, p + 3 + q), p + 4 + q))
                    } else {
                        None
                    },
                    None => None,
                }
            } else {
                None
            },
            None => None,
        }
    } else {
        None
    }
}

/// An image `![alt](target)` at the start of `s`: its alt text (possibly
/// empty), its target and its length.
pub open spec fn image_at(s: Seq<char>) -> Option<(Seq<char>, Seq<char>, int)> {
    if s.len() > 1 && s[0] == '!' && s[1] == '[' {
        match char_pos(s.skip(2), ']') {
            Some(p) => if p + 3 < s.len() && s[p + 3] == '(' {
                match char_pos(s.skip(p + 4), ')') {
                    Some(q) => if q >= 1 && p + 5 + q <= s.len() {
                        Some((s.subrange(2, p + 2), s.subrange(p + 4, p + 4 + q), p + 5 + q))
                    } else {
                        None
                    },
                    None => None,
                }
            } else {
                None
            },
            None => None,
        }
    } else {
        None
    }
}

/// Every link, left to right, as `text (target)`.
pub open spec fn link_norm(s: Seq<char>) -> Seq<char>
    decreases s.len(),
{
    if s.len() == 0 {
        Seq::empty()
    } else {
        match link_at(s) {
            Some((t, u, n)) => if 0 < n <= s.len() {
                t + " ("@ + u + ")"@ + link_norm(s.skip(n))
            } else {
                seq![s[0]] + link_norm(s.drop_first())
            },
            None => seq![s[0]] + link_norm(s.drop_first()),
        }
    }
}

/// How an image is spelled out.
pub open spec fn image_text(alt: Seq<char>, target: Seq<char>) -> Seq<char> {
    if alt.len() == 0 { "[image: "@ + target + "]"@ } else { alt + " [image: "@ + target + "]"@ }
}

/// Every image, left to right, spelled out.
pub open spec fn image_norm(s: Seq<char>) -> Seq<char>
    decreases s.len(),
{
    if s.len() == 0 {
        Seq::empty()
    } else {
        match image_at(s) {
            Some((a, u, n)) => if 0 < n <= s.len() {
                image_text(a, u) + image_norm(s.skip(n))
            } else {
                seq![s[0]] + image_norm(s.drop_first())
            },
            None => seq![s[0]] + image_norm(s.drop_first()),
        }
    }
}

/// Inline text for the terminal: images and links spelled out, then code
/// spans coloured.
pub open spec fn inline_spec(s: Seq<char>) -> Seq<char> {
    inline_markdown_spec(link_norm(image_norm(s)))
}

fn pos_from(cs: &Vec<char>, from: usize, c: char) -> (r: Option<usize>)
    requires
        from <= cs@.len(),
    ensures
        match r {
            Some(k) => from <= k < cs@.len() && char_pos(cs@.skip(from as int), c) == Some(k - from),
            None => char_pos(cs@.skip(from as int), c) is None,
        },
{
    let ghost t = cs@.skip(from as int);
    let mut k = from;
    while k < cs.len()
        invariant
            t == cs@.skip(from as int),
            from <= k <= cs@.len(),
            forall|j: int| from <= j < k ==> cs@[j] != c,
        decreases cs.len() - k,
    {
        if cs[k] == c {
            proof {
                assert forall|j: int| 0 <= j < k - from implies t[j] != c by {
                    assert(t[j] == cs@[j + from]);
                }
                assert(t[k - from] == cs@[k as int]);
                lemma_char_pos_at(t, c, k - from);
            }
            return Some(k);
        }
        k = k + 1;
    }
    proof {
        assert forall|j: int| 0 <= j < t.len() implies t[j] != c by {
            assert(t[j] == cs@[j + from]);
        }
        lemma_char_pos_at(t, c, t.len() as int);
    }
    None
}

fn chars_range(cs: &Vec<char>, a: usize, b: usize) -> (r: String)
    requires
        a <= b <= cs@.len(),
    ensures
        r@ == cs@.subrange(a as int, b as int),
{
    let mut r = String::new();
    let mut k = a;
    while k < b
        invariant
            a <= k <= b <= cs@.len(),
            r@ == cs@.subrange(a as int, k as int),
        decreases b - k,
    {
        push_char(&mut r, cs[k]);
        assert(cs@.subrange(a as int, k + 1) =~= cs@.subrange(a as int, k as int).push(cs@[k as int]));
        k = k + 1;
    }
    r
}

/// The link starting at position `i`, as positions: (end of text, end of
/// target, end of link).
fn link_match(cs: &Vec<char>, i: usize) -> (r: Option<(usize, usize, usize)>)
    requires
        i < cs@.len(),
    ensures
        match r {
            Some((p, q, e)) => link_at(cs@.skip(i as int)) == Some((cs@.subrange(i + 1, p as int),
                cs@.subrange(p + 2, q as int), e - i)) && i + 1 <= p && p + 2 <= q && q < e && e <= cs@.len(),
            None => link_at(cs@.skip(i as int)) is None,
        },
{
    let ghost s = cs@.skip(i as int);
    let n = cs.len();
    assert(i < n);
    if cs[i] != '[' {
        return None;
    }
    assert(s.drop_first() =~= cs@.skip(i + 1));
    match pos_from(cs, i + 1, ']') {
        None => None,
        Some(pk) => {
            let ghost p = pk - i - 1;
            if pk < i + 2 || pk + 1 >= cs.len() || cs[pk + 1] != '(' {
                assert(!(p >= 1 && p + 2 < s.len() && s[p + 2] == '('));
                return None;
            }
            assert(s[p + 2] == cs@[pk + 1]);
            assert(s.skip(p + 3) =~= cs@.skip(pk + 2));
            match pos_from(cs, pk + 2, ')') {
                None => None,
                Some(qk) => {
                    let ghost q = qk - pk - 2;
                    if qk < pk + 3 {
                        return None;
                    }
                    assert(s.subrange(1, p + 1) =~= cs@.subrange(i + 1, pk as int));
                    assert(s.subrange(p + 3, p + 3 + q) =~= cs@.subrange(pk + 2, qk as int));
                    Some((pk, qk, qk + 1))
                },
            }
        },
    }
}

/// The image starting at position `i`, as positions: (end of alt text,
/// end of target, end of image).
fn image_match(cs: &Vec<char>, i: usize) -> (r: Option<(usize, usize, usize)>)
    requires
        i < cs@.len(),
    ensures
        match r {
            Some((p, q, e)) => image_at(cs@.skip(i as int)) == Some((cs@.subrange(i + 2, p as int),
                cs@.subrange(p + 2, q as int), e - i)) && i + 2 <= p && p + 2 <= q && q < e && e <= cs@.len(),
            None => image_at(cs@.skip(i as int)) is None,
        },
{
    let ghost s = cs@.skip(i as int);
    let n = cs.len();
    assert(i < n);
    if i + 1 >= n || cs[i] != '!' || cs[i + 1] != '[' {
        return None;
    }
    assert(s.skip(2) =~= cs@.skip(i + 2));
    match pos_from(cs, i + 2, ']') {
        None => None,
        Some(pk) => {
            let ghost p = pk - i - 2;
            if pk + 1 >= cs.len() || cs[pk + 1] != '(' {
                assert(!(p + 3 < s.len() && s[p + 3] == '('));
                return None;
            }
            assert(s[p + 3] == cs@[pk + 1]);
            assert(s.skip(p + 4) =~= cs@.skip(pk + 2));
            match pos_from(cs, pk + 2, ')') {
                None => None,
                Some(qk) => {
                    let ghost q = qk - pk - 2;
                    if qk < pk + 3 {
                        return None;
                    }
                    assert(s.subrange(2, p + 2) =~= cs@.subrange(i + 2, pk as int));
                    assert(s.subrange(p + 4, p + 4 + q) =~= cs@.subrange(pk + 2, qk as int));
                    Some((pk, qk, qk + 1))
                },
            }
        },
    }
}

/// Spells out every link as `text (target)`.
pub fn normalize_link_text(text: &str) -> (r: String)
    ensures
        r@ == link_norm(text@),
{
    let cs = str_chars(text);
    let mut out = String::new();
    let mut i: usize = 0;
    assert(cs@.skip(0) =~= cs@);
    assert(out@ + link_norm(cs@.skip(0)) =~= link_norm(cs@));
    while i < cs.len()
        invariant
            cs@ == text@,
            i <= cs@.len(),
            out@ + link_norm(cs@.skip(i as int)) == link_norm(cs@),
        decreases cs.len() - i,
    {
        let ghost s = cs@.skip(i as int);
        match link_match(&cs, i) {
            Some((p, q, e)) => {
                assert(s.skip(e - i) =~= cs@.skip(e as int));
                out.append(chars_range(&cs, i + 1, p).as_str());
                out.append(" (");
                out.append(chars_range(&cs, p + 2, q).as_str());
                out.append(")");
                i = e;
            },
            None => {
                assert(s.drop_first() =~= cs@.skip(i + 1));
                assert(s[0] == cs@[i as int]);
                push_char(&mut out, cs[i]);
                i = i + 1;
            },
        }
    }
    assert(cs@.skip(i as int) =~= Seq::<char>::empty());
    out
}

/// Spells out every image as `alt [image: target]`.
pub fn normalize_image_text(text: &str) -> (r: String)
    ensures
        r@ == image_norm(text@),
{
    let cs = str_chars(text);
    let mut out = String::new();
    let mut i: usize = 0;
    assert(cs@.skip(0) =~= cs@);
    assert(out@ + image_norm(cs@.skip(0)) =~= image_norm(cs@));
    while i < cs.len()
        invariant
            cs@ == text@,
            i <= cs@.len(),
            out@ + image_norm(cs@.skip(i as int)) == image_norm(cs@),
        decreases cs.len() - i,
    {
        let ghost s = cs@.skip(i as int);
        match image_match(&cs, i) {
            Some((p, q, e)) => {
                assert(s.skip(e - i) =~= cs@.skip(e as int));
                if p == i + 2 {
                    out.append("[image: ");
                } else {
                    out.append(chars_range(&cs, i + 2, p).as_str());
                    out.append(" [image: ");
                }
                out.append(chars_range(&cs, p + 2, q).as_str());
                out.append("]");
                i = e;
            },
            None => {
                assert(s.drop_first() =~= cs@.skip(i + 1));
                assert(s[0] == cs@[i as int]);
                push_char(&mut out, cs[i]);
                i = i + 1;
            },
        }
    }
    assert(cs@.skip(i as int) =~= Seq::<char>::empty());
    out
}

/// Inline markdown for the terminal: images and links spelled out, code
/// spans coloured.
pub fn render_inline(text: &str) -> (r: String)
    ensures
        r@ == inline_spec(text@),
{
    let images = normalize_image_text(text);
    let links = normalize_link_text(images.as_str());
    styled_inline_markdown(links.as_str())
}

// ---------------------------------------------------------------------
// Single lines
// ---------------------------------------------------------------------

/// The characters of `t` that are not white space, counted.
pub open spec fn nonws_count(t: Seq<char>) -> nat
    decreases t.len(),
{
    if t.len() == 0 { 0 } else { nonws_count(t.drop_last()) + if is_ws(t.last()) { 0nat } else { 1nat } }
}

/// A thematic break: at least three of `-`, `*`, `_` and nothing else but
/// white space.
pub open spec fn thematic_spec(t: Seq<char>) -> bool {
    &&& nonws_count(t) >= 3
    &&& forall|i: int| 0 <= i < t.len() ==> is_ws(#[trigger] t[i]) || t[i] == '-' || t[i] == '*' || t[i] == '_'
}

/// Whether a trimmed line is a thematic break.
pub fn is_thematic_break(t: &str) -> (b: bool)
    ensures
        b == thematic_spec(t@),
{
    let cs = str_chars(t);
    let mut n: usize = 0;
    let mut k: usize = 0;
    while k < cs.len()
        invariant
            cs@ == t@,
            k <= cs.len(),
            n == nonws_count(cs@.take(k as int)),
            n <= k,
            forall|i: int| 0 <= i < k ==> is_ws(#[trigger] cs@[i]) || cs@[i] == '-' || cs@[i] == '*' || cs@[i] == '_',
        decreases cs.len() - k,
    {
        assert(cs@.take(k + 1).drop_last() =~= cs@.take(k as int));
        let c = cs[k];
        if !is_whitespace(c) {
            if !(c == '-' || c == '*' || c == '_') {
                return false;
            }
            n = n + 1;
        }
        k = k + 1;
    }
    assert(cs@.take(k as int) =~= cs@);
    n >= 3
}

/// A heading: 1 to 6 `#`, then a non-empty title (closing `#` removed).
pub open spec fn md_heading(t: Seq<char>) -> Option<(nat, Seq<char>)> {
    let level = (t.len() - strip_all_prefix(t, "#"@).len()) as nat;
    let title = trim_end_spec(strip_all_suffix(trim_start_spec(strip_all_prefix(t, "#"@)), "#"@));
    if 1 <= level <= 6 && title.len() > 0 { Some((level, title)) } else { None }
}

/// A heading's rendering: bold for the first two levels.
pub open spec fn heading_line(level: nat, title: Seq<char>) -> Seq<char> {
    if level <= 2 { bold_spec(inline_spec(title)) } else { inline_spec(title) }
}

/// Parses a markdown heading from a trimmed line.
pub fn parse_heading(t: &str) -> (r: Option<(usize, String)>)
    ensures
        match r {
            Some((l, s)) => md_heading(t@) == Some((l as nat, s@)),
            None => md_heading(t@) is None,
        },
{
    let rest = trim_start_matches(t, "#");
    proof { lemma_strip_all_prefix_len(t@, "#"@); }
    let level = t.unicode_len() - rest.unicode_len();
    let title = trim_end(trim_end_matches(trim_start(rest), "#"));
    if 1 <= level && level <= 6 && title.unicode_len() > 0 {
        Some((level, owned(title)))
    } else {
        None
    }
}

/// A quotation line: `>` markers (its depth), then its text.
pub open spec fn quote_line(line: Seq<char>) -> Option<Seq<char>> {
    let t = trim_start_spec(line);
    if t.len() > 0 && t[0] == '>' {
        let rest = strip_all_prefix(t, ">"@);
        let depth = (t.len() - rest.len()) as nat;
        Some(dim_spec(repeat_seq("│ "@, depth)) + inline_spec(trim_start_spec(rest)))
    } else {
        None
    }
}

/// Renders a quotation line, if the line is one.
pub fn render_blockquote(line: &str) -> (r: Option<String>)
    ensures
        match r { Some(x) => Some(x@), None => None::<Seq<char>> } == quote_line(line@),
{
    let t = trim_start(line);
    let cs = str_chars(t);
    if cs.len() == 0 || cs[0] != '>' {
        return None;
    }
    let rest = trim_start_matches(t, ">");
    proof { lemma_strip_all_prefix_len(t@, ">"@); }
    let depth = t.unicode_len() - rest.unicode_len();
    let mut out = dimmed(repeat_str("│ ", depth).as_str());
    out.append(render_inline(trim_start(rest)).as_str());
    Some(out)
}

/// The indentation of a line as blanks, one per byte of its leading white
/// space.
pub open spec fn indent_of(line: Seq<char>) -> Seq<char> {
    spaces((byte_len(line) - byte_len(trim_start_spec(line))) as nat)
}

/// A task-list item: bullet, `[x]`/`[X]`/`[ ]`, then its text.
pub open spec fn task_line(line: Seq<char>) -> Option<Seq<char>> {
    let t = trim_start_spec(line);
    if t.len() > 0 && (t[0] == '-' || t[0] == '*' || t[0] == '+') && " ["@.is_prefix_of(t.skip(1)) {
        let rest = trim_start_spec(t.skip(2));
        if "[x] "@.is_prefix_of(rest) || "[X] "@.is_prefix_of(rest) {
            Some(indent_of(line) + fg_spec(Color::Green, "✓"@) + " "@ + inline_spec(rest.skip(4)))
        } else if "[ ] "@.is_prefix_of(rest) {
            Some(indent_of(line) + fg_spec(Color::Red, "○"@) + " "@ + inline_spec(rest.skip(4)))
        } else {
            None
        }
    } else {
        None
    }
}

/// Trimming the start never adds bytes.
pub proof fn lemma_trim_start_bytes(s: Seq<char>)
    ensures
        byte_len(trim_start_spec(s)) <= byte_len(s),
{
    crate::text::lemma_leading_ws_bound(s);
    let k = crate::text::leading_ws(s) as int;
    lemma_skip_bytes(s, k);
    assert(trim_start_spec(s) == s.skip(k));
}

proof fn lemma_skip_bytes(s: Seq<char>, k: int)
    requires
        0 <= k <= s.len(),
    ensures
        byte_len(s.skip(k)) <= byte_len(s),
    decreases k,
{
    if k == 0 {
        assert(s.skip(0) =~= s);
    } else {
        lemma_skip_bytes(s.drop_first(), k - 1);
        assert(s.drop_first().skip(k - 1) =~= s.skip(k));
    }
}

fn byte_count(s: &str) -> (n: usize)
    ensures
        n == byte_len(s@),
{
    let b = s.as_bytes();
    b.len()
}

fn indent_text(line: &str, t: &str) -> (r: String)
    requires
        t@ == trim_start_spec(line@),
    ensures
        r@ == indent_of(line@),
{
    let a = byte_count(line);
    let b = byte_count(t);
    proof { lemma_trim_start_bytes(line@); }
    spaces_str(a - b)
}

/// Renders a task-list item, if the line is one.
pub fn render_task_list_item(line: &str) -> (r: Option<String>)
    ensures
        match r { Some(x) => Some(x@), None => None::<Seq<char>> } == task_line(line@),
{
    let t = trim_start(line);
    let cs = str_chars(t);
    if cs.len() == 0 || !(cs[0] == '-' || cs[0] == '*' || cs[0] == '+') {
        return None;
    }
    let after = t.substring_char(1, cs.len());
    assert(after@ =~= t@.skip(1));
    if !starts_with(after, " [") {
        return None;
    }
    proof { reveal_strlit(" ["); }
    let tail = t.substring_char(2, cs.len());
    assert(tail@ =~= t@.skip(2));
    let rest = trim_start(tail);
    let checked = starts_with(rest, "[x] ") || starts_with(rest, "[X] ");
    let unchecked = starts_with(rest, "[ ] ");
    if !checked && !unchecked {
        return None;
    }
    proof {
        reveal_strlit("[x] ");
        reveal_strlit("[X] ");
        reveal_strlit("[ ] ");
    }
    let n = rest.unicode_len();
    let content = rest.substring_char(4, n);
    assert(content@ =~= rest@.skip(4));
    let mut out = indent_text(line, t);
    if checked {
        out.append(fg("✓", Color::Green).as_str());
    } else {
        out.append(fg("○", Color::Red).as_str());
    }
    out.append(" ");
    out.append(render_inline(content).as_str());
    Some(out)
}

/// The number of ASCII digits at the start of `t`.
pub open spec fn digit_run(t: Seq<char>) -> nat
    decreases t.len(),
{
    if t.len() > 0 && '0' <= t[0] && t[0] <= '9' { 1 + digit_run(t.drop_first()) } else { 0 }
}

proof fn lemma_digit_run_bound(t: Seq<char>)
    ensures
        digit_run(t) <= t.len(),
    decreases t.len(),
{
    if t.len() > 0 && '0' <= t[0] && t[0] <= '9' {
        lemma_digit_run_bound(t.drop_first());
    }
}

/// A list item: a bullet (`- `, `* `, `+ `) or a number and `. `, then text.
pub open spec fn list_line(line: Seq<char>) -> Option<Seq<char>> {
    let t = trim_start_spec(line);
    if "- "@.is_prefix_of(t) || "* "@.is_prefix_of(t) || "+ "@.is_prefix_of(t) {
        Some(indent_of(line) + "• "@ + inline_spec(t.skip(2)))
    } else {
        let d = digit_run(t);
        if d > 0 && ". "@.is_prefix_of(t.skip(d as int)) {
            Some(indent_of(line) + fg_spec(Color::Cyan, t.take(d + 1 as int)) + " "@ + inline_spec(t.skip(d + 2 as int)))
        } else {
            None
        }
    }
}

fn digit_count(cs: &Vec<char>) -> (n: usize)
    ensures
        n == digit_run(cs@),
{
    let mut n: usize = 0;
    assert(cs@.skip(0) =~= cs@);
    while n < cs.len() && '0' <= cs[n] && cs[n] <= '9'
        invariant
            n <= cs.len(),
            digit_run(cs@) == n + digit_run(cs@.skip(n as int)),
        decreases cs.len() - n,
    {
        assert(cs@.skip(n as int).drop_first() =~= cs@.skip(n + 1));
        n = n + 1;
    }
    n
}

/// Renders a list item, if the line is one.
pub fn render_list_item(line: &str) -> (r: Option<String>)
    ensures
        match r { Some(x) => Some(x@), None => None::<Seq<char>> } == list_line(line@),
{
    let t = trim_start(line);
    let bullet = starts_with(t, "- ") || starts_with(t, "* ") || starts_with(t, "+ ");
    if bullet {
        proof {
            reveal_strlit("- ");
            reveal_strlit("* ");
            reveal_strlit("+ ");
        }
        let n = t.unicode_len();
        let content = t.substring_char(2, n);
        assert(content@ =~= t@.skip(2));
        let mut out = indent_text(line, t);
        out.append("• ");
        out.append(render_inline(content).as_str());
        return Some(out);
    }
    let cs = str_chars(t);
    let d = digit_count(&cs);
    proof { lemma_digit_run_bound(t@); }
    if d == 0 {
        return None;
    }
    let n = cs.len();
    let after = t.substring_char(d, n);
    assert(after@ =~= t@.skip(d as int));
    if !starts_with(after, ". ") {
        return None;
    }
    proof { reveal_strlit(". "); }
    let marker = t.substring_char(0, d + 1);
    assert(marker@ =~= t@.take(d + 1));
    let content = t.substring_char(d + 2, n);
    assert(content@ =~= t@.skip(d + 2));
    let mut out = indent_text(line, t);
    out.append(fg(marker, Color::Cyan).as_str());
    out.append(" ");
    out.append(render_inline(content).as_str());
    Some(out)
}

// ---------------------------------------------------------------------
// Tables
// ---------------------------------------------------------------------

/// The cells of a table row: outer pipes dropped, split at `|`, trimmed.
pub open spec fn pipe_cells(line: Seq<char>) -> Seq<Seq<char>> {
    split_spec(strip_all_suffix(strip_all_prefix(trim_spec(line), "|"@), "|"@), '|')
        .map_values(|c: Seq<char>| trim_spec(c))
}

/// A line that can belong to a table: not blank, with a `|`.
pub open spec fn looks_like_row(line: Seq<char>) -> bool {
    trim_spec(line).len() > 0 && trim_spec(line).contains('|')
}

/// A separator cell: dashes, colons and blanks, not empty.
pub open spec fn sep_cell(c: Seq<char>) -> bool {
    trim_spec(c).len() > 0
        && forall|i: int| 0 <= i < trim_spec(c).len() ==> #[trigger] trim_spec(c)[i] == '-' || trim_spec(c)[i] == ':' || trim_spec(c)[i] == ' '
}

/// A separator row: every cell a separator cell.
pub open spec fn is_separator(line: Seq<char>) -> bool {
    pipe_cells(line).len() > 0 && forall|i: int| 0 <= i < pipe_cells(line).len() ==> sep_cell(#[trigger] pipe_cells(line)[i])
}

/// Splits a table row into its cells.
pub fn split_pipe_row(line: &str) -> (r: Vec<String>)
    ensures
        strs_view(r@) == pipe_cells(line@),
{
    let inner = trim_end_matches(trim_start_matches(trim(line), "|"), "|");
    let pieces = split_char(inner, '|');
    let ghost pv = split_spec(inner@, '|');
    let mut cells: Vec<String> = Vec::new();
    let mut k: usize = 0;
    while k < pieces.len()
        invariant
            pieces@.map_values(|x: String| x@) == pv,
            k <= pieces.len(),
            strs_view(cells@) == pv.take(k as int).map_values(|c: Seq<char>| trim_spec(c)),
        decreases pieces.len() - k,
    {
        assert(pv[k as int] == pieces@[k as int]@);
        cells.push(owned(trim(pieces[k].as_str())));
        assert(pv.take(k + 1).map_values(|c: Seq<char>| trim_spec(c))
            =~= pv.take(k as int).map_values(|c: Seq<char>| trim_spec(c)).push(trim_spec(pv[k as int])));
        k = k + 1;
    }
    assert(pv.take(k as int) =~= pv);
    cells
}

fn contains_char(s: &str, c: char) -> (b: bool)
    ensures
        b == s@.contains(c),
{
    let cs = str_chars(s);
    let mut k: usize = 0;
    while k < cs.len()
        invariant
            cs@ == s@,
            k <= cs.len(),
            forall|j: int| 0 <= j < k ==> cs@[j] != c,
        decreases cs.len() - k,
    {
        if cs[k] == c {
            assert(s@[k as int] == c);
            return true;
        }
        k = k + 1;
    }
    false
}

/// Whether a line can belong to a table.
pub fn looks_like_table_row(line: &str) -> (b: bool)
    ensures
        b == looks_like_row(line@),
{
    let t = trim(line);
    t.unicode_len() > 0 && contains_char(t, '|')
}

fn separator_cell(c: &str) -> (b: bool)
    ensures
        b == sep_cell(c@),
{
    let t = trim(c);
    let cs = str_chars(t);
    if cs.len() == 0 {
        return false;
    }
    let mut k: usize = 0;
    while k < cs.len()
        invariant
            cs@ == t@,
            t@ == trim_spec(c@),
            k <= cs.len(),
            forall|i: int| 0 <= i < k ==> #[trigger] cs@[i] == '-' || cs@[i] == ':' || cs@[i] == ' ',
        decreases cs.len() - k,
    {
        if !(cs[k] == '-' || cs[k] == ':' || cs[k] == ' ') {
            return false;
        }
        k = k + 1;
    }
    true
}

/// Whether a line separates a table's header from its rows.
pub fn is_table_separator_line(line: &str) -> (b: bool)
    ensures
        b == is_separator(line@),
{
    let cells = split_pipe_row(line);
    if cells.len() == 0 {
        return false;
    }
    let mut k: usize = 0;
    while k < cells.len()
        invariant
            strs_view(cells@) == pipe_cells(line@),
            k <= cells.len(),
            forall|i: int| 0 <= i < k ==> sep_cell(#[trigger] pipe_cells(line@)[i]),
        decreases cells.len() - k,
    {
        assert(pipe_cells(line@)[k as int] == cells@[k as int]@);
        if !separator_cell(cells[k].as_str()) {
            return false;
        }
        k = k + 1;
    }
    true
}

/// The data rows of a table body (separator rows left out), as cells.
pub open spec fn data_rows(ls: Seq<Seq<char>>) -> Seq<Seq<Seq<char>>>
    decreases ls.len(),
{
    if ls.len() == 0 {
        Seq::empty()
    } else if is_separator(ls.last()) {
        data_rows(ls.drop_last())
    } else {
        data_rows(ls.drop_last()).push(pipe_cells(ls.last()))
    }
}

/// The most cells any row has.
pub open spec fn max_cells(rows: Seq<Seq<Seq<char>>>) -> nat
    decreases rows.len(),
{
    if rows.len() == 0 {
        0
    } else {
        let m = max_cells(rows.drop_last());
        if rows.last().len() > m { rows.last().len() } else { m }
    }
}

/// The width of column `c`: its widest rendered cell.
pub open spec fn col_width(rows: Seq<Seq<Seq<char>>>, c: int) -> nat
    decreases rows.len(),
{
    if rows.len() == 0 {
        0
    } else {
        let m = col_width(rows.drop_last(), c);
        let w = if 0 <= c < rows.last().len() { visible_width_spec(inline_spec(rows.last()[c])) } else { 0 };
        if w > m { w } else { m }
    }
}

/// The column widths of a table.
pub open spec fn table_widths(rows: Seq<Seq<Seq<char>>>) -> Seq<nat> {
    Seq::new(max_cells(rows), |c: int| col_width(rows, c))
}

/// Cell `c` of a row as rendered (empty past the row's end).
pub open spec fn cell_text(row: Seq<Seq<char>>, c: int) -> Seq<char> {
    if 0 <= c < row.len() { inline_spec(row[c]) } else { Seq::empty() }
}

/// One column of a rendered row.
pub open spec fn cell_column(row: Seq<Seq<char>>, w: nat, c: int, header: bool) -> Seq<char> {
    let r = cell_text(row, c);
    let pad: nat = if w >= visible_width_spec(r) { (w - visible_width_spec(r)) as nat } else { 0 };
    " "@ + (if header { bold_spec(r) } else { r }) + spaces(pad + 1) + dim_spec("|"@)
}

/// A rendered table row.
pub open spec fn row_text(row: Seq<Seq<char>>, widths: Seq<nat>, header: bool) -> Seq<char> {
    dim_spec("|"@) + flatten(Seq::new(widths.len(), |c: int| cell_column(row, widths[c], c, header)))
}

/// The rendered separator row.
pub open spec fn separator_text(widths: Seq<nat>) -> Seq<char> {
    dim_spec("|"@) + flatten(widths.map_values(|w: nat| " "@ + dim_spec(repeat_seq("-"@, w)) + " "@ + dim_spec("|"@)))
}

/// A rendered table: the header row in bold, a separator, the data rows,
/// each column as wide as its widest cell. Fewer than two lines are shown
/// as inline text.
pub open spec fn table_spec(tl: Seq<Seq<char>>) -> Seq<Seq<char>> {
    if tl.len() < 2 {
        tl.map_values(|l: Seq<char>| inline_spec(l))
    } else {
        let data = data_rows(tl.skip(2));
        let rows = seq![pipe_cells(tl[0])] + data;
        let w = table_widths(rows);
        seq![row_text(rows[0], w, true), separator_text(w)] + data.map_values(|r: Seq<Seq<char>>| row_text(r, w, false))
    }
}

fn cells_view(v: &Vec<Vec<String>>) -> (r: Ghost<Seq<Seq<Seq<char>>>>)
    ensures
        r@ == v@.map_values(|row: Vec<String>| strs_view(row@)),
{
    Ghost(v@.map_values(|row: Vec<String>| strs_view(row@)))
}

#[verifier::spinoff_prover]
#[verifier::rlimit(40)]
fn render_table_row(cells: &Vec<String>, widths: &Vec<usize>, header: bool) -> (r: String)
    ensures
        r@ == row_text(strs_view(cells@), widths@.map_values(|w: usize| w as nat), header),
{
    let ghost wv = widths@.map_values(|w: usize| w as nat);
    let ghost row = strs_view(cells@);
    let ghost cols = Seq::new(wv.len(), |c: int| cell_column(row, wv[c], c, header));
    let mut out = dimmed("|");
    let mut c: usize = 0;
    while c < widths.len()
        invariant
            wv == widths@.map_values(|w: usize| w as nat),
            row == strs_view(cells@),
            cols == Seq::new(wv.len(), |c: int| cell_column(row, wv[c], c, header)),
            c <= widths.len(),
            out@ == dim_spec("|"@) + flatten(cols.take(c as int)),
        decreases widths.len() - c,
    {
        let rendered = if c < cells.len() {
            assert(row[c as int] == cells@[c as int]@);
            render_inline(cells[c].as_str())
        } else {
            String::new()
        };
        let vw = visible_width(rendered.as_str());
        let pad = if widths[c] >= vw { widths[c] - vw } else { 0 };
        let mut col = owned(" ");
        if header {
            col.append(bold(rendered.as_str()).as_str());
        } else {
            col.append(rendered.as_str());
        }
        col.append(spaces_str(pad).as_str());
        col.append(" ");
        proof {
            reveal_strlit(" ");
            assert(" "@ =~= seq![' ']);
            assert(repeat_seq(seq![' '], (pad + 1) as nat) == repeat_seq(seq![' '], pad as nat) + seq![' ']);
        }
        col.append(dimmed("|").as_str());
        proof {
            assert(cols.take(c + 1) =~= cols.take(c as int).push(cols[c as int]));
            lemma_flatten_push(cols.take(c as int), cols[c as int]);
        }
        out.append(col.as_str());
        c = c + 1;
    }
    assert(cols.take(c as int) =~= cols);
    out
}

fn render_table_separator(widths: &Vec<usize>) -> (r: String)
    ensures
        r@ == separator_text(widths@.map_values(|w: usize| w as nat)),
{
    let ghost wv = widths@.map_values(|w: usize| w as nat);
    let ghost cols = wv.map_values(|w: nat| " "@ + dim_spec(repeat_seq("-"@, w)) + " "@ + dim_spec("|"@));
    let mut out = dimmed("|");
    let mut c: usize = 0;
    while c < widths.len()
        invariant
            wv == widths@.map_values(|w: usize| w as nat),
            cols == wv.map_values(|w: nat| " "@ + dim_spec(repeat_seq("-"@, w)) + " "@ + dim_spec("|"@)),
            c <= widths.len(),
            out@ == dim_spec("|"@) + flatten(cols.take(c as int)),
        decreases widths.len() - c,
    {
        let mut col = concat2(" ", dimmed(repeat_str("-", widths[c]).as_str()).as_str());
        col.append(" ");
        col.append(dimmed("|").as_str());
        proof {
            assert(cols.take(c + 1) =~= cols.take(c as int).push(cols[c as int]));
            lemma_flatten_push(cols.take(c as int), cols[c as int]);
        }
        out.append(col.as_str());
        c = c + 1;
    }
    assert(cols.take(c as int) =~= cols);
    out
}

fn widen(widths: &mut Vec<usize>, row: &Vec<String>)
    requires
        row@.len() <= old(widths)@.len(),
    ensures
        final(widths)@.len() == old(widths)@.len(),
        forall|c: int| 0 <= c < old(widths)@.len() ==> {
            let w: nat = if c < row@.len() { visible_width_spec(inline_spec(row@[c]@)) } else { 0 };
            #[trigger] final(widths)@[c] == if w > old(widths)@[c] { w } else { old(widths)@[c] as nat }
        },
{
    let mut c: usize = 0;
    while c < row.len()
        invariant
            row@.len() <= widths@.len(),
            widths@.len() == old(widths)@.len(),
            c <= row@.len(),
            forall|j: int| 0 <= j < c ==> {
                let w: nat = visible_width_spec(inline_spec(row@[j]@));
                #[trigger] widths@[j] == if w > old(widths)@[j] { w } else { old(widths)@[j] as nat }
            },
            forall|j: int| c <= j < widths@.len() ==> #[trigger] widths@[j] == old(widths)@[j],
        decreases row.len() - c,
    {
        let w = visible_width(render_inline(row[c].as_str()).as_str());
        if w > widths[c] {
            widths.set(c, w);
        }
        c = c + 1;
    }
}

/// Renders a table from its lines.
pub fn render_table(tl: &Vec<String>) -> (r: Vec<String>)
    ensures
        strs_view(r@) == table_spec(strs_view(tl@)),
{
    let ghost tv = strs_view(tl@);
    if tl.len() < 2 {
        let mut out: Vec<String> = Vec::new();
        let mut k: usize = 0;
        while k < tl.len()
            invariant
                tv == strs_view(tl@),
                k <= tl.len(),
                out@.len() == k,
                strs_view(out@) == tv.take(k as int).map_values(|l: Seq<char>| inline_spec(l)),
            decreases tl.len() - k,
        {
            let ghost before = out@;
            out.push(render_inline(tl[k].as_str()));
            assert(strs_view(out@) =~= strs_view(before).push(out@[k as int]@));
            assert(tv.take(k + 1).map_values(|l: Seq<char>| inline_spec(l))
                =~= tv.take(k as int).map_values(|l: Seq<char>| inline_spec(l)).push(inline_spec(tv[k as int])));
            k = k + 1;
        }
        assert(tv.take(k as int) =~= tv);
        return out;
    }
    let header = split_pipe_row(tl[0].as_str());
    let ghost rest = tv.skip(2);
    let mut data: Vec<Vec<String>> = Vec::new();
    let mut k: usize = 2;
    while k < tl.len()
        invariant
            tv == strs_view(tl@),
            rest == tv.skip(2),
            2 <= k <= tl.len(),
            data@.map_values(|row: Vec<String>| strs_view(row@)) == data_rows(rest.take(k - 2)),
        decreases tl.len() - k,
    {
        assert(rest.take(k - 1).drop_last() =~= rest.take(k - 2));
        assert(rest.take(k - 1).last() == tl@[k as int]@);
        if !is_table_separator_line(tl[k].as_str()) {
            let cells = split_pipe_row(tl[k].as_str());
            let ghost before = data@;
            data.push(cells);
            assert(data@.map_values(|row: Vec<String>| strs_view(row@))
                =~= before.map_values(|row: Vec<String>| strs_view(row@)).push(strs_view(cells@)));
        }
        k = k + 1;
    }
    assert(rest.take(k - 2) =~= rest);
    let ghost dv = data@.map_values(|row: Vec<String>| strs_view(row@));
    let ghost rows = seq![strs_view(header@)] + dv;
    assert(rows == seq![pipe_cells(tv[0])] + data_rows(tv.skip(2)));
    // The number of columns.
    let mut ncols = header.len();
    let mut j: usize = 0;
    assert(rows.take(1) =~= seq![strs_view(header@)]);
    assert(max_cells(seq![strs_view(header@)]) == header@.len()) by {
        assert(seq![strs_view(header@)].drop_last() =~= Seq::<Seq<Seq<char>>>::empty());
        assert(max_cells(Seq::<Seq<Seq<char>>>::empty()) == 0);
        assert(max_cells(seq![strs_view(header@)].drop_last()) == 0);
        assert(seq![strs_view(header@)].last() == strs_view(header@));
        assert(strs_view(header@).len() == header@.len());
    }
    while j < data.len()
        invariant
            dv == data@.map_values(|row: Vec<String>| strs_view(row@)),
            rows == seq![strs_view(header@)] + dv,
            j <= data.len(),
            ncols == max_cells(rows.take(j + 1)),
        decreases data.len() - j,
    {
        assert(rows.take(j + 2).drop_last() =~= rows.take(j + 1));
        assert(rows.take(j + 2).last() == strs_view(data@[j as int]@));
        if data[j].len() > ncols {
            ncols = data[j].len();
        }
        j = j + 1;
    }
    assert(rows.take(j + 1) =~= rows);
    proof { lemma_max_cells(rows); }
    let mut widths: Vec<usize> = Vec::new();
    let mut c: usize = 0;
    while c < ncols
        invariant
            c <= ncols,
            widths@.len() == c,
            forall|i: int| 0 <= i < c ==> #[trigger] widths@[i] == 0,
        decreases ncols - c,
    {
        widths.push(0);
        c = c + 1;
    }
    assert forall|i: int| 0 <= i < ncols implies #[trigger] widths@[i] == col_width(rows.take(0), i) by {}
    widen(&mut widths, &header);
    assert(rows.take(1).drop_last() =~= rows.take(0));
    assert forall|i: int| 0 <= i < ncols implies #[trigger] widths@[i] == col_width(rows.take(1), i) by {
        assert(rows.take(1).last() == strs_view(header@));
        if i < header@.len() {
            assert(strs_view(header@)[i] == header@[i]@);
        }
    }
    let mut j: usize = 0;
    while j < data.len()
        invariant
            dv == data@.map_values(|row: Vec<String>| strs_view(row@)),
            rows == seq![strs_view(header@)] + dv,
            forall|i: int| 0 <= i < rows.len() ==> (#[trigger] rows[i]).len() <= ncols,
            widths@.len() == ncols,
            j <= data.len(),
            forall|i: int| 0 <= i < ncols ==> #[trigger] widths@[i] == col_width(rows.take(j + 1), i),
        decreases data.len() - j,
    {
        assert(rows[j + 1] == strs_view(data@[j as int]@));
        let ghost old_w = widths@;
        widen(&mut widths, &data[j]);
        assert(rows.take(j + 2).drop_last() =~= rows.take(j + 1));
        assert forall|i: int| 0 <= i < ncols implies #[trigger] widths@[i] == col_width(rows.take(j + 2), i) by {
            assert(rows.take(j + 2).last() == strs_view(data@[j as int]@));
            if i < data@[j as int]@.len() {
                assert(strs_view(data@[j as int]@)[i] == data@[j as int]@[i]@);
            }
        }
        j = j + 1;
    }
    assert(rows.take(j + 1) =~= rows);
    let ghost wv = widths@.map_values(|w: usize| w as nat);
    assert(wv =~= table_widths(rows));
    let mut out: Vec<String> = Vec::new();
    out.push(render_table_row(&header, &widths, true));
    out.push(render_table_separator(&widths));
    let mut j: usize = 0;
    while j < data.len()
        invariant
            dv == data@.map_values(|row: Vec<String>| strs_view(row@)),
            wv == widths@.map_values(|w: usize| w as nat),
            out@.len() == j + 2,
            strs_view(out@) == seq![row_text(rows[0], wv, true), separator_text(wv)]
                + dv.take(j as int).map_values(|r: Seq<Seq<char>>| row_text(r, wv, false)),
            rows == seq![strs_view(header@)] + dv,
            j <= data.len(),
        decreases data.len() - j,
    {
        let line = render_table_row(&data[j], &widths, false);
        let ghost before = out@;
        out.push(line);
        assert(strs_view(out@) =~= strs_view(before).push(line@));
        assert(dv.take(j + 1).map_values(|r: Seq<Seq<char>>| row_text(r, wv, false))
            =~= dv.take(j as int).map_values(|r: Seq<Seq<char>>| row_text(r, wv, false)).push(row_text(dv[j as int], wv, false)));
        j = j + 1;
    }
    assert(dv.take(j as int) =~= dv);
    out
}

proof fn lemma_max_cells(rows: Seq<Seq<Seq<char>>>)
    ensures
        forall|i: int| 0 <= i < rows.len() ==> (#[trigger] rows[i]).len() <= max_cells(rows),
    decreases rows.len(),
{
    if rows.len() > 0 {
        lemma_max_cells(rows.drop_last());
        assert forall|i: int| 0 <= i < rows.len() implies (#[trigger] rows[i]).len() <= max_cells(rows) by {
            if i < rows.len() - 1 {
                assert(rows.drop_last()[i] == rows[i]);
            }
        }
    }
}

// ---------------------------------------------------------------------
// Code blocks
// ---------------------------------------------------------------------

/// A fence line (starts with three backticks once trimmed).
pub open spec fn is_fence(l: Seq<char>) -> bool {
    "```"@.is_prefix_of(trim_spec(l))
}

/// The first fence line at or after `j` (the end when there is none).
pub open spec fn fence_end(ls: Seq<Seq<char>>, j: int) -> int
    decreases ls.len() - j,
{
    if j >= ls.len() {
        ls.len() as int
    } else if j >= 0 && is_fence(ls[j]) {
        j
    } else {
        fence_end(ls, j + 1)
    }
}

/// The language named after an opening fence.
pub open spec fn fence_lang(l: Seq<char>) -> Seq<char> {
    trim_spec(strip_all_prefix(trim_spec(l), "`"@))
}

/// The code between the fence at `i` and the closing fence (or the end),
/// each line ended by a newline.
pub open spec fn fenced_code(ls: Seq<Seq<char>>, i: int) -> Seq<char> {
    flatten(ls.subrange(i + 1, fence_end(ls, i + 1)).map_values(|l: Seq<char>| l + "\n"@))
}

/// A code block: highlighted when the language is known (without trailing
/// newlines), else each line dimmed.
pub open spec fn code_block_spec(code: Seq<char>, lang: Seq<char>) -> Seq<char> {
    match highlight_spec(code, lang) {
        Some(h) => strip_all_suffix(h, "\n"@),
        None => join_lines(lines_spec(code).map_values(|l: Seq<char>| dim_spec(l))),
    }
}

/// Renders a code block.
pub fn render_code_block(code: &str, lang: &str) -> (r: String)
    ensures
        r@ == code_block_spec(code@, lang@),
{
    match highlight_code_block(code, lang) {
        Some(h) => owned(trim_end_matches(h.as_str(), "\n")),
        None => {
            let ls = lines(code);
            let ghost lv = lines_spec(code@);
            let mut out: Vec<String> = Vec::new();
            let mut k: usize = 0;
            while k < ls.len()
                invariant
                    ls@.map_values(|x: String| x@) == lv,
                    k <= ls.len(),
                    out@.len() == k,
                    strs_view(out@) == lv.take(k as int).map_values(|l: Seq<char>| dim_spec(l)),
                decreases ls.len() - k,
            {
                assert(lv[k as int] == ls@[k as int]@);
                let d = dimmed(ls[k].as_str());
                let ghost before = out@;
                out.push(d);
                assert(strs_view(out@) =~= strs_view(before).push(d@));
                assert(lv.take(k + 1).map_values(|l: Seq<char>| dim_spec(l))
                    =~= lv.take(k as int).map_values(|l: Seq<char>| dim_spec(l)).push(dim_spec(lv[k as int])));
                k = k + 1;
            }
            assert(lv.take(k as int) =~= lv);
            join_with_newlines(&out)
        },
    }
}

// ---------------------------------------------------------------------
// The body
// ---------------------------------------------------------------------

/// The end of the table starting at `j`: the first line that is not a row.
pub open spec fn table_end(ls: Seq<Seq<char>>, j: int) -> int
    decreases ls.len() - j,
{
    if j >= ls.len() {
        ls.len() as int
    } else if j >= 0 && !looks_like_row(ls[j]) {
        j
    } else {
        table_end(ls, j + 1)
    }
}

/// A table starts at `i`: a row followed by a separator row.
pub open spec fn table_start(ls: Seq<Seq<char>>, i: int) -> bool {
    0 <= i && i + 1 < ls.len() && looks_like_row(ls[i]) && is_separator(ls[i + 1])
}

/// Where the block starting at line `i` ends.
pub open spec fn step_next(ls: Seq<Seq<char>>, i: int) -> int {
    if is_fence(ls[i]) {
        let e = fence_end(ls, i + 1);
        if e < ls.len() { e + 1 } else { ls.len() as int }
    } else if table_start(ls, i) {
        table_end(ls, i)
    } else {
        i + 1
    }
}

/// The rendered lines of the block starting at line `i`.
pub open spec fn step_lines(ls: Seq<Seq<char>>, i: int, width: nat) -> Seq<Seq<char>> {
    let l = ls[i];
    let t = trim_spec(l);
    if is_fence(l) {
        seq![code_block_spec(fenced_code(ls, i), fence_lang(l))]
    } else if table_start(ls, i) {
        table_spec(ls.subrange(i, table_end(ls, i)))
    } else if t.len() == 0 {
        seq![Seq::empty()]
    } else if thematic_spec(t) {
        seq![rule_spec("─"@, width, None)]
    } else {
        match md_heading(t) {
            Some((level, title)) => seq![heading_line(level, title)],
            None => match quote_line(l) {
                Some(q) => seq![q],
                None => match task_line(l) {
                    Some(x) => seq![x],
                    None => match list_line(l) {
                        Some(x) => seq![x],
                        None => seq![inline_spec(l)],
                    },
                },
            },
        }
    }
}

/// The rendered lines of the body from line `i` on, block by block.
pub open spec fn body_lines(ls: Seq<Seq<char>>, i: int, width: nat) -> Seq<Seq<char>>
    decreases ls.len() - i,
{
    if 0 <= i < ls.len() && i < step_next(ls, i) <= ls.len() {
        step_lines(ls, i, width) + body_lines(ls, step_next(ls, i), width)
    } else {
        Seq::empty()
    }
}

proof fn lemma_fence_end_bounds(ls: Seq<Seq<char>>, j: int)
    requires
        0 <= j <= ls.len(),
    ensures
        j <= fence_end(ls, j) <= ls.len(),
        fence_end(ls, j) < ls.len() ==> is_fence(ls[fence_end(ls, j)]),
        forall|k: int| j <= k < fence_end(ls, j) ==> !is_fence(#[trigger] ls[k]),
    decreases ls.len() - j,
{
    if j < ls.len() && !is_fence(ls[j]) {
        lemma_fence_end_bounds(ls, j + 1);
    }
}

proof fn lemma_table_end_bounds(ls: Seq<Seq<char>>, j: int)
    requires
        0 <= j <= ls.len(),
    ensures
        j <= table_end(ls, j) <= ls.len(),
        table_end(ls, j) < ls.len() ==> !looks_like_row(ls[table_end(ls, j)]),
        forall|k: int| j <= k < table_end(ls, j) ==> looks_like_row(#[trigger] ls[k]),
    decreases ls.len() - j,
{
    if j < ls.len() && looks_like_row(ls[j]) {
        lemma_table_end_bounds(ls, j + 1);
    }
}

/// Renders the block starting at line `i`: its lines and where the next
/// block starts.
fn render_step(ls: &Vec<String>, i: usize, width: usize) -> (r: (Vec<String>, usize))
    requires
        i < ls@.len(),
    ensures
        strs_view(r.0@) == step_lines(strs_view(ls@), i as int, width as nat),
        r.1 as int == step_next(strs_view(ls@), i as int),
        i < r.1 <= ls@.len(),
{
    let ghost lv = strs_view(ls@);
    let n = ls.len();
    assert(i < n);
    let line = ls[i].as_str();
    assert(lv[i as int] == line@);
    let t = trim(line);
    if starts_with(t, "```") {
        let mut e = i + 1;
        let mut code = String::new();
        proof { lemma_fence_end_bounds(lv, i + 1); }
        while e < ls.len() && !starts_with(trim(ls[e].as_str()), "```")
            invariant
                lv == strs_view(ls@),
                i < e <= ls@.len(),
                fence_end(lv, i + 1) == fence_end(lv, e as int),
                code@ == flatten(lv.subrange(i + 1, e as int).map_values(|l: Seq<char>| l + "\n"@)),
            decreases ls.len() - e,
        {
            assert(lv[e as int] == ls@[e as int]@);
            proof {
                let f = |l: Seq<char>| l + "\n"@;
                assert(lv.subrange(i + 1, e + 1).map_values(f) =~= lv.subrange(i + 1, e as int).map_values(f).push(f(lv[e as int])));
                lemma_flatten_push(lv.subrange(i + 1, e as int).map_values(f), f(lv[e as int]));
            }
            code.append(ls[e].as_str());
            code.append("\n");
            e = e + 1;
        }
        proof {
            if e < ls.len() {
                assert(lv[e as int] == ls@[e as int]@);
                assert(is_fence(lv[e as int]));
            }
            assert(fence_end(lv, e as int) == e);
        }
        let lang = trim(trim_start_matches(t, "`"));
        let block = render_code_block(code.as_str(), lang);
        let next = if e < ls.len() { e + 1 } else { ls.len() };
        let v = vec![block];
        assert(strs_view(v@) =~= seq![block@]);
        return (v, next);
    }
    let is_table = i + 1 < ls.len() && looks_like_table_row(line) && is_table_separator_line(ls[i + 1].as_str());
    proof {
        if i + 1 < ls.len() {
            assert(lv[i + 1] == ls@[i + 1]@);
        }
    }
    if is_table {
        proof { lemma_table_end_bounds(lv, i as int); }
        let mut e = i;
        let mut rows: Vec<String> = Vec::new();
        while e < ls.len() && looks_like_table_row(ls[e].as_str())
            invariant
                lv == strs_view(ls@),
                i <= e <= ls@.len(),
                table_end(lv, i as int) == table_end(lv, e as int),
                strs_view(rows@) == lv.subrange(i as int, e as int),
            decreases ls.len() - e,
        {
            assert(lv[e as int] == ls@[e as int]@);
            let ghost before = rows@;
            rows.push(ls[e].clone());
            assert(strs_view(rows@) =~= strs_view(before).push(lv[e as int]));
            assert(lv.subrange(i as int, e + 1) =~= lv.subrange(i as int, e as int).push(lv[e as int]));
            e = e + 1;
        }
        proof {
            if e < ls.len() {
                assert(lv[e as int] == ls@[e as int]@);
            }
            assert(table_end(lv, e as int) == e);
        }
        return (render_table(&rows), e);
    }
    let rendered = if t.unicode_len() == 0 {
        String::new()
    } else if is_thematic_break(t) {
        rule(width, None)
    } else {
        match parse_heading(t) {
            Some((level, title)) => {
                if level <= 2 {
                    bold(render_inline(title.as_str()).as_str())
                } else {
                    render_inline(title.as_str())
                }
            },
            None => match render_blockquote(line) {
                Some(q) => q,
                None => match render_task_list_item(line) {
                    Some(x) => x,
                    None => match render_list_item(line) {
                        Some(x) => x,
                        None => render_inline(line),
                    },
                },
            },
        }
    };
    let v = vec![rendered];
    assert(strs_view(v@) =~= seq![rendered@]);
    (v, i + 1)
}

/// Renders the body of a document for a terminal of `width` columns.
pub fn render_body(body: &str, width: usize) -> (r: String)
    ensures
        r@ == join_lines(body_lines(lines_spec(body@), 0, width as nat)),
{
    let ls = lines(body);
    let ghost lv = lines_spec(body@);
    assert(strs_view(ls@) == lv);
    let mut out: Vec<String> = Vec::new();
    let mut i: usize = 0;
    assert(strs_view(out@) + body_lines(lv, 0, width as nat) =~= body_lines(lv, 0, width as nat));
    while i < ls.len()
        invariant
            strs_view(ls@) == lv,
            i <= ls@.len(),
            strs_view(out@) + body_lines(lv, i as int, width as nat) == body_lines(lv, 0, width as nat),
        decreases ls.len() - i,
    {
        let (block, next) = render_step(&ls, i, width);
        let ghost before = strs_view(out@);
        let mut k: usize = 0;
        while k < block.len()
            invariant
                k <= block.len(),
                strs_view(out@) == before + strs_view(block@).take(k as int),
            decreases block.len() - k,
        {
            let ghost b2 = out@;
            out.push(block[k].clone());
            assert(strs_view(out@) =~= strs_view(b2).push(block@[k as int]@));
            assert(strs_view(block@).take(k + 1) =~= strs_view(block@).take(k as int).push(block@[k as int]@));
            k = k + 1;
        }
        assert(strs_view(block@).take(k as int) =~= strs_view(block@));
        assert(before + strs_view(block@) + body_lines(lv, next as int, width as nat)
            =~= before + (step_lines(lv, i as int, width as nat) + body_lines(lv, next as int, width as nat)));
        i = next;
    }
    assert(body_lines(lv, i as int, width as nat) =~= Seq::<Seq<char>>::empty());
    assert(strs_view(out@) =~= body_lines(lv, 0, width as nat));
    join_with_newlines(&out)
}

// ---------------------------------------------------------------------
// The document
// ---------------------------------------------------------------------

/// `s` without its trailing carriage returns and newlines.
pub open spec fn strip_newlines(s: Seq<char>) -> Seq<char>
    decreases s.len(),
{
    if s.len() > 0 && (s.last() == '\r' || s.last() == '\n') { strip_newlines(s.drop_last()) } else { s }
}

/// The end of the line of `c` starting at `from` (after its newline).
pub open spec fn line_end(c: Seq<char>, from: int) -> int {
    match char_pos(c.skip(from), '\n') {
        Some(k) => from + k + 1,
        None => c.len() as int,
    }
}

/// The end of the frontmatter's closing `---` line, scanning lines from `from`.
pub open spec fn fm_close(c: Seq<char>, from: int) -> Option<int>
    decreases c.len() - from,
{
    if from < 0 || from >= c.len() {
        None
    } else {
        let e = line_end(c, from);
        if from < e <= c.len() {
            if strip_newlines(c.subrange(from, e)) == "---"@ { Some(e) } else { fm_close(c, e) }
        } else {
            None
        }
    }
}

/// The length of an opening `---` line, or 0 when the text has none.
pub open spec fn open_len(c: Seq<char>) -> int {
    if "---\r\n"@.is_prefix_of(c) { 5 } else if "---\n"@.is_prefix_of(c) { 4 } else { 0 }
}

/// A document split into its frontmatter block (opening and closing lines
/// included) and its body.
pub open spec fn split_fm(c: Seq<char>) -> (Option<Seq<char>>, Seq<char>) {
    let o = open_len(c);
    if o == 0 {
        (None, c)
    } else {
        match fm_close(c, o) {
            Some(e) => (Some(c.take(e)), c.skip(e)),
            None => if strip_newlines(c.skip(o)) == "---"@ { (Some(c), Seq::empty()) } else { (None, c) },
        }
    }
}

/// A rendered document: the frontmatter as a YAML code block, then (after
/// a blank line when the body does not start with one) the body.
pub open spec fn document_spec(c: Seq<char>, width: nat) -> Seq<char> {
    let (fm, body) = split_fm(c);
    let head = match fm {
        Some(f) => seq![code_block_spec(f, "yaml"@)],
        None => Seq::empty(),
    };
    let gap = if fm is Some && body.len() > 0 && !"\n"@.is_prefix_of(body) && !"\r\n"@.is_prefix_of(body) {
        seq![Seq::<char>::empty()]
    } else {
        Seq::empty()
    };
    let tail = if body.len() > 0 { seq![join_lines(body_lines(lines_spec(body), 0, width))] } else { Seq::empty() };
    join_lines(head + gap + tail)
}

fn strip_newlines_text(s: &str) -> (r: String)
    ensures
        r@ == strip_newlines(s@),
{
    let cs = str_chars(s);
    let mut n = cs.len();
    assert(cs@.take(n as int) =~= cs@);
    while n > 0 && (cs[n - 1] == '\r' || cs[n - 1] == '\n')
        invariant
            cs@ == s@,
            n <= cs@.len(),
            strip_newlines(s@) == strip_newlines(cs@.take(n as int)),
        decreases n,
    {
        assert(cs@.take(n as int).drop_last() =~= cs@.take(n - 1));
        n = n - 1;
    }
    assert(strip_newlines(cs@.take(n as int)) == cs@.take(n as int));
    chars_range(&cs, 0, n)
}

/// Splits a document into its frontmatter block and its body.
pub fn split_frontmatter_block(content: &str) -> (r: (Option<String>, String))
    ensures
        (match r.0 { Some(f) => Some(f@), None => None::<Seq<char>> }, r.1@) == split_fm(content@),
{
    let cs = str_chars(content);
    let ghost c = content@;
    proof {
        reveal_strlit("---\r\n");
        reveal_strlit("---\n");
    }
    let open = if starts_with(content, "---\r\n") { 5 } else if starts_with(content, "---\n") { 4 } else { 0 };
    if open == 0 {
        return (None, owned(content));
    }
    let mut from: usize = open;
    while from < cs.len()
        invariant
            cs@ == c,
            c == content@,
            0 < open <= from <= cs@.len(),
            open as int == open_len(c),
            fm_close(c, open as int) == fm_close(c, from as int),
        decreases cs.len() - from,
    {
        let e = match pos_from(&cs, from, '\n') {
            Some(k) => k + 1,
            None => cs.len(),
        };
        proof {
            lemma_char_pos(c.skip(from as int), '\n');
        }
        assert(e as int == line_end(c, from as int));
        let piece = chars_range(&cs, from, e);
        let stripped = strip_newlines_text(piece.as_str());
        if crate::text::str_eq(stripped.as_str(), "---") {
            assert(piece@ == c.subrange(from as int, e as int));
            assert(from < e <= c.len());
            assert(fm_close(c, from as int) == Some(e as int));
            let head = chars_range(&cs, 0, e);
            let rest = chars_range(&cs, e, cs.len());
            assert(head@ =~= c.take(e as int));
            assert(rest@ =~= c.skip(e as int));
            return (Some(head), rest);
        }
        from = e;
    }
    assert(fm_close(c, from as int) is None);
    let rest = chars_range(&cs, open, cs.len());
    assert(rest@ =~= c.skip(open as int));
    let stripped = strip_newlines_text(rest.as_str());
    if crate::text::str_eq(stripped.as_str(), "---") {
        (Some(owned(content)), String::new())
    } else {
        (None, owned(content))
    }
}

/// Renders a markdown document for the terminal: YAML frontmatter as a
/// highlighted block, then the body.
pub fn render_document(content: &str, width: usize) -> (r: String)
    ensures
        r@ == document_spec(content@, width as nat),
{
    let (frontmatter, body) = split_frontmatter_block(content);
    let mut parts: Vec<String> = Vec::new();
    let has_fm = frontmatter.is_some();
    match &frontmatter {
        Some(f) => parts.push(render_code_block(f.as_str(), "yaml")),
        None => {},
    }
    let ghost head = strs_view(parts@);
    let blen = body.as_str().unicode_len();
    proof {
        reveal_strlit("\n");
        reveal_strlit("\r\n");
    }
    if blen > 0 {
        if has_fm && !starts_with(body.as_str(), "\n") && !starts_with(body.as_str(), "\r\n") {
            parts.push(String::new());
        }
        parts.push(render_body(body.as_str(), width));
    }
    proof {
        let (fm, b) = split_fm(content@);
        let hd = match fm { Some(f) => seq![code_block_spec(f, "yaml"@)], None => Seq::<Seq<char>>::empty() };
        let gap = if fm is Some && b.len() > 0 && !"\n"@.is_prefix_of(b) && !"\r\n"@.is_prefix_of(b) {
            seq![Seq::<char>::empty()]
        } else {
            Seq::<Seq<char>>::empty()
        };
        let tail = if b.len() > 0 { seq![join_lines(body_lines(lines_spec(b), 0, width as nat))] } else { Seq::<Seq<char>>::empty() };
        assert(strs_view(parts@) =~= hd + gap + tail);
    }
    join_with_newlines(&parts)
}

} // verus!
