//! `story show`: the story body as terminal lines, its acceptance-criteria
//! counts, and the evidence section.

use vstd::prelude::*;
use crate::text::{str_chars, owned, concat2, concat3, starts_with, trim, trim_spec, trim_start_matches,
    strip_all_prefix, lines, lines_spec, ascii_lower, to_ascii_lowercase, str_eq, strip_prefix,
    lemma_find_from, decimal, usize_to_string};
use crate::ansi::{bold, dimmed, fg, Color, bold_spec, dim_spec, fg_spec};
use crate::style::{rule, rule_spec, styled_ac, styled_ac_spec, styled_inline_markdown, inline_markdown_spec};
use crate::highlight::{highlight_code_block, highlight_spec};
use crate::requirements::lines_view;
use crate::show::ShowSection;

verus! {

// ---------------------------------------------------------------------
// Body text
// ---------------------------------------------------------------------

/// The body of a story README: what follows the frontmatter (the text
/// between a leading `---` line and the next `---` line); the whole text
/// when there is no frontmatter; `None` when the frontmatter is not closed.
pub open spec fn story_body_spec(content: Seq<char>) -> Option<Seq<char>> {
    if !"---\n"@.is_prefix_of(content) {
        Some(content)
    } else {
        match crate::text::find_from(content, "\n---"@, 3) {
            Some(p) => Some(content.skip(p + 4)),
            None => None,
        }
    }
}

/// Extracts the body of a story README.
pub fn extract_story_body(content: &str) -> (r: Option<String>)
    ensures
        crate::board::opt_view(r) == story_body_spec(content@),
{
    if !starts_with(content, "---\n") {
        return Some(owned(content));
    }
    let hay = str_chars(content);
    let needle = str_chars("\n---");
    proof {
        reveal_strlit("\n---");
        reveal_strlit("---\n");
    }
    match crate::text::chars_find_from(hay.as_slice(), needle.as_slice(), 3) {
        Some(p) => {
            proof {
                lemma_find_from(content@, "\n---"@, 3);
            }
            let n = content.unicode_len();
            let body = content.substring_char(p + 4, n);
            assert(body@ =~= content@.skip(p + 4));
            Some(owned(body))
        },
        None => None,
    }
}

/// A checked criterion line (`- [x]` or `- [X]`, after trimming).
pub open spec fn checked_line(l: Seq<char>) -> bool {
    "- [x]"@.is_prefix_of(trim_spec(l)) || "- [X]"@.is_prefix_of(trim_spec(l))
}

/// An unchecked criterion line (`- [ ]`, after trimming).
pub open spec fn unchecked_line(l: Seq<char>) -> bool {
    "- [ ]"@.is_prefix_of(trim_spec(l))
}

/// Checked criteria and all criteria among the lines.
pub open spec fn ac_counts(ls: Seq<Seq<char>>) -> (nat, nat)
    decreases ls.len(),
{
    if ls.len() == 0 {
        (0, 0)
    } else {
        let c = ac_counts(ls.drop_last());
        let l = ls.last();
        if checked_line(l) {
            (c.0 + 1, c.1 + 1)
        } else if unchecked_line(l) {
            (c.0, c.1 + 1)
        } else {
            c
        }
    }
}

proof fn lemma_ac_counts_bound(ls: Seq<Seq<char>>)
    ensures
        ac_counts(ls).0 <= ac_counts(ls).1 <= ls.len(),
    decreases ls.len(),
{
    if ls.len() > 0 {
        lemma_ac_counts_bound(ls.drop_last());
    }
}

/// Counts the acceptance criteria of a story body: (checked, total).
pub fn count_story_acceptance_criteria(body: &str) -> (r: (usize, usize))
    ensures
        (r.0 as nat, r.1 as nat) == ac_counts(lines_spec(body@)),
{
    let ls = lines(body);
    let ghost lv = lines_spec(body@);
    let mut checked: usize = 0;
    let mut total: usize = 0;
    let mut k: usize = 0;
    while k < ls.len()
        invariant
            ls@.map_values(|x: String| x@) == lv,
            k <= ls.len(),
            (checked as nat, total as nat) == ac_counts(lv.take(k as int)),
        decreases ls.len() - k,
    {
        assert(lv.take(k + 1).drop_last() =~= lv.take(k as int));
        assert(lv[k as int] == ls@[k as int]@);
        proof {
            lemma_ac_counts_bound(lv.take(k as int));
        }
        let t = trim(ls[k].as_str());
        if starts_with(t, "- [x]") || starts_with(t, "- [X]") {
            checked = checked + 1;
            total = total + 1;
        } else if starts_with(t, "- [ ]") {
            total = total + 1;
        }
        k = k + 1;
    }
    assert(lv.take(k as int) =~= lv);
    (checked, total)
}

/// A markdown heading: the number of leading `#` (1 to 6), a blank, and a
/// non-empty title (trimmed).
pub open spec fn heading_spec(t: Seq<char>) -> Option<(nat, Seq<char>)> {
    let rest = strip_all_prefix(t, "#"@);
    let level = (t.len() - rest.len()) as nat;
    if 1 <= level <= 6 && rest.len() > 0 && rest[0] == ' ' && trim_spec(rest.drop_first()).len() > 0 {
        Some((level, trim_spec(rest.drop_first())))
    } else {
        None
    }
}

/// Parses a markdown heading line (already trimmed).
pub fn parse_story_body_heading(trimmed: &str) -> (r: Option<(usize, String)>)
    ensures
        match r {
            Some(h) => heading_spec(trimmed@) == Some((h.0 as nat, h.1@)),
            None => heading_spec(trimmed@) is None,
        },
{
    let rest = trim_start_matches(trimmed, "#");
    proof {
        crate::text::lemma_strip_all_prefix_len(trimmed@, "#"@);
    }
    let level = trimmed.unicode_len() - rest.unicode_len();
    if level < 1 || level > 6 {
        return None;
    }
    match strip_prefix(rest, " ") {
        Some(after) => {
            proof {
                reveal_strlit(" ");
                assert(rest@.subrange(0, 1) == " "@);
                assert(rest@.subrange(0, 1)[0] == rest@[0]);
                assert(rest@[0] == ' ');
                assert(after@ =~= rest@.drop_first());
            }
            let title = trim(after);
            if title.unicode_len() == 0 {
                None
            } else {
                Some((level, owned(title)))
            }
        },
        None => {
            proof {
                reveal_strlit(" ");
                if rest@.len() > 0 && rest@[0] == ' ' {
                    assert(rest@.subrange(0, 1) =~= " "@);
                }
            }
            None
        },
    }
}

// ---------------------------------------------------------------------
// Body lines
// ---------------------------------------------------------------------

/// Where the rendering of a body stands: the lines so far, an open code
/// block (language and code), and whether a heading was just shown.
pub struct BodyState {
    pub out: Seq<Seq<char>>,
    pub code: Option<(Seq<char>, Seq<char>)>,
    pub just_heading: bool,
}

/// The lines of a closed code block: highlighted when the language is
/// known, else each line dimmed.
pub open spec fn code_lines(lang: Seq<char>, code: Seq<char>) -> Seq<Seq<char>> {
    match highlight_spec(code, lang) {
        Some(h) => lines_spec(h),
        None => lines_spec(code).map_values(|l: Seq<char>| dim_spec(l)),
    }
}

/// Closes an open code block.
pub open spec fn flush_spec(st: BodyState) -> BodyState {
    match st.code {
        Some(c) => BodyState { out: st.out + code_lines(c.0, c.1), code: None, just_heading: st.just_heading },
        None => st,
    }
}

/// An acceptance-criteria line start.
pub open spec fn ac_start(t: Seq<char>) -> bool {
    "- [x]"@.is_prefix_of(t) || "- [X]"@.is_prefix_of(t) || "- [ ]"@.is_prefix_of(t)
}

/// Renders one body line.
pub open spec fn body_step(st: BodyState, line: Seq<char>, title: Seq<char>) -> BodyState {
    let t = trim_spec(line);
    if "```"@.is_prefix_of(t) {
        if st.code is Some {
            flush_spec(st)
        } else {
            BodyState { code: Some((trim_spec(strip_all_prefix(t, "`"@)), Seq::empty())), ..st }
        }
    } else if st.code is Some {
        match st.code {
            Some(c) => BodyState { code: Some((c.0, c.1 + line + "\n"@)), ..st },
            None => st,
        }
    } else if st.just_heading && t.len() == 0 {
        BodyState { just_heading: false, ..st }
    } else if ac_start(t) {
        BodyState { out: st.out.push(styled_ac_spec(t)), just_heading: false, ..st }
    } else {
        match heading_spec(t) {
            Some(h) => if h.0 == 1 && ascii_lower(h.1) == ascii_lower(trim_spec(title)) {
                BodyState { just_heading: true, ..st }
            } else {
                BodyState { out: st.out.push(bold_spec(h.1)), just_heading: true, ..st }
            },
            None => BodyState { out: st.out.push(inline_markdown_spec(line)), just_heading: false, ..st },
        }
    }
}

/// Renders the body lines in order.
pub open spec fn body_fold(ls: Seq<Seq<char>>, title: Seq<char>, width: nat) -> BodyState
    decreases ls.len(),
{
    if ls.len() == 0 {
        BodyState { out: seq![rule_spec("─"@, width, None)], code: None, just_heading: false }
    } else {
        body_step(body_fold(ls.drop_last(), title, width), ls.last(), title)
    }
}

/// The terminal lines of a story body: a rule, then the trimmed body line
/// by line (criteria styled, headings bold with the title heading left
/// out, code blocks highlighted, other lines with inline markdown).
pub open spec fn body_lines_spec(body: Seq<char>, title: Seq<char>, width: nat) -> Seq<Seq<char>> {
    flush_spec(body_fold(lines_spec(trim_spec(body)), title, width)).out
}

fn code_block_lines(lang: &str, code: &str) -> (r: Vec<String>)
    ensures
        lines_view(r@) == code_lines(lang@, code@),
{
    match highlight_code_block(code, lang) {
        Some(h) => {
            let r = lines(h.as_str());
            assert(lines_view(r@) =~= r@.map_values(|x: String| x@));
            r
        },
        None => {
            let ls = lines(code);
            let ghost lv = lines_spec(code@);
            let mut r: Vec<String> = Vec::new();
            let mut k: usize = 0;
            while k < ls.len()
                invariant
                    ls@.map_values(|x: String| x@) == lv,
                    k <= ls.len(),
                    lines_view(r@) == lv.take(k as int).map_values(|l: Seq<char>| dim_spec(l)),
                decreases ls.len() - k,
            {
                assert(lv[k as int] == ls@[k as int]@);
                let ghost before = lines_view(r@);
                r.push(dimmed(ls[k].as_str()));
                assert(lines_view(r@) =~= before.push(dim_spec(lv[k as int])));
                assert(lv.take(k + 1).map_values(|l: Seq<char>| dim_spec(l))
                    =~= lv.take(k as int).map_values(|l: Seq<char>| dim_spec(l)).push(dim_spec(lv[k as int])));
                k = k + 1;
                assert(lines_view(r@) =~= lv.take(k as int).map_values(|l: Seq<char>| dim_spec(l)));
            }
            assert(lv.take(k as int) =~= lv);
            r
        },
    }
}

fn append_lines(out: &mut Vec<String>, more: Vec<String>)
    ensures
        lines_view(final(out)@) == lines_view(old(out)@) + lines_view(more@),
{
    let ghost start = lines_view(out@);
    let mut k: usize = 0;
    while k < more.len()
        invariant
            k <= more.len(),
            lines_view(out@) == start + lines_view(more@).take(k as int),
        decreases more.len() - k,
    {
        let ghost before = lines_view(out@);
        out.push(more[k].clone());
        assert(lines_view(out@) =~= before.push(more@[k as int]@));
        assert(lines_view(more@).take(k + 1) =~= lines_view(more@).take(k as int).push(more@[k as int]@));
        k = k + 1;
    }
    assert(lines_view(more@).take(k as int) =~= lines_view(more@));
}

/// Renders a story body for the terminal.
pub fn story_body_lines(body_text: &str, story_title: &str, width: usize) -> (r: Vec<String>)
    ensures
        lines_view(r@) == body_lines_spec(body_text@, story_title@, width as nat),
{
    let mut out: Vec<String> = Vec::new();
    out.push(rule(width, None));
    let mut code: Option<(String, String)> = None;
    let mut just_heading = false;
    let ls = lines(trim(body_text));
    let ghost lv = lines_spec(trim_spec(body_text@));
    let title_lower = to_ascii_lowercase(trim(story_title));
    let ghost view_of = |out: Seq<Seq<char>>, code: Option<(String, String)>, jh: bool| BodyState {
        out,
        code: match code { Some(c) => Some((c.0@, c.1@)), None => None },
        just_heading: jh,
    };
    assert(lines_view(out@) =~= seq![rule_spec("─"@, width as nat, None)]);
    let mut k: usize = 0;
    while k < ls.len()
        invariant
            ls@.map_values(|x: String| x@) == lv,
            lv == lines_spec(trim_spec(body_text@)),
            title_lower@ == ascii_lower(trim_spec(story_title@)),
            k <= ls.len(),
            (BodyState {
                out: lines_view(out@),
                code: match code { Some(c) => Some((c.0@, c.1@)), None => None },
                just_heading,
            }) == body_fold(lv.take(k as int), story_title@, width as nat),
        decreases ls.len() - k,
    {
        assert(lv.take(k + 1).drop_last() =~= lv.take(k as int));
        assert(lv[k as int] == ls@[k as int]@);
        let line = ls[k].as_str();
        let t = trim(line);
        if starts_with(t, "```") {
            match code {
                Some((lang, c)) => {
                    let more = code_block_lines(lang.as_str(), c.as_str());
                    append_lines(&mut out, more);
                    code = None;
                },
                None => {
                    let lang = trim(trim_start_matches(t, "`"));
                    code = Some((owned(lang), String::new()));
                },
            }
        } else if code.is_some() {
            match code {
                Some((lang, c)) => {
                    let nc = concat3(c.as_str(), line, "\n");
                    code = Some((lang, nc));
                },
                None => {},
            }
        } else if just_heading && t.unicode_len() == 0 {
            just_heading = false;
        } else if starts_with(t, "- [x]") || starts_with(t, "- [X]") || starts_with(t, "- [ ]") {
            let ghost before = lines_view(out@);
            out.push(styled_ac(t));
            assert(lines_view(out@) =~= before.push(styled_ac_spec(t@)));
            just_heading = false;
        } else {
            match parse_story_body_heading(t) {
                Some((level, htitle)) => {
                    let hl = to_ascii_lowercase(htitle.as_str());
                    if level == 1 && str_eq(hl.as_str(), title_lower.as_str()) {
                        just_heading = true;
                    } else {
                        let ghost before = lines_view(out@);
                        out.push(bold(htitle.as_str()));
                        assert(lines_view(out@) =~= before.push(bold_spec(htitle@)));
                        just_heading = true;
                    }
                },
                None => {
                    let ghost before = lines_view(out@);
                    out.push(styled_inline_markdown(line));
                    assert(lines_view(out@) =~= before.push(inline_markdown_spec(line@)));
                    just_heading = false;
                },
            }
        }
        k = k + 1;
    }
    assert(lv.take(k as int) =~= lv);
    match code {
        Some((lang, c)) => {
            let more = code_block_lines(lang.as_str(), c.as_str());
            append_lines(&mut out, more);
        },
        None => {},
    }
    out
}

// ---------------------------------------------------------------------
// Evidence
// ---------------------------------------------------------------------

/// What a proof file says about how it was recorded.
#[derive(Clone, Debug)]
pub struct ProofMetadata {
    pub recorded_at: Option<String>,
    pub mode: Option<String>,
    pub command: Option<String>,
}

/// The evidence of one acceptance criterion.
#[derive(Clone, Debug)]
pub struct EvidenceItem {
    pub ac_label: Option<String>,
    pub criterion: String,
    pub mode: String,
    pub command: Option<String>,
    pub requirement: Option<String>,
    pub proof_filename: Option<String>,
    /// The requirements the criterion traces to.
    pub requirements: Vec<String>,
    pub proof_metadata: ProofMetadata,
    pub excerpt_lines: Vec<String>,
    pub missing_proof: bool,
}

/// The evidence of a story.
#[derive(Clone, Debug)]
pub struct EvidenceReport {
    pub items: Vec<EvidenceItem>,
    pub evidence_dir_missing: bool,
    pub supplementary_artifacts: Vec<String>,
    pub media_artifacts: Vec<String>,
    pub missing_proofs: Vec<String>,
}

/// `n` with at least two digits (`{:02}`).
pub open spec fn two_digits(n: nat) -> Seq<char> {
    if decimal(n).len() < 2 { "0"@ + decimal(n) } else { decimal(n) }
}

/// A line `prefix` + the value with inline markdown, when there is a value.
pub open spec fn opt_line(prefix: Seq<char>, v: Option<String>) -> Seq<Seq<char>> {
    match v {
        Some(x) => seq![prefix + inline_markdown_spec(x@)],
        None => Seq::empty(),
    }
}

/// The proof line of an evidence item.
pub open spec fn proof_line_spec(p: Option<String>) -> Seq<Seq<char>> {
    match p {
        Some(f) => seq!["    Proof: "@ + inline_markdown_spec(f@)],
        None => seq!["    Proof: (none linked)"@],
    }
}

/// The first two lines of an evidence item: label and criterion, mode.
pub open spec fn item_head(idx: nat, it: EvidenceItem) -> Seq<Seq<char>> {
    seq!["  "@ + fg_spec(Color::Cyan, item_label(idx, it)) + ": "@ + inline_markdown_spec(it.criterion@),
        "    Mode: "@ + inline_markdown_spec(it.mode@)]
}

/// The command and requirement lines, where present.
pub open spec fn item_refs(it: EvidenceItem) -> Seq<Seq<char>> {
    opt_line("    Command: "@, it.command) + opt_line("    Requirement: "@, it.requirement)
}

/// The proof metadata lines, where present.
pub open spec fn item_proof_meta(it: EvidenceItem) -> Seq<Seq<char>> {
    opt_line("    recorded_at: "@, it.proof_metadata.recorded_at)
        + opt_line("    proof mode: "@, it.proof_metadata.mode)
        + opt_line("    proof command: "@, it.proof_metadata.command)
}

/// The warning line of an item whose proof file is missing.
pub open spec fn item_warning(it: EvidenceItem) -> Seq<Seq<char>> {
    if it.missing_proof { seq!["    Warning: linked proof file is missing"@] } else { Seq::empty() }
}

/// The lines of one evidence item (`idx` counts from 0).
pub open spec fn item_lines(idx: nat, it: EvidenceItem) -> Seq<Seq<char>> {
    item_head(idx, it) + item_refs(it) + proof_line_spec(it.proof_filename) + item_proof_meta(it)
        + excerpt_lines_spec(it.excerpt_lines@) + item_warning(it)
}

/// The lines of the items from position `from` on... up to `n`.
pub open spec fn items_lines(items: Seq<EvidenceItem>) -> Seq<Seq<char>>
    decreases items.len(),
{
    if items.len() == 0 {
        Seq::empty()
    } else {
        items_lines(items.drop_last()) + item_lines((items.len() - 1) as nat, items.last())
    }
}

/// The evidence section's lines.
pub open spec fn evidence_lines_spec(story_id: Seq<char>, r: EvidenceReport) -> Seq<Seq<char>> {
    (if r.items@.len() == 0 {
        seq!["  "@ + dim_spec("(no verify annotations found)"@)]
    } else {
        items_lines(r.items@)
    })
    + (if r.evidence_dir_missing { seq!["  "@ + dim_spec("(EVIDENCE directory not found)"@)] } else { Seq::empty() })
    + seq!["  Supplementary artifacts:"@]
    + (if r.supplementary_artifacts@.len() == 0 {
        seq!["    "@ + dim_spec("(no supplementary artifacts)"@)]
    } else {
        r.supplementary_artifacts@.map_values(|a: String| "    - "@ + inline_markdown_spec(a@))
    })
    + seq!["  Media artifacts:"@]
    + (if r.media_artifacts@.len() == 0 {
        seq!["    "@ + dim_spec("(no media artifacts)"@)]
    } else {
        media_lines(story_id, r.media_artifacts@)
    })
    + (if r.missing_proofs@.len() > 0 {
        seq!["  Missing proofs: "@ + inline_markdown_spec(crate::text::join_with(r.missing_proofs@.map_values(|m: String| m@), ", "@))]
    } else {
        Seq::empty()
    })
}

/// Two lines per media artifact: its name and how to play it.
pub open spec fn media_lines(story_id: Seq<char>, media: Seq<String>) -> Seq<Seq<char>>
    decreases media.len(),
{
    if media.len() == 0 {
        Seq::empty()
    } else {
        let m = media.last()@;
        media_lines(story_id, media.drop_last()) + seq!["    - "@ + inline_markdown_spec(m),
            "      Playback: "@ + inline_markdown_spec("ffplay -autoexit stories/"@ + story_id + "/EVIDENCE/"@ + m)]
    }
}

fn push_line(out: &mut Vec<String>, line: String)
    ensures
        lines_view(final(out)@) == lines_view(old(out)@).push(line@),
{
    let ghost before = lines_view(out@);
    out.push(line);
    assert(lines_view(out@) =~= before.push(line@));
}

fn push_opt_line(out: &mut Vec<String>, prefix: &str, v: &Option<String>)
    ensures
        lines_view(final(out)@) == lines_view(old(out)@) + opt_line(prefix@, *v),
{
    match v {
        Some(x) => {
            let md = styled_inline_markdown(x.as_str());
            push_line(out, concat2(prefix, md.as_str()));
        },
        None => {
            assert(lines_view(out@) =~= lines_view(out@) + Seq::<Seq<char>>::empty());
        },
    }
}

/// The label of an evidence item: its own, or `AC-` and its number.
pub open spec fn item_label(idx: nat, it: EvidenceItem) -> Seq<char> {
    match it.ac_label {
        Some(l) => l@,
        None => "AC-"@ + two_digits(idx + 1),
    }
}

fn item_label_exec(idx: usize, it: &EvidenceItem) -> (r: String)
    requires
        idx < usize::MAX,
    ensures
        r@ == item_label(idx as nat, *it),
{
    match &it.ac_label {
        Some(l) => l.clone(),
        None => {
            let d = usize_to_string(idx + 1);
            proof {
                reveal_strlit("AC-0");
                reveal_strlit("AC-");
                reveal_strlit("0");
            }
            if d.unicode_len() < 2 {
                let l = concat2("AC-0", d.as_str());
                assert(l@ =~= "AC-"@ + ("0"@ + decimal((idx + 1) as nat)));
                l
            } else {
                concat2("AC-", d.as_str())
            }
        },
    }
}

/// The excerpt block of an evidence item.
pub open spec fn excerpt_lines_spec(ex: Seq<String>) -> Seq<Seq<char>> {
    if ex.len() > 0 {
        seq!["    Excerpt ("@ + decimal(ex.len()) + " lines):"@]
            + ex.map_values(|l: String| "      "@ + inline_markdown_spec(l@))
    } else {
        Seq::empty()
    }
}

fn push_excerpt(out: &mut Vec<String>, ex: &Vec<String>)
    ensures
        lines_view(final(out)@) == lines_view(old(out)@) + excerpt_lines_spec(ex@),
{
    let ghost start = lines_view(out@);
    if ex.len() == 0 {
        assert(lines_view(out@) =~= start + excerpt_lines_spec(ex@));
        return;
    }
    let n = usize_to_string(ex.len());
    push_line(out, concat3("    Excerpt (", n.as_str(), " lines):"));
    let ghost head = lines_view(out@);
    let mut k: usize = 0;
    while k < ex.len()
        invariant
            k <= ex.len(),
            lines_view(out@) == head + ex@.take(k as int).map_values(|l: String| "      "@ + inline_markdown_spec(l@)),
        decreases ex.len() - k,
    {
        let md = styled_inline_markdown(ex[k].as_str());
        push_line(out, concat2("      ", md.as_str()));
        assert(ex@.take(k + 1).map_values(|l: String| "      "@ + inline_markdown_spec(l@))
            =~= ex@.take(k as int).map_values(|l: String| "      "@ + inline_markdown_spec(l@))
                .push("      "@ + inline_markdown_spec(ex@[k as int]@)));
        k = k + 1;
    }
    assert(ex@.take(k as int) =~= ex@);
    assert(lines_view(out@) =~= start + excerpt_lines_spec(ex@));
}

fn push_item_head(out: &mut Vec<String>, idx: usize, it: &EvidenceItem)
    requires
        idx < usize::MAX,
    ensures
        lines_view(final(out)@) == lines_view(old(out)@) + item_head(idx as nat, *it),
{
    let ghost start = lines_view(out@);
    let label = item_label_exec(idx, it);
    let cl = fg(label.as_str(), Color::Cyan);
    let crit = styled_inline_markdown(it.criterion.as_str());
    let mut first = concat3("  ", cl.as_str(), ": ");
    first.append(crit.as_str());
    push_line(out, first);
    let mode = styled_inline_markdown(it.mode.as_str());
    push_line(out, concat2("    Mode: ", mode.as_str()));
    assert(lines_view(out@) =~= start + item_head(idx as nat, *it));
}

fn push_item_refs(out: &mut Vec<String>, it: &EvidenceItem)
    ensures
        lines_view(final(out)@) == lines_view(old(out)@) + item_refs(*it),
{
    let ghost start = lines_view(out@);
    push_opt_line(out, "    Command: ", &it.command);
    push_opt_line(out, "    Requirement: ", &it.requirement);
    assert(lines_view(out@) =~= start + item_refs(*it));
}

fn push_proof_line(out: &mut Vec<String>, it: &EvidenceItem)
    ensures
        lines_view(final(out)@) == lines_view(old(out)@) + proof_line_spec(it.proof_filename),
{
    let ghost start = lines_view(out@);
    match &it.proof_filename {
        Some(p) => {
            let md = styled_inline_markdown(p.as_str());
            push_line(out, concat2("    Proof: ", md.as_str()));
        },
        None => push_line(out, owned("    Proof: (none linked)")),
    }
    assert(lines_view(out@) =~= start + proof_line_spec(it.proof_filename));
}

fn push_proof_meta(out: &mut Vec<String>, it: &EvidenceItem)
    ensures
        lines_view(final(out)@) == lines_view(old(out)@) + item_proof_meta(*it),
{
    let ghost start = lines_view(out@);
    push_opt_line(out, "    recorded_at: ", &it.proof_metadata.recorded_at);
    push_opt_line(out, "    proof mode: ", &it.proof_metadata.mode);
    push_opt_line(out, "    proof command: ", &it.proof_metadata.command);
    assert(lines_view(out@) =~= start + item_proof_meta(*it));
}

fn item_lines_exec(out: &mut Vec<String>, idx: usize, it: &EvidenceItem)
    requires
        idx < usize::MAX,
    ensures
        lines_view(final(out)@) == lines_view(old(out)@) + item_lines(idx as nat, *it),
{
    let ghost start = lines_view(out@);
    push_item_head(out, idx, it);
    push_item_refs(out, it);
    push_proof_line(out, it);
    push_proof_meta(out, it);
    push_excerpt(out, &it.excerpt_lines);
    let ghost e = lines_view(out@);
    if it.missing_proof {
        push_line(out, owned("    Warning: linked proof file is missing"));
    }
    assert(lines_view(out@) =~= e + item_warning(*it));
    assert(lines_view(out@) =~= start + item_lines(idx as nat, *it));
}

/// The lines of a story's evidence section.
#[verifier::rlimit(40)]
pub fn evidence_lines(story_id: &str, report: &EvidenceReport) -> (r: Vec<String>)
    ensures
        lines_view(r@) == evidence_lines_spec(story_id@, *report),
{
    let mut out: Vec<String> = Vec::new();
    let ghost g0 = lines_view(out@);
    if report.items.len() == 0 {
        let d = dimmed("(no verify annotations found)");
        push_line(&mut out, concat2("  ", d.as_str()));
    } else {
        let mut k: usize = 0;
        while k < report.items.len()
            invariant
                k <= report.items.len(),
                lines_view(out@) == items_lines(report.items@.take(k as int)),
            decreases report.items.len() - k,
        {
            assert(report.items@.take(k + 1).drop_last() =~= report.items@.take(k as int));
            item_lines_exec(&mut out, k, &report.items[k]);
            k = k + 1;
        }
        assert(report.items@.take(k as int) =~= report.items@);
    }
    let ghost g1 = lines_view(out@);
    if report.evidence_dir_missing {
        let d = dimmed("(EVIDENCE directory not found)");
        push_line(&mut out, concat2("  ", d.as_str()));
    }
    push_line(&mut out, owned("  Supplementary artifacts:"));
    let ghost g2 = lines_view(out@);
    if report.supplementary_artifacts.len() == 0 {
        let d = dimmed("(no supplementary artifacts)");
        push_line(&mut out, concat2("    ", d.as_str()));
    } else {
        let mut k: usize = 0;
        while k < report.supplementary_artifacts.len()
            invariant
                k <= report.supplementary_artifacts.len(),
                lines_view(out@) == g2 + report.supplementary_artifacts@.take(k as int).map_values(|a: String| "    - "@ + inline_markdown_spec(a@)),
            decreases report.supplementary_artifacts.len() - k,
        {
            let md = styled_inline_markdown(report.supplementary_artifacts[k].as_str());
            push_line(&mut out, concat2("    - ", md.as_str()));
            assert(report.supplementary_artifacts@.take(k + 1).map_values(|a: String| "    - "@ + inline_markdown_spec(a@))
                =~= report.supplementary_artifacts@.take(k as int).map_values(|a: String| "    - "@ + inline_markdown_spec(a@))
                    .push("    - "@ + inline_markdown_spec(report.supplementary_artifacts@[k as int]@)));
            k = k + 1;
        }
        assert(report.supplementary_artifacts@.take(k as int) =~= report.supplementary_artifacts@);
    }
    push_line(&mut out, owned("  Media artifacts:"));
    let ghost g3 = lines_view(out@);
    if report.media_artifacts.len() == 0 {
        let d = dimmed("(no media artifacts)");
        push_line(&mut out, concat2("    ", d.as_str()));
    } else {
        let mut k: usize = 0;
        while k < report.media_artifacts.len()
            invariant
                k <= report.media_artifacts.len(),
                lines_view(out@) == g3 + media_lines(story_id@, report.media_artifacts@.take(k as int)),
            decreases report.media_artifacts.len() - k,
        {
            assert(report.media_artifacts@.take(k + 1).drop_last() =~= report.media_artifacts@.take(k as int));
            let m = report.media_artifacts[k].as_str();
            let md = styled_inline_markdown(m);
            push_line(&mut out, concat2("    - ", md.as_str()));
            let mut play = concat3("ffplay -autoexit stories/", story_id, "/EVIDENCE/");
            play.append(m);
            let pmd = styled_inline_markdown(play.as_str());
            push_line(&mut out, concat2("      Playback: ", pmd.as_str()));
            k = k + 1;
        }
        assert(report.media_artifacts@.take(k as int) =~= report.media_artifacts@);
    }
    let ghost g4 = lines_view(out@);
    if report.missing_proofs.len() > 0 {
        let ghost parts = report.missing_proofs@.map_values(|m: String| m@);
        let mut joined = String::new();
        let mut k: usize = 0;
        while k < report.missing_proofs.len()
            invariant
                parts == report.missing_proofs@.map_values(|m: String| m@),
                k <= report.missing_proofs.len(),
                joined@ == crate::text::join_with(parts.take(k as int), ", "@),
            decreases report.missing_proofs.len() - k,
        {
            assert(parts.take(k + 1).drop_last() =~= parts.take(k as int));
            if k > 0 {
                joined.append(", ");
            }
            joined.append(report.missing_proofs[k].as_str());
            k = k + 1;
            assert(joined@ =~= crate::text::join_with(parts.take(k as int), ", "@));
        }
        assert(parts.take(k as int) =~= parts);
        let md = styled_inline_markdown(joined.as_str());
        push_line(&mut out, concat2("  Missing proofs: ", md.as_str()));
    }
    assert(lines_view(out@) =~= evidence_lines_spec(story_id@, *report));
    out
}

/// The evidence section of `story show`.
pub fn evidence_section(story_id: &str, report: &EvidenceReport) -> (s: ShowSection)
    ensures
        s.title@ == "Evidence"@,
        s.blocks@.len() == 1,
        s.blocks@[0] matches crate::show::ShowBlock::Lines(ls) && lines_view(ls@) == evidence_lines_spec(story_id@, *report),
{
    let mut section = ShowSection::new("Evidence");
    section.push_block(crate::show::ShowBlock::Lines(evidence_lines(story_id, report)));
    section
}

// ---------------------------------------------------------------------
// Sections
// ---------------------------------------------------------------------

/// The first line (by position) whose trimmed text is `heading`.
pub open spec fn heading_line(ls: Seq<Seq<char>>, heading: Seq<char>, from: int) -> Option<int>
    decreases ls.len() - from,
{
    if from < 0 || from >= ls.len() {
        None
    } else if trim_spec(ls[from]) == heading {
        Some(from)
    } else {
        heading_line(ls, heading, from + 1)
    }
}

/// The first heading line (starting with `#` once trimmed) at or after `from`,
/// or the end.
pub open spec fn section_end(ls: Seq<Seq<char>>, from: int) -> int
    decreases ls.len() - from,
{
    if from < 0 || from >= ls.len() {
        ls.len() as int
    } else if "#"@.is_prefix_of(trim_spec(ls[from])) {
        from
    } else {
        section_end(ls, from + 1)
    }
}

/// The text of the section under `heading`: the lines after it up to the
/// next heading, joined and trimmed; `None` when no line is that heading.
pub open spec fn section_spec(content: Seq<char>, heading: Seq<char>) -> Option<Seq<char>> {
    let ls = lines_spec(content);
    match heading_line(ls, heading, 0) {
        Some(h) => Some(trim_spec(crate::show::join_lines(ls.subrange(h + 1, section_end(ls, h + 1))))),
        None => None,
    }
}

/// Extracts the section under a markdown heading.
pub fn extract_section(content: &str, heading: &str) -> (r: Option<String>)
    ensures
        crate::board::opt_view(r) == section_spec(content@, heading@),
{
    let ls = lines(content);
    let ghost lv = lines_spec(content@);
    let n = ls.len();
    let mut h: usize = 0;
    while h < n
        invariant_except_break
            ls@.map_values(|x: String| x@) == lv,
            n == ls.len(),
            h <= n,
            heading_line(lv, heading@, 0) == heading_line(lv, heading@, h as int),
        ensures
            h <= n,
            heading_line(lv, heading@, 0) == heading_line(lv, heading@, h as int),
            h < n ==> trim_spec(lv[h as int]) == heading@,
        decreases n - h,
    {
        assert(lv[h as int] == ls@[h as int]@);
        if str_eq(trim(ls[h].as_str()), heading) {
            break;
        }
        h = h + 1;
    }
    if h == n {
        return None;
    }
    assert(lv[h as int] == ls@[h as int]@);
    let mut e: usize = h + 1;
    while e < n
        invariant_except_break
            ls@.map_values(|x: String| x@) == lv,
            n == ls.len(),
            h < e <= n,
            section_end(lv, h + 1) == section_end(lv, e as int),
        ensures
            h < e <= n,
            section_end(lv, h + 1) == section_end(lv, e as int),
            e < n ==> "#"@.is_prefix_of(trim_spec(lv[e as int])),
        decreases n - e,
    {
        assert(lv[e as int] == ls@[e as int]@);
        if starts_with(trim(ls[e].as_str()), "#") {
            break;
        }
        e = e + 1;
    }
    assert(section_end(lv, e as int) == e);
    let mut joined = String::new();
    let mut k: usize = h + 1;
    let ghost sec = lv.subrange(h + 1, section_end(lv, h + 1));
    assert(sec.take(0) =~= Seq::<Seq<char>>::empty());
    while k < e
        invariant
            ls@.map_values(|x: String| x@) == lv,
            n == ls.len(),
            h < k <= e <= n,
            e == section_end(lv, h + 1),
            sec == lv.subrange(h + 1, e as int),
            joined@ == crate::show::join_lines(sec.take(k - h - 1)),
        decreases e - k,
    {
        assert(sec.take(k - h).drop_last() =~= sec.take(k - h - 1));
        assert(sec[k - h - 1] == ls@[k as int]@);
        if k > h + 1 {
            joined.append("\n");
        }
        joined.append(ls[k].as_str());
        k = k + 1;
        assert(joined@ =~= crate::show::join_lines(sec.take(k - h - 1)));
    }
    assert(sec.take(k - h - 1) =~= sec);
    Some(owned(trim(joined.as_str())))
}

} // verus!
