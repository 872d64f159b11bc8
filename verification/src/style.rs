//! Terminal styling: stage colours, entity identifiers, acceptance-criteria
//! lines, progress bars and rules.

use vstd::prelude::*;
use crate::ansi::{bold, bold_spec, dim_spec, dimmed, fg, fg_spec, Color};
use crate::model::{epic_state_label, story_state_label, story_type_label, voyage_state_label, EpicState,
    StoryState, StoryType, VoyageState};
use crate::text::{push_char, string_from_chars, concat2, concat3, decimal, find, find_spec, owned,
    repeat_seq, repeat_str, str_chars, strip_all_prefix, strip_all_suffix, trim, trim_end,
    trim_end_matches, trim_end_spec, trim_spec, trim_start_matches, usize_to_string};
use crate::theme::Theme;

verus! {

pub open spec fn styled_stage_spec(s: StoryState) -> Seq<char> {
    let l = story_state_label(s);
    match s {
        StoryState::Backlog => dim_spec(l),
        StoryState::InProgress => fg_spec(Color::Blue, l),
        StoryState::NeedsHumanVerification => fg_spec(Color::Yellow, l),
        StoryState::Done => fg_spec(Color::Green, l),
        StoryState::Rejected => fg_spec(Color::Red, l),
        StoryState::Icebox => dim_spec(l),
    }
}

/// Colours a story state label by its workflow meaning.
pub fn styled_stage(stage: &StoryState) -> (r: String)
    ensures
        r@ == styled_stage_spec(*stage),
{
    let l = stage.label();
    match stage {
        StoryState::Backlog => dimmed(l.as_str()),
        StoryState::InProgress => fg(l.as_str(), Color::Blue),
        StoryState::NeedsHumanVerification => fg(l.as_str(), Color::Yellow),
        StoryState::Done => fg(l.as_str(), Color::Green),
        StoryState::Rejected => fg(l.as_str(), Color::Red),
        StoryState::Icebox => dimmed(l.as_str()),
    }
}

/// Colours an epic state label.
pub fn styled_epic_stage(stage: &EpicState) -> (r: String)
    ensures
        r@ == match *stage {
            EpicState::Draft => dim_spec(epic_state_label(*stage)),
            EpicState::Active => fg_spec(Color::Yellow, epic_state_label(*stage)),
            EpicState::Done => fg_spec(Color::Green, epic_state_label(*stage)),
        },
{
    let l = stage.label();
    match stage {
        EpicState::Draft => dimmed(l.as_str()),
        EpicState::Active => fg(l.as_str(), Color::Yellow),
        EpicState::Done => fg(l.as_str(), Color::Green),
    }
}

/// Colours a voyage state label.
pub fn styled_voyage_stage(stage: &VoyageState) -> (r: String)
    ensures
        r@ == match *stage {
            VoyageState::Draft => dim_spec(voyage_state_label(*stage)),
            VoyageState::Planned => fg_spec(Color::Blue, voyage_state_label(*stage)),
            VoyageState::InProgress => fg_spec(Color::Yellow, voyage_state_label(*stage)),
            VoyageState::Done => fg_spec(Color::Green, voyage_state_label(*stage)),
        },
{
    let l = stage.label();
    match stage {
        VoyageState::Draft => dimmed(l.as_str()),
        VoyageState::Planned => fg(l.as_str(), Color::Blue),
        VoyageState::InProgress => fg(l.as_str(), Color::Yellow),
        VoyageState::Done => fg(l.as_str(), Color::Green),
    }
}

/// Colours a story type badge.
pub fn styled_type(story_type: &StoryType) -> (r: String)
    ensures
        r@ == match *story_type {
            StoryType::Feat => fg_spec(Color::Magenta, story_type_label(*story_type)),
            StoryType::Bug | StoryType::Fix => fg_spec(Color::Red, story_type_label(*story_type)),
            StoryType::Refactor => fg_spec(Color::Cyan, story_type_label(*story_type)),
            StoryType::Chore => dim_spec(story_type_label(*story_type)),
            StoryType::Docs => fg_spec(Color::Blue, story_type_label(*story_type)),
        },
{
    let l = story_type.label();
    match story_type {
        StoryType::Feat => fg(l.as_str(), Color::Magenta),
        StoryType::Bug | StoryType::Fix => fg(l.as_str(), Color::Red),
        StoryType::Refactor => fg(l.as_str(), Color::Cyan),
        StoryType::Chore => dimmed(l.as_str()),
        StoryType::Docs => fg(l.as_str(), Color::Blue),
    }
}

/// The `[SRS-xx/AC-yy]` reference that starts `text`, and what follows it.
pub open spec fn requirement_ref_spec(text: Seq<char>) -> (Option<Seq<char>>, Seq<char>) {
    if text.len() > 0 && text[0] == '[' {
        match find_spec(text, "] "@) {
            Some(end) => (Some(text.take(end + 1)), text.skip(end + 2)),
            None => (None, text),
        }
    } else {
        (None, text)
    }
}

/// Splits a `[SRS-xx/AC-yy] ` reference off the start of `text`.
pub fn extract_requirement_ref(text: &str) -> (r: (Option<&str>, &str))
    ensures
        (match r.0 { Some(x) => Some(x@), None => None::<Seq<char>> }, r.1@)
            == requirement_ref_spec(text@),
{
    let n = text.unicode_len();
    if n > 0 && text.get_char(0) == '[' {
        match find(text, "] ") {
            Some(end) => {
                proof {
                    crate::text::lemma_find_from(text@, "] "@, 0);
                    reveal_strlit("] ");
                }
                let head = text.substring_char(0, end + 1);
                let rest = text.substring_char(end + 2, n);
                assert(head@ =~= text@.take(end + 1));
                assert(rest@ =~= text@.skip(end + 2));
                (Some(head), rest)
            },
            None => (None, text),
        }
    } else {
        (None, text)
    }
}

/// The description before a `<!-- verify: ... -->` annotation, and the
/// annotation's kind.
pub open spec fn verify_annotation_spec(text: Seq<char>) -> (Seq<char>, Option<Seq<char>>) {
    match find_spec(text, "<!-- verify:"@) {
        Some(start) => (
            trim_end_spec(text.take(start)),
            Some(trim_spec(strip_all_suffix(strip_all_prefix(text.skip(start), "<!-- verify:"@), "-->"@))),
        ),
        None => (text, None),
    }
}

/// Splits a trailing `<!-- verify: KIND -->` annotation off `text`.
pub fn extract_verify_annotation(text: &str) -> (r: (&str, Option<&str>))
    ensures
        (r.0@, match r.1 { Some(x) => Some(x@), None => None::<Seq<char>> })
            == verify_annotation_spec(text@),
{
    match find(text, "<!-- verify:") {
        Some(start) => {
            proof {
                crate::text::lemma_find_from(text@, "<!-- verify:"@, 0);
            }
            let n = text.unicode_len();
            let before = text.substring_char(0, start);
            let description = trim_end(before);
            let annotation = text.substring_char(start, n);
            assert(before@ =~= text@.take(start as int));
            assert(annotation@ =~= text@.skip(start as int));
            let clean = trim(trim_end_matches(trim_start_matches(annotation, "<!-- verify:"), "-->"));
            (description, Some(clean))
        },
        None => (text, None),
    }
}

/// A check mark for a met criterion, an open circle for an unmet one.
pub open spec fn checkbox_spec(checked: bool) -> Seq<char> {
    if checked {
        fg_spec(Color::Green, "✓"@)
    } else {
        fg_spec(Color::Red, "○"@)
    }
}

/// An acceptance-criteria line after the leading `- ` markers are removed.
pub open spec fn ac_body(line: Seq<char>) -> Seq<char> {
    strip_all_prefix(line, "- "@)
}

/// Whether a line is an acceptance-criteria line (`[x]`, `[X]` or `[ ]`).
pub open spec fn is_ac_line(line: Seq<char>) -> bool {
    "[x] "@.is_prefix_of(ac_body(line)) || "[X] "@.is_prefix_of(ac_body(line))
        || "[ ] "@.is_prefix_of(ac_body(line))
}

/// The rendering of an acceptance-criteria line.
pub open spec fn styled_ac_spec(line: Seq<char>) -> Seq<char> {
    let body = ac_body(line);
    let checked = "[x] "@.is_prefix_of(body) || "[X] "@.is_prefix_of(body);
    if !is_ac_line(line) {
        line
    } else {
        let rest = body.skip(4);
        let (ref_part, after_ref) = requirement_ref_spec(rest);
        let (description, verify) = verify_annotation_spec(after_ref);
        let head = "  "@ + checkbox_spec(checked) + " "@;
        let with_ref = match ref_part {
            Some(r) => head + fg_spec(Color::Cyan, r) + " "@,
            None => head,
        };
        let with_desc = with_ref + trim_spec(description);
        match verify {
            Some(v) => with_desc + " "@ + dim_spec(v),
            None => with_desc,
        }
    }
}

/// Renders an acceptance-criteria line with a coloured checkbox, reference and
/// verification kind; other lines are returned unchanged.
pub fn styled_ac(line: &str) -> (r: String)
    ensures
        r@ == styled_ac_spec(line@),
{
    let trimmed = trim_start_matches(line, "- ");
    proof {
        reveal_strlit("[x] ");
        reveal_strlit("[X] ");
        reveal_strlit("[ ] ");
    }
    let checked: bool;
    let rest: &str;
    if crate::text::starts_with(trimmed, "[x] ") || crate::text::starts_with(trimmed, "[X] ") {
        checked = true;
        rest = trimmed.substring_char(4, trimmed.unicode_len());
    } else if crate::text::starts_with(trimmed, "[ ] ") {
        checked = false;
        rest = trimmed.substring_char(4, trimmed.unicode_len());
    } else {
        return owned(line);
    }
    assert(rest@ =~= ac_body(line@).skip(4));
    let checkbox = if checked { fg("✓", Color::Green) } else { fg("○", Color::Red) };
    let (ref_part, after_ref) = extract_requirement_ref(rest);
    let (description, verify_part) = extract_verify_annotation(after_ref);
    let mut result = concat3("  ", checkbox.as_str(), " ");
    match ref_part {
        Some(req_ref) => {
            let c = fg(req_ref, Color::Cyan);
            result.append(c.as_str());
            result.append(" ");
        },
        None => {},
    }
    result.append(trim(description));
    match verify_part {
        Some(v) => {
            let d = dimmed(v);
            result.append(" ");
            result.append(d.as_str());
        },
        None => {},
    }
    result
}

/// `checked/total`.
pub open spec fn ratio_spec(checked: nat, total: nat) -> Seq<char> {
    decimal(checked) + "/"@ + decimal(total)
}

/// Whether `progress_bar` can render its inputs: its fill must fit the width.
pub open spec fn progress_bar_fits(checked: nat, total: nat, width: nat) -> bool {
    total == 0 || (checked * width <= usize::MAX && checked * width / total <= width)
}

/// The acceptance-criteria progress bar.
pub open spec fn progress_bar_spec(checked: nat, total: nat, width: nat, theme: Option<Theme>) -> Seq<char> {
    if total == 0 {
        Seq::empty()
    } else {
        let filled = checked * width / total;
        let bf = repeat_seq("█"@, filled);
        let be = repeat_seq("░"@, (width - filled) as nat);
        let ratio = ratio_spec(checked, total);
        match theme {
            Some(t) => if checked == total {
                t.agent@ + bf + t.reset@ + " "@ + t.agent@ + ratio + t.reset@
            } else {
                t.agent@ + bf + t.reset@ + t.muted@ + be + t.reset@ + " "@ + ratio
            },
            None => if checked == total {
                fg_spec(Color::Green, bf + be) + " "@ + fg_spec(Color::Green, ratio)
            } else {
                fg_spec(Color::Green, bf) + dim_spec(be) + " "@ + ratio
            },
        }
    }
}

fn ratio_string(checked: usize, total: usize) -> (r: String)
    ensures
        r@ == ratio_spec(checked as nat, total as nat),
{
    let a = usize_to_string(checked);
    let b = usize_to_string(total);
    concat3(a.as_str(), "/", b.as_str())
}

/// Renders the acceptance-criteria progress bar: `checked` of `total` in
/// `width` cells, then the ratio.
pub fn progress_bar(checked: usize, total: usize, width: usize, theme: Option<&Theme>) -> (r: String)
    requires
        progress_bar_fits(checked as nat, total as nat, width as nat),
    ensures
        r@ == progress_bar_spec(checked as nat, total as nat, width as nat,
            match theme { Some(t) => Some(*t), None => None }),
{
    if total == 0 {
        return String::new();
    }
    let filled = (checked * width) / total;
    let empty = width - filled;
    let bar_filled = repeat_str("█", filled);
    let bar_empty = repeat_str("░", empty);
    let ratio = ratio_string(checked, total);
    match theme {
        Some(t) => {
            if checked == total {
                let mut r = concat3(t.agent, bar_filled.as_str(), t.reset);
                r.append(" ");
                r.append(t.agent);
                r.append(ratio.as_str());
                r.append(t.reset);
                r
            } else {
                let mut r = concat3(t.agent, bar_filled.as_str(), t.reset);
                r.append(t.muted);
                r.append(bar_empty.as_str());
                r.append(t.reset);
                r.append(" ");
                r.append(ratio.as_str());
                r
            }
        },
        None => {
            if checked == total {
                let both = concat2(bar_filled.as_str(), bar_empty.as_str());
                let a = fg(both.as_str(), Color::Green);
                let b = fg(ratio.as_str(), Color::Green);
                concat3(a.as_str(), " ", b.as_str())
            } else {
                let a = fg(bar_filled.as_str(), Color::Green);
                let b = dimmed(bar_empty.as_str());
                let mut r = concat2(a.as_str(), b.as_str());
                r.append(" ");
                r.append(ratio.as_str());
                r
            }
        },
    }
}

/// Whether `capacity_progress_bar` can compute its segments without overflow.
pub open spec fn capacity_bar_fits(done: nat, in_flight: nat, width: nat) -> bool {
    done + in_flight <= usize::MAX && (done + in_flight) * width <= usize::MAX
}

/// The epic capacity bar: done (`█`), in flight (`▒`) and the rest (`░`).
pub open spec fn capacity_bar_spec(done: nat, in_flight: nat, total: nat, width: nat, theme: Option<Theme>) -> Seq<char> {
    if total == 0 {
        let e = repeat_seq("░"@, width);
        match theme {
            Some(t) => t.reset@ + "["@ + t.muted@ + e + t.reset@ + "]"@ + t.reset@,
            None => "["@ + dim_spec(e) + "]"@,
        }
    } else {
        let df = done * width / total;
        let inf = ((done + in_flight) * width / total - df) as nat;
        let em = if width >= df + inf { (width - df - inf) as nat } else { 0 };
        let bd = repeat_seq("█"@, df);
        let bi = repeat_seq("▒"@, inf);
        let be = repeat_seq("░"@, em);
        match theme {
            Some(t) => t.reset@ + "["@ + t.agent@ + bd + bi + t.muted@ + be + t.reset@ + "]"@,
            None => "["@ + fg_spec(Color::Green, bd) + " "@ + fg_spec(Color::Blue, bi) + " "@ + dim_spec(be) + "]"@,
        }
    }
}

/// Renders an epic capacity bar with done and in-flight segments.
pub fn capacity_progress_bar(done: usize, in_flight: usize, total: usize, width: usize, theme: Option<&Theme>) -> (r: String)
    requires
        capacity_bar_fits(done as nat, in_flight as nat, width as nat),
    ensures
        r@ == capacity_bar_spec(done as nat, in_flight as nat, total as nat, width as nat,
            match theme { Some(t) => Some(*t), None => None }),
{
    if total == 0 {
        let empty = repeat_str("░", width);
        match theme {
            Some(t) => {
                let mut r = concat3(t.reset, "[", t.muted);
                r.append(empty.as_str());
                r.append(t.reset);
                r.append("]");
                r.append(t.reset);
                return r;
            },
            None => {
                let d = dimmed(empty.as_str());
                return concat3("[", d.as_str(), "]");
            },
        }
    }
    proof {
        vstd::arithmetic::mul::lemma_mul_inequality(done as int, (done + in_flight) as int, width as int);
        vstd::arithmetic::div_mod::lemma_div_is_ordered((done * width) as int, ((done + in_flight) * width) as int, total as int);
        vstd::arithmetic::div_mod::lemma_div_is_ordered_by_denominator(((done + in_flight) * width) as int, 1, total as int);
    }
    let done_filled = (done * width) / total;
    let in_flight_filled = ((done + in_flight) * width) / total - done_filled;
    let empty = width.saturating_sub(done_filled + in_flight_filled);
    let bar_done = repeat_str("█", done_filled);
    let bar_in_flight = repeat_str("▒", in_flight_filled);
    let bar_empty = repeat_str("░", empty);
    match theme {
        Some(t) => {
            let mut r = concat3(t.reset, "[", t.agent);
            r.append(bar_done.as_str());
            r.append(bar_in_flight.as_str());
            r.append(t.muted);
            r.append(bar_empty.as_str());
            r.append(t.reset);
            r.append("]");
            r
        },
        None => {
            let a = fg(bar_done.as_str(), Color::Green);
            let b = fg(bar_in_flight.as_str(), Color::Blue);
            let c = dimmed(bar_empty.as_str());
            let mut r = concat3("[", a.as_str(), " ");
            r.append(b.as_str());
            r.append(" ");
            r.append(c.as_str());
            r.append("]");
            r
        },
    }
}

/// One entry of a requirement's evidence chain.
#[derive(Clone, Debug)]
pub struct EvidenceEntry {
    pub requirement_id: String,
    pub story_id: String,
    pub story_title: String,
    pub criterion: String,
    pub phase: String,
    pub proof: Option<String>,
}

pub open spec fn styled_story_id_spec(id: Seq<char>) -> Seq<char> {
    bold_spec(fg_spec(Color::BrightBlue, id))
}

pub open spec fn styled_epic_id_spec(id: Seq<char>) -> Seq<char> {
    bold_spec(fg_spec(Color::Cyan, id))
}

pub open spec fn styled_voyage_id_spec(id: Seq<char>) -> Seq<char> {
    bold_spec(fg_spec(Color::Magenta, id))
}

/// Colours an evidence-chain entry: bookend phases cyan, `continues` dimmed.
pub open spec fn styled_evidence_entry_spec(e: EvidenceEntry) -> Seq<char> {
    let line = ":"@ + e.phase@ + " ["@ + styled_story_id_spec(e.story_id@) + "] - \""@ + e.criterion@ + "\""@;
    if e.phase@ == "continues"@ {
        dim_spec(line)
    } else {
        fg_spec(Color::Cyan, line)
    }
}

/// Colours an evidence-chain entry by phase.
pub fn styled_evidence_entry(entry: &EvidenceEntry) -> (r: String)
    ensures
        r@ == styled_evidence_entry_spec(*entry),
{
    let id = styled_story_id(entry.story_id.as_str());
    let mut line = concat3(":", entry.phase.as_str(), " [");
    line.append(id.as_str());
    line.append("] - \"");
    line.append(entry.criterion.as_str());
    line.append("\"");
    let continues = owned("continues");
    if entry.phase == continues {
        dimmed(line.as_str())
    } else {
        fg(line.as_str(), Color::Cyan)
    }
}

/// Colours an entity identifier (story style).
pub fn styled_id(id: &str) -> (r: String)
    ensures
        r@ == styled_story_id_spec(id@),
{
    styled_story_id(id)
}

/// Colours an epic identifier: bold cyan.
pub fn styled_epic_id(id: &str) -> (r: String)
    ensures
        r@ == styled_epic_id_spec(id@),
{
    let c = fg(id, Color::Cyan);
    bold(c.as_str())
}

/// Colours a voyage identifier: bold magenta.
pub fn styled_voyage_id(id: &str) -> (r: String)
    ensures
        r@ == styled_voyage_id_spec(id@),
{
    let c = fg(id, Color::Magenta);
    bold(c.as_str())
}

/// Colours a story identifier: bold bright blue.
pub fn styled_story_id(id: &str) -> (r: String)
    ensures
        r@ == styled_story_id_spec(id@),
{
    let c = fg(id, Color::BrightBlue);
    bold(c.as_str())
}

/// Colours a requirement identifier: cyan.
pub fn styled_requirement_id(id: &str) -> (r: String)
    ensures
        r@ == fg_spec(Color::Cyan, id@),
{
    fg(id, Color::Cyan)
}

/// Position of the first `/` in `s`, if any.
pub open spec fn slash_pos(s: Seq<char>) -> Option<int> {
    find_spec(s, "/"@)
}

/// The standard rendering of a scope (`epic` or `epic/voyage`); `-` when absent.
pub open spec fn styled_scope_spec(scope: Option<Seq<char>>) -> Seq<char> {
    let s = match scope { Some(x) => x, None => "-"@ };
    match slash_pos(s) {
        Some(i) => {
            let rest = s.skip(i + 1);
            let voyage = match slash_pos(rest) { Some(j) => rest.take(j), None => rest };
            styled_epic_id_spec(s.take(i)) + "/"@ + styled_voyage_id_spec(voyage)
        },
        None => if s == "-"@ { dim_spec(s) } else { styled_epic_id_spec(s) },
    }
}

/// Renders a scope in the standard `epic/voyage` colours.
pub fn styled_scope(scope: Option<&str>) -> (r: String)
    ensures
        r@ == styled_scope_spec(match scope { Some(x) => Some(x@), None => None }),
{
    let s = match scope {
        Some(x) => x,
        None => "-",
    };
    match find(s, "/") {
        Some(i) => {
            proof {
                crate::text::lemma_find_from(s@, "/"@, 0);
                reveal_strlit("/");
            }
            let n = s.unicode_len();
            let epic = s.substring_char(0, i);
            let rest = s.substring_char(i + 1, n);
            assert(epic@ =~= s@.take(i as int));
            assert(rest@ =~= s@.skip(i + 1));
            let voyage = match find(rest, "/") {
                Some(j) => {
                    proof {
                        crate::text::lemma_find_from(rest@, "/"@, 0);
                    }
                    let v = rest.substring_char(0, j);
                    assert(v@ =~= rest@.take(j as int));
                    v
                },
                None => rest,
            };
            let e = styled_epic_id(epic);
            let v = styled_voyage_id(voyage);
            concat3(e.as_str(), "/", v.as_str())
        },
        None => {
            let dash = owned("-");
            let sv = owned(s);
            if sv == dash {
                dimmed(s)
            } else {
                styled_epic_id(s)
            }
        },
    }
}

/// How a header line colours its identifier.
#[derive(Clone, Copy, Debug, PartialEq, Eq, Structural)]
pub enum IdStyle {
    Story,
    Epic,
    Voyage,
    Requirement,
}

pub open spec fn id_style_spec(style: IdStyle, id: Seq<char>) -> Seq<char> {
    match style {
        IdStyle::Story => styled_story_id_spec(id),
        IdStyle::Epic => styled_epic_id_spec(id),
        IdStyle::Voyage => styled_voyage_id_spec(id),
        IdStyle::Requirement => fg_spec(Color::Cyan, id),
    }
}

/// A styled header line: the coloured identifier and the bold title.
pub fn header(id: &str, title: &str, style: IdStyle) -> (r: String)
    ensures
        r@ == "  "@ + id_style_spec(style, id@) + " "@ + bold_spec(title@),
{
    let styled = match style {
        IdStyle::Story => styled_story_id(id),
        IdStyle::Epic => styled_epic_id(id),
        IdStyle::Voyage => styled_voyage_id(id),
        IdStyle::Requirement => styled_requirement_id(id),
    };
    let t = bold(title);
    let mut r = concat3("  ", styled.as_str(), " ");
    r.append(t.as_str());
    r
}

/// A horizontal rule of `c` repeated `width` times, in the theme's muted
/// colour, or dimmed without a theme.
pub open spec fn rule_spec(c: Seq<char>, width: nat, theme: Option<Theme>) -> Seq<char> {
    match theme {
        Some(t) => t.muted@ + repeat_seq(c, width) + t.reset@,
        None => dim_spec(repeat_seq(c, width)),
    }
}

/// Dim horizontal rule (`─`).
pub fn rule(width: usize, theme: Option<&Theme>) -> (r: String)
    ensures
        r@ == rule_spec("─"@, width as nat, match theme { Some(t) => Some(*t), None => None }),
{
    let s = repeat_str("─", width);
    match theme {
        Some(t) => concat3(t.muted, s.as_str(), t.reset),
        None => dimmed(s.as_str()),
    }
}

/// Heavy horizontal rule (`═`).
pub fn heavy_rule(width: usize, theme: Option<&Theme>) -> (r: String)
    ensures
        r@ == rule_spec("═"@, width as nat, match theme { Some(t) => Some(*t), None => None }),
{
    let s = repeat_str("═", width);
    match theme {
        Some(t) => concat3(t.muted, s.as_str(), t.reset),
        None => dimmed(s.as_str()),
    }
}

/// Inline markdown for the terminal: a code span between backticks is shown
/// in cyan without its backticks; all other text is kept as written.
pub open spec fn inline_markdown_spec(s: Seq<char>) -> Seq<char>
    decreases s.len(),
{
    if s.len() == 0 {
        Seq::empty()
    } else if s[0] == '`' {
        match crate::text::char_pos(s.drop_first(), '`') {
            Some(j) => if 0 <= j < s.len() - 1 {
                fg_spec(Color::Cyan, s.subrange(1, j + 1)) + inline_markdown_spec(s.skip(j + 2))
            } else {
                seq!['`'] + inline_markdown_spec(s.drop_first())
            },
            None => seq!['`'] + inline_markdown_spec(s.drop_first()),
        }
    } else {
        seq![s[0]] + inline_markdown_spec(s.drop_first())
    }
}

/// Renders inline markdown for the terminal (code spans in cyan).
pub fn styled_inline_markdown(text: &str) -> (r: String)
    ensures
        r@ == inline_markdown_spec(text@),
{
    let cs = str_chars(text);
    let n = cs.len();
    let mut out = String::new();
    let mut i: usize = 0;
    assert(text@.skip(0) =~= text@);
    while i < n
        invariant
            cs@ == text@,
            n == cs.len(),
            i <= n,
            out@ + inline_markdown_spec(text@.skip(i as int)) == inline_markdown_spec(text@),
        decreases n - i,
    {
        let ghost rest = text@.skip(i as int);
        if cs[i] == '`' {
            let mut j: usize = i + 1;
            while j < n && cs[j] != '`'
                invariant
                    i + 1 <= j <= n,
                    n == cs.len(),
                    forall|k: int| i + 1 <= k < j ==> cs@[k] != '`',
                decreases n - j,
            {
                j = j + 1;
            }
            proof {
                assert forall|k: int| 0 <= k < j - (i + 1) implies rest.drop_first()[k] != '`' by {
                    assert(rest.drop_first()[k] == cs@[i + 1 + k]);
                }
                crate::text::lemma_char_pos_at(rest.drop_first(), '`', j - (i + 1));
            }
            if j < n {
                let code = string_from_chars(&cs.as_slice()[i + 1..j]);
                let styled = fg(code.as_str(), Color::Cyan);
                assert(code@ =~= rest.subrange(1, (j - i) as int));
                assert(rest.skip((j - i) + 1) =~= text@.skip(j + 1));
                out.append(styled.as_str());
                i = j + 1;
            } else {
                assert(rest.drop_first() =~= text@.skip(i + 1));
                push_char(&mut out, '`');
                i = i + 1;
            }
        } else {
            assert(rest.drop_first() =~= text@.skip(i + 1));
            push_char(&mut out, cs[i]);
            i = i + 1;
        }
    }
    assert(text@.skip(n as int).len() == 0);
    out
}

} // verus!
