//! The annotated flow dashboard: pipeline stages, missions, the flow
//! assessment, the workflow lanes as queue cards, strategic capacity and
//! the dependencies that block work.

use vstd::prelude::*;
use crate::ansi::{pad_to_width, visible_width_spec, dimmed, dim_spec};
use crate::box_component::{BoxComponent, box_spec, box_fits};
use crate::table::strs_view;
use crate::text::{byte_len, concat2, concat3, owned, decimal, usize_to_string, spaces, spaces_str, pad_end,
    pad_end_spec, pad_start, pad_start_spec, starts_with, flatten, trim_end, trim_end_spec};
use crate::theme::Theme;
use crate::ansi::{Color, fg, fg_spec, bold, bold_spec};
use crate::board::{Board, Story, story_ids};
use crate::model::StoryState;
use crate::flow_health::FlowMetrics;
use crate::layout::{LayoutConfig, stage_labels_spec, flow_diagram_spec, stage_counts_spec};
use crate::style::{rule, heavy_rule, rule_spec, styled_story_id, styled_story_id_spec};
use crate::order::{SortKey, KeyView, keys_view, sort_eligible, sorted_eligible};
use crate::flow_format::{EpicCapacityReport, StoryScopeSummary, StorySummary, SummaryView, DepStatus,
    render_epic_capacities, capacity_table, capacity_keys, capacities_fit, classify_stories, classified,
    scope_ranks, deps_view, deps_keys_distinct, summaries_view, summary_view, render_dependency_chains, chains_text,
    scope_keys, first_of_scope, str_list, all_true};
use crate::next_up::{calculate_next_up, human_next_up, items_view, ItemView};
use crate::text::repeat_str;

verus! {

// ---------------------------------------------------------------------
// Workflow lanes
// ---------------------------------------------------------------------

/// How many items of one source wait in a lane.
#[derive(Clone, Debug)]
pub struct LaneSourceCount {
    pub source: String,
    pub count: usize,
}

/// One configured workflow lane and what waits in it.
#[derive(Clone, Debug)]
pub struct LaneFlowCard {
    pub name: String,
    pub priority: u32,
    pub total_count: usize,
    pub parallel: bool,
    pub manual_accept: bool,
    pub source_counts: Vec<LaneSourceCount>,
}

/// The workflow lanes of a board.
#[derive(Clone, Debug)]
pub struct LaneFlowProjection {
    pub lanes: Vec<LaneFlowCard>,
}

/// `s` padded with blanks to `w` visible columns (`pad_to_width`).
pub open spec fn padded(s: Seq<char>, w: nat) -> Seq<char> {
    if visible_width_spec(s) >= w { s } else { s + spaces((w - visible_width_spec(s)) as nat) }
}

/// The title of a lane card: `name (total) [pP]`.
pub open spec fn lane_title(l: LaneFlowCard) -> Seq<char> {
    l.name@ + " ("@ + decimal(l.total_count as nat) + ") [p"@ + decimal(l.priority as nat) + "]"@
}

/// A source's count, coloured for the agent when the source is a story
/// queue and for the human otherwise.
pub open spec fn source_count_text(s: LaneSourceCount, t: Theme) -> Seq<char> {
    (if "story."@.is_prefix_of(s.source@) { t.agent@ } else { t.human@ }) + decimal(s.count as nat) + t.reset@
}

/// One source line of a lane card (`  {source:<28} {count:>3}`), padded.
pub open spec fn source_line(s: LaneSourceCount, width: nat, t: Theme) -> Seq<char> {
    padded("  "@ + pad_end_spec(s.source@, 28) + " "@ + pad_start_spec(source_count_text(s, t), 3), width)
}

/// The capabilities line of a lane card, padded.
pub open spec fn capabilities_line(l: LaneFlowCard, width: nat) -> Seq<char> {
    padded("  mode: "@ + (if l.parallel { "parallel"@ } else { "serial"@ }) + ", "@
        + (if l.manual_accept { "manual-accept"@ } else { "no-manual-accept"@ }), width)
}

/// The sources with something waiting, in order.
pub open spec fn nonzero(srcs: Seq<LaneSourceCount>) -> Seq<LaneSourceCount>
    decreases srcs.len(),
{
    if srcs.len() == 0 {
        Seq::empty()
    } else if srcs.last().count > 0 {
        nonzero(srcs.drop_last()).push(srcs.last())
    } else {
        nonzero(srcs.drop_last())
    }
}

/// The number of source rows a lane needs (at least one).
pub open spec fn source_rows(l: LaneFlowCard) -> nat {
    let n = nonzero(l.source_counts@).len();
    if n == 0 { 1 } else { n }
}

/// The most source rows any of the first `n` lanes needs (0 for none).
pub open spec fn max_source_rows(lanes: Seq<LaneFlowCard>, n: int) -> nat
    decreases n,
{
    if n <= 0 {
        0
    } else {
        let m = max_source_rows(lanes, n - 1);
        if source_rows(lanes[n - 1]) > m { source_rows(lanes[n - 1]) } else { m }
    }
}

/// The lines inside a lane card of `width`: its sources (or a dimmed note
/// that the lane is empty), blank lines up to `rows`, a rule and the
/// capabilities line.
pub open spec fn lane_box_lines(l: LaneFlowCard, width: nat, t: Theme, rows: nat) -> Seq<Seq<char>> {
    let nz = nonzero(l.source_counts@);
    let src = if nz.len() == 0 {
        seq!["  "@ + dim_spec("No items in lane"@)]
    } else {
        nz.map_values(|s: LaneSourceCount| source_line(s, (width - 2) as nat, t))
    };
    let pad: nat = if src.len() < rows { (rows - src.len()) as nat } else { 0 };
    src + Seq::new(pad, |i: int| " "@) + seq!["---"@, capabilities_line(l, (width - 2) as nat)]
}

/// The rendered rows of a lane card at a total height.
pub open spec fn lane_box_rows(l: LaneFlowCard, width: nat, t: Theme, rows: nat, height: nat) -> Seq<Seq<char>> {
    box_spec(lane_title(l), (byte_len(lane_title(l)) as usize) as int, width as int,
        lane_box_lines(l, width, t, rows), height)
}

/// Every lane's card title fits in a card of `width`.
pub open spec fn titles_fit(lanes: Seq<LaneFlowCard>, width: nat) -> bool {
    forall|i: int| 0 <= i < lanes.len() ==> box_fits(width as int, (byte_len(#[trigger] lane_title(lanes[i])) as usize) as int)
}

/// Rows one after another, each ended by a newline.
pub open spec fn rows_text(rows: Seq<Seq<char>>) -> Seq<char> {
    flatten(rows.map_values(|r: Seq<char>| r + "\n"@))
}

/// Row `i` of a rendered card, or blanks when it has no such row.
pub open spec fn row_or_blank(rows: Seq<Seq<char>>, i: int, w: nat) -> Seq<char> {
    if 0 <= i < rows.len() { rows[i] } else { spaces(w) }
}

/// One grid row pair: two cards side by side (or one alone), `h` rows.
pub open spec fn chunk_text(left: Seq<Seq<char>>, right: Option<Seq<Seq<char>>>, h: nat, w: nat) -> Seq<char> {
    rows_text(Seq::new(h, |i: int| match right {
        Some(r) => row_or_blank(left, i, w) + "  "@ + row_or_blank(r, i, w),
        None => row_or_blank(left, i, w),
    }))
}

/// The first `k` grid chunks of the cards, a blank line between chunks.
pub open spec fn grid_text(cards: Seq<Seq<Seq<char>>>, k: int, h: nat, w: nat) -> Seq<char>
    decreases k,
{
    if k <= 0 {
        Seq::empty()
    } else {
        let chunks = (cards.len() + 1) / 2;
        let right = if 2 * (k - 1) + 1 < cards.len() { Some(cards[2 * (k - 1) + 1]) } else { None };
        grid_text(cards, k - 1, h, w) + chunk_text(cards[2 * (k - 1)], right, h, w)
            + (if k < chunks { "\n"@ } else { Seq::empty() })
    }
}

/// The first `k` cards stacked, a blank line between cards.
pub open spec fn stacked_text(cards: Seq<Seq<Seq<char>>>, k: int) -> Seq<char>
    decreases k,
{
    if k <= 0 {
        Seq::empty()
    } else {
        stacked_text(cards, k - 1) + rows_text(cards[k - 1])
            + (if k < cards.len() { "\n"@ } else { Seq::empty() })
    }
}

/// The total height of the lane cards: the tallest card.
pub open spec fn card_height(lanes: Seq<LaneFlowCard>, width: nat, t: Theme) -> nat {
    max_source_rows(lanes, lanes.len() as int) + 4
}

/// The lane cards: two per row on wide terminals (80 columns or more),
/// stacked otherwise; nothing when there are no lanes.
pub open spec fn lane_boxes_text(lanes: Seq<LaneFlowCard>, width: nat, t: Theme) -> Seq<char> {
    let rows = max_source_rows(lanes, lanes.len() as int);
    if lanes.len() == 0 {
        Seq::empty()
    } else if width >= 80 {
        let w = ((width - 2) / 2) as nat;
        let cards = lanes.map_values(|l: LaneFlowCard| lane_box_rows(l, w, t, rows, rows + 4));
        trim_end_spec(grid_text(cards, ((cards.len() + 1) / 2) as int, rows + 4, w))
    } else {
        let cards = lanes.map_values(|l: LaneFlowCard| lane_box_rows(l, width, t, rows, rows + 4));
        stacked_text(cards, cards.len() as int)
    }
}

fn source_count(s: &LaneSourceCount, theme: &Theme) -> (r: String)
    ensures
        r@ == source_count_text(*s, *theme),
{
    let color = if starts_with(s.source.as_str(), "story.") { theme.agent } else { theme.human };
    concat3(color, usize_to_string(s.count).as_str(), theme.reset)
}

/// One source line of a lane card.
fn render_lane_source_line(source: &LaneSourceCount, width: usize, theme: &Theme) -> (r: String)
    ensures
        r@ == source_line(*source, width as nat, *theme),
{
    let count = source_count(source, theme);
    let mut line = concat2("  ", pad_end(source.source.as_str(), 28).as_str());
    line.append(" ");
    line.append(pad_start(count.as_str(), 3).as_str());
    pad_to_width(line.as_str(), width)
}

/// The capabilities line of a lane card.
fn render_lane_capabilities_line(lane: &LaneFlowCard, width: usize) -> (r: String)
    ensures
        r@ == capabilities_line(*lane, width as nat),
{
    let mode = if lane.parallel { "parallel" } else { "serial" };
    let accept = if lane.manual_accept { "manual-accept" } else { "no-manual-accept" };
    let mut line = concat2("  mode: ", mode);
    line.append(", ");
    line.append(accept);
    pad_to_width(line.as_str(), width)
}

fn lane_title_of(lane: &LaneFlowCard) -> (r: String)
    ensures
        r@ == lane_title(*lane),
{
    let mut t = concat2(lane.name.as_str(), " (");
    t.append(usize_to_string(lane.total_count).as_str());
    t.append(") [p");
    t.append(usize_to_string(lane.priority as usize).as_str());
    t.append("]");
    t
}

fn nonzero_count(srcs: &Vec<LaneSourceCount>) -> (n: usize)
    ensures
        n == nonzero(srcs@).len(),
{
    let mut n: usize = 0;
    let mut k: usize = 0;
    while k < srcs.len()
        invariant
            k <= srcs.len(),
            n == nonzero(srcs@.take(k as int)).len(),
            n <= k,
        decreases srcs.len() - k,
    {
        assert(srcs@.take(k + 1).drop_last() =~= srcs@.take(k as int));
        if srcs[k].count > 0 {
            n = n + 1;
        }
        k = k + 1;
    }
    assert(srcs@.take(k as int) =~= srcs@);
    n
}

/// Builds the card of one lane at `width` with `rows` source rows.
fn build_lane_box(lane: &LaneFlowCard, width: usize, theme: &Theme, rows: usize) -> (b: BoxComponent)
    requires
        width >= 2,
    ensures
        b.title@ == lane_title(*lane),
        b.width == width,
        strs_view(b.lines@) == lane_box_lines(*lane, width as nat, *theme, rows as nat),
{
    let mut lane_box = BoxComponent::new(lane_title_of(lane).as_str(), width);
    let ghost srcs = lane.source_counts@;
    let ghost nz = nonzero(srcs);
    let ghost src = if nz.len() == 0 {
        seq!["  "@ + dim_spec("No items in lane"@)]
    } else {
        nz.map_values(|s: LaneSourceCount| source_line(s, (width - 2) as nat, *theme))
    };
    let n = nonzero_count(&lane.source_counts);
    let mut pushed: usize = 0;
    if n == 0 {
        lane_box.push_line(concat2("  ", dimmed("No items in lane").as_str()));
        pushed = 1;
        assert(strs_view(lane_box.lines@) =~= src);
    } else {
        let mut k: usize = 0;
        assert(nonzero(srcs.take(0)) =~= Seq::<LaneSourceCount>::empty());
        while k < lane.source_counts.len()
            invariant
                srcs == lane.source_counts@,
                nz == nonzero(srcs),
                nz.len() > 0,
                width >= 2,
                lane_box.title@ == lane_title(*lane),
                lane_box.width == width,
                k <= srcs.len(),
                pushed == nonzero(srcs.take(k as int)).len(),
                pushed <= k,
                strs_view(lane_box.lines@) == nonzero(srcs.take(k as int))
                    .map_values(|s: LaneSourceCount| source_line(s, (width - 2) as nat, *theme)),
            decreases srcs.len() - k,
        {
            assert(srcs.take(k + 1).drop_last() =~= srcs.take(k as int));
            let s = &lane.source_counts[k];
            if s.count > 0 {
                let ghost prev = nonzero(srcs.take(k as int));
                assert(srcs.take(k + 1).last() == srcs[k as int]);
                assert(nonzero(srcs.take(k + 1)) == prev.push(srcs[k as int]));
                assert(prev.push(srcs[k as int]).map_values(|s: LaneSourceCount| source_line(s, (width - 2) as nat, *theme))
                    =~= prev.map_values(|s: LaneSourceCount| source_line(s, (width - 2) as nat, *theme))
                        .push(source_line(srcs[k as int], (width - 2) as nat, *theme)));
                let line = render_lane_source_line(s, width - 2, theme);
                lane_box.push_line(line);
                pushed = pushed + 1;
                assert(strs_view(lane_box.lines@) =~= nonzero(srcs.take(k + 1))
                    .map_values(|s: LaneSourceCount| source_line(s, (width - 2) as nat, *theme)));
            } else {
                assert(srcs.take(k + 1).last() == srcs[k as int]);
            }
            k = k + 1;
        }
        assert(srcs.take(k as int) =~= srcs);
    }
    let ghost before_pad = strs_view(lane_box.lines@);
    assert(before_pad == src);
    let ghost pad: nat = if src.len() < rows { (rows - src.len()) as nat } else { 0 };
    let start = pushed;
    while pushed < rows
        invariant
            lane_box.title@ == lane_title(*lane),
            lane_box.width == width,
            start == src.len(),
            start <= pushed,
            pushed <= rows || pushed == start,
            strs_view(lane_box.lines@) == src + Seq::new((pushed - start) as nat, |i: int| " "@),
        decreases rows - pushed,
    {
        let ghost old_lines = strs_view(lane_box.lines@);
        lane_box.push_line(owned(" "));
        assert(strs_view(lane_box.lines@) =~= old_lines.push(" "@));
        assert(src + Seq::new((pushed + 1 - start) as nat, |i: int| " "@)
            =~= (src + Seq::new((pushed - start) as nat, |i: int| " "@)).push(" "@));
        pushed = pushed + 1;
    }
    assert((pushed - start) as nat == pad);
    let ghost with_pad = strs_view(lane_box.lines@);
    let ghost old_lines = lane_box.lines@;
    lane_box.push_rule();
    assert(strs_view(lane_box.lines@) =~= with_pad.push("---"@)) by {
        assert forall|i: int| 0 <= i < old_lines.len() implies lane_box.lines@[i] == old_lines[i] by {
            assert(lane_box.lines@.drop_last()[i] == lane_box.lines@[i]);
        }
    }
    let cap = render_lane_capabilities_line(lane, width - 2);
    lane_box.push_line(cap);
    assert(strs_view(lane_box.lines@) =~= src + Seq::new(pad, |i: int| " "@) + seq!["---"@, capabilities_line(*lane, (width - 2) as nat)]);
    lane_box
}

/// The lanes' sources fit the machine's counters.
pub open spec fn lanes_fit(lanes: Seq<LaneFlowCard>) -> bool {
    forall|i: int| 0 <= i < lanes.len() ==> (#[trigger] lanes[i]).source_counts@.len() + 4 <= usize::MAX
}

proof fn lemma_nonzero_len(srcs: Seq<LaneSourceCount>)
    ensures
        nonzero(srcs).len() <= srcs.len(),
    decreases srcs.len(),
{
    if srcs.len() > 0 {
        lemma_nonzero_len(srcs.drop_last());
    }
}

fn max_rows(lanes: &Vec<LaneFlowCard>) -> (m: usize)
    requires
        lanes_fit(lanes@),
    ensures
        m == max_source_rows(lanes@, lanes@.len() as int),
        m + 4 <= usize::MAX,
{
    let mut m: usize = 0;
    let mut k: usize = 0;
    while k < lanes.len()
        invariant
            lanes_fit(lanes@),
            k <= lanes.len(),
            m == max_source_rows(lanes@, k as int),
            m + 4 <= usize::MAX,
        decreases lanes.len() - k,
    {
        let n = nonzero_count(&lanes[k].source_counts);
        proof {
            lemma_nonzero_len(lanes@[k as int].source_counts@);
            assert(lanes@[k as int].source_counts@.len() + 4 <= usize::MAX);
        }
        let r = if n == 0 { 1 } else { n };
        if r > m {
            m = r;
        }
        k = k + 1;
    }
    m
}

fn render_cards(lanes: &Vec<LaneFlowCard>, width: usize, theme: &Theme, rows: usize) -> (cards: Vec<Vec<String>>)
    requires
        width >= 2,
        titles_fit(lanes@, width as nat),
        rows + 4 <= usize::MAX,
    ensures
        cards@.len() == lanes@.len(),
        forall|i: int| 0 <= i < lanes@.len() ==> strs_view((#[trigger] cards@[i])@)
            == lane_box_rows(lanes@[i], width as nat, *theme, rows as nat, (rows + 4) as nat),
{
    let mut cards: Vec<Vec<String>> = Vec::new();
    let mut k: usize = 0;
    while k < lanes.len()
        invariant
            width >= 2,
            titles_fit(lanes@, width as nat),
            rows + 4 <= usize::MAX,
            k <= lanes.len(),
            cards@.len() == k,
            forall|i: int| 0 <= i < k ==> strs_view((#[trigger] cards@[i])@)
                == lane_box_rows(lanes@[i], width as nat, *theme, rows as nat, (rows + 4) as nat),
        decreases lanes.len() - k,
    {
        let b = build_lane_box(&lanes[k], width, theme, rows);
        assert(box_fits(width as int, (byte_len(lane_title(lanes@[k as int])) as usize) as int));
        let rendered = b.render_with_height(rows + 4);
        cards.push(rendered);
        k = k + 1;
    }
    cards
}

fn row_or_blank_of(rows: &Vec<String>, i: usize, w: usize) -> (r: String)
    ensures
        r@ == row_or_blank(strs_view(rows@), i as int, w as nat),
{
    if i < rows.len() {
        rows[i].clone()
    } else {
        spaces_str(w)
    }
}

proof fn lemma_rows_text_push(rows: Seq<Seq<char>>, x: Seq<char>)
    ensures
        rows_text(rows.push(x)) == rows_text(rows) + (x + "\n"@),
{
    assert(rows.push(x).map_values(|r: Seq<char>| r + "\n"@)
        =~= rows.map_values(|r: Seq<char>| r + "\n"@).push(x + "\n"@));
    crate::text::lemma_flatten_push(rows.map_values(|r: Seq<char>| r + "\n"@), x + "\n"@);
}

/// The lane cards side by side, two per row.
fn render_lane_boxes_grid(lane_flow: &LaneFlowProjection, width: usize, theme: &Theme, rows: usize) -> (r: String)
    requires
        width >= 80,
        titles_fit(lane_flow.lanes@, ((width - 2) / 2) as nat),
        rows + 4 <= usize::MAX,
    ensures
        r@ == trim_end_spec(grid_text(
            lane_flow.lanes@.map_values(|l: LaneFlowCard|
                lane_box_rows(l, ((width - 2) / 2) as nat, *theme, rows as nat, (rows + 4) as nat)),
            ((lane_flow.lanes@.len() + 1) / 2) as int, (rows + 4) as nat, ((width - 2) / 2) as nat)),
{
    let col_width = (width - 2) / 2;
    let cards = render_cards(&lane_flow.lanes, col_width, theme, rows);
    let ghost cv = lane_flow.lanes@.map_values(|l: LaneFlowCard|
        lane_box_rows(l, col_width as nat, *theme, rows as nat, (rows + 4) as nat));
    assert forall|i: int| 0 <= i < cards@.len() implies strs_view(#[trigger] cards@[i]@) == cv[i] by {}
    let n = cards.len();
    let chunks = n / 2 + n % 2;
    let h = rows + 4;
    let mut out = String::new();
    let mut c: usize = 0;
    while c < chunks
        invariant
            n == cards@.len(),
            n == cv.len(),
            chunks == (n + 1) / 2,
            h == rows + 4,
            forall|i: int| 0 <= i < n ==> strs_view(#[trigger] cards@[i]@) == cv[i],
            c <= chunks,
            out@ == grid_text(cv, c as int, h as nat, col_width as nat),
        decreases chunks - c,
    {
        let left = &cards[2 * c];
        let has_right = 2 * c + 1 < n;
        let ghost right = if has_right { Some(cv[2 * c + 1]) } else { None::<Seq<Seq<char>>> };
        let ghost before = out@;
        let ghost lines_spec = Seq::new(h as nat, |i: int| match right {
            Some(rr) => row_or_blank(cv[2 * c as int], i, col_width as nat) + "  "@ + row_or_blank(rr, i, col_width as nat),
            None => row_or_blank(cv[2 * c as int], i, col_width as nat),
        });
        let mut row: usize = 0;
        while row < h
            invariant
                n == cards@.len(),
                n == cv.len(),
                2 * c < n,
                has_right == (2 * c + 1 < n),
                left == &cards@[2 * c as int],
                strs_view(left@) == cv[2 * c as int],
                has_right ==> strs_view(cards@[2 * c + 1]@) == cv[2 * c + 1],
                right == if has_right { Some(cv[2 * c + 1]) } else { None::<Seq<Seq<char>>> },
                lines_spec == Seq::new(h as nat, |i: int| match right {
                    Some(rr) => row_or_blank(cv[2 * c as int], i, col_width as nat) + "  "@ + row_or_blank(rr, i, col_width as nat),
                    None => row_or_blank(cv[2 * c as int], i, col_width as nat),
                }),
                row <= h,
                out@ == before + rows_text(lines_spec.take(row as int)),
            decreases h - row,
        {
            let mut line = row_or_blank_of(left, row, col_width);
            if has_right {
                line.append("  ");
                line.append(row_or_blank_of(&cards[2 * c + 1], row, col_width).as_str());
            }
            proof {
                assert(lines_spec.take(row + 1) =~= lines_spec.take(row as int).push(lines_spec[row as int]));
                lemma_rows_text_push(lines_spec.take(row as int), lines_spec[row as int]);
            }
            out.append(line.as_str());
            out.append("\n");
            row = row + 1;
        }
        assert(lines_spec.take(h as int) =~= lines_spec);
        if c + 1 < chunks {
            out.append("\n");
        }
        c = c + 1;
    }
    let t = trim_end(out.as_str());
    owned(t)
}

/// The lane cards one under another.
fn render_lane_boxes_stacked(lane_flow: &LaneFlowProjection, width: usize, theme: &Theme, rows: usize) -> (r: String)
    requires
        width >= 2,
        titles_fit(lane_flow.lanes@, width as nat),
        rows + 4 <= usize::MAX,
    ensures
        r@ == stacked_text(lane_flow.lanes@.map_values(|l: LaneFlowCard|
            lane_box_rows(l, width as nat, *theme, rows as nat, (rows + 4) as nat)), lane_flow.lanes@.len() as int),
{
    let cards = render_cards(&lane_flow.lanes, width, theme, rows);
    let ghost cv = lane_flow.lanes@.map_values(|l: LaneFlowCard|
        lane_box_rows(l, width as nat, *theme, rows as nat, (rows + 4) as nat));
    assert forall|i: int| 0 <= i < cards@.len() implies strs_view(#[trigger] cards@[i]@) == cv[i] by {}
    let n = cards.len();
    let mut out = String::new();
    let mut k: usize = 0;
    while k < n
        invariant
            n == cards@.len(),
            n == cv.len(),
            forall|i: int| 0 <= i < n ==> strs_view(#[trigger] cards@[i]@) == cv[i],
            k <= n,
            out@ == stacked_text(cv, k as int),
        decreases n - k,
    {
        let card = &cards[k];
        let ghost before = out@;
        let ghost cs = cv[k as int];
        let mut i: usize = 0;
        while i < card.len()
            invariant
                card == &cards@[k as int],
                strs_view(card@) == cs,
                i <= card@.len(),
                out@ == before + rows_text(cs.take(i as int)),
            decreases card@.len() - i,
        {
            proof {
                assert(cs.take(i + 1) =~= cs.take(i as int).push(cs[i as int]));
                lemma_rows_text_push(cs.take(i as int), cs[i as int]);
            }
            out.append(card[i].as_str());
            out.append("\n");
            i = i + 1;
        }
        assert(cs.take(i as int) =~= cs);
        if k + 1 < n {
            out.append("\n");
        }
        k = k + 1;
    }
    out
}

/// Renders the workflow lanes as queue cards.
pub fn render_lane_boxes(lane_flow: &LaneFlowProjection, width: usize, theme: &Theme) -> (r: String)
    requires
        lanes_fit(lane_flow.lanes@),
        width >= 2,
        width >= 80 ==> titles_fit(lane_flow.lanes@, ((width - 2) / 2) as nat),
        width < 80 ==> titles_fit(lane_flow.lanes@, width as nat),
    ensures
        r@ == lane_boxes_text(lane_flow.lanes@, width as nat, *theme),
{
    if lane_flow.lanes.len() == 0 {
        return String::new();
    }
    let rows = max_rows(&lane_flow.lanes);
    if width >= 80 {
        render_lane_boxes_grid(lane_flow, width, theme, rows)
    } else {
        render_lane_boxes_stacked(lane_flow, width, theme, rows)
    }
}

// ---------------------------------------------------------------------
// Missions
// ---------------------------------------------------------------------

/// How far one mission has come, as counted from its charter's board goals
/// and its child epics and bearings.
#[derive(Clone, Debug)]
pub struct MissionProgress {
    pub id: String,
    pub title: String,
    /// The mission's status as shown (already styled).
    pub status: String,
    pub active: bool,
    pub goals_met: usize,
    pub goals_total: usize,
    pub epics_done: usize,
    pub epics_total: usize,
    pub bearings_terminal: usize,
    pub bearings_total: usize,
}

/// Missions are listed by id.
pub open spec fn mission_keys(ms: Seq<MissionProgress>) -> Seq<KeyView> {
    ms.map_values(|m: MissionProgress| (0int, Seq::<char>::empty(), 0int, 0int, m.id@))
}

/// Only active missions are listed.
pub open spec fn mission_active(ms: Seq<MissionProgress>) -> Seq<bool> {
    ms.map_values(|m: MissionProgress| m.active)
}

/// The block of one mission.
pub open spec fn mission_block(m: MissionProgress) -> Seq<char> {
    "  Mission: "@ + bold_spec(styled_story_id_spec(m.id@)) + " "@ + bold_spec(m.title@) + " ("@ + m.status@ + ")\n"@
        + "    Goals: "@ + decimal(m.goals_met as nat) + "/"@ + decimal(m.goals_total as nat) + " board goals met\n"@
        + "    Child entities: "@ + decimal(m.epics_done as nat) + "/"@ + decimal(m.epics_total as nat)
        + " epics done, "@ + decimal(m.bearings_terminal as nat) + "/"@ + decimal(m.bearings_total as nat)
        + " bearings terminal\n"@ + "\n"@
}

/// The active missions in the given order.
pub open spec fn missions_text(ms: Seq<MissionProgress>, order: Seq<int>) -> Seq<char> {
    flatten(order.map_values(|i: int| mission_block(ms[i])))
}

fn mission_block_text(m: &MissionProgress) -> (r: String)
    ensures
        r@ == mission_block(*m),
{
    let mut out = concat2("  Mission: ", bold(styled_story_id(m.id.as_str()).as_str()).as_str());
    out.append(" ");
    out.append(bold(m.title.as_str()).as_str());
    out.append(" (");
    out.append(m.status.as_str());
    out.append(")\n");
    out.append("    Goals: ");
    out.append(usize_to_string(m.goals_met).as_str());
    out.append("/");
    out.append(usize_to_string(m.goals_total).as_str());
    out.append(" board goals met\n");
    out.append("    Child entities: ");
    out.append(usize_to_string(m.epics_done).as_str());
    out.append("/");
    out.append(usize_to_string(m.epics_total).as_str());
    out.append(" epics done, ");
    out.append(usize_to_string(m.bearings_terminal).as_str());
    out.append("/");
    out.append(usize_to_string(m.bearings_total).as_str());
    out.append(" bearings terminal\n");
    out.append("\n");
    out
}

/// The summary of the active missions, by id.
pub fn render_mission_summary(missions: &[MissionProgress]) -> (r: String)
    ensures
        exists|order: Seq<int>| sorted_eligible(mission_keys(missions@), mission_active(missions@), order)
            && r@ == missions_text(missions@, order),
{
    let mut keys: Vec<SortKey> = Vec::new();
    let mut oks: Vec<bool> = Vec::new();
    let mut k: usize = 0;
    while k < missions.len()
        invariant
            k <= missions.len(),
            keys@.len() == k,
            oks@.len() == k,
            forall|i: int| 0 <= i < k ==> #[trigger] keys@[i].view() == mission_keys(missions@)[i],
            forall|i: int| 0 <= i < k ==> #[trigger] oks@[i] == mission_active(missions@)[i],
        decreases missions.len() - k,
    {
        keys.push(SortKey { a: 0, pre: String::new(), b: 0, c: 0, name: missions[k].id.clone() });
        oks.push(missions[k].active);
        k = k + 1;
    }
    assert(keys_view(keys@) =~= mission_keys(missions@));
    assert(oks@ =~= mission_active(missions@));
    let order = sort_eligible(&keys, &oks);
    let ghost ov = order@.map_values(|i: usize| i as int);
    let mut out = String::new();
    let mut p: usize = 0;
    while p < order.len()
        invariant
            ov == order@.map_values(|i: usize| i as int),
            sorted_eligible(mission_keys(missions@), mission_active(missions@), ov),
            p <= order.len(),
            out@ == missions_text(missions@, ov.take(p as int)),
        decreases order.len() - p,
    {
        let i = order[p];
        assert(ov[p as int] == i as int);
        assert(0 <= ov[p as int] < mission_keys(missions@).len());
        let block = mission_block_text(&missions[i]);
        proof {
            let f = |j: int| mission_block(missions@[j]);
            assert(ov.take(p + 1).map_values(f) =~= ov.take(p as int).map_values(f).push(f(ov[p as int])));
            crate::text::lemma_flatten_push(ov.take(p as int).map_values(f), f(ov[p as int]));
        }
        out.append(block.as_str());
        p = p + 1;
    }
    assert(ov.take(p as int) =~= ov);
    out
}

// ---------------------------------------------------------------------
// The annotated flow
// ---------------------------------------------------------------------

/// What the bottleneck analysis concluded about the flow.
#[derive(Clone, Debug)]
pub struct FlowAssessment {
    pub constraint_reason: String,
    pub suggested_actions: Vec<String>,
}

/// The layout of the pipeline view for a terminal of `width` columns.
pub open spec fn layout_for(width: usize) -> LayoutConfig {
    let eff: usize = if width >= 60 { width } else { 60 };
    LayoutConfig { total_width: eff, stage_width: (eff / 6) as usize, last_stage_width: (eff - 5 * (eff / 6)) as usize }
}

/// The per-stage counts of the human lanes: research (exploring, surveying,
/// assessing), planning (draft, planned), active voyages, verification.
pub open spec fn human_counts(m: FlowMetrics) -> Seq<usize> {
    seq![m.research.exploring_count, m.research.surveying_count, m.research.assessing_count,
        m.planning.draft_count, m.planning.planned_count, m.execution.active_voyages_count, m.verification.count]
}

/// The per-stage counts of the agent lane: backlog and in progress.
pub open spec fn agent_counts(m: FlowMetrics) -> Seq<usize> {
    seq![m.execution.backlog_count, m.execution.in_progress_count]
}

/// The stage sums fit the machine's counters.
pub open spec fn metrics_fit(m: FlowMetrics) -> bool {
    &&& m.research.exploring_count + m.research.surveying_count + m.research.assessing_count <= usize::MAX
    &&& m.planning.draft_count + m.planning.planned_count <= usize::MAX
    &&& m.execution.backlog_count + m.execution.in_progress_count <= usize::MAX
}

/// The pipeline: a heavy rule, the stage labels, the flow strip and the
/// stage counts.
pub open spec fn flow_top(m: FlowMetrics, width: usize, t: Theme) -> Seq<char> {
    let c = layout_for(width);
    rule_spec("═"@, width as nat, Some(t)) + "\n"@ + "\n"@
        + stage_labels_spec(c, t.human@, t.agent@, t.reset@) + "\n"@
        + flow_diagram_spec(c) + "\n"@
        + stage_counts_spec(c, m.governance.proposed_count as nat, human_counts(m), agent_counts(m), m.done_count as nat)
        + "\n"@ + "\n"@
}

/// A titled part between rules, then its body.
pub open spec fn framed(title: Seq<char>, width: usize, t: Theme, body: Seq<char>) -> Seq<char> {
    rule_spec("─"@, width as nat, Some(t)) + "\n"@ + title + "\n"@ + rule_spec("─"@, width as nat, Some(t)) + "\n"@
        + "\n"@ + body + "\n"@
}

/// The missions part, when some mission is active.
pub open spec fn missions_part(width: usize, t: Theme, text: Seq<char>) -> Seq<char> {
    if text.len() > 0 { framed("  Active Missions"@, width, t, text) } else { Seq::empty() }
}

/// The assessment part: the constraint (yellow when coloured) and the first
/// suggested action (bold when coloured), if there is one.
pub open spec fn assessment_part(a: FlowAssessment, width: usize, t: Theme, use_color: bool) -> Seq<char> {
    rule_spec("─"@, width as nat, Some(t)) + "\n"@
        + "  Flow Assessment: "@
        + (if use_color { fg_spec(Color::Yellow, a.constraint_reason@) } else { a.constraint_reason@ }) + "\n"@
        + (if a.suggested_actions@.len() > 0 {
            "  Suggested: "@ + (if use_color { bold_spec(a.suggested_actions@[0]@) } else { a.suggested_actions@[0]@ })
                + "\n"@
        } else {
            Seq::empty()
        })
        + rule_spec("─"@, width as nat, Some(t)) + "\n"@ + "\n"@
}

/// Some epic has ready, in-flight or blocked work.
pub open spec fn capacity_available(caps: Seq<EpicCapacityReport>) -> bool {
    exists|i: int| 0 <= i < caps.len()
        && (#[trigger] caps[i]).capacity.ready + caps[i].capacity.in_flight + caps[i].capacity.blocked > 0
}

/// The next step when no epic has executable capacity.
pub open spec fn capacity_guidance(b: Board, m: FlowMetrics) -> Seq<char> {
    if b.epics@.len() == 0 {
        "No executable epic capacity. Next step: create an epic with `keel epic new` or lay an assessed bearing."@
    } else if m.planning.draft_count > 0 {
        "No executable epic capacity. Next step: plan a draft voyage with `keel voyage plan <id>` to thaw scoped work."@
    } else if m.planning.epics_needing_voyages > 0 {
        "No executable epic capacity. Next step: add a voyage with `keel voyage new` under the next draft epic."@
    } else {
        "No executable epic capacity. Next step: add or thaw scoped stories inside a planned voyage."@
    }
}

/// The capacity part: the capacity table, and the next step when no epic
/// has executable work.
pub open spec fn capacity_part(text: Seq<char>, available: bool, guidance: Seq<char>, width: usize, t: Theme) -> Seq<char> {
    if text.len() > 0 {
        framed("  Strategic Capacity"@, width, t, text)
            + (if !available { "\n"@ + "  "@ + guidance + "\n"@ } else { Seq::empty() })
    } else {
        Seq::empty()
    }
}

/// The board's stories as scope summaries, position for position.
pub open spec fn scope_of_board(b: Board, ss: Seq<StoryScopeSummary>) -> bool {
    &&& ss.len() == b.stories@.len()
    &&& forall|i: int| 0 <= i < ss.len() ==> {
        let s = b.stories@[i];
        &&& (#[trigger] ss[i]).id@ == s.id@
        &&& ss[i].title@ == s.title@
        &&& ss[i].stage == s.stage
        &&& ss[i].index == s.index
        &&& match ss[i].scope { Some(x) => s.scope matches Some(y) && x@ == y@, None => s.scope is None }
    }
}

/// Ids of the first `n` stories awaiting human verification, in order.
pub open spec fn verify_ids(stories: Seq<Story>, n: int) -> Seq<Seq<char>>
    decreases n,
{
    if n <= 0 {
        Seq::empty()
    } else if stories[n - 1].stage == StoryState::NeedsHumanVerification {
        verify_ids(stories, n - 1).push(stories[n - 1].id@)
    } else {
        verify_ids(stories, n - 1)
    }
}

/// The blocked summaries (waiting on dependencies or on verification), in order.
pub open spec fn blocked_only(sv: Seq<SummaryView>) -> Seq<SummaryView>
    decreases sv.len(),
{
    if sv.len() == 0 {
        Seq::empty()
    } else if sv.last().2 == DepStatus::Blocked || sv.last().2 == DepStatus::VerifyBlocked {
        blocked_only(sv.drop_last()).push(sv.last())
    } else {
        blocked_only(sv.drop_last())
    }
}

/// The widest story id in bytes among the first `n` stories, at least 10.
pub open spec fn id_width(stories: Seq<Story>, n: int) -> nat
    decreases n,
{
    if n <= 0 {
        10
    } else {
        let w = id_width(stories, n - 1);
        if byte_len(stories[n - 1].id@) > w { byte_len(stories[n - 1].id@) } else { w }
    }
}

/// The blockage part: a table of the blocked stories' dependency chains.
pub open spec fn blockage_part(b: Board, blocked: Seq<SummaryView>, width: usize, t: Theme, chains: Seq<char>) -> Seq<char> {
    if blocked.len() > 0 {
        "\n"@ + rule_spec("─"@, width as nat, Some(t)) + "\n"@
            + "  Bottleneck Dependencies (Active Blockages)"@ + "\n"@
            + rule_spec("─"@, width as nat, Some(t)) + "\n"@ + "\n"@
            + "    "@ + pad_end_spec("ID"@, id_width(b.stories@, b.stories@.len() as int) + 2) + " TITLE"@ + "\n"@
            + "  "@ + crate::text::repeat_seq("─"@, (width - 2) as nat) + "\n"@
            + chains + "\n"@
    } else {
        Seq::empty()
    }
}

/// The ids of the human next-up items.
pub open spec fn human_ids(b: Board) -> Seq<Seq<char>> {
    human_next_up(b).map_values(|v: ItemView| v.0)
}

/// Story ids fit the machine's counters.
pub open spec fn ids_fit(b: Board) -> bool {
    forall|i: int| 0 <= i < b.stories@.len() ==> byte_len((#[trigger] b.stories@[i]).id@) + 2 <= usize::MAX
}

fn flow_top_text(metrics: &FlowMetrics, width: usize, theme: &Theme) -> (r: String)
    requires
        metrics_fit(*metrics),
    ensures
        r@ == flow_top(*metrics, width, *theme),
{
    let config = LayoutConfig::from_terminal_width(width);
    assert(config == layout_for(width));
    let mut out = heavy_rule(width, Some(theme));
    out.append("\n");
    out.append("\n");
    out.append(config.render_stage_labels(theme.human, theme.agent, theme.reset).as_str());
    out.append("\n");
    out.append(config.render_flow_diagram().as_str());
    out.append("\n");
    let human = vec![
        metrics.research.exploring_count,
        metrics.research.surveying_count,
        metrics.research.assessing_count,
        metrics.planning.draft_count,
        metrics.planning.planned_count,
        metrics.execution.active_voyages_count,
        metrics.verification.count,
    ];
    let agent = vec![metrics.execution.backlog_count, metrics.execution.in_progress_count];
    assert(human@ =~= human_counts(*metrics));
    assert(agent@ =~= agent_counts(*metrics));
    out.append(config.render_stage_counts(metrics.governance.proposed_count, human.as_slice(), agent.as_slice(),
        metrics.done_count).as_str());
    out.append("\n");
    out.append("\n");
    out
}

fn framed_text(title: &str, width: usize, theme: &Theme, body: &str) -> (r: String)
    ensures
        r@ == framed(title@, width, *theme, body@),
{
    let r = rule(width, Some(theme));
    let mut out = concat2(r.as_str(), "\n");
    out.append(title);
    out.append("\n");
    out.append(r.as_str());
    out.append("\n");
    out.append("\n");
    out.append(body);
    out.append("\n");
    out
}

fn assessment_text(a: &FlowAssessment, width: usize, theme: &Theme, use_color: bool) -> (r: String)
    ensures
        r@ == assessment_part(*a, width, *theme, use_color),
{
    let r = rule(width, Some(theme));
    let mut out = concat2(r.as_str(), "\n");
    out.append("  Flow Assessment: ");
    if use_color {
        out.append(fg(a.constraint_reason.as_str(), Color::Yellow).as_str());
    } else {
        out.append(a.constraint_reason.as_str());
    }
    out.append("\n");
    if a.suggested_actions.len() > 0 {
        let mut line = owned("  Suggested: ");
        if use_color {
            line.append(bold(a.suggested_actions[0].as_str()).as_str());
        } else {
            line.append(a.suggested_actions[0].as_str());
        }
        line.append("\n");
        out.append(line.as_str());
    }
    out.append(r.as_str());
    out.append("\n");
    out.append("\n");
    out
}

/// Whether some epic has ready, in-flight or blocked work.
fn strategic_capacity_available(reports: &[EpicCapacityReport]) -> (b: bool)
    ensures
        b == capacity_available(reports@),
{
    let mut k: usize = 0;
    while k < reports.len()
        invariant
            k <= reports.len(),
            forall|i: int| 0 <= i < k ==> (#[trigger] reports@[i]).capacity.ready + reports@[i].capacity.in_flight
                + reports@[i].capacity.blocked == 0,
        decreases reports.len() - k,
    {
        let c = &reports[k].capacity;
        if c.ready > 0 || c.in_flight > 0 || c.blocked > 0 {
            return true;
        }
        k = k + 1;
    }
    false
}

/// The next step to take when no epic has executable capacity.
fn strategic_capacity_guidance(board: &Board, metrics: &FlowMetrics) -> (r: &'static str)
    ensures
        r@ == capacity_guidance(*board, *metrics),
{
    if board.epics.len() == 0 {
        return "No executable epic capacity. Next step: create an epic with `keel epic new` or lay an assessed bearing.";
    }
    if metrics.planning.draft_count > 0 {
        return "No executable epic capacity. Next step: plan a draft voyage with `keel voyage plan <id>` to thaw scoped work.";
    }
    if metrics.planning.epics_needing_voyages > 0 {
        return "No executable epic capacity. Next step: add a voyage with `keel voyage new` under the next draft epic.";
    }
    "No executable epic capacity. Next step: add or thaw scoped stories inside a planned voyage."
}

fn scope_summaries(board: &Board) -> (ss: Vec<StoryScopeSummary>)
    ensures
        scope_of_board(*board, ss@),
{
    let mut ss: Vec<StoryScopeSummary> = Vec::new();
    let mut k: usize = 0;
    while k < board.stories.len()
        invariant
            k <= board.stories.len(),
            ss@.len() == k,
            forall|i: int| 0 <= i < k ==> {
                let s = board.stories@[i];
                &&& (#[trigger] ss@[i]).id@ == s.id@
                &&& ss@[i].title@ == s.title@
                &&& ss@[i].stage == s.stage
                &&& ss@[i].index == s.index
                &&& match ss@[i].scope { Some(x) => s.scope matches Some(y) && x@ == y@, None => s.scope is None }
            },
        decreases board.stories.len() - k,
    {
        let s = &board.stories[k];
        let scope = match &s.scope {
            Some(x) => Some(x.as_str()),
            None => None,
        };
        ss.push(StoryScopeSummary { id: s.id.as_str(), title: s.title.as_str(), stage: s.stage, index: s.index, scope });
        k = k + 1;
    }
    ss
}

fn verify_id_list(board: &Board) -> (v: Vec<String>)
    ensures
        str_list(v@) == verify_ids(board.stories@, board.stories@.len() as int),
{
    let mut v: Vec<String> = Vec::new();
    let mut k: usize = 0;
    while k < board.stories.len()
        invariant
            k <= board.stories.len(),
            str_list(v@) == verify_ids(board.stories@, k as int),
        decreases board.stories.len() - k,
    {
        if matches!(board.stories[k].stage, StoryState::NeedsHumanVerification) {
            v.push(board.stories[k].id.clone());
            assert(str_list(v@) =~= verify_ids(board.stories@, k as int).push(board.stories@[k as int].id@));
        }
        k = k + 1;
    }
    v
}

fn clone_summary(s: &StorySummary) -> (r: StorySummary)
    ensures
        summary_view(r) == summary_view(*s),
{
    let mut deps: Vec<String> = Vec::new();
    let mut k: usize = 0;
    while k < s.3.len()
        invariant
            k <= s.3.len(),
            deps@.len() == k,
            forall|j: int| 0 <= j < k ==> #[trigger] deps@[j]@ == s.3@[j]@,
        decreases s.3.len() - k,
    {
        let c = s.3[k].clone();
        deps.push(c);
        k = k + 1;
    }
    assert(deps@.map_values(|d: String| d@) =~= s.3@.map_values(|d: String| d@));
    (s.0.clone(), s.1.clone(), s.2, deps)
}

fn blocked_summaries(summaries: &Vec<StorySummary>) -> (r: Vec<StorySummary>)
    ensures
        summaries_view(r@) == blocked_only(summaries_view(summaries@)),
{
    let ghost sv = summaries_view(summaries@);
    let mut r: Vec<StorySummary> = Vec::new();
    let mut k: usize = 0;
    while k < summaries.len()
        invariant
            sv == summaries_view(summaries@),
            k <= summaries.len(),
            summaries_view(r@) == blocked_only(sv.take(k as int)),
        decreases summaries.len() - k,
    {
        assert(sv.take(k + 1).drop_last() =~= sv.take(k as int));
        assert(sv.take(k + 1).last() == summary_view(summaries@[k as int]));
        let s = &summaries[k];
        if matches!(s.2, DepStatus::Blocked | DepStatus::VerifyBlocked) {
            let c = clone_summary(s);
            r.push(c);
            assert(summaries_view(r@) =~= blocked_only(sv.take(k as int)).push(summary_view(*s)));
        }
        k = k + 1;
    }
    assert(sv.take(k as int) =~= sv);
    r
}

proof fn lemma_blocked_subset(sv: Seq<SummaryView>, x: SummaryView)
    requires
        blocked_only(sv).contains(x),
    ensures
        sv.contains(x),
    decreases sv.len(),
{
    if sv.len() > 0 {
        let prev = blocked_only(sv.drop_last());
        if prev.contains(x) {
            lemma_blocked_subset(sv.drop_last(), x);
            let k = choose|k: int| 0 <= k < sv.drop_last().len() && sv.drop_last()[k] == x;
            assert(sv[k] == x);
        } else {
            assert(sv[sv.len() - 1] == x);
        }
    }
}

fn id_column_width(board: &Board) -> (w: usize)
    requires
        ids_fit(*board),
    ensures
        w == id_width(board.stories@, board.stories@.len() as int) + 2,
{
    let mut w: usize = 10;
    let mut k: usize = 0;
    while k < board.stories.len()
        invariant
            ids_fit(*board),
            k <= board.stories.len(),
            w == id_width(board.stories@, k as int),
            w + 2 <= usize::MAX,
        decreases board.stories.len() - k,
    {
        let n = crate::text::str_byte_len(board.stories[k].id.as_str());
        assert(byte_len(board.stories@[k as int].id@) + 2 <= usize::MAX);
        if n > w {
            w = n;
        }
        k = k + 1;
    }
    w + 2
}

fn human_id_list(board: &Board) -> (v: Vec<String>)
    ensures
        str_list(v@) == human_ids(*board),
{
    let section = calculate_next_up(board);
    let items = section.human_items;
    let mut v: Vec<String> = Vec::new();
    let mut k: usize = 0;
    while k < items.len()
        invariant
            items_view(items@) == human_next_up(*board),
            k <= items.len(),
            v@.len() == k,
            forall|j: int| 0 <= j < k ==> #[trigger] v@[j]@ == items@[j].id@,
        decreases items.len() - k,
    {
        let c = items[k].id.clone();
        v.push(c);
        k = k + 1;
    }
    assert forall|j: int| 0 <= j < v@.len() implies #[trigger] str_list(v@)[j] == human_ids(*board)[j] by {
        assert(items_view(items@)[j] == items@[j].view());
    }
    assert(str_list(v@) =~= human_ids(*board));
    v
}

/// The annotated flow as rendered with theme `t` and the listing orders
/// `mo` (missions), `co` (capacities), `so` (the board's stories) and `bo`
/// (the blocked stories' scopes), each of which is the one its keys give.
pub open spec fn annotated_flow_with(
    board: Board, metrics: FlowMetrics, lane_flow: LaneFlowProjection, width: usize, use_color: bool,
    assessment: FlowAssessment, missions: Seq<MissionProgress>, capacities: Seq<EpicCapacityReport>,
    deps: Seq<(String, Vec<String>)>, r: Seq<char>,
    t: Theme, mo: Seq<int>, co: Seq<int>, ss: Seq<StoryScopeSummary>, so: Seq<int>, bo: Seq<int>,
) -> bool {
    let blocked = blocked_only(so.map_values(|i: int|
        classified(ss, deps_view(deps), verify_ids(board.stories@, board.stories@.len() as int), i)));
    &&& (if use_color { t.is_colored() } else { t.is_plain() })
    &&& sorted_eligible(mission_keys(missions), mission_active(missions), mo)
    &&& sorted_eligible(capacity_keys(capacities), all_true(capacities.len()), co)
    &&& scope_of_board(board, ss)
    &&& sorted_eligible(scope_ranks(board, ss), all_true(ss.len()), so)
    &&& sorted_eligible(scope_keys(board, blocked), first_of_scope(board, blocked), bo)
    &&& r == flow_top(metrics, width, t)
        + missions_part(width, t, missions_text(missions, mo))
        + assessment_part(assessment, width, t, use_color)
        + lane_boxes_text(lane_flow.lanes@, width as nat, t) + "\n"@
        + capacity_part(capacity_table(capacities, co, t), capacity_available(capacities),
            capacity_guidance(board, metrics), width, t)
        + blockage_part(board, blocked, width, t, chains_text(board, blocked, bo, human_ids(board), t))
}

/// Renders the annotated flow dashboard. `assessment` is what the
/// bottleneck analysis concluded, `missions` the progress of the board's
/// missions, `capacities` each epic's capacity, and `deps` the stories each
/// story waits on (one entry per story).
pub fn render_annotated_flow(
    board: &Board,
    metrics: &FlowMetrics,
    lane_flow: &LaneFlowProjection,
    width: usize,
    use_color: bool,
    assessment: &FlowAssessment,
    missions: &[MissionProgress],
    capacities: &[EpicCapacityReport],
    deps: &[(String, Vec<String>)],
) -> (r: String)
    requires
        width >= 2,
        metrics_fit(*metrics),
        lanes_fit(lane_flow.lanes@),
        width >= 80 ==> titles_fit(lane_flow.lanes@, ((width - 2) / 2) as nat),
        width < 80 ==> titles_fit(lane_flow.lanes@, width as nat),
        capacities_fit(capacities@),
        ids_fit(*board),
        deps_keys_distinct(deps@),
    ensures
        exists|t: Theme, mo: Seq<int>, co: Seq<int>, ss: Seq<StoryScopeSummary>, so: Seq<int>, bo: Seq<int>|
            #[trigger] annotated_flow_with(*board, *metrics, *lane_flow, width, use_color, *assessment, missions@,
                capacities@, deps@, r@, t, mo, co, ss, so, bo),
{
    let theme = Theme::for_color_mode(use_color);
    let top = flow_top_text(metrics, width, &theme);
    let missions_txt = missions_section(missions, width, &theme);
    let ghost mo = choose|mo: Seq<int>| sorted_eligible(mission_keys(missions@), mission_active(missions@), mo)
        && missions_txt@ == missions_part(width, theme, missions_text(missions@, mo));
    let assess = assessment_text(assessment, width, &theme, use_color);
    let lanes = render_lane_boxes(lane_flow, width, &theme);
    let cap = capacity_section(board, metrics, capacities, width, &theme);
    let ghost co = choose|co: Seq<int>| sorted_eligible(capacity_keys(capacities@), all_true(capacities@.len()), co)
        && cap@ == capacity_part(capacity_table(capacities@, co, theme), capacity_available(capacities@),
            capacity_guidance(*board, *metrics), width, theme);
    let block = blockage_section(board, deps, width, &theme);
    let ghost (ss, so, bo) = choose|ss: Seq<StoryScopeSummary>, so: Seq<int>, bo: Seq<int>|
        #[trigger] blockage_with(*board, deps@, width, theme, block@, ss, so, bo);
    let mut output = top;
    output.append(missions_txt.as_str());
    output.append(assess.as_str());
    output.append(lanes.as_str());
    output.append("\n");
    output.append(cap.as_str());
    output.append(block.as_str());
    assert(annotated_flow_with(*board, *metrics, *lane_flow, width, use_color, *assessment, missions@,
        capacities@, deps@, output@, theme, mo, co, ss, so, bo));
    output
}

/// The blocked stories of the board, given the scope summaries `ss` and
/// their listing order `so`.
pub open spec fn blocked_of(board: Board, deps: Seq<(String, Vec<String>)>, ss: Seq<StoryScopeSummary>, so: Seq<int>) -> Seq<SummaryView> {
    blocked_only(so.map_values(|i: int|
        classified(ss, deps_view(deps), verify_ids(board.stories@, board.stories@.len() as int), i)))
}

/// The blockage part as rendered with the listing orders `so` and `bo`.
pub open spec fn blockage_with(board: Board, deps: Seq<(String, Vec<String>)>, width: usize, t: Theme, r: Seq<char>,
    ss: Seq<StoryScopeSummary>, so: Seq<int>, bo: Seq<int>) -> bool {
    let blocked = blocked_of(board, deps, ss, so);
    &&& scope_of_board(board, ss)
    &&& sorted_eligible(scope_ranks(board, ss), all_true(ss.len()), so)
    &&& sorted_eligible(scope_keys(board, blocked), first_of_scope(board, blocked), bo)
    &&& r == blockage_part(board, blocked, width, t, chains_text(board, blocked, bo, human_ids(board), t))
}

fn missions_section(missions: &[MissionProgress], width: usize, theme: &Theme) -> (r: String)
    ensures
        exists|mo: Seq<int>| sorted_eligible(mission_keys(missions@), mission_active(missions@), mo)
            && r@ == missions_part(width, *theme, missions_text(missions@, mo)),
{
    let mission_summary = render_mission_summary(missions);
    if mission_summary.as_str().unicode_len() > 0 {
        framed_text("  Active Missions", width, theme, mission_summary.as_str())
    } else {
        String::new()
    }
}

fn capacity_section(board: &Board, metrics: &FlowMetrics, capacities: &[EpicCapacityReport], width: usize, theme: &Theme) -> (r: String)
    requires
        capacities_fit(capacities@),
    ensures
        exists|co: Seq<int>| sorted_eligible(capacity_keys(capacities@), all_true(capacities@.len()), co)
            && r@ == capacity_part(capacity_table(capacities@, co, *theme), capacity_available(capacities@),
                capacity_guidance(*board, *metrics), width, *theme),
{
    let cap_render = render_epic_capacities(capacities, theme);
    let available = strategic_capacity_available(capacities);
    if cap_render.as_str().unicode_len() > 0 {
        let mut out = framed_text("  Strategic Capacity", width, theme, cap_render.as_str());
        if !available {
            out.append("\n");
            out.append("  ");
            out.append(strategic_capacity_guidance(board, metrics));
            out.append("\n");
        }
        out
    } else {
        String::new()
    }
}

#[verifier::rlimit(40)]
fn blockage_section(board: &Board, deps: &[(String, Vec<String>)], width: usize, theme: &Theme) -> (r: String)
    requires
        width >= 2,
        deps_keys_distinct(deps@),
        ids_fit(*board),
    ensures
        exists|ss: Seq<StoryScopeSummary>, so: Seq<int>, bo: Seq<int>|
            #[trigger] blockage_with(*board, deps@, width, *theme, r@, ss, so, bo),
{
    let scope_stories = scope_summaries(board);
    let verify = verify_id_list(board);
    let summaries = classify_stories(board, scope_stories.as_slice(), deps, verify.as_slice());
    let ghost ss = scope_stories@;
    let ghost so = choose|so: Seq<int>| sorted_eligible(scope_ranks(*board, ss), all_true(ss.len()), so)
        && summaries_view(summaries@) == so.map_values(|i: int|
            classified(ss, deps_view(deps@), str_list(verify@), i));
    let blocked = blocked_summaries(&summaries);
    let ghost bv = summaries_view(blocked@);
    assert(bv == blocked_of(*board, deps@, ss, so));
    if blocked.len() == 0 {
        assert(sorted_eligible(scope_keys(*board, bv), first_of_scope(*board, bv), Seq::<int>::empty()));
        assert(blockage_with(*board, deps@, width, *theme, Seq::<char>::empty(), ss, so, Seq::<int>::empty()));
        return String::new();
    }
    proof {
        assert forall|i: int| 0 <= i < bv.len() implies story_ids(*board).contains(#[trigger] bv[i].0) by {
            assert(bv.contains(bv[i]));
            lemma_blocked_subset(summaries_view(summaries@), bv[i]);
            let k = choose|k: int| 0 <= k < summaries_view(summaries@).len() && summaries_view(summaries@)[k] == bv[i];
            let j = so[k];
            assert(0 <= j < ss.len());
            assert(story_ids(*board)[j] == board.stories@[j].id@);
        }
        assert forall|i: int| 0 <= i < blocked@.len() implies byte_len((#[trigger] blocked@[i]).0@) + 2 <= usize::MAX by {
            assert(bv[i].0 == blocked@[i].0@);
            assert(story_ids(*board).contains(bv[i].0));
            let k = choose|k: int| 0 <= k < story_ids(*board).len() && story_ids(*board)[k] == bv[i].0;
            assert(byte_len((board.stories@[k]).id@) + 2 <= usize::MAX);
        }
    }
    let r = rule(width, Some(theme));
    let mut output = owned("\n");
    output.append(r.as_str());
    output.append("\n");
    output.append("  Bottleneck Dependencies (Active Blockages)");
    output.append("\n");
    output.append(r.as_str());
    output.append("\n");
    output.append("\n");
    let w = id_column_width(board);
    output.append("    ");
    output.append(pad_end("ID", w).as_str());
    output.append(" TITLE");
    output.append("\n");
    output.append("  ");
    output.append(repeat_str("─", width - 2).as_str());
    output.append("\n");
    let next_up_ids = human_id_list(board);
    let chains = render_dependency_chains(board, blocked.as_slice(), next_up_ids.as_slice(), theme);
    let ghost bo = choose|bo: Seq<int>| sorted_eligible(scope_keys(*board, bv), first_of_scope(*board, bv), bo)
        && chains@ == chains_text(*board, bv, bo, str_list(next_up_ids@), *theme);
    output.append(chains.as_str());
    output.append("\n");
    assert(blockage_with(*board, deps@, width, *theme, output@, ss, so, bo));
    output
}
} // verus!
