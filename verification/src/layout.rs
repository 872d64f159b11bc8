//! Pipeline layout configuration and the ASCII flow strip.

use vstd::prelude::*;
use crate::text::{concat2, concat3, decimal, repeat_seq, repeat_str, spaces, spaces_str, usize_to_string};

verus! {

/// Column widths of the six-stage pipeline view.
pub struct LayoutConfig {
    pub total_width: usize,
    pub stage_width: usize,
    pub last_stage_width: usize,
}

/// `text` centred in `width` columns (extra blank goes right).
pub open spec fn centered(text: Seq<char>, width: nat) -> Seq<char> {
    let padding: nat = if width >= text.len() { (width - text.len()) as nat } else { 0 };
    spaces(padding / 2) + text + spaces((padding - padding / 2) as nat)
}

/// Centres `text` in `width` columns.
pub fn center(text: &str, width: usize) -> (r: String)
    ensures
        r@ == centered(text@, width as nat),
{
    let n = text.unicode_len();
    let padding = width.saturating_sub(n);
    let left = padding / 2;
    let right = padding - left;
    let l = spaces_str(left);
    let r = spaces_str(right);
    concat3(l.as_str(), text, r.as_str())
}

/// A coloured, centred stage label: colour, centred text, reset.
pub open spec fn stage_cell(color: Seq<char>, label: Seq<char>, width: nat, reset: Seq<char>) -> Seq<char> {
    color + centered(label, width) + reset
}

/// The pipeline stage names.
pub open spec fn stage_name(i: int) -> Seq<char> {
    if i == 0 { "Governance"@ }
    else if i == 1 { "Research"@ }
    else if i == 2 { "Planning"@ }
    else if i == 3 { "Execution"@ }
    else if i == 4 { "Verification"@ }
    else { "Done"@ }
}

/// The stage label row of a layout.
pub open spec fn stage_labels_spec(c: LayoutConfig, human: Seq<char>, agent: Seq<char>, reset: Seq<char>) -> Seq<char> {
    stage_cell(human, stage_name(0), c.width_of(0), reset)
        + stage_cell(human, stage_name(1), c.width_of(1), reset)
        + stage_cell(human, stage_name(2), c.width_of(2), reset)
        + stage_cell(agent, stage_name(3), c.width_of(3), reset)
        + stage_cell(human, stage_name(4), c.width_of(4), reset)
        + stage_cell(reset, stage_name(5), c.width_of(5), reset)
}

/// The flow strip of a layout.
pub open spec fn flow_diagram_spec(c: LayoutConfig) -> Seq<char> {
    repeat_seq(repeat_seq("─"@, (c.stage_width - 1) as nat) + "▶"@, 5)
        + repeat_seq("─"@, c.last_stage_width as nat)
}

/// The stage count row of a layout.
pub open spec fn stage_counts_spec(c: LayoutConfig, governance: nat, human: Seq<usize>, agent: Seq<usize>, done: nat) -> Seq<char> {
    centered(decimal(governance), c.width_of(0))
        + centered(decimal((human[0] + human[1] + human[2]) as nat), c.width_of(1))
        + centered(decimal((human[3] + human[4]) as nat), c.width_of(2))
        + centered(decimal((agent[0] + agent[1]) as nat), c.width_of(3))
        + centered(decimal(human[6] as nat), c.width_of(4))
        + centered(decimal(done), c.width_of(5))
}

fn stage_label_cell(color: &str, label: &str, width: usize, reset: &str) -> (r: String)
    ensures
        r@ == stage_cell(color@, label@, width as nat, reset@),
{
    concat3(color, center(label, width).as_str(), reset)
}

impl LayoutConfig {
    /// The width of stage `i` (the last stage takes the remainder).
    pub open spec fn width_of(&self, i: int) -> nat {
        if i < 5 { self.stage_width as nat } else { self.last_stage_width as nat }
    }

    /// Layout for a terminal of `width` columns (at least 60): six equal
    /// stages, the last one taking the remainder.
    pub fn from_terminal_width(width: usize) -> (c: LayoutConfig)
        ensures
            c.total_width == if width >= 60 { width } else { 60 },
            c.stage_width == c.total_width / 6,
            c.last_stage_width == c.total_width - 5 * (c.total_width / 6),
            c.stage_width >= 10,
    {
        let effective = if width >= 60 { width } else { 60 };
        let stage_width = effective / 6;
        let last_stage_width = effective - stage_width * 5;
        LayoutConfig { total_width: effective, stage_width, last_stage_width }
    }

    /// Stage labels, each centred in its column: Governance, Research,
    /// Planning and Verification in the human colour, Execution in the agent
    /// colour, Done uncoloured.
    pub fn render_stage_labels(&self, human_color: &str, agent_color: &str, reset: &str) -> (r: String)
        ensures
            r@ == stage_labels_spec(*self, human_color@, agent_color@, reset@),
    {
        let mut out = stage_label_cell(human_color, "Governance", self.stage_width, reset);
        out.append(stage_label_cell(human_color, "Research", self.stage_width, reset).as_str());
        out.append(stage_label_cell(human_color, "Planning", self.stage_width, reset).as_str());
        out.append(stage_label_cell(agent_color, "Execution", self.stage_width, reset).as_str());
        out.append(stage_label_cell(human_color, "Verification", self.stage_width, reset).as_str());
        out.append(stage_label_cell(reset, "Done", self.last_stage_width, reset).as_str());
        out
    }

    /// The flow strip: five stages of `─` each ending in `▶`, then the last
    /// stage's `─` run.
    pub fn render_flow_diagram(&self) -> (r: String)
        requires
            self.stage_width >= 1,
        ensures
            r@ == flow_diagram_spec(*self),
    {
        let segment = concat2(repeat_str("─", self.stage_width - 1).as_str(), "▶");
        let mut out = String::new();
        let mut i: usize = 0;
        while i < 5
            invariant
                i <= 5,
                segment@ == repeat_seq("─"@, (self.stage_width - 1) as nat) + "▶"@,
                out@ == repeat_seq(segment@, i as nat),
            decreases 5 - i,
        {
            out.append(segment.as_str());
            i = i + 1;
        }
        let tail = repeat_str("─", self.last_stage_width);
        out.append(tail.as_str());
        out
    }

    /// Item counts per stage, each centred in its column: governance,
    /// research (human 0..3), planning (human 3..5), execution (agent 0..2),
    /// verification (human 6) and done.
    pub fn render_stage_counts(&self, governance_count: usize, human_counts: &[usize], agent_counts: &[usize], done_count: usize) -> (r: String)
        requires
            human_counts@.len() >= 7,
            agent_counts@.len() >= 2,
            human_counts@[0] + human_counts@[1] + human_counts@[2] <= usize::MAX,
            human_counts@[3] + human_counts@[4] <= usize::MAX,
            agent_counts@[0] + agent_counts@[1] <= usize::MAX,
        ensures
            r@ == stage_counts_spec(*self, governance_count as nat, human_counts@, agent_counts@, done_count as nat),
    {
        let research = human_counts[0] + human_counts[1] + human_counts[2];
        let planning = human_counts[3] + human_counts[4];
        let execution = agent_counts[0] + agent_counts[1];
        let mut out = center(usize_to_string(governance_count).as_str(), self.stage_width);
        out.append(center(usize_to_string(research).as_str(), self.stage_width).as_str());
        out.append(center(usize_to_string(planning).as_str(), self.stage_width).as_str());
        out.append(center(usize_to_string(execution).as_str(), self.stage_width).as_str());
        out.append(center(usize_to_string(human_counts[6]).as_str(), self.stage_width).as_str());
        out.append(center(usize_to_string(done_count).as_str(), self.last_stage_width).as_str());
        out
    }
}

} // verus!
