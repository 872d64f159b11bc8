//! A titled box with borders and internal rules.

use vstd::prelude::*;
use crate::ansi::{bold, bold_spec, pad_to_width, visible_width_spec};
use crate::table::strs_view;
use crate::text::{byte_len, concat3, owned, repeat_seq, repeat_str, spaces, spaces_str, str_byte_len};

verus! {

/// A titled box with border and internal rules.
pub struct BoxComponent {
    /// Title displayed in the top border.
    pub title: String,
    /// Width of the box in characters.
    pub width: usize,
    /// Lines of content inside the box; a line `---` is drawn as a rule.
    pub lines: Vec<String>,
}

/// Width of the left border run before the title.
pub open spec fn border_len(content_width: int, title_len: int) -> int {
    if content_width > title_len + 4 {
        (content_width - title_len - 2) / 2
    } else {
        1
    }
}

/// Whether a box of this width can hold its title in the top border.
pub open spec fn box_fits(width: int, title_len: int) -> bool {
    width >= 2 && width - 2 >= border_len(width - 2, title_len) + title_len + 2
}

/// The top border: `┌`, a run of `─`, the bold title, a run of `─`, `┐`.
pub open spec fn box_top(title: Seq<char>, title_len: int, content_width: int) -> Seq<char> {
    let b = border_len(content_width, title_len);
    "┌"@ + repeat_seq("─"@, b as nat) + " "@ + bold_spec(title) + " "@
        + repeat_seq("─"@, (content_width - b - title_len - 2) as nat) + "┐"@
}

/// One content row of the box.
pub open spec fn box_row(lines: Seq<Seq<char>>, i: int, content_width: nat) -> Seq<char> {
    if i < lines.len() {
        if lines[i] == "---"@ {
            "├"@ + repeat_seq("─"@, content_width) + "┤"@
        } else {
            let l = lines[i];
            "│"@ + (if visible_width_spec(l) >= content_width { l } else {
                l + spaces((content_width - visible_width_spec(l)) as nat)
            }) + "│"@
        }
    } else {
        "│"@ + spaces(content_width) + "│"@
    }
}

/// The rendered box: top border, `height - 2` content rows, bottom border.
pub open spec fn box_spec(title: Seq<char>, title_len: int, width: int, lines: Seq<Seq<char>>, height: nat) -> Seq<Seq<char>> {
    let cw = width - 2;
    let n = if height >= 2 { (height - 2) as nat } else { 0 };
    seq![box_top(title, title_len, cw)]
        + Seq::new(n, |i: int| box_row(lines, i, cw as nat))
        + seq!["└"@ + repeat_seq("─"@, cw as nat) + "┘"@]
}

impl BoxComponent {
    /// The title's length in bytes.
    pub open spec fn title_len(&self) -> int {
        self.title@.len() as int
    }

    /// Creates an empty box with the given title and width.
    pub fn new(title: &str, width: usize) -> (b: BoxComponent)
        ensures
            b.title@ == title@,
            b.width == width,
            b.lines@.len() == 0,
    {
        BoxComponent { title: owned(title), width, lines: Vec::new() }
    }

    /// Adds a line of text.
    pub fn push_line(&mut self, line: String)
        ensures
            final(self).title == old(self).title,
            final(self).width == old(self).width,
            final(self).lines@ == old(self).lines@.push(line),
    {
        self.lines.push(line);
    }

    /// Adds a horizontal rule.
    pub fn push_rule(&mut self)
        ensures
            final(self).title == old(self).title,
            final(self).width == old(self).width,
            final(self).lines@.len() == old(self).lines@.len() + 1,
            final(self).lines@.drop_last() == old(self).lines@,
            final(self).lines@.last()@ == "---"@,
    {
        self.lines.push(owned("---"));
        assert(self.lines@.drop_last() =~= old(self).lines@);
    }

    /// The internal content width: the box's width without its two
    /// border columns, the width each content row is filled to.
    pub fn width(&self) -> (w: usize)
        requires
            self.width >= 2,
        ensures
            w == self.width - 2,
    {
        self.width - 2
    }

    /// Renders the box with one row per line.
    pub fn render(&self) -> (r: Vec<String>)
        requires
            box_fits(self.width as int, (byte_len(self.title@) as usize) as int),
            self.lines@.len() + 2 <= usize::MAX,
        ensures
            strs_view(r@) == box_spec(self.title@, (byte_len(self.title@) as usize) as int,
                self.width as int, strs_view(self.lines@), (self.lines@.len() + 2) as nat),
    {
        self.render_with_height(self.lines.len() + 2)
    }

    /// Renders the box at a fixed total height, padding with blank rows or
    /// leaving out lines that do not fit.
    pub fn render_with_height(&self, height: usize) -> (r: Vec<String>)
        requires
            box_fits(self.width as int, (byte_len(self.title@) as usize) as int),
        ensures
            strs_view(r@) == box_spec(self.title@, (byte_len(self.title@) as usize) as int,
                self.width as int, strs_view(self.lines@), height as nat),
    {
        let mut output: Vec<String> = Vec::new();
        let content_width = self.width - 2;
        let target = height.saturating_sub(2);
        let title_len = str_byte_len(self.title.as_str());
        let border = if content_width > title_len && content_width - title_len > 4 {
            (content_width - title_len - 2) / 2
        } else {
            1
        };
        let left = repeat_str("─", border);
        let right = repeat_str("─", content_width - border - title_len - 2);
        let t = bold(self.title.as_str());
        let mut top = concat3("┌", left.as_str(), " ");
        top.append(t.as_str());
        top.append(" ");
        top.append(right.as_str());
        top.append("┐");
        output.push(top);
        let ghost lv = strs_view(self.lines@);
        let mut i: usize = 0;
        while i < target
            invariant
                i <= target,
                target == (if height >= 2 { (height - 2) as nat } else { 0nat }),
                content_width == self.width - 2,
                lv == strs_view(self.lines@),
                output@.len() == i + 1,
                output@[0]@ == box_top(self.title@, (byte_len(self.title@) as usize) as int, content_width as int),
                forall|k: int| 0 <= k < i ==> #[trigger] output@[k + 1]@ == box_row(lv, k, content_width as nat),
            decreases target - i,
        {
            let row;
            if i < self.lines.len() {
                let line = &self.lines[i];
                let dashes = owned("---");
                if *line == dashes {
                    let bar = repeat_str("─", content_width);
                    row = concat3("├", bar.as_str(), "┤");
                } else {
                    let padded = pad_to_width(line.as_str(), content_width);
                    row = concat3("│", padded.as_str(), "│");
                }
            } else {
                let pad = spaces_str(content_width);
                row = concat3("│", pad.as_str(), "│");
            }
            output.push(row);
            i = i + 1;
        }
        let bar = repeat_str("─", content_width);
        output.push(concat3("└", bar.as_str(), "┘"));
        let ghost want = box_spec(self.title@, (byte_len(self.title@) as usize) as int,
            self.width as int, lv, height as nat);
        assert(strs_view(output@) =~= want) by {
            assert forall|k: int| 0 <= k < output@.len() implies strs_view(output@)[k] == want[k] by {
                if k > 0 && k < output@.len() - 1 {
                    assert(output@[(k - 1) + 1]@ == box_row(lv, k - 1, content_width as nat));
                }
            }
        }
        output
    }
}

} // verus!
