//! Declarative rendering primitives for `show` command outputs: documents
//! built from key/value blocks, titled sections, plain lines and spacers,
//! rendered once.

use vstd::prelude::*;
use crate::ansi::{bold, bold_spec, visible_width, visible_width_spec};
use crate::style::{inline_markdown_spec, rule, rule_spec, styled_inline_markdown};
use crate::table::strs_view;
use crate::text::{concat2, concat3, decimal, lines, lines_spec, owned, spaces, spaces_str, trim, trim_spec,
    usize_to_string};

verus! {

/// One labelled row of a key/value block.
pub struct ShowFieldRow {
    pub label: String,
    pub value: String,
}

/// Aligned `label value` rows.
pub struct ShowKeyValues {
    pub rows: Vec<ShowFieldRow>,
    pub indent: usize,
    pub min_label_width: usize,
    pub bold_labels: bool,
}

/// One block of a show document.
pub enum ShowBlock {
    KeyValues(ShowKeyValues),
    Section(ShowSection),
    Lines(Vec<String>),
    Spacer,
}

/// A titled group of blocks.
pub struct ShowSection {
    pub title: String,
    pub blocks: Vec<ShowBlock>,
}

/// A whole show document.
pub struct ShowDocument {
    pub blocks: Vec<ShowBlock>,
}

/// The widest label of `rows` (visible columns).
pub open spec fn max_label_width(rows: Seq<ShowFieldRow>) -> nat
    decreases rows.len(),
{
    if rows.len() == 0 {
        0
    } else {
        vstd::math::max(max_label_width(rows.drop_last()) as int,
            visible_width_spec(rows.last().label@) as int) as nat
    }
}

/// The label column width of a key/value block.
pub open spec fn kv_label_width(kv: ShowKeyValues) -> nat {
    vstd::math::max(max_label_width(kv.rows@) as int, kv.min_label_width as int) as nat
}

/// One rendered key/value row.
pub open spec fn kv_line(kv: ShowKeyValues, row: ShowFieldRow) -> Seq<char> {
    let w = kv_label_width(kv);
    let lw = visible_width_spec(row.label@);
    spaces(kv.indent as nat)
        + (if kv.bold_labels { bold_spec(row.label@) } else { row.label@ })
        + spaces(if w >= lw { (w - lw) as nat } else { 0 })
        + " "@ + inline_markdown_spec(row.value@)
}

/// The rendered rows of a key/value block.
pub open spec fn kv_lines(kv: ShowKeyValues) -> Seq<Seq<char>> {
    Seq::new(kv.rows@.len(), |i: int| kv_line(kv, kv.rows@[i]))
}

/// `out` after a spacer: one blank line, unless `out` is empty or already
/// ends in a blank line.
pub open spec fn spacer_spec(out: Seq<Seq<char>>) -> Seq<Seq<char>> {
    if out.len() > 0 && out.last().len() != 0 {
        out.push(Seq::empty())
    } else {
        out
    }
}

/// `out` with block `b` rendered onto its end.
pub open spec fn render_block_spec(b: ShowBlock, out: Seq<Seq<char>>) -> Seq<Seq<char>>
    decreases b,
{
    match b {
        ShowBlock::KeyValues(kv) => out + kv_lines(kv),
        ShowBlock::Section(sec) => render_section_spec(sec, out),
        ShowBlock::Lines(ls) => out + strs_view(ls@),
        ShowBlock::Spacer => spacer_spec(out),
    }
}

/// `out` with section `sec` rendered onto its end: its bold title, then its blocks.
pub open spec fn render_section_spec(sec: ShowSection, out: Seq<Seq<char>>) -> Seq<Seq<char>>
    decreases sec,
{
    proof {
        assert(decreases_to!(sec => sec.blocks@));
    }
    render_blocks_spec(sec.blocks@, out.push(bold_spec(sec.title@)))
}

/// `out` with the blocks `bs` rendered onto its end, in order.
pub open spec fn render_blocks_spec(bs: Seq<ShowBlock>, out: Seq<Seq<char>>) -> Seq<Seq<char>>
    decreases bs,
{
    if bs.len() == 0 {
        out
    } else {
        render_block_spec(bs.last(), render_blocks_spec(bs.drop_last(), out))
    }
}

/// `ls` without its trailing empty lines.
pub open spec fn drop_trailing_empty(ls: Seq<Seq<char>>) -> Seq<Seq<char>>
    decreases ls.len(),
{
    if ls.len() > 0 && ls.last().len() == 0 {
        drop_trailing_empty(ls.drop_last())
    } else {
        ls
    }
}

/// The lines joined by `\n`.
pub open spec fn join_lines(ls: Seq<Seq<char>>) -> Seq<char>
    decreases ls.len(),
{
    if ls.len() == 0 {
        Seq::empty()
    } else if ls.len() == 1 {
        ls[0]
    } else {
        join_lines(ls.drop_last()) + "\n"@ + ls.last()
    }
}

/// The rendered document: its lines without trailing blank lines, joined by
/// `\n` with a final `\n`; empty when there is nothing to show.
pub open spec fn render_document_spec(blocks: Seq<ShowBlock>) -> Seq<char> {
    let ls = drop_trailing_empty(render_blocks_spec(blocks, Seq::empty()));
    if ls.len() == 0 {
        Seq::empty()
    } else {
        join_lines(ls) + "\n"@
    }
}

/// Joins lines with `\n`.
pub fn join_with_newlines(ls: &Vec<String>) -> (r: String)
    ensures
        r@ == join_lines(strs_view(ls@)),
{
    let mut r = String::new();
    let mut i: usize = 0;
    while i < ls.len()
        invariant
            i <= ls.len(),
            r@ == join_lines(strs_view(ls@).take(i as int)),
        decreases ls.len() - i,
    {
        let ghost v = strs_view(ls@);
        assert(v.take(i + 1).drop_last() =~= v.take(i as int));
        if i > 0 {
            r.append("\n");
        }
        r.append(ls[i].as_str());
        i = i + 1;
    }
    assert(strs_view(ls@).take(ls.len() as int) =~= strs_view(ls@));
    r
}

impl ShowKeyValues {
    /// An empty block: no indent, no minimum label width, plain labels.
    pub fn new() -> (kv: ShowKeyValues)
        ensures
            kv.rows@.len() == 0,
            kv.indent == 0,
            kv.min_label_width == 0,
            !kv.bold_labels,
    {
        ShowKeyValues { rows: Vec::new(), indent: 0, min_label_width: 0, bold_labels: false }
    }

    /// The same block with the given indent.
    pub fn with_indent(self, indent: usize) -> (kv: ShowKeyValues)
        ensures
            kv == (ShowKeyValues { indent, ..self }),
    {
        ShowKeyValues { indent, ..self }
    }

    /// The same block with the given minimum label width.
    pub fn with_min_label_width(self, width: usize) -> (kv: ShowKeyValues)
        ensures
            kv == (ShowKeyValues { min_label_width: width, ..self }),
    {
        ShowKeyValues { min_label_width: width, ..self }
    }

    /// The same block with bold labels on or off.
    pub fn with_bold_labels(self, bold_labels: bool) -> (kv: ShowKeyValues)
        ensures
            kv == (ShowKeyValues { bold_labels, ..self }),
    {
        ShowKeyValues { bold_labels, ..self }
    }

    /// The same block with one more row.
    pub fn row(self, label: &str, value: &str) -> (kv: ShowKeyValues)
        ensures
            kv.indent == self.indent,
            kv.min_label_width == self.min_label_width,
            kv.bold_labels == self.bold_labels,
            kv.rows@.len() == self.rows@.len() + 1,
            kv.rows@.drop_last() == self.rows@,
            kv.rows@.last().label@ == label@,
            kv.rows@.last().value@ == value@,
    {
        let mut kv = self;
        kv.push_row(label, value);
        kv
    }

    /// The same block with one more row when `value` is present.
    pub fn row_optional(self, label: &str, value: Option<String>) -> (kv: ShowKeyValues)
        ensures
            kv.indent == self.indent,
            kv.min_label_width == self.min_label_width,
            kv.bold_labels == self.bold_labels,
            value is None ==> kv.rows@ == self.rows@,
            value is Some ==> kv.rows@.len() == self.rows@.len() + 1
                && kv.rows@.drop_last() == self.rows@
                && kv.rows@.last().label@ == label@
                && kv.rows@.last().value@ == value->0@,
    {
        let mut kv = self;
        kv.push_optional_row(label, value);
        kv
    }

    /// Adds a row.
    pub fn push_row(&mut self, label: &str, value: &str)
        ensures
            final(self).indent == old(self).indent,
            final(self).min_label_width == old(self).min_label_width,
            final(self).bold_labels == old(self).bold_labels,
            final(self).rows@.len() == old(self).rows@.len() + 1,
            final(self).rows@.drop_last() == old(self).rows@,
            final(self).rows@.last().label@ == label@,
            final(self).rows@.last().value@ == value@,
    {
        self.rows.push(ShowFieldRow { label: owned(label), value: owned(value) });
        assert(self.rows@.drop_last() =~= old(self).rows@);
    }

    /// Adds a row when `value` is present.
    pub fn push_optional_row(&mut self, label: &str, value: Option<String>)
        ensures
            final(self).indent == old(self).indent,
            final(self).min_label_width == old(self).min_label_width,
            final(self).bold_labels == old(self).bold_labels,
            value is None ==> final(self).rows@ == old(self).rows@,
            value is Some ==> final(self).rows@.len() == old(self).rows@.len() + 1
                && final(self).rows@.drop_last() == old(self).rows@
                && final(self).rows@.last().label@ == label@
                && final(self).rows@.last().value@ == value->0@,
    {
        match value {
            Some(v) => self.push_row(label, v.as_str()),
            None => {},
        }
    }

    /// Adds the `Created:`, `Started:`, `Updated:` and `Completed:` rows
    /// whose values are present, in that order.
    pub fn push_standard_timestamps(&mut self, created: Option<String>, started: Option<String>,
        updated: Option<String>, completed: Option<String>)
        ensures
            final(self).indent == old(self).indent,
            final(self).min_label_width == old(self).min_label_width,
            final(self).bold_labels == old(self).bold_labels,
            strs_labels(final(self).rows@) == strs_labels(old(self).rows@)
                + present_label(created, "Created:"@) + present_label(started, "Started:"@)
                + present_label(updated, "Updated:"@) + present_label(completed, "Completed:"@),
            strs_values(final(self).rows@) == strs_values(old(self).rows@)
                + present_value(created) + present_value(started)
                + present_value(updated) + present_value(completed),
    {
        let ghost r0 = self.rows@;
        self.push_optional_row("Created:", created);
        let ghost r1 = self.rows@;
        assert(strs_labels(r1) =~= strs_labels(r0) + present_label(created, "Created:"@));
        assert(strs_values(r1) =~= strs_values(r0) + present_value(created));
        self.push_optional_row("Started:", started);
        let ghost r2 = self.rows@;
        assert(strs_labels(r2) =~= strs_labels(r1) + present_label(started, "Started:"@));
        assert(strs_values(r2) =~= strs_values(r1) + present_value(started));
        self.push_optional_row("Updated:", updated);
        let ghost r3 = self.rows@;
        assert(strs_labels(r3) =~= strs_labels(r2) + present_label(updated, "Updated:"@));
        assert(strs_values(r3) =~= strs_values(r2) + present_value(updated));
        self.push_optional_row("Completed:", completed);
        assert(strs_labels(self.rows@) =~= strs_labels(r3) + present_label(completed, "Completed:"@));
        assert(strs_values(self.rows@) =~= strs_values(r3) + present_value(completed));
    }

    /// Whether the block has no rows.
    pub fn is_empty(&self) -> (b: bool)
        ensures
            b == (self.rows@.len() == 0),
    {
        self.rows.len() == 0
    }

    /// Renders the rows onto the end of `output`.
    pub fn render_into(&self, output: &mut Vec<String>)
        ensures
            strs_view(final(output)@) == strs_view(old(output)@) + kv_lines(*self),
    {
        let mut width: usize = 0;
        let mut i: usize = 0;
        while i < self.rows.len()
            invariant
                i <= self.rows.len(),
                width == max_label_width(self.rows@.take(i as int)),
            decreases self.rows.len() - i,
        {
            assert(self.rows@.take(i + 1).drop_last() =~= self.rows@.take(i as int));
            let w = visible_width(self.rows[i].label.as_str());
            if w > width {
                width = w;
            }
            i = i + 1;
        }
        assert(self.rows@.take(self.rows.len() as int) =~= self.rows@);
        if self.min_label_width > width {
            width = self.min_label_width;
        }
        let indent = spaces_str(self.indent);
        let ghost start = strs_view(output@);
        let mut k: usize = 0;
        while k < self.rows.len()
            invariant
                k <= self.rows.len(),
                width == kv_label_width(*self),
                indent@ == spaces(self.indent as nat),
                strs_view(output@) == start + kv_lines(*self).take(k as int),
            decreases self.rows.len() - k,
        {
            let row = &self.rows[k];
            let label = if self.bold_labels { bold(row.label.as_str()) } else { owned(row.label.as_str()) };
            let lw = visible_width(row.label.as_str());
            let pad = spaces_str(width.saturating_sub(lw));
            let value = styled_inline_markdown(row.value.as_str());
            let mut line = concat3(indent.as_str(), label.as_str(), pad.as_str());
            line.append(" ");
            line.append(value.as_str());
            let ghost before = output@;
            output.push(line);
            assert(strs_view(output@) =~= strs_view(before).push(line@));
            assert(kv_lines(*self).take(k + 1) =~= kv_lines(*self).take(k as int).push(line@));
            k = k + 1;
        }
        assert(kv_lines(*self).take(self.rows.len() as int) =~= kv_lines(*self));
    }
}

/// The labels of some rows.
pub open spec fn strs_labels(rows: Seq<ShowFieldRow>) -> Seq<Seq<char>> {
    rows.map_values(|r: ShowFieldRow| r.label@)
}

/// The values of some rows.
pub open spec fn strs_values(rows: Seq<ShowFieldRow>) -> Seq<Seq<char>> {
    rows.map_values(|r: ShowFieldRow| r.value@)
}

/// `[label]` when the value is present, else nothing.
pub open spec fn present_label(v: Option<String>, label: Seq<char>) -> Seq<Seq<char>> {
    match v { Some(_) => seq![label], None => Seq::empty() }
}

/// `[value]` when present, else nothing.
pub open spec fn present_value(v: Option<String>) -> Seq<Seq<char>> {
    match v { Some(x) => seq![x@], None => Seq::empty() }
}

impl ShowBlock {
    /// Renders the block onto the end of `output`.
    pub fn render_into(&self, output: &mut Vec<String>)
        ensures
            strs_view(final(output)@) == render_block_spec(*self, strs_view(old(output)@)),
        decreases self,
    {
        match self {
            ShowBlock::KeyValues(block) => block.render_into(output),
            ShowBlock::Section(section) => section.render_into(output),
            ShowBlock::Lines(ls) => {
                let ghost start = strs_view(output@);
                let mut i: usize = 0;
                while i < ls.len()
                    invariant
                        i <= ls.len(),
                        strs_view(output@) == start + strs_view(ls@).take(i as int),
                    decreases ls.len() - i,
                {
                    let ghost before = output@;
                    output.push(owned(ls[i].as_str()));
                    assert(strs_view(output@) =~= strs_view(before).push(ls@[i as int]@));
                    assert(strs_view(ls@).take(i + 1) =~= strs_view(ls@).take(i as int).push(ls@[i as int]@));
                    i = i + 1;
                }
                assert(strs_view(ls@).take(ls.len() as int) =~= strs_view(ls@));
            },
            ShowBlock::Spacer => {
                let n = output.len();
                if n > 0 && output[n - 1].as_str().unicode_len() != 0 {
                    let ghost before = output@;
                    output.push(String::new());
                    assert(strs_view(output@) =~= strs_view(before).push(Seq::empty()));
                }
            },
        }
    }
}

impl ShowSection {
    /// Renders the bold title and then the blocks onto the end of `output`.
    pub fn render_into(&self, output: &mut Vec<String>)
        ensures
            strs_view(final(output)@) == render_section_spec(*self, strs_view(old(output)@)),
        decreases self,
    {
        let t = bold(self.title.as_str());
        let ghost before = output@;
        output.push(t);
        assert(strs_view(output@) =~= strs_view(before).push(bold_spec(self.title@)));
        let ghost start = strs_view(output@);
        let mut i: usize = 0;
        while i < self.blocks.len()
            invariant
                i <= self.blocks.len(),
                strs_view(output@) == render_blocks_spec(self.blocks@.take(i as int), start),
            decreases self.blocks.len() - i,
        {
            assert(self.blocks@.take(i + 1).drop_last() =~= self.blocks@.take(i as int));
            proof {
                assert(decreases_to!(self => self.blocks@[i as int]));
            }
            self.blocks[i].render_into(output);
            i = i + 1;
        }
        assert(self.blocks@.take(self.blocks.len() as int) =~= self.blocks@);
    }
}

/// Block `b` is a `Lines` block holding exactly `ls`.
pub open spec fn is_lines_block(b: ShowBlock, ls: Seq<Seq<char>>) -> bool {
    match b {
        ShowBlock::Lines(v) => strs_view(v@) == ls,
        _ => false,
    }
}

/// `after` is `before` followed by one `Lines` block per non-empty entry of
/// `added`, in order.
pub open spec fn appended_lines(before: Seq<ShowBlock>, after: Seq<ShowBlock>, added: Seq<Seq<Seq<char>>>) -> bool
    decreases added.len(),
{
    if added.len() == 0 {
        after == before
    } else if added.last().len() == 0 {
        appended_lines(before, after, added.drop_last())
    } else {
        after.len() > 0 && is_lines_block(after.last(), added.last())
            && appended_lines(before, after.drop_last(), added.drop_last())
    }
}

/// `"  " + label`.
pub open spec fn label_line(label: Seq<char>) -> Seq<char> {
    "  "@ + label
}

/// A bullet item line.
pub open spec fn bullet_line(item: Seq<char>) -> Seq<char> {
    "    - "@ + inline_markdown_spec(item)
}

/// The lines of a labelled bullet list.
pub open spec fn bullets_added(label: Seq<char>, items: Seq<Seq<char>>, placeholder: Option<Seq<char>>) -> Seq<Seq<Seq<char>>> {
    if items.len() == 0 {
        match placeholder {
            Some(p) => seq![seq![label_line(label) + " "@ + inline_markdown_spec(p)]],
            None => Seq::empty(),
        }
    } else {
        seq![seq![label_line(label)], items.map_values(|it: Seq<char>| bullet_line(it))]
    }
}

/// The lines of a labelled bullet list shown up to `max_items` items (at least one).
pub open spec fn bullets_limited_added(label: Seq<char>, items: Seq<Seq<char>>, max_items: nat, placeholder: Option<Seq<char>>) -> Seq<Seq<Seq<char>>> {
    let m: nat = if max_items >= 1 { max_items } else { 1 };
    if items.len() == 0 {
        match placeholder {
            Some(p) => seq![seq![label_line(label) + " "@ + inline_markdown_spec(p)]],
            None => Seq::empty(),
        }
    } else if items.len() > m {
        seq![seq![label_line(label)], items.take(m as int).map_values(|it: Seq<char>| bullet_line(it)),
            seq!["    - ... "@ + decimal((items.len() - m) as nat) + " more"@]]
    } else {
        seq![seq![label_line(label)], items.map_values(|it: Seq<char>| bullet_line(it))]
    }
}

/// Paragraphs of a text block: runs of non-blank lines, each line trimmed,
/// indented by four and rendered as inline markdown.
pub open spec fn paragraphs_from(ls: Seq<Seq<char>>, done: Seq<Seq<Seq<char>>>, cur: Seq<Seq<char>>) -> Seq<Seq<Seq<char>>>
    decreases ls.len(),
{
    if ls.len() == 0 {
        if cur.len() > 0 { done.push(cur) } else { done }
    } else {
        let t = trim_spec(ls[0]);
        if t.len() == 0 {
            paragraphs_from(ls.drop_first(), if cur.len() > 0 { done.push(cur) } else { done }, Seq::empty())
        } else {
            paragraphs_from(ls.drop_first(), done, cur.push("    "@ + inline_markdown_spec(t)))
        }
    }
}

/// The paragraphs of `value`.
pub open spec fn paragraphs_spec(value: Seq<char>) -> Seq<Seq<Seq<char>>> {
    paragraphs_from(lines_spec(value), Seq::empty(), Seq::empty())
}

/// Paragraphs laid out one after another with a blank line between them.
pub open spec fn join_paragraphs(ps: Seq<Seq<Seq<char>>>) -> Seq<Seq<char>>
    decreases ps.len(),
{
    if ps.len() == 0 {
        Seq::empty()
    } else if ps.len() == 1 {
        ps[0]
    } else {
        join_paragraphs(ps.drop_last()) + seq![Seq::<char>::empty()] + ps.last()
    }
}

/// Splits `value` into paragraphs of rendered lines.
pub fn text_block_paragraphs(value: &str) -> (r: Vec<Vec<String>>)
    ensures
        r@.map_values(|p: Vec<String>| strs_view(p@)) == paragraphs_spec(value@),
{
    let ls = lines(value);
    let ghost lv = ls@.map_values(|x: String| x@);
    let mut paragraphs: Vec<Vec<String>> = Vec::new();
    let mut current: Vec<String> = Vec::new();
    let mut i: usize = 0;
    assert(lv.skip(0) =~= lv);
    assert(paragraphs@.map_values(|p: Vec<String>| strs_view(p@)) =~= Seq::<Seq<Seq<char>>>::empty());
    assert(strs_view(current@) =~= Seq::<Seq<char>>::empty());
    while i < ls.len()
        invariant
            lv == ls@.map_values(|x: String| x@),
            lv == lines_spec(value@),
            i <= ls.len(),
            paragraphs_from(lv.skip(i as int), paragraphs@.map_values(|p: Vec<String>| strs_view(p@)), strs_view(current@))
                == paragraphs_spec(value@),
        decreases ls.len() - i,
    {
        assert(lv.skip(i as int).drop_first() =~= lv.skip(i + 1));
        assert(lv.skip(i as int)[0] == ls@[i as int]@);
        let trimmed = trim(ls[i].as_str());
        if trimmed.unicode_len() == 0 {
            if current.len() > 0 {
                let ghost before = paragraphs@;
                let c = current;
                paragraphs.push(c);
                assert(paragraphs@.map_values(|p: Vec<String>| strs_view(p@))
                    =~= before.map_values(|p: Vec<String>| strs_view(p@)).push(strs_view(c@)));
                current = Vec::new();
            } else {
                current = Vec::new();
            }
            assert(strs_view(current@) =~= Seq::<Seq<char>>::empty());
        } else {
            let rendered = concat2("    ", styled_inline_markdown(trimmed).as_str());
            let ghost before = current@;
            current.push(rendered);
            assert(strs_view(current@) =~= strs_view(before).push(rendered@));
        }
        i = i + 1;
    }
    if current.len() > 0 {
        let ghost before = paragraphs@;
        let c = current;
        paragraphs.push(c);
        assert(paragraphs@.map_values(|p: Vec<String>| strs_view(p@))
            =~= before.map_values(|p: Vec<String>| strs_view(p@)).push(strs_view(c@)));
    }
    paragraphs
}

/// Lays paragraphs out with blank lines between them.
pub fn join_paragraph_lines(ps: &Vec<Vec<String>>, count: usize) -> (r: Vec<String>)
    requires
        count <= ps@.len(),
    ensures
        strs_view(r@) == join_paragraphs(ps@.map_values(|p: Vec<String>| strs_view(p@)).take(count as int)),
{
    let ghost pv = ps@.map_values(|p: Vec<String>| strs_view(p@));
    let mut out: Vec<String> = Vec::new();
    let mut i: usize = 0;
    while i < count
        invariant
            count <= ps@.len(),
            pv == ps@.map_values(|p: Vec<String>| strs_view(p@)),
            i <= count,
            strs_view(out@) == join_paragraphs(pv.take(i as int)),
        decreases count - i,
    {
        assert(pv.take(i + 1).drop_last() =~= pv.take(i as int));
        if i > 0 {
            let ghost b = out@;
            out.push(String::new());
            assert(strs_view(out@) =~= strs_view(b).push(Seq::empty()));
        }
        let p = &ps[i];
        let ghost mid = strs_view(out@);
        let mut k: usize = 0;
        while k < p.len()
            invariant
                k <= p.len(),
                strs_view(out@) == mid + strs_view(p@).take(k as int),
            decreases p.len() - k,
        {
            let ghost b = out@;
            out.push(owned(p[k].as_str()));
            assert(strs_view(out@) =~= strs_view(b).push(p@[k as int]@));
            assert(strs_view(p@).take(k + 1) =~= strs_view(p@).take(k as int).push(p@[k as int]@));
            k = k + 1;
        }
        assert(strs_view(p@).take(p.len() as int) =~= strs_view(p@));
        assert(pv[i as int] == strs_view(p@));
        proof {
            if i == 0 {
                assert(pv.take(1) =~= seq![pv[0]]);
                assert(strs_view(out@) =~= pv[0]);
            } else {
                assert(strs_view(out@) =~= join_paragraphs(pv.take(i as int)) + seq![Seq::<char>::empty()] + pv[i as int]);
            }
        }
        i = i + 1;
    }
    out
}

impl ShowSection {
    /// An empty section with the given title.
    pub fn new(title: &str) -> (s: ShowSection)
        ensures
            s.title@ == title@,
            s.blocks@.len() == 0,
    {
        ShowSection { title: owned(title), blocks: Vec::new() }
    }

    /// The same section with one more block.
    pub fn with_block(self, block: ShowBlock) -> (s: ShowSection)
        ensures
            s.title == self.title,
            s.blocks@ == self.blocks@.push(block),
    {
        let mut s = self;
        s.push_block(block);
        s
    }

    /// Adds a block.
    pub fn push_block(&mut self, block: ShowBlock)
        ensures
            final(self).title == old(self).title,
            final(self).blocks@ == old(self).blocks@.push(block),
    {
        self.blocks.push(block);
    }

    /// Adds a key/value block unless it has no rows.
    pub fn push_key_values(&mut self, block: ShowKeyValues)
        ensures
            final(self).title == old(self).title,
            final(self).blocks@ == if block.rows@.len() == 0 { old(self).blocks@ } else {
                old(self).blocks@.push(ShowBlock::KeyValues(block))
            },
    {
        if !block.is_empty() {
            self.push_block(ShowBlock::KeyValues(block));
        }
    }

    /// Adds a block of lines unless there are none.
    pub fn push_lines(&mut self, lines: Vec<String>)
        ensures
            final(self).title == old(self).title,
            appended_lines(old(self).blocks@, final(self).blocks@, seq![strs_view(lines@)]),
    {
        let ghost added = seq![strs_view(lines@)];
        assert(added.drop_last() =~= Seq::<Seq<Seq<char>>>::empty());
        assert(added.last() == strs_view(lines@));
        if lines.len() > 0 {
            self.push_block(ShowBlock::Lines(lines));
            assert(self.blocks@.drop_last() =~= old(self).blocks@);
            assert(appended_lines(old(self).blocks@, self.blocks@.drop_last(), Seq::empty()));
        } else {
            assert(appended_lines(old(self).blocks@, self.blocks@, Seq::empty()));
        }
    }
}

/// Appending lines blocks in two steps is appending them all.
pub proof fn lemma_appended_lines_trans(a: Seq<ShowBlock>, b: Seq<ShowBlock>, c: Seq<ShowBlock>, x: Seq<Seq<Seq<char>>>, y: Seq<Seq<Seq<char>>>)
    requires
        appended_lines(a, b, x),
        appended_lines(b, c, y),
    ensures
        appended_lines(a, c, x + y),
    decreases y.len(),
{
    if y.len() == 0 {
        assert(x + y =~= x);
    } else {
        assert((x + y).drop_last() =~= x + y.drop_last());
        assert((x + y).last() == y.last());
        if y.last().len() == 0 {
            lemma_appended_lines_trans(a, b, c, x, y.drop_last());
        } else {
            lemma_appended_lines_trans(a, b, c.drop_last(), x, y.drop_last());
        }
    }
}

/// Renders each item as a bullet line.
fn bullet_lines(items: &Vec<String>, count: usize) -> (r: Vec<String>)
    requires
        count <= items@.len(),
    ensures
        strs_view(r@) == strs_view(items@).take(count as int).map_values(|it: Seq<char>| bullet_line(it)),
{
    let mut out: Vec<String> = Vec::new();
    let mut i: usize = 0;
    while i < count
        invariant
            count <= items@.len(),
            i <= count,
            strs_view(out@) == strs_view(items@).take(i as int).map_values(|it: Seq<char>| bullet_line(it)),
        decreases count - i,
    {
        let line = concat2("    - ", styled_inline_markdown(items[i].as_str()).as_str());
        let ghost b = out@;
        out.push(line);
        assert(strs_view(out@) =~= strs_view(b).push(line@));
        assert(strs_view(items@)[i as int] == items@[i as int]@);
        assert(strs_view(items@).take(i + 1).map_values(|it: Seq<char>| bullet_line(it))
            =~= strs_view(items@).take(i as int).map_values(|it: Seq<char>| bullet_line(it)).push(bullet_line(items@[i as int]@)));
        i = i + 1;
    }
    out
}

impl ShowSection {
    /// Adds `label` and its items as bullets, or `label placeholder` when
    /// there are no items and a placeholder is given.
    pub fn push_labeled_bullets(&mut self, label: &str, items: Vec<String>, empty_placeholder: Option<&str>)
        ensures
            final(self).title == old(self).title,
            appended_lines(old(self).blocks@, final(self).blocks@,
                bullets_added(label@, strs_view(items@), match empty_placeholder { Some(p) => Some(p@), None => None })),
    {
        let ghost added = bullets_added(label@, strs_view(items@), match empty_placeholder { Some(p) => Some(p@), None => None });
        if items.len() == 0 {
            match empty_placeholder {
                Some(p) => {
                    let mut line = concat3("  ", label, " ");
                    line.append(styled_inline_markdown(p).as_str());
                    let v = vec![line];
                    assert(strs_view(v@) =~= seq![line@]);
                    self.push_lines(v);
                },
                None => {
                    assert(appended_lines(old(self).blocks@, self.blocks@, Seq::empty()));
                },
            }
            return;
        }
        let head = vec![concat2("  ", label)];
        assert(strs_view(head@) =~= seq![label_line(label@)]);
        self.push_lines(head);
        let ghost mid = self.blocks@;
        let body = bullet_lines(&items, items.len());
        assert(strs_view(items@).take(items@.len() as int) =~= strs_view(items@));
        self.push_lines(body);
        proof {
            lemma_appended_lines_trans(old(self).blocks@, mid, self.blocks@,
                seq![seq![label_line(label@)]], seq![strs_view(body@)]);
            assert(seq![seq![label_line(label@)]] + seq![strs_view(body@)] =~= added);
        }
    }

    /// Like `push_labeled_bullets`, showing at most `max_items` items (at least
    /// one) and then a `... N more` line.
    pub fn push_labeled_bullets_limited(&mut self, label: &str, items: Vec<String>, max_items: usize, empty_placeholder: Option<&str>)
        ensures
            final(self).title == old(self).title,
            appended_lines(old(self).blocks@, final(self).blocks@,
                bullets_limited_added(label@, strs_view(items@), max_items as nat,
                    match empty_placeholder { Some(p) => Some(p@), None => None })),
    {
        let ghost added = bullets_limited_added(label@, strs_view(items@), max_items as nat,
            match empty_placeholder { Some(p) => Some(p@), None => None });
        if items.len() == 0 {
            match empty_placeholder {
                Some(p) => {
                    let mut line = concat3("  ", label, " ");
                    line.append(styled_inline_markdown(p).as_str());
                    let v = vec![line];
                    assert(strs_view(v@) =~= seq![line@]);
                    self.push_lines(v);
                },
                None => {
                    assert(appended_lines(old(self).blocks@, self.blocks@, Seq::empty()));
                },
            }
            return;
        }
        let max_items = if max_items >= 1 { max_items } else { 1 };
        let head = vec![concat2("  ", label)];
        assert(strs_view(head@) =~= seq![label_line(label@)]);
        self.push_lines(head);
        let ghost mid = self.blocks@;
        let shown = if items.len() > max_items { max_items } else { items.len() };
        let body = bullet_lines(&items, shown);
        self.push_lines(body);
        proof {
            lemma_appended_lines_trans(old(self).blocks@, mid, self.blocks@,
                seq![seq![label_line(label@)]], seq![strs_view(body@)]);
            if items.len() <= max_items {
                assert(strs_view(items@).take(items@.len() as int) =~= strs_view(items@));
                assert(seq![seq![label_line(label@)]] + seq![strs_view(body@)] =~= added);
            }
        }
        if items.len() > max_items {
            let ghost mid2 = self.blocks@;
            let mut more = concat2("    - ... ", usize_to_string(items.len() - max_items).as_str());
            more.append(" more");
            let v = vec![more];
            assert(strs_view(v@) =~= seq![more@]);
            self.push_lines(v);
            proof {
                lemma_appended_lines_trans(old(self).blocks@, mid2, self.blocks@,
                    seq![seq![label_line(label@)]] + seq![strs_view(body@)], seq![seq![more@]]);
                assert(seq![seq![label_line(label@)]] + seq![strs_view(body@)] + seq![seq![more@]] =~= added);
            }
        }
    }

    /// Adds `label` on its own line and the text's paragraphs below it.
    pub fn push_labeled_text_block(&mut self, label: &str, value: &str)
        ensures
            final(self).title == old(self).title,
            appended_lines(old(self).blocks@, final(self).blocks@,
                seq![seq![label_line(label@)], join_paragraphs(paragraphs_spec(value@))]),
    {
        let head = vec![concat2("  ", label)];
        assert(strs_view(head@) =~= seq![label_line(label@)]);
        self.push_lines(head);
        let ghost mid = self.blocks@;
        let ps = text_block_paragraphs(value);
        let body = join_paragraph_lines(&ps, ps.len());
        assert(ps@.map_values(|p: Vec<String>| strs_view(p@)).take(ps@.len() as int)
            =~= ps@.map_values(|p: Vec<String>| strs_view(p@)));
        self.push_lines(body);
        proof {
            lemma_appended_lines_trans(old(self).blocks@, mid, self.blocks@,
                seq![seq![label_line(label@)]], seq![strs_view(body@)]);
            assert(seq![seq![label_line(label@)]] + seq![strs_view(body@)]
                =~= seq![seq![label_line(label@)], join_paragraphs(paragraphs_spec(value@))]);
        }
    }

    /// Adds `label` on its own line and at most `max_paragraphs` paragraphs
    /// (at least one) below it, then `...` when some were left out.
    pub fn push_labeled_text_block_limited(&mut self, label: &str, value: &str, max_paragraphs: usize)
        ensures
            final(self).title == old(self).title,
            appended_lines(old(self).blocks@, final(self).blocks@,
                seq![seq![label_line(label@)], limited_paragraph_lines(paragraphs_spec(value@), max_paragraphs as nat)]),
    {
        let head = vec![concat2("  ", label)];
        assert(strs_view(head@) =~= seq![label_line(label@)]);
        self.push_lines(head);
        let ghost mid = self.blocks@;
        let ps = text_block_paragraphs(value);
        let max_paragraphs = if max_paragraphs >= 1 { max_paragraphs } else { 1 };
        let shown = if ps.len() > max_paragraphs { max_paragraphs } else { ps.len() };
        let mut body = join_paragraph_lines(&ps, shown);
        if ps.len() > max_paragraphs {
            let ghost b = body@;
            body.push(owned("    ..."));
            assert(strs_view(body@) =~= strs_view(b).push("    ..."@));
        } else {
            assert(ps@.map_values(|p: Vec<String>| strs_view(p@)).take(ps@.len() as int)
                =~= ps@.map_values(|p: Vec<String>| strs_view(p@)));
        }
        self.push_lines(body);
        proof {
            lemma_appended_lines_trans(old(self).blocks@, mid, self.blocks@,
                seq![seq![label_line(label@)]], seq![strs_view(body@)]);
            assert(seq![seq![label_line(label@)]] + seq![strs_view(body@)]
                =~= seq![seq![label_line(label@)], limited_paragraph_lines(paragraphs_spec(value@), max_paragraphs as nat)]);
        }
    }
}

/// At most `max` paragraphs (at least one) laid out, then `    ...` when
/// some were left out; nothing when there are no paragraphs.
pub open spec fn limited_paragraph_lines(ps: Seq<Seq<Seq<char>>>, max: nat) -> Seq<Seq<char>> {
    let m: nat = if max >= 1 { max } else { 1 };
    if ps.len() > m {
        join_paragraphs(ps.take(m as int)).push("    ..."@)
    } else {
        join_paragraphs(ps)
    }
}

/// Blocks for sections laid out with a spacer between consecutive ones.
pub open spec fn spaced_sections(secs: Seq<ShowSection>) -> Seq<ShowBlock>
    decreases secs.len(),
{
    if secs.len() == 0 {
        Seq::empty()
    } else if secs.len() == 1 {
        seq![ShowBlock::Section(secs[0])]
    } else {
        spaced_sections(secs.drop_last()).push(ShowBlock::Spacer).push(ShowBlock::Section(secs.last()))
    }
}

impl ShowDocument {
    /// An empty document.
    pub fn new() -> (d: ShowDocument)
        ensures
            d.blocks@.len() == 0,
    {
        ShowDocument { blocks: Vec::new() }
    }

    /// The same document with one more block.
    pub fn with_block(self, block: ShowBlock) -> (d: ShowDocument)
        ensures
            d.blocks@ == self.blocks@.push(block),
    {
        let mut d = self;
        d.push_block(block);
        d
    }

    /// Adds a block.
    pub fn push_block(&mut self, block: ShowBlock)
        ensures
            final(self).blocks@ == old(self).blocks@.push(block),
    {
        self.blocks.push(block);
    }

    /// Adds a section.
    pub fn push_section(&mut self, section: ShowSection)
        ensures
            final(self).blocks@ == old(self).blocks@.push(ShowBlock::Section(section)),
    {
        self.push_block(ShowBlock::Section(section));
    }

    /// Adds a key/value block unless it has no rows.
    pub fn push_key_values(&mut self, block: ShowKeyValues)
        ensures
            final(self).blocks@ == if block.rows@.len() == 0 { old(self).blocks@ } else {
                old(self).blocks@.push(ShowBlock::KeyValues(block))
            },
    {
        if !block.is_empty() {
            self.push_block(ShowBlock::KeyValues(block));
        }
    }

    /// Adds a metadata block, then a rule of the given width if one is asked for.
    pub fn push_header(&mut self, metadata: ShowKeyValues, rule_width: Option<usize>)
        ensures
            match rule_width {
                None => final(self).blocks@ == if metadata.rows@.len() == 0 { old(self).blocks@ } else {
                    old(self).blocks@.push(ShowBlock::KeyValues(metadata))
                },
                Some(w) => final(self).blocks@.len() > 0
                    && final(self).blocks@.drop_last() == if metadata.rows@.len() == 0 { old(self).blocks@ } else {
                        old(self).blocks@.push(ShowBlock::KeyValues(metadata))
                    }
                    && is_lines_block(final(self).blocks@.last(), seq![rule_spec("─"@, w as nat, None)]),
            },
    {
        self.push_key_values(metadata);
        match rule_width {
            Some(width) => {
                let ghost mid = self.blocks@;
                self.push_rule(width);
                assert(self.blocks@.drop_last() =~= mid);
            },
            None => {},
        }
    }

    /// Adds a block of lines unless there are none.
    pub fn push_lines(&mut self, lines: Vec<String>)
        ensures
            appended_lines(old(self).blocks@, final(self).blocks@, seq![strs_view(lines@)]),
    {
        let ghost added = seq![strs_view(lines@)];
        assert(added.drop_last() =~= Seq::<Seq<Seq<char>>>::empty());
        assert(added.last() == strs_view(lines@));
        if lines.len() > 0 {
            self.push_block(ShowBlock::Lines(lines));
            assert(self.blocks@.drop_last() =~= old(self).blocks@);
            assert(appended_lines(old(self).blocks@, self.blocks@.drop_last(), Seq::empty()));
        } else {
            assert(appended_lines(old(self).blocks@, self.blocks@, Seq::empty()));
        }
    }

    /// Adds a spacer.
    pub fn push_spacer(&mut self)
        ensures
            final(self).blocks@ == old(self).blocks@.push(ShowBlock::Spacer),
    {
        self.push_block(ShowBlock::Spacer);
    }

    /// Adds sections with a spacer between consecutive ones.
    pub fn push_sections_spaced(&mut self, sections: Vec<ShowSection>)
        ensures
            final(self).blocks@ == old(self).blocks@ + spaced_sections(sections@),
    {
        let mut sections = sections;
        let ghost all = sections@;
        let mut first = true;
        let mut taken: usize = 0;
        let n = sections.len();
        assert(all.take(0) =~= Seq::<ShowSection>::empty());
        assert(old(self).blocks@ + spaced_sections(Seq::empty()) =~= old(self).blocks@);
        assert(all.skip(0) =~= all);
        while sections.len() > 0
            invariant
                n == all.len(),
                taken + sections@.len() == n,
                sections@ == all.skip(taken as int),
                first == (taken == 0),
                self.blocks@ == old(self).blocks@ + spaced_sections(all.take(taken as int)),
            decreases sections.len(),
        {
            let section = sections.remove(0);
            assert(section == all[taken as int]);
            assert(sections@ =~= all.skip(taken + 1));
            if !first {
                self.push_spacer();
            }
            self.push_section(section);
            first = false;
            assert(all.take(taken + 1).drop_last() =~= all.take(taken as int));
            proof {
                if taken == 0 {
                    assert(all.take(1) =~= seq![all[0]]);
                }
                assert(self.blocks@ =~= old(self).blocks@ + spaced_sections(all.take(taken + 1)));
            }
            taken = taken + 1;
        }
        assert(all.take(n as int) =~= all);
    }

    /// Adds a dim rule of the given width.
    pub fn push_rule(&mut self, width: usize)
        ensures
            final(self).blocks@.len() == old(self).blocks@.len() + 1,
            final(self).blocks@.drop_last() == old(self).blocks@,
            is_lines_block(final(self).blocks@.last(), seq![rule_spec("─"@, width as nat, None)]),
    {
        let r = rule(width, None);
        let v = vec![r];
        assert(strs_view(v@) =~= seq![r@]);
        self.push_block(ShowBlock::Lines(v));
        assert(self.blocks@.drop_last() =~= old(self).blocks@);
    }

    /// Renders the document: its lines without trailing blank lines, joined
    /// by `\n` with a final `\n`; empty when there is nothing to show.
    pub fn render(&self) -> (r: String)
        ensures
            r@ == render_document_spec(self.blocks@),
    {
        let mut lines: Vec<String> = Vec::new();
        let mut i: usize = 0;
        assert(strs_view(lines@) =~= Seq::<Seq<char>>::empty());
        while i < self.blocks.len()
            invariant
                i <= self.blocks.len(),
                strs_view(lines@) == render_blocks_spec(self.blocks@.take(i as int), Seq::empty()),
            decreases self.blocks.len() - i,
        {
            assert(self.blocks@.take(i + 1).drop_last() =~= self.blocks@.take(i as int));
            self.blocks[i].render_into(&mut lines);
            i = i + 1;
        }
        assert(self.blocks@.take(self.blocks.len() as int) =~= self.blocks@);
        let ghost all = strs_view(lines@);
        while lines.len() > 0 && lines[lines.len() - 1].as_str().unicode_len() == 0
            invariant
                drop_trailing_empty(strs_view(lines@)) == drop_trailing_empty(all),
            decreases lines.len(),
        {
            let ghost b = lines@;
            lines.pop();
            assert(strs_view(lines@) =~= strs_view(b).drop_last());
        }
        assert(drop_trailing_empty(strs_view(lines@)) == strs_view(lines@));
        if lines.len() == 0 {
            String::new()
        } else {
            let mut out = join_with_newlines(&lines);
            out.append("\n");
            out
        }
    }
}

} // verus!
