//! Column-aligned tables with widths computed from visible text width.

use vstd::prelude::*;
use crate::ansi::{visible_width, visible_width_spec, pad_to_width};
use crate::text::{owned, spaces, spaces_str, push_char};
use vstd::string::StringSliceAdditionalSpecFns;

verus! {

/// The views of a sequence of strings.
pub open spec fn strs_view(v: Seq<String>) -> Seq<Seq<char>> {
    v.map_values(|s: String| s@)
}

/// The width of column `i`; a cell past the last column gets none.
pub open spec fn column_width(widths: Seq<usize>, i: int) -> nat {
    if 0 <= i < widths.len() { widths[i] as nat } else { 0 }
}

/// A cell followed by blanks up to the column width (by visible width).
pub open spec fn cell_spec(s: Seq<char>, w: nat) -> Seq<char> {
    if visible_width_spec(s) >= w { s } else { s + spaces((w - visible_width_spec(s)) as nat) }
}

/// One printed row: its cells, each padded to its column, separated by two
/// blanks.
pub open spec fn row_line_spec(values: Seq<Seq<char>>, widths: Seq<usize>) -> Seq<char>
    decreases values.len(),
{
    if values.len() == 0 {
        Seq::empty()
    } else {
        let i = values.len() - 1;
        let cell = cell_spec(values[i], column_width(widths, i));
        if i == 0 { cell } else { row_line_spec(values.drop_last(), widths) + spaces(2) + cell }
    }
}

/// The sum of the column widths.
pub open spec fn widths_total(w: Seq<usize>) -> nat
    decreases w.len(),
{
    if w.len() == 0 { 0 } else { widths_total(w.drop_last()) + w.last() as nat }
}

/// The rule under the header: one dash per column character and per
/// separating blank.
pub open spec fn separator_spec(w: Seq<usize>) -> Seq<char> {
    Seq::new((widths_total(w) + 2 * (w.len() - 1)) as nat, |i: int| '-')
}

/// A prefix of the widths sums to no more than all of them.
pub proof fn lemma_widths_total_prefix(w: Seq<usize>, i: int)
    requires
        0 <= i <= w.len(),
    ensures
        widths_total(w.take(i)) <= widths_total(w),
    decreases w.len(),
{
    if i == w.len() {
        assert(w.take(i) =~= w);
    } else {
        assert(w.drop_last().take(i) =~= w.take(i));
        lemma_widths_total_prefix(w.drop_last(), i);
    }
}

/// A table whose column widths grow to fit every cell.
pub struct Table {
    headers: Vec<String>,
    rows: Vec<Vec<String>>,
    widths: Vec<usize>,
}

impl Table {
    /// Header texts.
    pub closed spec fn header_view(&self) -> Seq<Seq<char>> {
        strs_view(self.headers@)
    }

    /// Row texts.
    pub closed spec fn rows_view(&self) -> Seq<Seq<Seq<char>>> {
        self.rows@.map_values(|r: Vec<String>| strs_view(r@))
    }

    /// Current column widths.
    pub closed spec fn widths_view(&self) -> Seq<usize> {
        self.widths@
    }

    /// One width per header.
    pub open spec fn wf(&self) -> bool {
        self.widths_view().len() == self.header_view().len()
    }

    /// Every column is at least as wide as its header (in bytes) and as the
    /// visible width of every cell placed in it.
    pub open spec fn widths_cover(&self, header_bytes: Seq<nat>) -> bool {
        &&& self.wf()
        &&& header_bytes.len() == self.widths_view().len()
        &&& forall|i: int| 0 <= i < self.widths_view().len()
            ==> self.widths_view()[i] >= header_bytes[i]
        &&& forall|r: int, i: int|
            0 <= r < self.rows_view().len() && 0 <= i < self.rows_view()[r].len()
                && i < self.widths_view().len()
            ==> self.widths_view()[i] >= visible_width_spec(#[trigger] self.rows_view()[r][i])
    }

    /// Creates a table with the given column headers; each column starts as
    /// wide as its header's byte length.
    pub fn new(headers: &[&str]) -> (t: Table)
        ensures
            t.wf(),
            t.header_view() == headers@.map_values(|h: &str| h@),
            t.rows_view().len() == 0,
            forall|i: int| 0 <= i < headers@.len()
                ==> t.widths_view()[i] == headers@[i].spec_bytes().len() as usize,
            t.widths_cover(Seq::new(headers@.len(), |i: int| (headers@[i].spec_bytes().len() as usize) as nat)),
    {
        let mut hs: Vec<String> = Vec::new();
        let mut ws: Vec<usize> = Vec::new();
        let mut i: usize = 0;
        while i < headers.len()
            invariant
                i <= headers.len(),
                hs@.len() == i,
                ws@.len() == i,
                forall|k: int| 0 <= k < i ==> #[trigger] hs@[k]@ == headers@[k]@,
                forall|k: int| 0 <= k < i ==> #[trigger] ws@[k] == headers@[k].spec_bytes().len() as usize,
            decreases headers.len() - i,
        {
            hs.push(owned(headers[i]));
            ws.push(headers[i].len());
            i = i + 1;
        }
        let t = Table { headers: hs, rows: Vec::new(), widths: ws };
        assert(t.header_view() =~= headers@.map_values(|h: &str| h@));
        t
    }

    /// Adds a row, widening columns to the visible width of its cells.
    pub fn row(&mut self, values: &[&str])
        requires
            old(self).wf(),
        ensures
            final(self).wf(),
            final(self).header_view() == old(self).header_view(),
            final(self).rows_view() == old(self).rows_view().push(values@.map_values(|v: &str| v@)),
            forall|i: int| 0 <= i < final(self).widths_view().len() ==> #[trigger] final(self).widths_view()[i] as int == if i < values@.len() {
                vstd::math::max(old(self).widths_view()[i] as int, visible_width_spec(values@[i]@) as int)
            } else {
                old(self).widths_view()[i] as int
            },
    {
        let mut row: Vec<String> = Vec::new();
        let mut i: usize = 0;
        while i < values.len()
            invariant
                i <= values.len(),
                row@.len() == i,
                forall|k: int| 0 <= k < i ==> #[trigger] row@[k]@ == values@[k]@,
                self.widths@.len() == old(self).widths@.len(),
                self.headers == old(self).headers,
                self.rows == old(self).rows,
                forall|k: int| 0 <= k < self.widths@.len() ==> #[trigger] self.widths@[k] as int == if k < i {
                    vstd::math::max(old(self).widths@[k] as int, visible_width_spec(values@[k]@) as int)
                } else {
                    old(self).widths@[k] as int
                },
            decreases values.len() - i,
        {
            let value = values[i];
            row.push(owned(value));
            if i < self.widths.len() {
                let w = visible_width(value);
                let cur = self.widths[i];
                let m = if cur >= w { cur } else { w };
                self.widths.set(i, m);
            }
            i = i + 1;
        }
        self.rows.push(row);
        assert(strs_view(row@) =~= values@.map_values(|v: &str| v@));
        assert(self.rows_view() =~= old(self).rows_view().push(values@.map_values(|v: &str| v@)));
    }

    /// One row as printed: each cell padded with blanks to its column's
    /// width, cells separated by two blanks.
    fn row_line(&self, values: &Vec<String>) -> (r: String)
        ensures
            r@ == row_line_spec(strs_view(values@), self.widths_view()),
    {
        let ghost vals = strs_view(values@);
        let mut out = String::new();
        let mut i: usize = 0;
        assert(vals.take(0) =~= Seq::<Seq<char>>::empty());
        while i < values.len()
            invariant
                i <= values.len(),
                vals == strs_view(values@),
                out@ == row_line_spec(vals.take(i as int), self.widths_view()),
            decreases values.len() - i,
        {
            if i > 0 {
                let gap = spaces_str(2);
                out.append(gap.as_str());
            }
            let w: usize = if i < self.widths.len() { self.widths[i] } else { 0 };
            let cell = pad_to_width(values[i].as_str(), w);
            out.append(cell.as_str());
            proof {
                let t = vals.take(i + 1);
                assert(t.drop_last() =~= vals.take(i as int));
                assert(t[i as int] == values@[i as int]@);
            }
            i = i + 1;
        }
        assert(vals.take(values.len() as int) =~= vals);
        out
    }

    /// The printed table: the header line, a dashed rule as wide as the
    /// columns and their separators, then one line per row.
    pub fn render(&self) -> (lines: Vec<String>)
        requires
            self.wf(),
            self.widths_view().len() >= 1,
            widths_total(self.widths_view()) + 2 * self.widths_view().len() <= usize::MAX,
        ensures
            strs_view(lines@) == seq![
                row_line_spec(self.header_view(), self.widths_view()),
                separator_spec(self.widths_view()),
            ] + self.rows_view().map_values(|r: Seq<Seq<char>>| row_line_spec(r, self.widths_view())),
    {
        let ghost w = self.widths_view();
        let mut total: usize = 0;
        let mut i: usize = 0;
        assert(w.take(0) =~= Seq::<usize>::empty());
        while i < self.widths.len()
            invariant
                w == self.widths@,
                i <= w.len(),
                total == widths_total(w.take(i as int)),
                widths_total(w) + 2 * w.len() <= usize::MAX,
            decreases w.len() - i,
        {
            proof {
                lemma_widths_total_prefix(w, i + 1);
                assert(w.take(i + 1).drop_last() =~= w.take(i as int));
            }
            total = total + self.widths[i];
            i = i + 1;
        }
        assert(w.take(w.len() as int) =~= w);
        let n: usize = total + (self.widths.len() - 1) * 2;
        let mut rule = String::new();
        let mut k: usize = 0;
        while k < n
            invariant
                k <= n,
                rule@ == Seq::new(k as nat, |j: int| '-'),
            decreases n - k,
        {
            push_char(&mut rule, '-');
            assert(rule@ =~= Seq::new((k + 1) as nat, |j: int| '-'));
            k = k + 1;
        }
        let mut lines: Vec<String> = Vec::new();
        lines.push(self.row_line(&self.headers));
        lines.push(rule);
        let ghost head = seq![
            row_line_spec(self.header_view(), w),
            separator_spec(w),
        ];
        assert(strs_view(lines@) =~= head);
        let mut r: usize = 0;
        while r < self.rows.len()
            invariant
                w == self.widths_view(),
                r <= self.rows@.len(),
                strs_view(lines@) == head + self.rows_view().take(r as int).map_values(|x: Seq<Seq<char>>| row_line_spec(x, w)),
            decreases self.rows@.len() - r,
        {
            let line = self.row_line(&self.rows[r]);
            let ghost before = lines@;
            lines.push(line);
            proof {
                assert(self.rows_view()[r as int] == strs_view(self.rows@[r as int]@));
                assert(self.rows_view().take(r + 1).map_values(|x: Seq<Seq<char>>| row_line_spec(x, w))
                    =~= self.rows_view().take(r as int).map_values(|x: Seq<Seq<char>>| row_line_spec(x, w)).push(row_line_spec(self.rows_view()[r as int], w)));
                assert(strs_view(lines@) =~= strs_view(before).push(line@));
            }
            r = r + 1;
        }
        assert(self.rows_view().take(self.rows@.len() as int) =~= self.rows_view());
        lines
    }

    /// Whether the table has no rows.
    pub fn is_empty(&self) -> (b: bool)
        ensures
            b == (self.rows_view().len() == 0),
    {
        self.rows.len() == 0
    }

    /// Number of rows.
    pub fn len(&self) -> (n: usize)
        ensures
            n == self.rows_view().len(),
    {
        self.rows.len()
    }

    /// Current column widths.
    pub fn widths(&self) -> (w: Vec<usize>)
        ensures
            w@ == self.widths_view(),
    {
        self.widths.clone()
    }
}

/// Widening keeps every column at least as wide as every cell placed in it.
pub proof fn lemma_row_keeps_widths_cover(before: Table, after: Table, values: Seq<Seq<char>>, header_bytes: Seq<nat>)
    requires
        before.widths_cover(header_bytes),
        after.wf(),
        after.header_view() == before.header_view(),
        after.rows_view() == before.rows_view().push(values),
        after.widths_view().len() == before.widths_view().len(),
        forall|i: int| 0 <= i < after.widths_view().len() ==> #[trigger] after.widths_view()[i] as int == if i < values.len() {
            vstd::math::max(before.widths_view()[i] as int, visible_width_spec(values[i]) as int)
        } else {
            before.widths_view()[i] as int
        },
    ensures
        after.widths_cover(header_bytes),
{
    assert forall|r: int, i: int|
        0 <= r < after.rows_view().len() && 0 <= i < after.rows_view()[r].len()
            && i < after.widths_view().len()
        implies after.widths_view()[i] >= visible_width_spec(#[trigger] after.rows_view()[r][i]) by {
        if r < before.rows_view().len() {
            assert(after.rows_view()[r] == before.rows_view()[r]);
            assert(before.widths_view()[i] >= visible_width_spec(before.rows_view()[r][i]));
        } else {
            assert(after.rows_view()[r] == values);
        }
        let _ = after.widths_view()[i];
    }
    assert forall|i: int| 0 <= i < after.widths_view().len() implies after.widths_view()[i] >= header_bytes[i] by {
        let _ = after.widths_view()[i];
        assert(before.widths_view()[i] >= header_bytes[i]);
    }
}

} // verus!
