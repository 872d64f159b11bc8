//! Count-and-bar progress summaries for show surfaces.

use vstd::prelude::*;
use crate::style::{progress_bar, progress_bar_fits, progress_bar_spec};
use crate::text::{concat2, concat3, decimal, usize_to_string};

verus! {

/// The suffix shown after a count bar: a blank and the text, or nothing.
pub open spec fn suffix_part(suffix: Option<Seq<char>>) -> Seq<char> {
    match suffix {
        Some(s) => if s.len() == 0 { Seq::empty() } else { " "@ + s },
        None => Seq::empty(),
    }
}

/// `done/total`, a bar, and an optional suffix; `0/0` when nothing is counted.
pub open spec fn count_bar_spec(done: nat, total: nat, width: nat, suffix: Option<Seq<char>>) -> Seq<char> {
    if total == 0 {
        "0/0"@ + suffix_part(suffix)
    } else {
        decimal(done) + "/"@ + decimal(total) + " "@ + progress_bar_spec(done, total, width, None)
            + suffix_part(suffix)
    }
}

/// Renders `done/total` with a progress bar and an optional suffix.
pub fn render_count_bar(done: usize, total: usize, bar_width: usize, suffix: Option<&str>) -> (r: String)
    requires
        progress_bar_fits(done as nat, total as nat, bar_width as nat),
    ensures
        r@ == count_bar_spec(done as nat, total as nat, bar_width as nat,
            match suffix { Some(s) => Some(s@), None => None }),
{
    let suffix_text = match suffix {
        Some(s) => s,
        None => "",
    };
    proof {
        reveal_strlit("");
    }
    let part = if suffix_text.unicode_len() == 0 { String::new() } else { concat2(" ", suffix_text) };
    if total == 0 {
        return concat2("0/0", part.as_str());
    }
    let bar = progress_bar(done, total, bar_width, None);
    let mut r = concat3(usize_to_string(done).as_str(), "/", usize_to_string(total).as_str());
    r.append(" ");
    r.append(bar.as_str());
    r.append(part.as_str());
    r
}

} // verus!
