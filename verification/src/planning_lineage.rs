//! Lines of the planning-lineage sections: how a voyage scope item maps
//! to its epic scope, and what drifts between them.

use vstd::prelude::*;
use crate::text::{concat3, str_chars, is_ws, is_whitespace, push_char, str_eq};


verus! {

/// Whether an item is in or out of scope.
#[derive(Clone, Copy, Debug, PartialEq, Eq, Structural)]
pub enum ScopeDisposition {
    In,
    Out,
}

/// What is wrong with a scope reference.
#[derive(Clone, Copy, Debug, PartialEq, Eq, Structural)]
pub enum ScopeLineageIssueKind {
    MissingScopeMapping,
    UnknownScopeRef,
    OutOfScopeContradiction,
    LegacyUntaggedScopePath,
}

/// A voyage scope item and the epic scope item it refines.
#[derive(Clone, Debug)]
pub struct ScopeLineageRow {
    pub scope_id: String,
    pub voyage_description: String,
    pub voyage_disposition: ScopeDisposition,
    pub epic_description: Option<String>,
    pub epic_disposition: Option<ScopeDisposition>,
}

/// A scope problem found in a planning artifact.
#[derive(Clone, Debug)]
pub struct ScopeLineageIssue {
    pub artifact_path: String,
    pub scope_id: Option<String>,
    pub line: Option<String>,
    pub kind: ScopeLineageIssueKind,
}

/// A scope problem and the voyage it was found in.
#[derive(Clone, Debug)]
pub struct ScopeDriftRow {
    pub voyage_id: Option<String>,
    pub issue: ScopeLineageIssue,
}

pub open spec fn disposition_label(d: ScopeDisposition) -> Seq<char> {
    match d {
        ScopeDisposition::In => "in-scope"@,
        ScopeDisposition::Out => "out-of-scope"@,
    }
}

fn scope_disposition_label(d: ScopeDisposition) -> (r: &'static str)
    ensures
        r@ == disposition_label(d),
{
    match d {
        ScopeDisposition::In => "in-scope",
        ScopeDisposition::Out => "out-of-scope",
    }
}

/// `s` with its words separated by single blanks: white space at either
/// end removed and each run of it inside replaced by one blank
/// (`split_whitespace().join(" ")`). `pending` says a blank is owed before
/// the next word.
pub open spec fn collapse_ws(s: Seq<char>, pending: bool, started: bool) -> Seq<char>
    decreases s.len(),
{
    if s.len() == 0 {
        Seq::empty()
    } else if is_ws(s[0]) {
        collapse_ws(s.drop_first(), started, started)
    } else {
        (if pending { seq![' '] } else { Seq::empty() }) + seq![s[0]] + collapse_ws(s.drop_first(), false, true)
    }
}

pub open spec fn normalize_spec(s: Seq<char>) -> Seq<char> {
    collapse_ws(s, false, false)
}

/// Normalises the white space of a scope description.
pub fn normalize_scope_description(value: &str) -> (r: String)
    ensures
        r@ == normalize_spec(value@),
{
    let cs = str_chars(value);
    let mut out = String::new();
    let mut pending = false;
    let mut started = false;
    let mut i: usize = 0;
    assert(value@.skip(0) =~= value@);
    while i < cs.len()
        invariant
            cs@ == value@,
            i <= cs.len(),
            out@ + collapse_ws(value@.skip(i as int), pending, started) == normalize_spec(value@),
        decreases cs.len() - i,
    {
        let ghost rest = value@.skip(i as int);
        assert(rest.drop_first() =~= value@.skip(i + 1));
        assert(rest[0] == cs@[i as int]);
        let c = cs[i];
        if is_whitespace(c) {
            pending = started;
        } else {
            let ghost before = out@;
            if pending {
                push_char(&mut out, ' ');
            }
            push_char(&mut out, c);
            assert(out@ =~= before + ((if pending { seq![' '] } else { Seq::empty() }) + seq![c]));
            pending = false;
            started = true;
        }
        i = i + 1;
    }
    assert(value@.skip(i as int).len() == 0);
    out
}

/// Two descriptions say the same up to white space.
pub open spec fn same_description(a: Seq<char>, b: Seq<char>) -> bool {
    normalize_spec(a) == normalize_spec(b)
}

/// A lineage line: the voyage item, its disposition, and the epic's (with
/// the epic's description only when it says something else).
pub open spec fn lineage_line(row: ScopeLineageRow) -> Seq<char> {
    let head = "`"@ + row.scope_id@ + "`: "@ + row.voyage_description@ + " (voyage "@
        + disposition_label(row.voyage_disposition);
    match (row.epic_disposition, row.epic_description) {
        (Some(ed), Some(desc)) => {
            let detail = if same_description(row.voyage_description@, desc@) { Seq::empty() } else { ": "@ + desc@ };
            head + "; epic "@ + disposition_label(ed) + detail + ")"@
        },
        _ => head + "; epic unknown)"@,
    }
}

/// Formats a lineage row.
pub fn format_scope_lineage_row(row: &ScopeLineageRow) -> (r: String)
    ensures
        r@ == lineage_line(*row),
{
    let vd = scope_disposition_label(row.voyage_disposition);
    let mut r = concat3("`", row.scope_id.as_str(), "`: ");
    r.append(row.voyage_description.as_str());
    r.append(" (voyage ");
    r.append(vd);
    match (row.epic_disposition, &row.epic_description) {
        (Some(ed), Some(desc)) => {
            let a = normalize_scope_description(row.voyage_description.as_str());
            let b = normalize_scope_description(desc.as_str());
            r.append("; epic ");
            r.append(scope_disposition_label(ed));
            if !str_eq(a.as_str(), b.as_str()) {
                r.append(": ");
                r.append(desc.as_str());
            }
            r.append(")");
        },
        _ => {
            r.append("; epic unknown)");
        },
    }
    r
}

/// A drift line, prefixed with the voyage when known.
pub open spec fn drift_line(row: ScopeDriftRow) -> Seq<char> {
    let prefix = match row.voyage_id {
        Some(v) => "`"@ + v@ + "`: "@,
        None => Seq::empty(),
    };
    let scope = match row.issue.scope_id {
        Some(s) => s@,
        None => "<unknown>"@,
    };
    match row.issue.kind {
        ScopeLineageIssueKind::MissingScopeMapping =>
            prefix + "`"@ + scope + "` missing voyage scope mapping for an epic in-scope item"@,
        ScopeLineageIssueKind::UnknownScopeRef => prefix + "`"@ + scope + "` references unknown epic scope ID"@,
        ScopeLineageIssueKind::OutOfScopeContradiction =>
            prefix + "`"@ + scope + "` marks an epic out-of-scope item as in scope"@,
        ScopeLineageIssueKind::LegacyUntaggedScopePath => prefix + "legacy scope bullet: "@ + match row.issue.line {
            Some(l) => l@,
            None => "<unknown>"@,
        },
    }
}

/// Formats a drift row.
pub fn format_scope_drift_row(row: &ScopeDriftRow) -> (r: String)
    ensures
        r@ == drift_line(*row),
{
    let mut r = match &row.voyage_id {
        Some(v) => concat3("`", v.as_str(), "`: "),
        None => String::new(),
    };
    let scope: &str = match &row.issue.scope_id {
        Some(s) => s.as_str(),
        None => "<unknown>",
    };
    match row.issue.kind {
        ScopeLineageIssueKind::MissingScopeMapping => {
            r.append("`");
            r.append(scope);
            r.append("` missing voyage scope mapping for an epic in-scope item");
        },
        ScopeLineageIssueKind::UnknownScopeRef => {
            r.append("`");
            r.append(scope);
            r.append("` references unknown epic scope ID");
        },
        ScopeLineageIssueKind::OutOfScopeContradiction => {
            r.append("`");
            r.append(scope);
            r.append("` marks an epic out-of-scope item as in scope");
        },
        ScopeLineageIssueKind::LegacyUntaggedScopePath => {
            r.append("legacy scope bullet: ");
            match &row.issue.line {
                Some(l) => r.append(l.as_str()),
                None => r.append("<unknown>"),
            }
        },
    }
    r
}

} // verus!
