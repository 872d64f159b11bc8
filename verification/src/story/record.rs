//! `story record`: which acceptance criterion a proof is recorded for,
//! where the proof comes from, the proof file's text, and linking the
//! proof from the criterion's verify annotation.

use vstd::prelude::*;
use crate::text::{occurs_at, seq_contains, find_spec, trim_end_spec, is_ws, decimal, lines, lines_spec,
    str_chars, str_contains, chars_occur_at, find, trim_end, is_whitespace, owned, concat2, concat3,
    usize_to_string};
use crate::show::{join_lines, join_with_newlines};
use crate::table::strs_view;
use crate::ansi::{Color, fg, bold, dimmed, fg_spec, bold_spec, dim_spec};

verus! {

// ---------------------------------------------------------------------
// The proof link of a verify annotation
// ---------------------------------------------------------------------

/// A character that ends a proof file name: `,`, blank or line feed.
pub open spec fn is_sep(c: char) -> bool {
    c == ',' || c == ' ' || c == '\n'
}

/// The number of characters from `p` on that end no file name.
pub open spec fn name_run(s: Seq<char>, p: int) -> nat
    decreases s.len() - p,
{
    if 0 <= p < s.len() && !is_sep(s[p]) { 1 + name_run(s, p + 1) } else { 0 }
}

/// The number of white-space characters from `p` on.
pub open spec fn ws_run(s: Seq<char>, p: int) -> nat
    decreases s.len() - p,
{
    if 0 <= p < s.len() && is_ws(s[p]) { 1 + ws_run(s, p + 1) } else { 0 }
}

/// The largest `j <= k` at which a file name can start after `p`.
pub open spec fn last_fit(s: Seq<char>, p: int, k: int) -> Option<int>
    decreases k + 1,
{
    if k < 0 {
        None
    } else if 0 <= p + k < s.len() && !is_sep(s[p + k]) {
        Some(k)
    } else {
        last_fit(s, p, k - 1)
    }
}

/// Where a match of `proof:\s*[^, \n]+` that starts at `i` ends: after
/// `proof:`, as much white space as still leaves a file name, then the
/// longest file name.
pub open spec fn proof_match_at(s: Seq<char>, i: int) -> Option<int> {
    if occurs_at(s, "proof:"@, i) {
        match last_fit(s, i + 6, ws_run(s, i + 6) as int) {
            Some(k) => Some(i + 6 + k + name_run(s, i + 6 + k)),
            None => None,
        }
    } else {
        None
    }
}

/// The leftmost match at or after `from`: where it starts and ends.
pub open spec fn proof_match_from(s: Seq<char>, from: int) -> Option<(int, int)>
    decreases s.len() + 1 - from,
{
    if from < 0 || from > s.len() {
        None
    } else {
        match proof_match_at(s, from) {
            Some(e) => Some((from, e)),
            None => proof_match_from(s, from + 1),
        }
    }
}

/// The annotation text with its proof link set to `name`: an existing
/// `proof: …` replaced, or `, proof: name` appended.
pub open spec fn with_proof(comment: Seq<char>, name: Seq<char>) -> Seq<char> {
    match proof_match_from(comment, 0) {
        Some((a, e)) => comment.take(a) + "proof: "@ + name + comment.skip(e),
        None => trim_end_spec(comment) + ", proof: "@ + name,
    }
}

/// The line with the comment between its first `<!--` and first `-->`
/// linked to `name`; none when either is missing.
pub open spec fn linked_line(l: Seq<char>, name: Seq<char>) -> Option<Seq<char>> {
    match (find_spec(l, "<!--"@), find_spec(l, "-->"@)) {
        (Some(st), Some(en)) => Some(l.take(st) + "<!--"@ + with_proof(l.subrange(st + 4, en), name) + "-->"@ + l.skip(en + 3)),
        _ => None,
    }
}

/// A line holding a verify annotation.
pub open spec fn is_annotation_line(l: Seq<char>) -> bool {
    seq_contains(l, "<!--"@) && seq_contains(l, "verify:"@)
}

/// The position of annotation line number `n` (counting from 0) at or
/// after `from`.
pub open spec fn annotation_line(ls: Seq<Seq<char>>, n: int, from: int) -> Option<int>
    decreases ls.len() - from,
{
    if from < 0 || from >= ls.len() {
        None
    } else if is_annotation_line(ls[from]) {
        if n == 0 { Some(from) } else { annotation_line(ls, n - 1, from + 1) }
    } else {
        annotation_line(ls, n, from + 1)
    }
}

/// The comment of a line does not close before it opens.
pub open spec fn comment_well_placed(l: Seq<char>) -> bool {
    match (find_spec(l, "<!--"@), find_spec(l, "-->"@)) {
        (Some(st), Some(en)) => st + 4 <= en,
        _ => true,
    }
}

/// The story text with criterion `ac_idx` (counting from 0) linked to
/// proof file `name`: its lines joined by `\n` with a final `\n`; or the
/// error when the criterion's annotation line is missing or has no comment.
pub open spec fn record_link_spec(content: Seq<char>, ac_idx: nat, name: Seq<char>) -> Result<Seq<char>, Seq<char>> {
    let ls = lines_spec(content);
    let fail = "Failed to find AC index "@ + decimal(ac_idx + 1) + " in file"@;
    match annotation_line(ls, ac_idx as int, 0) {
        Some(k) => match linked_line(ls[k], name) {
            Some(nl) => Ok(join_lines(ls.update(k, nl)) + "\n"@),
            None => Err(fail),
        },
        None => Err(fail),
    }
}

fn ws_run_exec(cs: &Vec<char>, p: usize) -> (r: usize)
    requires
        p <= cs.len(),
    ensures
        r == ws_run(cs@, p as int),
        p + r <= cs.len(),
{
    let mut j: usize = p;
    while j < cs.len() && is_whitespace(cs[j])
        invariant
            p <= j <= cs.len(),
            ws_run(cs@, p as int) == (j - p) + ws_run(cs@, j as int),
        decreases cs.len() - j,
    {
        j = j + 1;
    }
    j - p
}

fn name_run_exec(cs: &Vec<char>, p: usize) -> (r: usize)
    requires
        p <= cs.len(),
    ensures
        r == name_run(cs@, p as int),
        p + r <= cs.len(),
{
    let mut j: usize = p;
    while j < cs.len() && !(cs[j] == ',' || cs[j] == ' ' || cs[j] == '\n')
        invariant
            p <= j <= cs.len(),
            name_run(cs@, p as int) == (j - p) + name_run(cs@, j as int),
        decreases cs.len() - j,
    {
        j = j + 1;
    }
    j - p
}

fn last_fit_exec(cs: &Vec<char>, p: usize, w: usize) -> (r: Option<usize>)
    requires
        p + w <= cs.len(),
    ensures
        match r {
            Some(k) => last_fit(cs@, p as int, w as int) == Some(k as int) && p + k < cs.len(),
            None => last_fit(cs@, p as int, w as int) is None,
        },
{
    let mut k: usize = w;
    loop
        invariant
            k <= w,
            p + w <= cs.len(),
            last_fit(cs@, p as int, w as int) == last_fit(cs@, p as int, k as int),
        decreases k,
    {
        if p + k < cs.len() && !(cs[p + k] == ',' || cs[p + k] == ' ' || cs[p + k] == '\n') {
            return Some(k);
        }
        if k == 0 {
            assert(last_fit(cs@, p as int, -1) is None);
            return None;
        }
        k = k - 1;
    }
}

fn proof_match_exec(cs: &Vec<char>) -> (r: Option<(usize, usize)>)
    ensures
        match r {
            Some((a, e)) => proof_match_from(cs@, 0) == Some((a as int, e as int)) && a <= e <= cs.len(),
            None => proof_match_from(cs@, 0) is None,
        },
{
    let pat: Vec<char> = str_chars("proof:");
    proof {
        reveal_strlit("proof:");
    }
    assert(pat@ == "proof:"@);
    assert(pat@.len() == 6);
    let mut i: usize = 0;
    while i < cs.len()
        invariant
            pat@ == "proof:"@,
            pat@.len() == 6,
            i <= cs.len(),
            proof_match_from(cs@, 0) == proof_match_from(cs@, i as int),
        decreases cs.len() + 1 - i,
    {
        if chars_occur_at(cs.as_slice(), pat.as_slice(), i) {
            let p = i + 6;
            let w = ws_run_exec(cs, p);
            match last_fit_exec(cs, p, w) {
                Some(k) => {
                    let n = name_run_exec(cs, p + k);
                    return Some((i, p + k + n));
                },
                None => {},
            }
        }
        i = i + 1;
    }
    assert(!occurs_at(cs@, "proof:"@, cs@.len() as int));
    assert(proof_match_from(cs@, cs@.len() + 1int) is None);
    None
}

fn with_proof_exec(comment: &str, name: &str) -> (r: String)
    ensures
        r@ == with_proof(comment@, name@),
{
    let cs = str_chars(comment);
    match proof_match_exec(&cs) {
        Some((a, e)) => {
            let head = comment.substring_char(0, a);
            let tail = comment.substring_char(e, cs.len());
            assert(head@ =~= comment@.take(a as int));
            assert(tail@ =~= comment@.skip(e as int));
            let mut r = concat3(head, "proof: ", name);
            r.append(tail);
            r
        },
        None => {
            let t = trim_end(comment);
            concat3(t, ", proof: ", name)
        },
    }
}

fn linked_line_exec(l: &str, name: &str) -> (r: Option<String>)
    requires
        comment_well_placed(l@),
    ensures
        crate::board::opt_view(r) == linked_line(l@, name@),
{
    match (find(l, "<!--"), find(l, "-->")) {
        (Some(st), Some(en)) => {
            proof {
                crate::text::lemma_find_from(l@, "<!--"@, 0);
                crate::text::lemma_find_from(l@, "-->"@, 0);
                reveal_strlit("<!--");
                reveal_strlit("-->");
            }
            let n = l.unicode_len();
            let head = l.substring_char(0, st);
            let comment = l.substring_char(st + 4, en);
            let tail = l.substring_char(en + 3, n);
            assert(head@ =~= l@.take(st as int));
            assert(comment@ =~= l@.subrange(st + 4, en as int));
            assert(tail@ =~= l@.skip(en + 3));
            let body = with_proof_exec(comment, name);
            let mut r = concat3(head, "<!--", body.as_str());
            r.append("-->");
            r.append(tail);
            Some(r)
        },
        _ => None,
    }
}

fn is_annotation_exec(l: &str) -> (r: bool)
    ensures
        r == is_annotation_line(l@),
{
    str_contains(l, "<!--") && str_contains(l, "verify:")
}

/// Links the verify annotation of criterion `ac_idx` (counting from 0) in
/// story text `content` to proof file `name`.
pub fn update_story_with_proof(content: &str, ac_idx: usize, name: &str) -> (r: Result<String, String>)
    requires
        ac_idx < usize::MAX,
        annotation_line(lines_spec(content@), ac_idx as int, 0) matches Some(k)
            ==> comment_well_placed(lines_spec(content@)[k]),
    ensures
        match r {
            Ok(t) => record_link_spec(content@, ac_idx as nat, name@) == Ok::<Seq<char>, Seq<char>>(t@),
            Err(m) => record_link_spec(content@, ac_idx as nat, name@) == Err::<Seq<char>, Seq<char>>(m@),
        },
{
    let mut ls = lines(content);
    let ghost lv = lines_spec(content@);
    assert(strs_view(ls@) == lv);
    let mut fail = concat2("Failed to find AC index ", usize_to_string(ac_idx + 1).as_str());
    fail.append(" in file");
    let mut current: usize = 0;
    let mut i: usize = 0;
    while i < ls.len()
        invariant
            strs_view(ls@) == lv,
            lv == lines_spec(content@),
            i <= ls.len(),
            current <= ac_idx,
            current <= i,
            annotation_line(lv, ac_idx as int, 0) == annotation_line(lv, ac_idx - current, i as int),
            annotation_line(lv, ac_idx as int, 0) matches Some(k) ==> comment_well_placed(lv[k]),
            fail@ == "Failed to find AC index "@ + decimal((ac_idx + 1) as nat) + " in file"@,
        decreases ls.len() - i,
    {
        assert(ls@[i as int]@ == lv[i as int]);
        if is_annotation_exec(ls[i].as_str()) {
            if current == ac_idx {
                match linked_line_exec(ls[i].as_str(), name) {
                    Some(nl) => {
                        let ghost nlv = nl@;
                        ls.set(i, nl);
                        assert(strs_view(ls@) =~= lv.update(i as int, nlv));
                        let mut t = join_with_newlines(&ls);
                        t.append("\n");
                        return Ok(t);
                    },
                    None => {
                        return Err(fail);
                    },
                }
            }
            current = current + 1;
        }
        i = i + 1;
    }
    Err(fail)
}

// ---------------------------------------------------------------------
// Which criterion, and where the proof comes from
// ---------------------------------------------------------------------

/// The criterion a proof is recorded for (counting from 0), given the
/// number of annotated criteria and the `--ac` number asked for: that
/// number's criterion; the only criterion when none was asked for; none
/// (the criteria are listed for the user to choose) when there are several.
pub open spec fn select_ac_spec(story_id: Seq<char>, ac_index: Option<usize>, count: nat) -> Result<Option<nat>, Seq<char>> {
    if count == 0 {
        Err("No acceptance criteria with verify annotations found in story "@ + story_id)
    } else {
        match ac_index {
            Some(idx) => if 0 < idx <= count {
                Ok(Some((idx - 1) as nat))
            } else {
                Err("AC index "@ + decimal(idx as nat) + " out of range (1-"@ + decimal(count) + ")"@)
            },
            None => if count == 1 { Ok(Some(0)) } else { Ok(None) },
        }
    }
}

/// Chooses the criterion to record a proof for.
pub fn select_ac(story_id: &str, ac_index: Option<usize>, count: usize) -> (r: Result<Option<usize>, String>)
    ensures
        match r {
            Ok(Some(i)) => select_ac_spec(story_id@, ac_index, count as nat) == Ok::<Option<nat>, Seq<char>>(Some(i as nat)),
            Ok(None) => select_ac_spec(story_id@, ac_index, count as nat) == Ok::<Option<nat>, Seq<char>>(None),
            Err(m) => select_ac_spec(story_id@, ac_index, count as nat) == Err::<Option<nat>, Seq<char>>(m@),
        },
{
    if count == 0 {
        return Err(concat2("No acceptance criteria with verify annotations found in story ", story_id));
    }
    match ac_index {
        Some(idx) => {
            if idx > 0 && idx <= count {
                Ok(Some(idx - 1))
            } else {
                let mut m = concat3("AC index ", usize_to_string(idx).as_str(), " out of range (1-");
                m.append(usize_to_string(count).as_str());
                m.append(")");
                Err(m)
            }
        },
        None => if count == 1 { Ok(Some(0)) } else { Ok(None) },
    }
}

/// One line of the criteria listing: its number, whether a proof is
/// linked, the criterion and the linked proof.
pub open spec fn ac_listing_line(i: nat, criterion: Seq<char>, link: Option<Seq<char>>) -> Seq<char> {
    let status = match link { Some(_) => fg_spec(Color::Green, "✓"@), None => fg_spec(Color::Red, "○"@) };
    "  "@ + decimal(i + 1) + ". ["@ + status + "] "@ + criterion + " "@
        + match link { Some(p) => dim_spec("(Proof: "@ + p + ")"@), None => Seq::empty() }
}

/// The listing shown when several criteria could take the proof.
pub open spec fn ac_listing_spec(story_id: Seq<char>, acs: Seq<(Seq<char>, Option<Seq<char>>)>) -> Seq<Seq<char>> {
    seq!["Acceptance Criteria for "@ + bold_spec(fg_spec(Color::BrightBlue, story_id)) + ":"@]
        + Seq::new(acs.len(), |i: int| ac_listing_line(i as nat, acs[i].0, acs[i].1))
}

pub open spec fn ac_view(acs: Seq<(String, Option<String>)>) -> Seq<(Seq<char>, Option<Seq<char>>)> {
    acs.map_values(|a: (String, Option<String>)| (a.0@, crate::board::opt_view(a.1)))
}

/// Lists the annotated criteria (their text and linked proof, if any).
pub fn ac_listing_lines(story_id: &str, acs: &Vec<(String, Option<String>)>) -> (r: Vec<String>)
    requires
        acs@.len() < usize::MAX,
    ensures
        strs_view(r@) == ac_listing_spec(story_id@, ac_view(acs@)),
{
    let ghost av = ac_view(acs@);
    let idc = fg(story_id, Color::BrightBlue);
    let idb = bold(idc.as_str());
    let mut out: Vec<String> = Vec::new();
    out.push(concat3("Acceptance Criteria for ", idb.as_str(), ":"));
    let mut i: usize = 0;
    while i < acs.len()
        invariant
            av == ac_view(acs@),
            acs@.len() < usize::MAX,
            i <= acs.len(),
            out@.len() == i + 1,
            strs_view(out@)[0] == "Acceptance Criteria for "@ + bold_spec(fg_spec(Color::BrightBlue, story_id@)) + ":"@,
            forall|j: int| 0 <= j < i ==> #[trigger] strs_view(out@)[j + 1] == ac_listing_line(j as nat, av[j].0, av[j].1),
        decreases acs.len() - i,
    {
        let (criterion, proof_name) = (&acs[i].0, &acs[i].1);
        let status = match proof_name { Some(_) => fg("✓", Color::Green), None => fg("○", Color::Red) };
        let mut line = concat3("  ", usize_to_string(i + 1).as_str(), ". [");
        line.append(status.as_str());
        line.append("] ");
        line.append(criterion.as_str());
        line.append(" ");
        match proof_name {
            Some(p) => {
                let t = concat3("(Proof: ", p.as_str(), ")");
                let d = dimmed(t.as_str());
                line.append(d.as_str());
            },
            None => {},
        }
        let ghost before = strs_view(out@);
        out.push(line);
        assert(strs_view(out@) =~= before.push(line@));
        i = i + 1;
    }
    assert(strs_view(out@) =~= ac_listing_spec(story_id@, av));
    out
}

/// Where the proof of a criterion comes from.
#[derive(Clone, Debug, PartialEq, Eq)]
pub enum ProofSource {
    /// The LLM judge's transcript.
    Judge,
    /// The files given.
    Files,
    /// The message given.
    Message(String),
    /// A description the user types in.
    ManualInput,
    /// The output of this command.
    Command(String),
}

/// The proof's source: the judge when asked for; else the files given;
/// else the message given; else the user's description when the
/// criterion is verified by hand; else the command given, or else the
/// criterion's own command.
pub fn proof_source(judge: bool, has_files: bool, msg: Option<String>, manual: bool,
    cmd_override: Option<String>, annotated: Option<String>) -> (r: Result<ProofSource, String>)
    ensures
        judge ==> r == Ok::<ProofSource, String>(ProofSource::Judge),
        !judge && has_files ==> r == Ok::<ProofSource, String>(ProofSource::Files),
        !judge && !has_files && msg is Some ==> r == Ok::<ProofSource, String>(ProofSource::Message(msg->0)),
        !judge && !has_files && msg is None && manual ==> r == Ok::<ProofSource, String>(ProofSource::ManualInput),
        !judge && !has_files && msg is None && !manual ==> match cmd_override {
            Some(c) => r == Ok::<ProofSource, String>(ProofSource::Command(c)),
            None => match annotated {
                Some(c) => r == Ok::<ProofSource, String>(ProofSource::Command(c)),
                None => r matches Err(e) && e@ == "No command specified for this AC and no --cmd override provided"@,
            },
        },
{
    if judge {
        Ok(ProofSource::Judge)
    } else if has_files {
        Ok(ProofSource::Files)
    } else if let Some(m) = msg {
        Ok(ProofSource::Message(m))
    } else if manual {
        Ok(ProofSource::ManualInput)
    } else {
        match cmd_override {
            Some(c) => Ok(ProofSource::Command(c)),
            None => match annotated {
                Some(c) => Ok(ProofSource::Command(c)),
                None => Err(owned("No command specified for this AC and no --cmd override provided")),
            },
        }
    }
}

// ---------------------------------------------------------------------
// The proof file
// ---------------------------------------------------------------------

/// The proof file's name for criterion `ac_idx` (counting from 0).
pub fn proof_filename(ac_idx: usize) -> (r: String)
    requires
        ac_idx < usize::MAX,
    ensures
        r@ == "ac-"@ + decimal((ac_idx + 1) as nat) + ".log"@,
{
    concat3("ac-", usize_to_string(ac_idx + 1).as_str(), ".log")
}

/// The proof's header: when it was recorded and how.
pub open spec fn proof_header(recorded_at: Seq<char>, mode: Seq<char>) -> Seq<char> {
    "---\nrecorded_at: "@ + recorded_at + "\nmode: "@ + mode + "\n---\n"@
}

/// A proof described in words (given or typed in).
pub fn manual_proof(recorded_at: &str, body: &str) -> (r: String)
    ensures
        r@ == proof_header(recorded_at@, "manual"@) + body@,
{
    let mut r = concat3("---\nrecorded_at: ", recorded_at, "\nmode: ");
    r.append("manual");
    r.append("\n---\n");
    r.append(body);
    r
}

/// The LLM judge's transcript as a proof.
pub fn judge_proof(recorded_at: &str, transcript: &str) -> (r: String)
    ensures
        r@ == proof_header(recorded_at@, "llm-judge"@) + transcript@,
{
    let mut r = concat3("---\nrecorded_at: ", recorded_at, "\nmode: ");
    r.append("llm-judge");
    r.append("\n---\n");
    r.append(transcript);
    r
}

/// A passing command's output as a proof: its standard output, then its
/// error output under a divider when there is any.
pub fn command_proof(recorded_at: &str, command: &str, stdout: &str, stderr: &str) -> (r: String)
    ensures
        r@ == "---\nrecorded_at: "@ + recorded_at@ + "\ncommand: "@ + command@ + "\n---\n"@ + stdout@
            + if stderr@.len() > 0 { "\n--- stderr ---\n"@ + stderr@ } else { Seq::empty() },
{
    let mut r = concat3("---\nrecorded_at: ", recorded_at, "\ncommand: ");
    r.append(command);
    r.append("\n---\n");
    r.append(stdout);
    if stderr.unicode_len() > 0 {
        r.append("\n--- stderr ---\n");
        r.append(stderr);
    }
    r
}

/// What std's `Debug` writes for a list of strings (`format!("{:?}", v)`).
pub uninterp spec fn debug_string_list(v: Seq<Seq<char>>) -> Seq<char>;

/// Formats a list of strings as std's `Debug` does; the text is what
/// `debug_string_list` names, a function of the strings alone.
#[verifier::external_body]
fn debug_list(files: &Vec<String>) -> (r: String)
    ensures
        r@ == debug_string_list(strs_view(files@)),
{
    format!("{:?}", files)
}

/// The files' sections of a proof: each file's name and text.
pub open spec fn file_sections(files: Seq<(Seq<char>, Seq<char>)>) -> Seq<char>
    decreases files.len(),
{
    if files.len() == 0 {
        Seq::empty()
    } else {
        file_sections(files.drop_last()) + "\n--- File: "@ + files.last().0 + " ---\n"@ + files.last().1 + "\n"@
    }
}

pub open spec fn pairs_view(v: Seq<(String, String)>) -> Seq<(Seq<char>, Seq<char>)> {
    v.map_values(|p: (String, String)| (p.0@, p.1@))
}

/// Files given as proof: the paths as given, then each file's name and text.
pub fn files_proof(recorded_at: &str, given: &Vec<String>, files: &Vec<(String, String)>) -> (r: String)
    ensures
        r@ == "---\nrecorded_at: "@ + recorded_at@ + "\nmode: manual\nfiles: "@ + debug_string_list(strs_view(given@))
            + "\n---\n"@ + file_sections(pairs_view(files@)),
{
    let listed = debug_list(given);
    let mut r = concat3("---\nrecorded_at: ", recorded_at, "\nmode: manual\nfiles: ");
    r.append(listed.as_str());
    r.append("\n---\n");
    let ghost head = r@;
    let mut i: usize = 0;
    while i < files.len()
        invariant
            i <= files.len(),
            r@ == head + file_sections(pairs_view(files@).take(i as int)),
        decreases files.len() - i,
    {
        assert(pairs_view(files@).take(i + 1).drop_last() =~= pairs_view(files@).take(i as int));
        r.append("\n--- File: ");
        r.append(files[i].0.as_str());
        r.append(" ---\n");
        r.append(files[i].1.as_str());
        r.append("\n");
        i = i + 1;
    }
    assert(pairs_view(files@).take(i as int) =~= pairs_view(files@));
    r
}

} // verus!
