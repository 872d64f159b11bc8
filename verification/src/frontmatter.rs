//! Board documents' frontmatter: its `key: value` fields, setting one
//! field, and the board entities read from the fields.

use vstd::prelude::*;
use crate::text::{char_pos, lines, lines_spec, trim, trim_spec, str_chars, str_eq, owned, concat3, decimal};
use crate::show::{join_lines, join_with_newlines};
use crate::table::strs_view;
use crate::board::{Story, Voyage, Epic, opt_view};
use crate::model::{StoryType, VoyageState};
use crate::listing::{parse_stage, stage_named};

verus! {

// ---------------------------------------------------------------------
// Fields
// ---------------------------------------------------------------------

/// A value without one pair of surrounding double quotes.
pub open spec fn unquote(v: Seq<char>) -> Seq<char> {
    if v.len() >= 2 && v[0] == '"' && v.last() == '"' { v.subrange(1, v.len() - 1) } else { v }
}

/// The field a frontmatter line holds: the trimmed text before its first
/// `:` (not empty) and the trimmed, unquoted text after it.
pub open spec fn line_field(l: Seq<char>) -> Option<(Seq<char>, Seq<char>)> {
    match char_pos(l, ':') {
        Some(i) => if 0 <= i < l.len() && trim_spec(l.take(i)).len() > 0 {
            Some((trim_spec(l.take(i)), unquote(trim_spec(l.skip(i + 1)))))
        } else {
            None
        },
        None => None,
    }
}

/// The fields of the lines, in order.
pub open spec fn fields_of(ls: Seq<Seq<char>>) -> Seq<(Seq<char>, Seq<char>)>
    decreases ls.len(),
{
    if ls.len() == 0 {
        Seq::empty()
    } else {
        match line_field(ls.last()) {
            Some(f) => fields_of(ls.drop_last()).push(f),
            None => fields_of(ls.drop_last()),
        }
    }
}

/// The position of the closing `---` line of a frontmatter that opens on
/// the first line, if it is closed.
pub open spec fn closing_line(ls: Seq<Seq<char>>, from: int) -> Option<int>
    decreases ls.len() - from,
{
    if from < 1 || from >= ls.len() {
        None
    } else if trim_spec(ls[from]) == "---"@ {
        Some(from)
    } else {
        closing_line(ls, from + 1)
    }
}

/// The frontmatter lines of a document: between an opening `---` line and
/// the next `---` line; none when there is no closed frontmatter.
pub open spec fn frontmatter_lines(c: Seq<char>) -> Option<(int, Seq<Seq<char>>)> {
    let ls = lines_spec(c);
    if ls.len() > 0 && trim_spec(ls[0]) == "---"@ {
        match closing_line(ls, 1) {
            Some(e) => Some((e, ls.subrange(1, e))),
            None => None,
        }
    } else {
        None
    }
}

/// The fields of a document's frontmatter.
pub open spec fn fields_spec(c: Seq<char>) -> Seq<(Seq<char>, Seq<char>)> {
    match frontmatter_lines(c) {
        Some((_, fl)) => fields_of(fl),
        None => Seq::empty(),
    }
}

/// The value of the first field named `key`.
pub open spec fn field_spec(fs: Seq<(Seq<char>, Seq<char>)>, key: Seq<char>) -> Option<Seq<char>>
    decreases fs.len(),
{
    if fs.len() == 0 {
        None
    } else if fs[0].0 == key {
        Some(fs[0].1)
    } else {
        field_spec(fs.drop_first(), key)
    }
}

/// Fields as plain values.
pub open spec fn fields_view(v: Seq<(String, String)>) -> Seq<(Seq<char>, Seq<char>)> {
    v.map_values(|f: (String, String)| (f.0@, f.1@))
}

fn char_index(cs: &Vec<char>, c: char) -> (r: Option<usize>)
    ensures
        match r {
            Some(i) => char_pos(cs@, c) == Some(i as int) && i < cs@.len(),
            None => char_pos(cs@, c) is None,
        },
{
    let mut i: usize = 0;
    while i < cs.len()
        invariant
            i <= cs.len(),
            forall|j: int| 0 <= j < i ==> cs@[j] != c,
        decreases cs.len() - i,
    {
        if cs[i] == c {
            proof { crate::text::lemma_char_pos_at(cs@, c, i as int); }
            return Some(i);
        }
        i = i + 1;
    }
    proof { crate::text::lemma_char_pos_at(cs@, c, i as int); }
    None
}

fn unquote_text(v: &str) -> (r: String)
    ensures
        r@ == unquote(v@),
{
    let cs = str_chars(v);
    let n = cs.len();
    if n >= 2 && cs[0] == '"' && cs[n - 1] == '"' {
        let inner = v.substring_char(1, n - 1);
        assert(inner@ =~= v@.subrange(1, v@.len() - 1));
        owned(inner)
    } else {
        owned(v)
    }
}

/// The field one frontmatter line holds, if any.
pub fn parse_field_line(l: &str) -> (r: Option<(String, String)>)
    ensures
        match r {
            Some((k, v)) => line_field(l@) == Some((k@, v@)),
            None => line_field(l@) is None,
        },
{
    let cs = str_chars(l);
    match char_index(&cs, ':') {
        None => None,
        Some(i) => {
            let n = cs.len();
            let before = l.substring_char(0, i);
            let after = l.substring_char(i + 1, n);
            assert(before@ =~= l@.take(i as int));
            assert(after@ =~= l@.skip(i + 1));
            let key = trim(before);
            if key.unicode_len() == 0 {
                return None;
            }
            Some((owned(key), unquote_text(trim(after))))
        },
    }
}

fn closing_index(ls: &Vec<String>) -> (r: Option<usize>)
    ensures
        match r {
            Some(e) => closing_line(strs_view(ls@), 1) == Some(e as int) && 1 <= e < ls@.len(),
            None => closing_line(strs_view(ls@), 1) is None,
        },
{
    let ghost lv = strs_view(ls@);
    if ls.len() < 2 {
        return None;
    }
    let mut k: usize = 1;
    while k < ls.len()
        invariant
            lv == strs_view(ls@),
            1 <= k <= ls@.len(),
            closing_line(lv, 1) == closing_line(lv, k as int),
        decreases ls.len() - k,
    {
        assert(lv[k as int] == ls@[k as int]@);
        if str_eq(trim(ls[k].as_str()), "---") {
            return Some(k);
        }
        k = k + 1;
    }
    None
}

/// The fields of a document's frontmatter, in order.
pub fn frontmatter_fields(content: &str) -> (r: Vec<(String, String)>)
    ensures
        fields_view(r@) == fields_spec(content@),
{
    let ls = lines(content);
    let ghost lv = lines_spec(content@);
    assert(strs_view(ls@) == lv);
    if ls.len() == 0 || !str_eq(trim(ls[0].as_str()), "---") {
        return Vec::new();
    }
    let e = match closing_index(&ls) {
        None => return Vec::new(),
        Some(e) => e,
    };
    let ghost fl = lv.subrange(1, e as int);
    let mut fields: Vec<(String, String)> = Vec::new();
    let mut k: usize = 1;
    assert(fl.take(0) =~= Seq::<Seq<char>>::empty());
    while k < e
        invariant
            lv == strs_view(ls@),
            fl == lv.subrange(1, e as int),
            1 <= k <= e < ls@.len(),
            fields_view(fields@) == fields_of(fl.take(k - 1)),
        decreases e - k,
    {
        assert(fl.take(k as int).drop_last() =~= fl.take(k - 1));
        assert(fl.take(k as int).last() == ls@[k as int]@);
        match parse_field_line(ls[k].as_str()) {
            Some(f) => {
                let ghost before = fields@;
                fields.push(f);
                assert(fields_view(fields@) =~= fields_view(before).push((f.0@, f.1@)));
            },
            None => {},
        }
        k = k + 1;
    }
    assert(fl.take(k - 1) =~= fl);
    fields
}

/// The value of the first field named `key`.
pub fn field(fields: &Vec<(String, String)>, key: &str) -> (r: Option<String>)
    ensures
        opt_view(r) == field_spec(fields_view(fields@), key@),
{
    let ghost fv = fields_view(fields@);
    let mut k: usize = 0;
    assert(fv.skip(0) =~= fv);
    while k < fields.len()
        invariant
            fv == fields_view(fields@),
            k <= fields.len(),
            field_spec(fv, key@) == field_spec(fv.skip(k as int), key@),
        decreases fields.len() - k,
    {
        assert(fv.skip(k as int).drop_first() =~= fv.skip(k + 1));
        if str_eq(fields[k].0.as_str(), key) {
            return Some(fields[k].1.clone());
        }
        k = k + 1;
    }
    None
}

// ---------------------------------------------------------------------
// Setting a field
// ---------------------------------------------------------------------

/// The lines of a document with field `key` set to `value` in its
/// frontmatter: its first line for `key` replaced, or a new line added
/// before the closing `---`. A document without frontmatter is unchanged.
pub open spec fn set_field_lines(ls: Seq<Seq<char>>, e: int, key: Seq<char>, value: Seq<char>) -> Seq<Seq<char>> {
    let line = key + ": "@ + value;
    match first_key_line(ls, 1, e, key) {
        Some(k) => ls.update(k, line),
        None => ls.take(e) + seq![line] + ls.skip(e),
    }
}

/// The first line in `[from, e)` holding field `key`.
pub open spec fn first_key_line(ls: Seq<Seq<char>>, from: int, e: int, key: Seq<char>) -> Option<int>
    decreases e - from,
{
    if from >= e || from < 0 || from >= ls.len() {
        None
    } else if line_field(ls[from]) matches Some(f) && f.0 == key {
        Some(from)
    } else {
        first_key_line(ls, from + 1, e, key)
    }
}

/// The document with field `key` set to `value` (lines joined by `\n`,
/// with a final newline when the document had one).
pub open spec fn set_field_spec(c: Seq<char>, key: Seq<char>, value: Seq<char>) -> Seq<char> {
    match frontmatter_lines(c) {
        Some((e, _)) => join_lines(set_field_lines(lines_spec(c), e, key, value))
            + if c.len() > 0 && c.last() == '\n' { "\n"@ } else { Seq::empty() },
        None => c,
    }
}

/// Sets field `key` to `value` in a document's frontmatter.
pub fn set_field(content: &str, key: &str, value: &str) -> (r: String)
    ensures
        r@ == set_field_spec(content@, key@, value@),
{
    let ls = lines(content);
    let ghost lv = lines_spec(content@);
    assert(strs_view(ls@) == lv);
    if ls.len() == 0 || !str_eq(trim(ls[0].as_str()), "---") {
        return owned(content);
    }
    let e = match closing_index(&ls) {
        None => return owned(content),
        Some(e) => e,
    };
    let line = concat3(key, ": ", value);
    let mut found: Option<usize> = None;
    let mut j: usize = 1;
    while j < e
        invariant_except_break
            lv == strs_view(ls@),
            1 <= j <= e < ls@.len(),
            found is None,
            first_key_line(lv, 1, e as int, key@) == first_key_line(lv, j as int, e as int, key@),
        ensures
            match found {
                Some(f) => first_key_line(lv, 1, e as int, key@) == Some(f as int) && 1 <= f < e,
                None => first_key_line(lv, 1, e as int, key@) is None,
            },
        decreases e - j,
    {
        assert(lv[j as int] == ls@[j as int]@);
        match parse_field_line(ls[j].as_str()) {
            Some((fk, _)) => {
                if str_eq(fk.as_str(), key) {
                    found = Some(j);
                    break;
                }
            },
            None => {},
        }
        j = j + 1;
    }
    let ghost target = set_field_lines(lv, e as int, key@, value@);
    let mut out: Vec<String> = Vec::new();
    let mut k: usize = 0;
    while k < ls.len()
        invariant
            lv == strs_view(ls@),
            e < ls@.len(),
            target == set_field_lines(lv, e as int, key@, value@),
            match found {
                Some(f) => target == lv.update(f as int, line@) && f < e,
                None => target == lv.take(e as int) + seq![line@] + lv.skip(e as int),
            },
            k <= ls@.len(),
            out@.len() == (if found is None && k > e { k + 1 } else { k as int }),
            forall|i: int| 0 <= i < out@.len() ==> #[trigger] out@[i]@ == target[i],
        decreases ls.len() - k,
    {
        match found {
            Some(f) => {
                if k == f {
                    out.push(line.clone());
                } else {
                    out.push(ls[k].clone());
                    assert(lv[k as int] == ls@[k as int]@);
                }
            },
            None => {
                if k == e {
                    out.push(line.clone());
                }
                out.push(ls[k].clone());
                assert(lv[k as int] == ls@[k as int]@);
            },
        }
        k = k + 1;
    }
    assert(strs_view(out@) =~= target);
    let mut text = join_with_newlines(&out);
    let cs = str_chars(content);
    if cs.len() > 0 && cs[cs.len() - 1] == '\n' {
        text.append("\n");
    }
    text
}

// ---------------------------------------------------------------------
// Entities from fields
// ---------------------------------------------------------------------

/// The decimal number a string spells, if it is one that fits in 32 bits.
pub open spec fn decimal_value(s: Seq<char>) -> Option<nat>
    decreases s.len(),
{
    if s.len() == 0 {
        None
    } else if !('0' <= s.last() && s.last() <= '9') {
        None
    } else if s.len() == 1 {
        Some((s.last() as nat - '0' as nat) as nat)
    } else {
        match decimal_value(s.drop_last()) {
            Some(v) => Some(v * 10 + (s.last() as nat - '0' as nat) as nat),
            None => None,
        }
    }
}

/// Parses a frontmatter index (`u32`).
pub fn parse_u32(s: &str) -> (r: Option<u32>)
    ensures
        match r {
            Some(v) => decimal_value(s@) == Some(v as nat),
            None => decimal_value(s@) is None || decimal_value(s@)->0 > u32::MAX,
        },
{
    let cs = str_chars(s);
    if cs.len() == 0 {
        return None;
    }
    let mut v: u64 = 0;
    let mut k: usize = 0;
    while k < cs.len()
        invariant
            cs@ == s@,
            k <= cs.len(),
            cs.len() > 0,
            k == 0 ==> v == 0,
            k > 0 ==> decimal_value(s@.take(k as int)) == Some(v as nat),
            v <= u32::MAX,
        decreases cs.len() - k,
    {
        assert(s@.take(k + 1).drop_last() =~= s@.take(k as int));
        let c = cs[k];
        if !('0' <= c && c <= '9') {
            proof { lemma_decimal_prefix_none(s@, k + 1); }
            return None;
        }
        let d = (c as u32 - '0' as u32) as u64;
        v = v * 10 + d;
        if v > 0xffff_ffff {
            proof { lemma_decimal_prefix_big(s@, k + 1, v as nat); }
            return None;
        }
        k = k + 1;
    }
    assert(s@.take(k as int) =~= s@);
    Some(v as u32)
}

proof fn lemma_decimal_prefix_none(s: Seq<char>, n: int)
    requires
        1 <= n <= s.len(),
        decimal_value(s.take(n)) is None,
    ensures
        decimal_value(s) is None,
    decreases s.len() - n,
{
    if n < s.len() {
        assert(s.take(n + 1).drop_last() =~= s.take(n));
        lemma_decimal_prefix_none(s, n + 1);
    } else {
        assert(s.take(n) =~= s);
    }
}

proof fn lemma_decimal_prefix_big(s: Seq<char>, n: int, v: nat)
    requires
        1 <= n <= s.len(),
        decimal_value(s.take(n)) == Some(v),
        v > u32::MAX,
    ensures
        decimal_value(s) is None || decimal_value(s)->0 > u32::MAX,
    decreases s.len() - n,
{
    if n < s.len() {
        assert(s.take(n + 1).drop_last() =~= s.take(n));
        match decimal_value(s.take(n + 1)) {
            Some(w) => lemma_decimal_prefix_big(s, n + 1, w),
            None => lemma_decimal_prefix_none(s, n + 1),
        }
    } else {
        assert(s.take(n) =~= s);
    }
}

/// The story type a frontmatter names.
pub open spec fn story_type_named(s: Seq<char>) -> Option<StoryType> {
    if s == "feat"@ { Some(StoryType::Feat) }
    else if s == "bug"@ { Some(StoryType::Bug) }
    else if s == "fix"@ { Some(StoryType::Fix) }
    else if s == "refactor"@ { Some(StoryType::Refactor) }
    else if s == "chore"@ { Some(StoryType::Chore) }
    else if s == "docs"@ { Some(StoryType::Docs) }
    else { None }
}

/// The voyage status a frontmatter names.
pub open spec fn voyage_state_named(s: Seq<char>) -> Option<VoyageState> {
    if s == "draft"@ { Some(VoyageState::Draft) }
    else if s == "planned"@ { Some(VoyageState::Planned) }
    else if s == "in-progress"@ { Some(VoyageState::InProgress) }
    else if s == "done"@ { Some(VoyageState::Done) }
    else { None }
}

fn parse_story_type(s: &str) -> (r: Option<StoryType>)
    ensures
        r == story_type_named(s@),
{
    if str_eq(s, "feat") { Some(StoryType::Feat) }
    else if str_eq(s, "bug") { Some(StoryType::Bug) }
    else if str_eq(s, "fix") { Some(StoryType::Fix) }
    else if str_eq(s, "refactor") { Some(StoryType::Refactor) }
    else if str_eq(s, "chore") { Some(StoryType::Chore) }
    else if str_eq(s, "docs") { Some(StoryType::Docs) }
    else { None }
}

fn parse_voyage_state(s: &str) -> (r: Option<VoyageState>)
    ensures
        r == voyage_state_named(s@),
{
    if str_eq(s, "draft") { Some(VoyageState::Draft) }
    else if str_eq(s, "planned") { Some(VoyageState::Planned) }
    else if str_eq(s, "in-progress") { Some(VoyageState::InProgress) }
    else if str_eq(s, "done") { Some(VoyageState::Done) }
    else { None }
}

/// The id an entity has: its `id` field, else its directory's name.
pub open spec fn id_of(fs: Seq<(Seq<char>, Seq<char>)>, dir: Seq<char>) -> Seq<char> {
    match field_spec(fs, "id"@) { Some(v) => v, None => dir }
}

/// A field's value, or nothing when it is missing.
pub open spec fn text_of(fs: Seq<(Seq<char>, Seq<char>)>, key: Seq<char>) -> Seq<char> {
    match field_spec(fs, key) { Some(v) => v, None => Seq::empty() }
}

/// An optional field: present and not empty.
pub open spec fn opt_field(fs: Seq<(Seq<char>, Seq<char>)>, key: Seq<char>) -> Option<Seq<char>> {
    match field_spec(fs, key) { Some(v) => if v.len() > 0 { Some(v) } else { None }, None => None }
}

/// The `index` field, when it is a 32-bit number.
pub open spec fn index_of(fs: Seq<(Seq<char>, Seq<char>)>) -> Option<u32> {
    match field_spec(fs, "index"@) {
        Some(v) => match decimal_value(v) { Some(n) => if n <= u32::MAX { Some(n as u32) } else { None }, None => None },
        None => None,
    }
}

fn text_field(fields: &Vec<(String, String)>, key: &str) -> (r: String)
    ensures
        r@ == text_of(fields_view(fields@), key@),
{
    match field(fields, key) { Some(v) => v, None => String::new() }
}

fn optional_field(fields: &Vec<(String, String)>, key: &str) -> (r: Option<String>)
    ensures
        opt_view(r) == opt_field(fields_view(fields@), key@),
{
    match field(fields, key) {
        Some(v) => if v.as_str().unicode_len() > 0 { Some(v) } else { None },
        None => None,
    }
}

fn index_field(fields: &Vec<(String, String)>) -> (r: Option<u32>)
    ensures
        r == index_of(fields_view(fields@)),
{
    match field(fields, "index") {
        Some(v) => parse_u32(v.as_str()),
        None => None,
    }
}

fn id_field(fields: &Vec<(String, String)>, dir: &str) -> (r: String)
    ensures
        r@ == id_of(fields_view(fields@), dir@),
{
    match field(fields, "id") { Some(v) => v, None => owned(dir) }
}

/// Reads a story from the fields of its README (`dir` names its bundle).
/// The status must be a known stage; an unknown type reads as `feat`.
/// Timestamps are left for the caller.
pub fn story_from_fields(dir: &str, fields: &Vec<(String, String)>) -> (r: Result<Story, String>)
    ensures
        match r {
            Ok(s) => {
                let fs = fields_view(fields@);
                &&& s.id@ == id_of(fs, dir@)
                &&& s.title@ == text_of(fs, "title"@)
                &&& field_spec(fs, "status"@) matches Some(st) && stage_named(st) == Some(s.stage)
                &&& s.story_type == match field_spec(fs, "type"@) {
                    Some(t) => match story_type_named(t) { Some(k) => k, None => StoryType::Feat },
                    None => StoryType::Feat,
                }
                &&& opt_view(s.scope) == opt_field(fs, "scope"@)
                &&& s.index == index_of(fs)
                &&& s.submitted_at is None && s.updated_at is None
            },
            Err(m) => m@ == "Story "@ + id_of(fields_view(fields@), dir@) + " has no known status"@
                && !(field_spec(fields_view(fields@), "status"@) matches Some(st) && stage_named(st) is Some),
        },
{
    let id = id_field(fields, dir);
    let stage = match field(fields, "status") {
        Some(st) => match parse_stage(st.as_str()) {
            Some(x) => x,
            None => return Err(concat3("Story ", id.as_str(), " has no known status")),
        },
        None => return Err(concat3("Story ", id.as_str(), " has no known status")),
    };
    let story_type = match field(fields, "type") {
        Some(t) => match parse_story_type(t.as_str()) { Some(k) => k, None => StoryType::Feat },
        None => StoryType::Feat,
    };
    Ok(Story {
        id,
        title: text_field(fields, "title"),
        stage,
        story_type,
        scope: optional_field(fields, "scope"),
        index: index_field(fields),
        submitted_at: None,
        updated_at: None,
    })
}

/// Reads a voyage from the fields of its README (`dir` names its
/// directory, `epic_dir` the epic directory holding it).
pub fn voyage_from_fields(dir: &str, epic_dir: &str, fields: &Vec<(String, String)>) -> (r: Result<Voyage, String>)
    ensures
        match r {
            Ok(v) => {
                let fs = fields_view(fields@);
                &&& v.id@ == id_of(fs, dir@)
                &&& v.title@ == text_of(fs, "title"@)
                &&& field_spec(fs, "status"@) matches Some(st) && voyage_state_named(st) == Some(v.status)
                &&& opt_view(v.epic) == opt_field(fs, "epic"@)
                &&& v.epic_id@ == epic_dir@
                &&& v.index == index_of(fs)
            },
            Err(m) => m@ == "Voyage "@ + id_of(fields_view(fields@), dir@) + " has no known status"@
                && !(field_spec(fields_view(fields@), "status"@) matches Some(st) && voyage_state_named(st) is Some),
        },
{
    let id = id_field(fields, dir);
    let status = match field(fields, "status") {
        Some(st) => match parse_voyage_state(st.as_str()) {
            Some(x) => x,
            None => return Err(concat3("Voyage ", id.as_str(), " has no known status")),
        },
        None => return Err(concat3("Voyage ", id.as_str(), " has no known status")),
    };
    Ok(Voyage {
        id,
        title: text_field(fields, "title"),
        status,
        epic: optional_field(fields, "epic"),
        epic_id: owned(epic_dir),
        index: index_field(fields),
    })
}

/// Reads an epic from the fields of its README (`dir` names its directory).
pub fn epic_from_fields(dir: &str, fields: &Vec<(String, String)>) -> (e: Epic)
    ensures
        e.id@ == id_of(fields_view(fields@), dir@),
        e.title@ == text_of(fields_view(fields@), "title"@),
        e.index == index_of(fields_view(fields@)),
{
    Epic { id: id_field(fields, dir), title: text_field(fields, "title"), index: index_field(fields) }
}

} // verus!
