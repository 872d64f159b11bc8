//! Creating a story: its scope and index, the decisions that govern or
//! block its context, and the text of its README.

use vstd::prelude::*;
use crate::board::{Board, Adr, AdrStatus, Story, opt_view};
use crate::order::{SortKey, KeyView, keys_view, sort_eligible, sorted_eligible};
use crate::text::{str_eq, owned, concat2, concat3, str_chars, find, find_spec, find_from, lemma_find_from,
    chars_find_from, decimal, join_with};
use crate::flow_format::str_list;

verus! {

// ---------------------------------------------------------------------
// Text
// ---------------------------------------------------------------------

/// `s` from position `i` on, with every occurrence of `pat` replaced by
/// `rep`, left to right (`str::replace`).
pub open spec fn replace_from(s: Seq<char>, pat: Seq<char>, rep: Seq<char>, i: int) -> Seq<char>
    recommends
        0 <= i <= s.len(),
    decreases s.len() + 1 - i,
{
    if i < 0 || i > s.len() {
        Seq::empty()
    } else {
        match find_from(s, pat, i) {
            Some(k) => {
                if pat.len() > 0 && i <= k && k + pat.len() <= s.len() {
                    s.subrange(i, k) + rep + replace_from(s, pat, rep, k + pat.len())
                } else {
                    s.subrange(i, s.len() as int)
                }
            },
            None => s.subrange(i, s.len() as int),
        }
    }
}

/// `s` with every occurrence of `pat` replaced by `rep`.
pub open spec fn replace_all(s: Seq<char>, pat: Seq<char>, rep: Seq<char>) -> Seq<char> {
    replace_from(s, pat, rep, 0)
}

/// Replaces every occurrence of a non-empty `pat` in `s` by `rep`.
pub fn replace_str(s: &str, pat: &str, rep: &str) -> (r: String)
    requires
        pat@.len() > 0,
    ensures
        r@ == replace_all(s@, pat@, rep@),
{
    let hay = str_chars(s);
    let needle = str_chars(pat);
    let mut out = String::new();
    let mut i: usize = 0;
    loop
        invariant_except_break
            hay@ == s@,
            needle@ == pat@,
            pat@.len() > 0,
            i <= hay.len(),
            out@ + replace_from(s@, pat@, rep@, i as int) == replace_all(s@, pat@, rep@),
        ensures
            out@ == replace_all(s@, pat@, rep@),
        decreases hay.len() + 1 - i,
    {
        proof {
            lemma_find_from(s@, pat@, i as int);
        }
        let ghost before = out@;
        match chars_find_from(hay.as_slice(), needle.as_slice(), i) {
            Some(k) => {
                let mut j: usize = i;
                while j < k
                    invariant
                        hay@ == s@,
                        i <= j <= k,
                        k <= hay.len(),
                        out@ == before + s@.subrange(i as int, j as int),
                    decreases k - j,
                {
                    crate::text::push_char(&mut out, hay[j]);
                    j = j + 1;
                    assert(out@ =~= before + s@.subrange(i as int, j as int));
                }
                out.append(rep);
                let ghost nxt = (k + needle.len()) as int;
                assert(replace_from(s@, pat@, rep@, i as int)
                    == s@.subrange(i as int, k as int) + rep@ + replace_from(s@, pat@, rep@, nxt));
                assert(out@ + replace_from(s@, pat@, rep@, nxt)
                    =~= before + (s@.subrange(i as int, k as int) + rep@ + replace_from(s@, pat@, rep@, nxt)));
                i = k + needle.len();
            },
            None => {
                let mut j: usize = i;
                while j < hay.len()
                    invariant
                        hay@ == s@,
                        i <= j <= hay.len(),
                        out@ == before + s@.subrange(i as int, j as int),
                    decreases hay.len() - j,
                {
                    crate::text::push_char(&mut out, hay[j]);
                    j = j + 1;
                    assert(out@ =~= before + s@.subrange(i as int, j as int));
                }
                break;
            },
        }
    }
    out
}

/// The template with each `{{key}}` replaced by its value, the pairs taken
/// in order.
pub open spec fn render_spec(template: Seq<char>, vars: Seq<(Seq<char>, Seq<char>)>) -> Seq<char>
    decreases vars.len(),
{
    if vars.len() == 0 {
        template
    } else {
        let v = vars.last();
        replace_all(render_spec(template, vars.drop_last()), "{{"@ + v.0 + "}}"@, v.1)
    }
}

/// The pairs as plain values.
pub open spec fn vars_view(vars: Seq<(&str, &str)>) -> Seq<(Seq<char>, Seq<char>)> {
    vars.map_values(|p: (&str, &str)| (p.0@, p.1@))
}

/// Fills a template's `{{key}}` placeholders.
pub fn render_template(template: &str, vars: &[(&str, &str)]) -> (r: String)
    ensures
        r@ == render_spec(template@, vars_view(vars@)),
{
    let ghost vv = vars_view(vars@);
    let mut out = owned(template);
    let mut k: usize = 0;
    while k < vars.len()
        invariant
            vv == vars_view(vars@),
            k <= vars.len(),
            out@ == render_spec(template@, vv.take(k as int)),
        decreases vars.len() - k,
    {
        assert(vv.take(k + 1).drop_last() =~= vv.take(k as int));
        let (key, value) = vars[k];
        let pat = concat3("{{", key, "}}");
        proof {
            reveal_strlit("{{");
        }
        out = replace_str(out.as_str(), pat.as_str(), value);
        k = k + 1;
    }
    assert(vv.take(k as int) =~= vv);
    out
}

/// `content` with `new_line` inserted on its own line after the first line
/// that reads `after_field`; unchanged when there is none.
pub open spec fn insert_field_spec(content: Seq<char>, after_field: Seq<char>, new_line: Seq<char>) -> Seq<char> {
    let marker = after_field + "\n"@;
    match find_spec(content, marker) {
        Some(pos) => content.take(pos + marker.len()) + new_line + "\n"@ + content.skip(pos + marker.len()),
        None => content,
    }
}

/// Inserts a frontmatter line after the line `after_field`.
pub fn insert_frontmatter_field(content: &str, after_field: &str, new_line: &str) -> (r: String)
    ensures
        r@ == insert_field_spec(content@, after_field@, new_line@),
{
    let marker = concat2(after_field, "\n");
    match find(content, marker.as_str()) {
        Some(pos) => {
            proof {
                lemma_find_from(content@, marker@, 0);
            }
            let n = content.unicode_len();
            let insert_pos = pos + marker.unicode_len();
            let head = content.substring_char(0, insert_pos);
            let tail = content.substring_char(insert_pos, n);
            assert(head@ =~= content@.take(insert_pos as int));
            assert(tail@ =~= content@.skip(insert_pos as int));
            let mut r = owned(head);
            r.append(new_line);
            r.append("\n");
            r.append(tail);
            r
        },
        None => owned(content),
    }
}

/// The frontmatter of a new story's rendered template completed with its
/// scope (after the `updated_at: now` line), its index (after the scope),
/// and the accepted ADRs that govern it as `governed-by: [A, B]` (after the
/// index, else the scope, else the `updated_at` line).
pub open spec fn story_frontmatter_spec(content: Seq<char>, now: Seq<char>, scope: Option<Seq<char>>,
    index: Option<u32>, governing: Seq<Seq<char>>) -> Seq<char>
{
    let with_scope = match scope {
        Some(sc) => insert_field_spec(content, "updated_at: "@ + now, "scope: "@ + sc),
        None => content,
    };
    let with_index = match (scope, index) {
        (Some(sc), Some(i)) => insert_field_spec(with_scope, "scope: "@ + sc, "index: "@ + decimal(i as nat)),
        _ => with_scope,
    };
    if governing.len() > 0 {
        let after = match (scope, index) {
            (Some(_), Some(i)) => "index: "@ + decimal(i as nat),
            _ => match scope {
                Some(sc) => "scope: "@ + sc,
                None => "updated_at: "@ + now,
            },
        };
        insert_field_spec(with_index, after, "governed-by: ["@ + join_with(governing, ", "@) + "]"@)
    } else {
        with_index
    }
}

fn join_ids(parts: &Vec<String>) -> (r: String)
    ensures
        r@ == join_with(str_list(parts@), ", "@),
{
    let ghost v = str_list(parts@);
    let mut r = String::new();
    let mut i: usize = 0;
    while i < parts.len()
        invariant
            v == str_list(parts@),
            i <= parts.len(),
            r@ == join_with(v.take(i as int), ", "@),
        decreases parts.len() - i,
    {
        assert(v.take(i + 1).drop_last() =~= v.take(i as int));
        if i > 0 {
            r.append(", ");
        } else {
            assert(v.take(1) =~= seq![v[0]]);
        }
        r.append(parts[i].as_str());
        i = i + 1;
    }
    assert(v.take(i as int) =~= v);
    r
}

/// Completes a new story's frontmatter: `content` is the rendered
/// template, `now` its creation time, `scope` and `index` where the story
/// goes, `governing` the ADRs that govern its context.
pub fn assemble_story_frontmatter(content: &str, now: &str, scope: Option<&str>, index: Option<u32>,
    governing: &Vec<String>) -> (r: String)
    ensures
        r@ == story_frontmatter_spec(content@, now@, match scope { Some(s) => Some(s@), None => None },
            index, str_list(governing@)),
{
    let updated = concat2("updated_at: ", now);
    let mut out = owned(content);
    if let Some(sc) = scope {
        let line = concat2("scope: ", sc);
        out = insert_frontmatter_field(out.as_str(), updated.as_str(), line.as_str());
    }
    if let (Some(sc), Some(i)) = (scope, index) {
        let after = concat2("scope: ", sc);
        let idx = u32_text(i);
        let line = concat2("index: ", idx.as_str());
        out = insert_frontmatter_field(out.as_str(), after.as_str(), line.as_str());
    }
    if governing.len() > 0 {
        let after = match (scope, index) {
            (Some(_), Some(i)) => {
                let idx = u32_text(i);
                concat2("index: ", idx.as_str())
            },
            _ => match scope {
                Some(sc) => concat2("scope: ", sc),
                None => concat2("updated_at: ", now),
            },
        };
        let joined = join_ids(governing);
        let line = concat3("governed-by: [", joined.as_str(), "]");
        out = insert_frontmatter_field(out.as_str(), after.as_str(), line.as_str());
    }
    out
}

fn u32_text(n: u32) -> (r: String)
    ensures
        r@ == decimal(n as nat),
    decreases n,
{
    if n < 10 {
        crate::text::usize_to_string(n as usize)
    } else {
        let mut r = u32_text(n / 10);
        let d = crate::text::usize_to_string((n % 10) as usize);
        assert(decimal((n % 10) as nat) == seq![crate::text::digit_char((n % 10) as nat)]);
        r.append(d.as_str());
        r
    }
}

// ---------------------------------------------------------------------
// Index and decisions
// ---------------------------------------------------------------------

/// The largest index among the stories with exactly this scope (0 when
/// none has one).
pub open spec fn max_scope_index(stories: Seq<Story>, scope: Seq<char>) -> nat
    decreases stories.len(),
{
    if stories.len() == 0 {
        0
    } else {
        let m = max_scope_index(stories.drop_last(), scope);
        let s = stories.last();
        if opt_view(s.scope) == Some(scope) && s.index is Some && s.index->0 > m {
            s.index->0 as nat
        } else {
            m
        }
    }
}

proof fn lemma_max_scope_index_bound(stories: Seq<Story>, scope: Seq<char>)
    ensures
        max_scope_index(stories, scope) <= u32::MAX,
    decreases stories.len(),
{
    if stories.len() > 0 {
        lemma_max_scope_index_bound(stories.drop_last(), scope);
    }
}

/// The index a new story of `scope` takes: one past the largest.
pub fn find_next_index(board: &Board, scope: &str) -> (r: u32)
    requires
        max_scope_index(board.stories@, scope@) < u32::MAX,
    ensures
        r == max_scope_index(board.stories@, scope@) + 1,
{
    let mut m: u32 = 0;
    let mut k: usize = 0;
    while k < board.stories.len()
        invariant
            k <= board.stories.len(),
            m == max_scope_index(board.stories@.take(k as int), scope@),
        decreases board.stories.len() - k,
    {
        assert(board.stories@.take(k + 1).drop_last() =~= board.stories@.take(k as int));
        let s = &board.stories[k];
        match (&s.scope, s.index) {
            (Some(sc), Some(i)) => {
                if str_eq(sc.as_str(), scope) && i > m {
                    m = i;
                }
            },
            _ => {},
        }
        k = k + 1;
    }
    assert(board.stories@.take(k as int) =~= board.stories@);
    m + 1
}

/// The ADR covers bounded context `ctx`: it names it as its context or
/// among the contexts it applies to.
pub open spec fn covers_context(a: Adr, ctx: Seq<char>) -> bool {
    opt_view(a.context) == Some(ctx) || str_list(a.applies_to@).contains(ctx)
}

fn adr_covers(a: &Adr, ctx: &str) -> (r: bool)
    ensures
        r == covers_context(*a, ctx@),
{
    match &a.context {
        Some(c) => {
            if str_eq(c.as_str(), ctx) {
                return true;
            }
        },
        None => {},
    }
    let mut k: usize = 0;
    while k < a.applies_to.len()
        invariant
            k <= a.applies_to.len(),
            forall|j: int| 0 <= j < k ==> (#[trigger] a.applies_to@[j])@ != ctx@,
        decreases a.applies_to.len() - k,
    {
        if str_eq(a.applies_to[k].as_str(), ctx) {
            assert(str_list(a.applies_to@)[k as int] == ctx@);
            return true;
        }
        k = k + 1;
    }
    proof {
        if str_list(a.applies_to@).contains(ctx@) {
            let w = choose|j: int| 0 <= j < str_list(a.applies_to@).len() && str_list(a.applies_to@)[j] == ctx@;
            assert(a.applies_to@[w]@ == ctx@);
        }
    }
    false
}

pub open spec fn adr_keys(b: Board) -> Seq<KeyView> {
    b.adrs@.map_values(|a: Adr| (0int, Seq::<char>::empty(), 0int, 0int, a.id@))
}

pub open spec fn adr_oks(b: Board, st: AdrStatus, ctx: Seq<char>) -> Seq<bool> {
    b.adrs@.map_values(|a: Adr| a.status == st && covers_context(a, ctx))
}

fn adr_selection(b: &Board, st: AdrStatus, ctx: &str) -> (r: (Vec<SortKey>, Vec<bool>))
    ensures
        r.0@.len() == b.adrs@.len(),
        r.1@.len() == b.adrs@.len(),
        keys_view(r.0@) == adr_keys(*b),
        r.1@ == adr_oks(*b, st, ctx@),
{
    let mut keys: Vec<SortKey> = Vec::new();
    let mut oks: Vec<bool> = Vec::new();
    let mut k: usize = 0;
    while k < b.adrs.len()
        invariant
            k <= b.adrs.len(),
            keys@.len() == k,
            oks@.len() == k,
            forall|i: int| 0 <= i < k ==> #[trigger] keys@[i].view() == (0int, Seq::<char>::empty(), 0int, 0int, b.adrs@[i].id@),
            forall|i: int| 0 <= i < k ==> #[trigger] oks@[i] == (b.adrs@[i].status == st && covers_context(b.adrs@[i], ctx@)),
        decreases b.adrs.len() - k,
    {
        let a = &b.adrs[k];
        keys.push(SortKey { a: 0, pre: String::new(), b: 0, c: 0, name: a.id.clone() });
        oks.push(a.status == st && adr_covers(a, ctx));
        k = k + 1;
    }
    assert(keys_view(keys@) =~= adr_keys(*b));
    assert(oks@ =~= adr_oks(*b, st, ctx@));
    (keys, oks)
}

/// The accepted ADRs governing bounded context `context`, by id.
pub fn find_governing_adrs(board: &Board, context: &str) -> (r: Vec<String>)
    ensures
        exists|order: Seq<int>| sorted_eligible(adr_keys(*board), adr_oks(*board, AdrStatus::Accepted, context@), order)
            && str_list(r@) == order.map_values(|i: int| board.adrs@[i].id@),
{
    let (keys, oks) = adr_selection(board, AdrStatus::Accepted, context);
    let order = sort_eligible(&keys, &oks);
    let ghost ov = order@.map_values(|i: usize| i as int);
    let mut r: Vec<String> = Vec::new();
    let mut p: usize = 0;
    while p < order.len()
        invariant
            ov == order@.map_values(|i: usize| i as int),
            sorted_eligible(adr_keys(*board), adr_oks(*board, AdrStatus::Accepted, context@), ov),
            keys@.len() == board.adrs@.len(),
            p <= order.len(),
            str_list(r@) == ov.take(p as int).map_values(|i: int| board.adrs@[i].id@),
        decreases order.len() - p,
    {
        let i = order[p];
        assert(ov[p as int] == i as int);
        let ghost old_r = r@;
        r.push(board.adrs[i].id.clone());
        assert(str_list(r@) =~= str_list(old_r).push(board.adrs@[i as int].id@));
        assert(ov.take(p + 1) =~= ov.take(p as int).push(i as int));
        p = p + 1;
        assert(str_list(r@) =~= ov.take(p as int).map_values(|i: int| board.adrs@[i].id@));
    }
    assert(ov.take(p as int) =~= ov);
    r
}

/// A proposed ADR that blocks new work in a context.
#[derive(Clone, Debug)]
pub struct BlockingAdr {
    pub id: String,
    pub title: String,
}

/// Blocking ADRs as plain values.
pub open spec fn blocking_view(v: Seq<BlockingAdr>) -> Seq<(Seq<char>, Seq<char>)> {
    v.map_values(|x: BlockingAdr| (x.id@, x.title@))
}

/// The ids and titles of the ADRs at the given positions.
pub open spec fn adr_pairs(b: Board, order: Seq<int>) -> Seq<(Seq<char>, Seq<char>)> {
    order.map_values(|i: int| (b.adrs@[i].id@, b.adrs@[i].title@))
}

/// The proposed ADRs covering bounded context `context`, by id.
pub fn find_blocking_adrs(board: &Board, context: &str) -> (r: Vec<BlockingAdr>)
    ensures
        exists|order: Seq<int>| sorted_eligible(adr_keys(*board), adr_oks(*board, AdrStatus::Proposed, context@), order)
            && blocking_view(r@) == adr_pairs(*board, order),
{
    let (keys, oks) = adr_selection(board, AdrStatus::Proposed, context);
    let order = sort_eligible(&keys, &oks);
    let ghost ov = order@.map_values(|i: usize| i as int);
    let mut r: Vec<BlockingAdr> = Vec::new();
    let mut p: usize = 0;
    while p < order.len()
        invariant
            ov == order@.map_values(|i: usize| i as int),
            sorted_eligible(adr_keys(*board), adr_oks(*board, AdrStatus::Proposed, context@), ov),
            keys@.len() == board.adrs@.len(),
            p <= order.len(),
            blocking_view(r@) == adr_pairs(*board, ov.take(p as int)),
        decreases order.len() - p,
    {
        let i = order[p];
        assert(ov[p as int] == i as int);
        let a = &board.adrs[i];
        let ghost old_r = r@;
        r.push(BlockingAdr { id: a.id.clone(), title: a.title.clone() });
        assert(blocking_view(r@) =~= blocking_view(old_r).push((a.id@, a.title@)));
        assert(ov.take(p + 1) =~= ov.take(p as int).push(i as int));
        p = p + 1;
        assert(blocking_view(r@) =~= adr_pairs(*board, ov.take(p as int)));
    }
    assert(ov.take(p as int) =~= ov);
    r
}

// ---------------------------------------------------------------------
// Guidance and validation
// ---------------------------------------------------------------------

/// The commands suggested after creating a story in the icebox.
pub fn icebox_guidance_commands(story_id: &str) -> (r: [String; 2])
    ensures
        r[0]@ == "keel story thaw "@ + story_id@,
        r[1]@ == "keel story start "@ + story_id@,
{
    [concat2("keel story thaw ", story_id), concat2("keel story start ", story_id)]
}

pub open spec fn icebox_guidance_spec(story_id: Seq<char>) -> Seq<char> {
    "\nNext steps:\n  "@ + "keel story thaw "@ + story_id + "\n  "@ + "keel story start "@ + story_id + "\n"@
}

/// The next-step block printed after creating a story.
pub fn render_icebox_guidance(story_id: &str) -> (r: String)
    ensures
        r@ == icebox_guidance_spec(story_id@),
{
    let cmds = icebox_guidance_commands(story_id);
    let mut r = concat2("\nNext steps:\n  ", cmds[0].as_str());
    r.append("\n  ");
    r.append(cmds[1].as_str());
    r.append("\n");
    r
}

/// The scope of a new story: `epic/voyage`, or the epic alone.
pub open spec fn new_scope_spec(epic: Option<Seq<char>>, voyage: Option<Seq<char>>) -> Option<Seq<char>> {
    match epic {
        Some(e) => match voyage {
            Some(v) => Some(e + "/"@ + v),
            None => Some(e),
        },
        None => None,
    }
}

/// The scope a new story is created in.
pub fn new_story_scope(epic: Option<&str>, voyage: Option<&str>) -> (r: Option<String>)
    ensures
        opt_view(r) == new_scope_spec(match epic { Some(e) => Some(e@), None => None },
            match voyage { Some(v) => Some(v@), None => None }),
{
    match (epic, voyage) {
        (Some(e), Some(m)) => Some(concat3(e, "/", m)),
        (Some(e), None) => Some(owned(e)),
        _ => None,
    }
}

/// Why a story cannot be created in `context` while `adr` is proposed.
pub open spec fn blocked_context_message(context: Seq<char>, id: Seq<char>, title: Seq<char>) -> Seq<char> {
    "Cannot create story in '"@ + context + "' context\n\n"@ + id + " ("@ + title
        + ") is proposed and blocks\nnew work in this area until accepted.\n\nTo proceed:\n  keel adr accept "@
        + id + "\n  keel adr reject "@ + id + " \"reason\""@
}

fn blocked_context_error(context: &str, adr: &BlockingAdr) -> (r: String)
    ensures
        r@ == blocked_context_message(context@, adr.id@, adr.title@),
{
    let mut r = concat3("Cannot create story in '", context, "' context\n\n");
    r.append(adr.id.as_str());
    r.append(" (");
    r.append(adr.title.as_str());
    r.append(") is proposed and blocks\nnew work in this area until accepted.\n\nTo proceed:\n  keel adr accept ");
    r.append(adr.id.as_str());
    r.append("\n  keel adr reject ");
    r.append(adr.id.as_str());
    r.append(" \"reason\"");
    r
}

/// The first voyage with this id.
pub open spec fn voyage_named(b: Board, id: Seq<char>) -> Option<int> {
    crate::board::first_index_of(crate::board::voyage_ids(b), id)
}

/// Whether a story may be created in `epic` (and `voyage`): no proposed ADR
/// may cover the epic (the first by id is named), and a named voyage must
/// exist and belong to the epic.
pub open spec fn new_story_check_spec(b: Board, epic: Option<Seq<char>>, voyage: Option<Seq<char>>,
    first_blocking: Option<(Seq<char>, Seq<char>)>) -> Result<(), Seq<char>> {
    match (epic, first_blocking) {
        (Some(e), Some(a)) => Err(blocked_context_message(e, a.0, a.1)),
        _ => match (epic, voyage) {
            (Some(e), Some(v)) => match voyage_named(b, v) {
                Some(i) => if b.voyages@[i].epic_id@ != e {
                    Err("Cannot create scoped story: voyage '"@ + v + "' is in epic '"@ + b.voyages@[i].epic_id@
                        + "', expected '"@ + e + "'"@)
                } else {
                    Ok(())
                },
                None => Err("Voyage not found: "@ + v),
            },
            _ => Ok(()),
        },
    }
}

/// The first proposed ADR (by id) covering `epic`.
pub open spec fn first_blocking_adr(b: Board, epic: Seq<char>, order: Seq<int>) -> Option<(Seq<char>, Seq<char>)> {
    if order.len() > 0 {
        Some((b.adrs@[order[0]].id@, b.adrs@[order[0]].title@))
    } else {
        None
    }
}

pub open spec fn epic_view(epic: Option<&str>) -> Option<Seq<char>> {
    match epic {
        Some(e) => Some(e@),
        None => None,
    }
}

/// `order` lists the proposed ADRs covering the epic, and `r` is what the
/// check decides with the first of them.
pub open spec fn check_outcome(b: Board, epic: Option<&str>, voyage: Option<&str>, order: Seq<int>,
    r: Result<(), String>) -> bool {
    &&& match epic {
        Some(e) => sorted_eligible(adr_keys(b), adr_oks(b, AdrStatus::Proposed, e@), order),
        None => order.len() == 0,
    }
    &&& {
        let expect = new_story_check_spec(b, epic_view(epic), epic_view(voyage),
            match epic { Some(e) => first_blocking_adr(b, e@, order), None => None });
        match r {
            Ok(()) => expect is Ok,
            Err(m) => expect == Err::<(), Seq<char>>(m@),
        }
    }
}

/// Checks that a story may be created in `epic` and `voyage`.
pub fn check_new_story(board: &Board, epic: Option<&str>, voyage: Option<&str>) -> (r: Result<(), String>)
    ensures
        exists|order: Seq<int>| check_outcome(*board, epic, voyage, order, r),
{
    let ghost mut ord: Seq<int> = Seq::empty();
    if let Some(context) = epic {
        let blocking = find_blocking_adrs(board, context);
        proof {
            ord = choose|order: Seq<int>| sorted_eligible(adr_keys(*board), adr_oks(*board, AdrStatus::Proposed, context@), order)
                && blocking_view(blocking@) == adr_pairs(*board, order);
            assert(blocking_view(blocking@).len() == ord.len());
        }
        if blocking.len() > 0 {
            assert(blocking_view(blocking@)[0] == (blocking@[0].id@, blocking@[0].title@));
            let msg = blocked_context_error(context, &blocking[0]);
            assert(check_outcome(*board, epic, voyage, ord, Err(msg)));
            return Err(msg);
        }
    }
    match (epic, voyage) {
        (Some(epic_id), Some(voyage_id)) => {
            let mut k: usize = 0;
            while k < board.voyages.len()
                invariant
                    k <= board.voyages.len(),
                    forall|j: int| 0 <= j < k ==> (#[trigger] board.voyages@[j]).id@ != voyage_id@,
                    epic == Some(epic_id),
                    voyage == Some(voyage_id),
                    ord.len() == 0,
                    sorted_eligible(adr_keys(*board), adr_oks(*board, AdrStatus::Proposed, epic_id@), ord),
                decreases board.voyages.len() - k,
            {
                if str_eq(board.voyages[k].id.as_str(), voyage_id) {
                    proof {
                        crate::flow_format::lemma_first_at(crate::board::voyage_ids(*board), voyage_id@, k as int);
                    }
                    let v = &board.voyages[k];
                    if !str_eq(v.epic_id.as_str(), epic_id) {
                        let mut m = concat3("Cannot create scoped story: voyage '", voyage_id, "' is in epic '");
                        m.append(v.epic_id.as_str());
                        m.append("', expected '");
                        m.append(epic_id);
                        m.append("'");
                        assert(check_outcome(*board, epic, voyage, ord, Err(m)));
                        return Err(m);
                    }
                    assert(check_outcome(*board, epic, voyage, ord, Ok(())));
                    return Ok(());
                }
                k = k + 1;
            }
            proof {
                assert forall|j: int| 0 <= j < crate::board::voyage_ids(*board).len() implies
                    crate::board::voyage_ids(*board)[j] != voyage_id@ by {
                    assert(board.voyages@[j].id@ != voyage_id@);
                }
                crate::flow_format::lemma_first_absent(crate::board::voyage_ids(*board), voyage_id@);
            }
            let m = concat2("Voyage not found: ", voyage_id);
            assert(check_outcome(*board, epic, voyage, ord, Err(m)));
            Err(m)
        },
        _ => {
            assert(check_outcome(*board, epic, voyage, ord, Ok(())));
            Ok(())
        },
    }
}

} // verus!
