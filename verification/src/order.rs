//! Priority keys and the two ways the dashboards rank board entries: the
//! first best entry among the eligible ones, and all eligible entries in
//! key order (ties kept in board order).

use vstd::prelude::*;
use crate::text::{lex_le, lex_lt, lemma_lex_total, lemma_lex_antisym, lemma_lex_trans, str_le, str_eq};

verus! {

/// A ranking key, compared field by field: a rank, a name, two more ranks,
/// and a last name; names compare by code points.
#[derive(Clone, Debug)]
pub struct SortKey {
    pub a: i64,
    pub pre: String,
    pub b: i64,
    pub c: i64,
    pub name: String,
}

/// The mathematical value of a key.
pub type KeyView = (int, Seq<char>, int, int, Seq<char>);

impl SortKey {
    pub open spec fn view(&self) -> KeyView {
        (self.a as int, self.pre@, self.b as int, self.c as int, self.name@)
    }
}

/// The views of a list of keys.
pub open spec fn keys_view(v: Seq<SortKey>) -> Seq<KeyView> {
    v.map_values(|k: SortKey| k.view())
}

/// Strict key order, field by field.
pub open spec fn key_lt(x: KeyView, y: KeyView) -> bool {
    if x.0 != y.0 {
        x.0 < y.0
    } else if x.1 != y.1 {
        lex_lt(x.1, y.1)
    } else if x.2 != y.2 {
        x.2 < y.2
    } else if x.3 != y.3 {
        x.3 < y.3
    } else {
        lex_lt(x.4, y.4)
    }
}

proof fn lemma_lex_lt_trans(a: Seq<char>, b: Seq<char>, c: Seq<char>)
    requires
        lex_lt(a, b),
        lex_lt(b, c),
    ensures
        lex_lt(a, c),
{
    lemma_lex_trans(a, b, c);
    if a == c {
        lemma_lex_antisym(a, b);
    }
}

proof fn lemma_lex_lt_split(a: Seq<char>, b: Seq<char>, c: Seq<char>)
    requires
        lex_lt(a, c),
    ensures
        lex_lt(a, b) || lex_lt(b, c),
{
    lemma_lex_total(a, b);
    lemma_lex_total(b, c);
    if !lex_lt(a, b) && !lex_lt(b, c) {
        if a == b {
        } else {
            assert(lex_le(b, a));
        }
        if b == c {
        } else {
            assert(lex_le(c, b));
        }
        lemma_lex_trans(c, b, a);
        lemma_lex_antisym(a, c);
    }
}

/// The key order is transitive.
pub proof fn lemma_key_lt_trans(x: KeyView, y: KeyView, z: KeyView)
    requires
        key_lt(x, y),
        key_lt(y, z),
    ensures
        key_lt(x, z),
{
    if x.0 == y.0 && y.0 == z.0 {
        if x.1 != y.1 && y.1 != z.1 {
            lemma_lex_lt_trans(x.1, y.1, z.1);
        } else if x.1 == y.1 && y.1 == z.1 && x.2 == y.2 && y.2 == z.2 && x.3 == y.3 && y.3 == z.3 {
            lemma_lex_lt_trans(x.4, y.4, z.4);
        }
    }
}

/// Whatever lies between two ordered keys is after the first or before the
/// second.
pub proof fn lemma_key_lt_split(x: KeyView, y: KeyView, z: KeyView)
    requires
        key_lt(x, z),
    ensures
        key_lt(x, y) || key_lt(y, z),
{
    if x.0 == y.0 && y.0 == z.0 {
        if x.1 != z.1 {
            if x.1 != y.1 && y.1 != z.1 {
                lemma_lex_lt_split(x.1, y.1, z.1);
            } else if x.1 == y.1 {
            } else {
            }
        } else if x.1 == y.1 && x.2 == y.2 && y.2 == z.2 && x.3 == y.3 && y.3 == z.3 {
            lemma_lex_lt_split(x.4, y.4, z.4);
        } else if x.1 != y.1 {
            lemma_lex_total(x.1, y.1);
            lemma_lex_total(y.1, x.1);
        }
    }
}

/// Whether `x` ranks strictly before `y`.
pub fn key_less(x: &SortKey, y: &SortKey) -> (r: bool)
    ensures
        r == key_lt(x.view(), y.view()),
{
    if x.a != y.a {
        x.a < y.a
    } else if !str_eq(x.pre.as_str(), y.pre.as_str()) {
        str_le(x.pre.as_str(), y.pre.as_str())
    } else if x.b != y.b {
        x.b < y.b
    } else if x.c != y.c {
        x.c < y.c
    } else {
        str_le(x.name.as_str(), y.name.as_str()) && !str_eq(x.name.as_str(), y.name.as_str())
    }
}

/// `i` is the first eligible position whose key no eligible key beats.
pub open spec fn first_best(ks: Seq<KeyView>, ok: Seq<bool>, i: int) -> bool {
    &&& 0 <= i < ks.len()
    &&& i < ok.len()
    &&& ok[i]
    &&& forall|j: int| 0 <= j < ks.len() && j < ok.len() && ok[j] ==> !key_lt(#[trigger] ks[j], ks[i])
    &&& forall|j: int| 0 <= j < i && ok[j] ==> key_lt(ks[i], #[trigger] ks[j])
}

/// No position is eligible.
pub open spec fn none_eligible(ok: Seq<bool>) -> bool {
    forall|j: int| 0 <= j < ok.len() ==> !#[trigger] ok[j]
}

/// The first best eligible position, if any position is eligible.
pub open spec fn pick_first(ks: Seq<KeyView>, ok: Seq<bool>) -> Option<int> {
    if exists|i: int| first_best(ks, ok, i) {
        Some(choose|i: int| first_best(ks, ok, i))
    } else {
        None
    }
}

/// At most one position is the first best.
pub proof fn lemma_first_best_unique(ks: Seq<KeyView>, ok: Seq<bool>, i: int, j: int)
    requires
        first_best(ks, ok, i),
        first_best(ks, ok, j),
    ensures
        i == j,
{
    if i < j {
        assert(key_lt(ks[j], ks[i]));
    } else if j < i {
        assert(key_lt(ks[i], ks[j]));
    }
}

/// `pick_first` names the first best position, and finds one whenever a
/// position is eligible.
pub proof fn lemma_pick_first(ks: Seq<KeyView>, ok: Seq<bool>, i: int)
    requires
        first_best(ks, ok, i),
    ensures
        pick_first(ks, ok) == Some(i),
{
    let c = choose|k: int| first_best(ks, ok, k);
    lemma_first_best_unique(ks, ok, i, c);
}

/// The invariant of a scan for the first best over a prefix.
spec fn best_in_prefix(ks: Seq<KeyView>, ok: Seq<bool>, n: int, r: Option<int>) -> bool {
    match r {
        None => forall|j: int| 0 <= j < n ==> !#[trigger] ok[j],
        Some(i) => {
            &&& 0 <= i < n
            &&& ok[i]
            &&& forall|j: int| 0 <= j < n && ok[j] ==> !key_lt(#[trigger] ks[j], ks[i])
            &&& forall|j: int| 0 <= j < i && ok[j] ==> key_lt(ks[i], #[trigger] ks[j])
        },
    }
}

/// The first best position over a prefix, found by a scan.
proof fn lemma_best_prefix(ks: Seq<KeyView>, ok: Seq<bool>, n: int) -> (r: Option<int>)
    requires
        0 <= n <= ks.len(),
        ks.len() == ok.len(),
    ensures
        best_in_prefix(ks, ok, n, r),
    decreases n,
{
    if n == 0 {
        None
    } else {
        let k = n - 1;
        let r0 = lemma_best_prefix(ks, ok, k);
        if !ok[k] {
            r0
        } else {
            match r0 {
                None => Some(k),
                Some(i) => {
                    if key_lt(ks[k], ks[i]) {
                        assert forall|j: int| 0 <= j < n && ok[j] implies !key_lt(#[trigger] ks[j], ks[k]) by {
                            if j < k && key_lt(ks[j], ks[k]) {
                                lemma_key_lt_trans(ks[j], ks[k], ks[i]);
                            }
                        }
                        assert forall|j: int| 0 <= j < k && ok[j] implies key_lt(ks[k], #[trigger] ks[j]) by {
                            if j < i {
                                lemma_key_lt_trans(ks[k], ks[i], ks[j]);
                            } else if j != i {
                                lemma_key_lt_split(ks[k], ks[j], ks[i]);
                            }
                        }
                        Some(k)
                    } else {
                        r0
                    }
                },
            }
        }
    }
}

/// Whenever some position is eligible, `pick_first` names the first best
/// one.
pub proof fn lemma_pick_first_found(ks: Seq<KeyView>, ok: Seq<bool>, j: int)
    requires
        ks.len() == ok.len(),
        0 <= j < ok.len(),
        ok[j],
    ensures
        pick_first(ks, ok) is Some,
        first_best(ks, ok, pick_first(ks, ok)->0),
{
    let r = lemma_best_prefix(ks, ok, ks.len() as int);
    match r {
        Some(i) => {
            lemma_pick_first(ks, ok, i);
        },
        None => {
            assert(!ok[j]);
        },
    }
}

/// The first eligible position with the smallest key.
pub fn select_first(keys: &Vec<SortKey>, ok: &Vec<bool>) -> (r: Option<usize>)
    requires
        keys.len() == ok.len(),
    ensures
        pick_first(keys_view(keys@), ok@) == match r {
            Some(i) => Some(i as int),
            None => None::<int>,
        },
        match r {
            Some(i) => first_best(keys_view(keys@), ok@, i as int),
            None => none_eligible(ok@),
        },
{
    let ghost ks = keys_view(keys@);
    let mut best: Option<usize> = None;
    let mut k: usize = 0;
    while k < keys.len()
        invariant
            ks == keys_view(keys@),
            keys.len() == ok.len(),
            k <= keys.len(),
            best_in_prefix(ks, ok@, k as int, match best { Some(i) => Some(i as int), None => None }),
        decreases keys.len() - k,
    {
        if ok[k] {
            match best {
                None => {
                    best = Some(k);
                },
                Some(i) => {
                    if key_less(&keys[k], &keys[i]) {
                        proof {
                            assert forall|j: int| 0 <= j < k + 1 && ok@[j] implies !key_lt(#[trigger] ks[j], ks[k as int]) by {
                                if j < k && key_lt(ks[j], ks[k as int]) {
                                    lemma_key_lt_trans(ks[j], ks[k as int], ks[i as int]);
                                }
                            }
                            assert forall|j: int| 0 <= j < k && ok@[j] implies key_lt(ks[k as int], #[trigger] ks[j]) by {
                                if j < i {
                                    lemma_key_lt_trans(ks[k as int], ks[i as int], ks[j]);
                                } else if j != i {
                                    lemma_key_lt_split(ks[k as int], ks[j], ks[i as int]);
                                }
                            }
                        }
                        best = Some(k);
                    }
                },
            }
        }
        k = k + 1;
    }
    proof {
        match best {
            Some(i) => {
                lemma_pick_first(ks, ok@, i as int);
            },
            None => {
                if exists|i: int| first_best(ks, ok@, i) {
                    let w = choose|i: int| first_best(ks, ok@, i);
                    assert(ok@[w]);
                }
            },
        }
    }
    best
}

/// Position `i` comes before position `j` in key order, ties broken by
/// position.
pub open spec fn pos_before(ks: Seq<KeyView>, i: int, j: int) -> bool {
    key_lt(ks[i], ks[j]) || (!key_lt(ks[j], ks[i]) && i < j)
}

/// `order` lists exactly the eligible positions, each once, in key order
/// with ties in position order.
pub open spec fn sorted_eligible(ks: Seq<KeyView>, ok: Seq<bool>, order: Seq<int>) -> bool {
    &&& forall|p: int| 0 <= p < order.len() ==> 0 <= #[trigger] order[p] < ks.len() && order[p] < ok.len() && ok[order[p]]
    &&& forall|i: int| 0 <= i < ks.len() && i < ok.len() && #[trigger] ok[i] ==> order.contains(i)
    &&& forall|p: int, q: int| 0 <= p < q < order.len() ==> pos_before(ks, #[trigger] order[p], #[trigger] order[q])
}

/// The eligible positions in key order (a stable sort of the eligible
/// entries).
pub fn sort_eligible(keys: &Vec<SortKey>, ok: &Vec<bool>) -> (order: Vec<usize>)
    requires
        keys.len() == ok.len(),
    ensures
        sorted_eligible(keys_view(keys@), ok@, order@.map_values(|i: usize| i as int)),
{
    let ghost ks = keys_view(keys@);
    let mut order: Vec<usize> = Vec::new();
    let mut k: usize = 0;
    while k < keys.len()
        invariant
            ks == keys_view(keys@),
            keys.len() == ok.len(),
            k <= keys.len(),
            forall|p: int| 0 <= p < order.len() ==> #[trigger] order@[p] < k && ok@[order@[p] as int],
            forall|i: int| 0 <= i < k && #[trigger] ok@[i] ==> order@.contains(i as usize),
            forall|p: int, q: int| 0 <= p < q < order.len()
                ==> pos_before(ks, #[trigger] order@[p] as int, #[trigger] order@[q] as int),
        decreases keys.len() - k,
    {
        if ok[k] {
            let mut pos: usize = 0;
            while pos < order.len() && !key_less(&keys[k], &keys[order[pos]])
                invariant
                    ks == keys_view(keys@),
                    keys.len() == ok.len(),
                    k < keys.len(),
                    pos <= order.len(),
                    forall|p: int| 0 <= p < order.len() ==> #[trigger] order@[p] < k,
                    forall|p: int| 0 <= p < pos ==> !key_lt(ks[k as int], ks[#[trigger] order@[p] as int]),
                decreases order.len() - pos,
            {
                pos = pos + 1;
            }
            let ghost old_order = order@;
            order.insert(pos, k);
            proof {
                assert forall|p: int| 0 <= p < order.len() implies #[trigger] order@[p] < k + 1 && ok@[order@[p] as int] by {
                    if p < pos {
                        assert(order@[p] == old_order[p]);
                    } else if p > pos {
                        assert(order@[p] == old_order[p - 1]);
                    }
                }
                assert forall|i: int| 0 <= i < k + 1 && #[trigger] ok@[i] implies order@.contains(i as usize) by {
                    if i == k {
                        assert(order@[pos as int] == k);
                    } else {
                        let w = choose|p: int| 0 <= p < old_order.len() && old_order[p] == i as usize;
                        if w < pos {
                            assert(order@[w] == old_order[w]);
                        } else {
                            assert(order@[w + 1] == old_order[w]);
                        }
                    }
                }
                assert forall|p: int, q: int| 0 <= p < q < order.len()
                    implies pos_before(ks, #[trigger] order@[p] as int, #[trigger] order@[q] as int) by {
                    let kk = k as int;
                    if p < pos && q < pos {
                        assert(order@[p] == old_order[p] && order@[q] == old_order[q]);
                    } else if p < pos && q == pos {
                        assert(order@[p] == old_order[p]);
                        assert(!key_lt(ks[kk], ks[old_order[p] as int]));
                    } else if p < pos && q > pos {
                        assert(order@[p] == old_order[p] && order@[q] == old_order[q - 1]);
                    } else if p == pos {
                        assert(order@[q] == old_order[q - 1]);
                        let j = old_order[pos as int] as int;
                        let m = old_order[q - 1] as int;
                        assert(key_lt(ks[kk], ks[j]));
                        if q - 1 > pos {
                            assert(pos_before(ks, old_order[pos as int] as int, old_order[q - 1] as int));
                            if key_lt(ks[j], ks[m]) {
                                lemma_key_lt_trans(ks[kk], ks[j], ks[m]);
                            } else {
                                lemma_key_lt_split(ks[kk], ks[m], ks[j]);
                            }
                        }
                    } else {
                        assert(order@[p] == old_order[p - 1] && order@[q] == old_order[q - 1]);
                    }
                }
            }
        }
        k = k + 1;
    }
    proof {
        let ov = order@.map_values(|i: usize| i as int);
        assert forall|i: int| 0 <= i < ks.len() && i < ok@.len() && #[trigger] ok@[i] implies ov.contains(i) by {
            let w = choose|p: int| 0 <= p < order@.len() && order@[p] == i as usize;
            assert(ov[w] == i);
        }
        assert forall|p: int, q: int| 0 <= p < q < ov.len() implies pos_before(ks, #[trigger] ov[p], #[trigger] ov[q]) by {
            assert(ov[p] == order@[p] as int && ov[q] == order@[q] as int);
        }
    }
    order
}

} // verus!
