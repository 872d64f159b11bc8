//! The knowledge-graph view: which nodes of the board's knowledge graph a
//! zoom level and a focus show, and the links drawn between them.

use vstd::prelude::*;
use crate::text::{str_eq, owned};
use crate::board::opt_view;
use crate::flow_format::str_list;
use crate::voyage::plan::opt_str;
use crate::order::{SortKey, KeyView, keys_view, sort_eligible, sorted_eligible};
use crate::knowledge_graph::{KnowledgeGraphZoom, KnowledgeGraphFocus, KnowledgeGraphViewLink,
    KnowledgeGraphViewLinkKind, zoom_rank};

verus! {

// ---------------------------------------------------------------------
// The graph
// ---------------------------------------------------------------------

/// What a node of the knowledge graph stands for.
#[derive(Clone, Copy, Debug, PartialEq, Eq, Structural)]
pub enum KnowledgeGraphNodeKind {
    World,
    Mission,
    Epic,
    Bearing,
    Adr,
    Voyage,
    Story,
    Routine,
    Artifact,
    Knowledge,
    ProjectDoc,
    SourceFile,
}

/// What an edge of the knowledge graph stands for.
#[derive(Clone, Copy, Debug, PartialEq, Eq, Structural)]
pub enum KnowledgeGraphEdgeKind {
    /// A parent holds a child.
    Contains,
    /// A document describes an entity.
    Documents,
    /// Knowledge refers to an entity.
    KnowledgeLink,
    /// A decision applies to an entity.
    AppliesTo,
    /// An artifact is attached to an entity.
    Attachment,
    /// Where knowledge came from.
    Provenance,
    /// A traceability relation (requirements, evidence, code).
    Traceability,
}

/// A node of the knowledge graph.
#[derive(Clone, Debug)]
pub struct KnowledgeGraphNode {
    pub id: String,
    pub title: String,
    pub kind: KnowledgeGraphNodeKind,
    pub state: Option<String>,
    pub parent_id: Option<String>,
}

/// An edge of the knowledge graph.
#[derive(Clone, Debug)]
pub struct KnowledgeGraphEdge {
    pub from: String,
    pub to: String,
    pub kind: KnowledgeGraphEdgeKind,
}

/// The board's knowledge graph: one node per id, and its edges.
#[derive(Clone, Debug)]
pub struct KnowledgeGraphProjection {
    pub nodes: Vec<KnowledgeGraphNode>,
    pub edges: Vec<KnowledgeGraphEdge>,
}

/// A node as the view shows it.
#[derive(Clone, Debug)]
pub struct KnowledgeGraphViewNode {
    pub id: String,
    pub title: String,
    pub kind: KnowledgeGraphNodeKind,
    pub state: Option<String>,
    /// The parent, when it is shown too.
    pub parent_id: Option<String>,
    pub depth: usize,
    /// The node's state is final.
    pub terminal: bool,
    /// How many non-structural edges touch the node.
    pub signal_count: usize,
}

/// The view of the graph at a zoom level, around a focus if any.
#[derive(Clone, Debug)]
pub struct KnowledgeGraphViewProjection {
    pub zoom: KnowledgeGraphZoom,
    pub focus: Option<KnowledgeGraphFocus>,
    pub nodes: Vec<KnowledgeGraphViewNode>,
    pub links: Vec<KnowledgeGraphViewLink>,
}

/// How deep in the graph a kind of node lies.
pub open spec fn kind_depth(k: KnowledgeGraphNodeKind) -> nat {
    match k {
        KnowledgeGraphNodeKind::World => 0,
        KnowledgeGraphNodeKind::Mission => 1,
        KnowledgeGraphNodeKind::Epic | KnowledgeGraphNodeKind::Bearing | KnowledgeGraphNodeKind::Adr => 2,
        KnowledgeGraphNodeKind::Voyage | KnowledgeGraphNodeKind::Story | KnowledgeGraphNodeKind::Routine => 3,
        KnowledgeGraphNodeKind::Artifact | KnowledgeGraphNodeKind::Knowledge | KnowledgeGraphNodeKind::ProjectDoc => 4,
        KnowledgeGraphNodeKind::SourceFile => 5,
    }
}

/// The order in which kinds are listed.
pub open spec fn kind_rank(k: KnowledgeGraphNodeKind) -> int {
    match k {
        KnowledgeGraphNodeKind::World => 0,
        KnowledgeGraphNodeKind::Mission => 1,
        KnowledgeGraphNodeKind::Epic => 2,
        KnowledgeGraphNodeKind::Bearing => 3,
        KnowledgeGraphNodeKind::Adr => 4,
        KnowledgeGraphNodeKind::Voyage => 5,
        KnowledgeGraphNodeKind::Story => 6,
        KnowledgeGraphNodeKind::Routine => 7,
        KnowledgeGraphNodeKind::Artifact => 8,
        KnowledgeGraphNodeKind::Knowledge => 9,
        KnowledgeGraphNodeKind::ProjectDoc => 10,
        KnowledgeGraphNodeKind::SourceFile => 11,
    }
}

/// A final state: done, verified, laid, accepted, rejected, iced, parked
/// or declined.
pub open spec fn terminal_state(s: Option<Seq<char>>) -> bool {
    match s {
        Some(x) => x == "done"@ || x == "verified"@ || x == "laid"@ || x == "accepted"@
            || x == "rejected"@ || x == "iced"@ || x == "parked"@ || x == "declined"@,
        None => false,
    }
}

/// A structural edge (containment or documentation).
pub open spec fn structural(k: KnowledgeGraphEdgeKind) -> bool {
    k == KnowledgeGraphEdgeKind::Contains || k == KnowledgeGraphEdgeKind::Documents
}

/// The kind of link an edge is drawn as.
pub open spec fn link_kind_of(k: KnowledgeGraphEdgeKind) -> KnowledgeGraphViewLinkKind {
    match k {
        KnowledgeGraphEdgeKind::KnowledgeLink | KnowledgeGraphEdgeKind::AppliesTo
        | KnowledgeGraphEdgeKind::Attachment | KnowledgeGraphEdgeKind::Provenance => KnowledgeGraphViewLinkKind::Knowledge,
        _ => KnowledgeGraphViewLinkKind::Traceability,
    }
}

fn depth_of(k: KnowledgeGraphNodeKind) -> (d: usize)
    ensures
        d == kind_depth(k),
{
    match k {
        KnowledgeGraphNodeKind::World => 0,
        KnowledgeGraphNodeKind::Mission => 1,
        KnowledgeGraphNodeKind::Epic | KnowledgeGraphNodeKind::Bearing | KnowledgeGraphNodeKind::Adr => 2,
        KnowledgeGraphNodeKind::Voyage | KnowledgeGraphNodeKind::Story | KnowledgeGraphNodeKind::Routine => 3,
        KnowledgeGraphNodeKind::Artifact | KnowledgeGraphNodeKind::Knowledge | KnowledgeGraphNodeKind::ProjectDoc => 4,
        KnowledgeGraphNodeKind::SourceFile => 5,
    }
}

fn rank_of(k: KnowledgeGraphNodeKind) -> (r: i64)
    ensures
        r == kind_rank(k),
{
    match k {
        KnowledgeGraphNodeKind::World => 0,
        KnowledgeGraphNodeKind::Mission => 1,
        KnowledgeGraphNodeKind::Epic => 2,
        KnowledgeGraphNodeKind::Bearing => 3,
        KnowledgeGraphNodeKind::Adr => 4,
        KnowledgeGraphNodeKind::Voyage => 5,
        KnowledgeGraphNodeKind::Story => 6,
        KnowledgeGraphNodeKind::Routine => 7,
        KnowledgeGraphNodeKind::Artifact => 8,
        KnowledgeGraphNodeKind::Knowledge => 9,
        KnowledgeGraphNodeKind::ProjectDoc => 10,
        KnowledgeGraphNodeKind::SourceFile => 11,
    }
}

/// Whether a state is final.
pub fn is_terminal_state(state: Option<&str>) -> (r: bool)
    ensures
        r == terminal_state(match state { Some(s) => Some(s@), None => None }),
{
    match state {
        Some(s) => str_eq(s, "done") || str_eq(s, "verified") || str_eq(s, "laid") || str_eq(s, "accepted")
            || str_eq(s, "rejected") || str_eq(s, "iced") || str_eq(s, "parked") || str_eq(s, "declined"),
        None => false,
    }
}

fn is_structural(k: KnowledgeGraphEdgeKind) -> (r: bool)
    ensures
        r == structural(k),
{
    matches!(k, KnowledgeGraphEdgeKind::Contains | KnowledgeGraphEdgeKind::Documents)
}

fn link_kind(k: KnowledgeGraphEdgeKind) -> (r: KnowledgeGraphViewLinkKind)
    ensures
        r == link_kind_of(k),
{
    match k {
        KnowledgeGraphEdgeKind::KnowledgeLink | KnowledgeGraphEdgeKind::AppliesTo
        | KnowledgeGraphEdgeKind::Attachment | KnowledgeGraphEdgeKind::Provenance => KnowledgeGraphViewLinkKind::Knowledge,
        _ => KnowledgeGraphViewLinkKind::Traceability,
    }
}

// ---------------------------------------------------------------------
// Which nodes are shown
// ---------------------------------------------------------------------

/// A node with id `x` lies within the zoom level's depth.
pub open spec fn in_base(ns: Seq<KnowledgeGraphNode>, z: KnowledgeGraphZoom, x: Seq<char>) -> bool {
    exists|i: int| 0 <= i < ns.len() && (#[trigger] ns[i]).id@ == x && kind_depth(ns[i].kind) <= zoom_rank(z) + 2
}

/// The position of the first node with id `x`.
pub open spec fn node_pos(ns: Seq<KnowledgeGraphNode>, x: Seq<char>) -> Option<int>
    decreases ns.len(),
{
    if ns.len() == 0 {
        None
    } else {
        match node_pos(ns.drop_last(), x) {
            Some(i) => Some(i),
            None => if ns.last().id@ == x { Some(ns.len() - 1) } else { None },
        }
    }
}

/// The parent of the node with id `x`.
pub open spec fn parent_of(ns: Seq<KnowledgeGraphNode>, x: Seq<char>) -> Option<Seq<char>> {
    match node_pos(ns, x) {
        Some(i) => opt_view(ns[i].parent_id),
        None => None,
    }
}

/// The shown ancestors met walking up from `cur` (at most `fuel` steps):
/// the walk stops at the first parent outside the zoom level.
pub open spec fn anc_chain(ns: Seq<KnowledgeGraphNode>, z: KnowledgeGraphZoom, cur: Option<Seq<char>>, fuel: nat) -> Seq<Seq<char>>
    decreases fuel,
{
    match cur {
        None => Seq::empty(),
        Some(c) => if fuel == 0 || !in_base(ns, z, c) {
            Seq::empty()
        } else {
            seq![c] + anc_chain(ns, z, parent_of(ns, c), (fuel - 1) as nat)
        },
    }
}

/// The shown ancestors of `x`.
pub open spec fn ancestors(ns: Seq<KnowledgeGraphNode>, z: KnowledgeGraphZoom, x: Seq<char>) -> Seq<Seq<char>> {
    anc_chain(ns, z, parent_of(ns, x), ns.len())
}

/// `y` is a shown descendant of `f`: `f` is among its shown ancestors.
pub open spec fn descends(ns: Seq<KnowledgeGraphNode>, z: KnowledgeGraphZoom, f: Seq<char>, y: Seq<char>) -> bool {
    in_base(ns, z, y) && ancestors(ns, z, y).contains(f)
}

/// The branch of focus `f`: the world, the focus, its shown ancestors and
/// descendants.
pub open spec fn in_branch(ns: Seq<KnowledgeGraphNode>, z: KnowledgeGraphZoom, f: Seq<char>, y: Seq<char>) -> bool {
    y == "world:board"@ || y == f || ancestors(ns, z, f).contains(y) || descends(ns, z, f, y)
}

/// The neighbour an edge brings into the focus set, and its ancestors.
pub open spec fn edge_brings(ns: Seq<KnowledgeGraphNode>, z: KnowledgeGraphZoom, f: Seq<char>, e: KnowledgeGraphEdge, x: Seq<char>) -> bool {
    ||| in_branch(ns, z, f, e.from@) && in_base(ns, z, e.to@) && (x == e.to@ || ancestors(ns, z, e.to@).contains(x))
    ||| in_branch(ns, z, f, e.to@) && in_base(ns, z, e.from@) && (x == e.from@ || ancestors(ns, z, e.from@).contains(x))
}

/// The focus set: the branch, and every shown neighbour of the branch
/// with its shown ancestors.
pub open spec fn in_focus(p: KnowledgeGraphProjection, z: KnowledgeGraphZoom, f: Seq<char>, x: Seq<char>) -> bool {
    in_branch(p.nodes@, z, f, x) || exists|i: int| 0 <= i < p.edges@.len() && edge_brings(p.nodes@, z, f, #[trigger] p.edges@[i], x)
}

/// The focus applies when it names a node within the zoom level.
pub open spec fn focused(p: KnowledgeGraphProjection, z: KnowledgeGraphZoom, focus: Option<Seq<char>>) -> Option<Seq<char>> {
    match focus {
        Some(f) => if in_base(p.nodes@, z, f) { Some(f) } else { None },
        None => None,
    }
}

/// Whether id `x` is shown.
pub open spec fn shown(p: KnowledgeGraphProjection, z: KnowledgeGraphZoom, focus: Option<Seq<char>>, x: Seq<char>) -> bool {
    match focused(p, z, focus) {
        Some(f) => in_focus(p, z, f, x),
        None => in_base(p.nodes@, z, x),
    }
}

fn base_has(ns: &Vec<KnowledgeGraphNode>, z: KnowledgeGraphZoom, x: &str) -> (r: bool)
    ensures
        r == in_base(ns@, z, x@),
{
    let md = z.max_depth();
    let mut i: usize = 0;
    while i < ns.len()
        invariant
            md == zoom_rank(z) + 2,
            i <= ns.len(),
            forall|j: int| 0 <= j < i ==> !((#[trigger] ns@[j]).id@ == x@ && kind_depth(ns@[j].kind) <= zoom_rank(z) + 2),
        decreases ns.len() - i,
    {
        if str_eq(ns[i].id.as_str(), x) && depth_of(ns[i].kind) <= md {
            assert(ns@[i as int].id@ == x@);
            return true;
        }
        i = i + 1;
    }
    false
}

fn node_index(ns: &Vec<KnowledgeGraphNode>, x: &str) -> (r: Option<usize>)
    ensures
        match r {
            Some(i) => node_pos(ns@, x@) == Some(i as int) && i < ns.len(),
            None => node_pos(ns@, x@) is None,
        },
{
    let mut i: usize = 0;
    while i < ns.len()
        invariant
            i <= ns.len(),
            node_pos(ns@.take(i as int), x@) is None,
        decreases ns.len() - i,
    {
        assert(ns@.take(i + 1).drop_last() =~= ns@.take(i as int));
        if str_eq(ns[i].id.as_str(), x) {
            proof { lemma_node_pos_prefix(ns@, x@, i as int); }
            return Some(i);
        }
        i = i + 1;
    }
    assert(ns@.take(i as int) =~= ns@);
    None
}

proof fn lemma_node_pos_prefix(ns: Seq<KnowledgeGraphNode>, x: Seq<char>, k: int)
    requires
        0 <= k < ns.len(),
        node_pos(ns.take(k), x) is None,
        ns[k].id@ == x,
    ensures
        node_pos(ns, x) == Some(k),
    decreases ns.len(),
{
    assert(ns.take(k + 1).drop_last() =~= ns.take(k));
    if ns.len() > k + 1 {
        assert(ns.drop_last().take(k) =~= ns.take(k));
        lemma_node_pos_prefix(ns.drop_last(), x, k);
    } else {
        assert(ns.drop_last() =~= ns.take(k));
    }
}

fn parent_exec(ns: &Vec<KnowledgeGraphNode>, x: &str) -> (r: Option<String>)
    ensures
        opt_view(r) == parent_of(ns@, x@),
{
    match node_index(ns, x) {
        Some(i) => match &ns[i].parent_id {
            Some(p) => Some(p.clone()),
            None => None,
        },
        None => None,
    }
}

/// The shown ancestors of `x`, nearest first.
fn ancestors_exec(ns: &Vec<KnowledgeGraphNode>, z: KnowledgeGraphZoom, x: &str) -> (r: Vec<String>)
    ensures
        str_list(r@) == ancestors(ns@, z, x@),
{
    let mut cur = parent_exec(ns, x);
    let mut fuel: usize = ns.len();
    let mut acc: Vec<String> = Vec::new();
    while fuel > 0
        invariant
            fuel <= ns.len(),
            ancestors(ns@, z, x@) == str_list(acc@) + anc_chain(ns@, z, opt_view(cur), fuel as nat),
        decreases fuel,
    {
        let c = match &cur {
            None => {
                assert(anc_chain(ns@, z, opt_view(cur), fuel as nat) =~= Seq::<Seq<char>>::empty());
                assert(str_list(acc@) =~= str_list(acc@) + Seq::<Seq<char>>::empty());
                return acc;
            },
            Some(c) => c.clone(),
        };
        if !base_has(ns, z, c.as_str()) {
            assert(str_list(acc@) =~= str_list(acc@) + Seq::<Seq<char>>::empty());
            return acc;
        }
        let next = parent_exec(ns, c.as_str());
        let ghost before = str_list(acc@);
        acc.push(c);
        assert(str_list(acc@) =~= before.push(c@));
        assert(before + (seq![c@] + anc_chain(ns@, z, opt_view(next), (fuel - 1) as nat))
            =~= before.push(c@) + anc_chain(ns@, z, opt_view(next), (fuel - 1) as nat));
        cur = next;
        fuel = fuel - 1;
    }
    assert(str_list(acc@) =~= str_list(acc@) + Seq::<Seq<char>>::empty());
    acc
}

fn list_has(v: &Vec<String>, x: &str) -> (r: bool)
    ensures
        r == str_list(v@).contains(x@),
{
    let mut i: usize = 0;
    while i < v.len()
        invariant
            i <= v.len(),
            forall|j: int| 0 <= j < i ==> (#[trigger] v@[j])@ != x@,
        decreases v.len() - i,
    {
        if str_eq(v[i].as_str(), x) {
            assert(str_list(v@)[i as int] == x@);
            return true;
        }
        i = i + 1;
    }
    assert forall|j: int| 0 <= j < str_list(v@).len() implies str_list(v@)[j] != x@ by {
        assert(str_list(v@)[j] == v@[j]@);
    }
    false
}

fn branch_has(ns: &Vec<KnowledgeGraphNode>, z: KnowledgeGraphZoom, f: &str, anc_f: &Vec<String>, y: &str) -> (r: bool)
    requires
        str_list(anc_f@) == ancestors(ns@, z, f@),
    ensures
        r == in_branch(ns@, z, f@, y@),
{
    if str_eq(y, "world:board") || str_eq(y, f) || list_has(anc_f, y) {
        return true;
    }
    if base_has(ns, z, y) {
        let anc_y = ancestors_exec(ns, z, y);
        list_has(&anc_y, f)
    } else {
        false
    }
}

fn brings(ns: &Vec<KnowledgeGraphNode>, z: KnowledgeGraphZoom, f: &str, anc_f: &Vec<String>, e: &KnowledgeGraphEdge, x: &str) -> (r: bool)
    requires
        str_list(anc_f@) == ancestors(ns@, z, f@),
    ensures
        r == edge_brings(ns@, z, f@, *e, x@),
{
    let a = branch_has(ns, z, f, anc_f, e.from.as_str()) && base_has(ns, z, e.to.as_str())
        && (str_eq(x, e.to.as_str()) || {
            let at = ancestors_exec(ns, z, e.to.as_str());
            list_has(&at, x)
        });
    if a {
        return true;
    }
    branch_has(ns, z, f, anc_f, e.to.as_str()) && base_has(ns, z, e.from.as_str())
        && (str_eq(x, e.from.as_str()) || {
            let af = ancestors_exec(ns, z, e.from.as_str());
            list_has(&af, x)
        })
}

/// Whether id `x` is shown; `focus` is the applied focus and its shown
/// ancestors.
fn shown_exec(p: &KnowledgeGraphProjection, z: KnowledgeGraphZoom, focus: &Option<(String, Vec<String>)>, x: &str) -> (r: bool)
    requires
        match focus {
            Some(fa) => str_list(fa.1@) == ancestors(p.nodes@, z, fa.0@),
            None => true,
        },
    ensures
        r == match focus {
            Some(fa) => in_focus(*p, z, fa.0@, x@),
            None => in_base(p.nodes@, z, x@),
        },
{
    match focus {
        None => base_has(&p.nodes, z, x),
        Some(fa) => {
            let f = fa.0.as_str();
            if branch_has(&p.nodes, z, f, &fa.1, x) {
                return true;
            }
            let mut i: usize = 0;
            while i < p.edges.len()
                invariant
                    i <= p.edges.len(),
                    f@ == fa.0@,
                    *focus == Some::<(String, Vec<String>)>(*fa),
                    str_list(fa.1@) == ancestors(p.nodes@, z, fa.0@),
                    !in_branch(p.nodes@, z, fa.0@, x@),
                    forall|j: int| 0 <= j < i ==> !edge_brings(p.nodes@, z, fa.0@, #[trigger] p.edges@[j], x@),
                decreases p.edges.len() - i,
            {
                if brings(&p.nodes, z, f, &fa.1, &p.edges[i], x) {
                    assert(edge_brings(p.nodes@, z, fa.0@, p.edges@[i as int], x@));
                    return true;
                }
                i = i + 1;
            }
            false
        },
    }
}

// ---------------------------------------------------------------------
// The shown nodes
// ---------------------------------------------------------------------

/// How many non-structural edges touch `x` (an edge from `x` to itself
/// counts twice).
pub open spec fn signal_count(es: Seq<KnowledgeGraphEdge>, x: Seq<char>) -> nat
    decreases es.len(),
{
    if es.len() == 0 {
        0
    } else {
        let e = es.last();
        signal_count(es.drop_last(), x) + if structural(e.kind) {
            0nat
        } else {
            (if e.from@ == x { 1nat } else { 0nat }) + (if e.to@ == x { 1nat } else { 0nat })
        }
    }
}

proof fn lemma_signal_bound(es: Seq<KnowledgeGraphEdge>, x: Seq<char>)
    ensures
        signal_count(es, x) <= 2 * es.len(),
    decreases es.len(),
{
    if es.len() > 0 {
        lemma_signal_bound(es.drop_last(), x);
    }
}

fn signal_exec(es: &Vec<KnowledgeGraphEdge>, x: &str) -> (r: usize)
    requires
        es.len() <= usize::MAX / 2,
    ensures
        r == signal_count(es@, x@),
{
    let mut n: usize = 0;
    let mut i: usize = 0;
    while i < es.len()
        invariant
            i <= es.len() <= usize::MAX / 2,
            n == signal_count(es@.take(i as int), x@),
        decreases es.len() - i,
    {
        assert(es@.take(i + 1).drop_last() =~= es@.take(i as int));
        proof { lemma_signal_bound(es@.take(i as int), x@); }
        let e = &es[i];
        if !is_structural(e.kind) {
            if str_eq(e.from.as_str(), x) {
                n = n + 1;
            }
            if str_eq(e.to.as_str(), x) {
                n = n + 1;
            }
        }
        i = i + 1;
    }
    assert(es@.take(i as int) =~= es@);
    n
}

/// A view node as plain values.
pub type ViewNodeView = (Seq<char>, Seq<char>, KnowledgeGraphNodeKind, Option<Seq<char>>, Option<Seq<char>>, nat, bool, nat);

pub open spec fn vnode_view(v: KnowledgeGraphViewNode) -> ViewNodeView {
    (v.id@, v.title@, v.kind, opt_view(v.state), opt_view(v.parent_id), v.depth as nat, v.terminal, v.signal_count as nat)
}

/// How the view shows node `n`: its parent only when that is shown too.
pub open spec fn view_node_of(p: KnowledgeGraphProjection, z: KnowledgeGraphZoom, focus: Option<Seq<char>>,
    n: KnowledgeGraphNode) -> ViewNodeView
{
    (n.id@, n.title@, n.kind, opt_view(n.state),
        match opt_view(n.parent_id) {
            Some(q) => if shown(p, z, focus, q) { Some(q) } else { None },
            None => None,
        },
        kind_depth(n.kind), terminal_state(opt_view(n.state)), signal_count(p.edges@, n.id@))
}

/// Nodes are listed by kind, then id.
pub open spec fn node_keys(ns: Seq<KnowledgeGraphNode>) -> Seq<KeyView> {
    ns.map_values(|n: KnowledgeGraphNode| (kind_rank(n.kind), Seq::<char>::empty(), 0int, 0int, n.id@))
}

pub open spec fn node_oks(p: KnowledgeGraphProjection, z: KnowledgeGraphZoom, focus: Option<Seq<char>>) -> Seq<bool> {
    p.nodes@.map_values(|n: KnowledgeGraphNode| shown(p, z, focus, n.id@))
}

// ---------------------------------------------------------------------
// The links
// ---------------------------------------------------------------------

/// A link as plain values.
pub type LinkView = (Seq<char>, Seq<char>, KnowledgeGraphViewLinkKind);

pub open spec fn link_view(l: KnowledgeGraphViewLink) -> LinkView {
    (l.from_id@, l.to_id@, l.kind)
}

/// A hierarchy link from each shown parent to its child, in node order.
pub open spec fn hier_links(vs: Seq<ViewNodeView>) -> Seq<LinkView>
    decreases vs.len(),
{
    if vs.len() == 0 {
        Seq::empty()
    } else {
        let r = hier_links(vs.drop_last());
        match vs.last().4 {
            Some(q) => r.push((q, vs.last().0, KnowledgeGraphViewLinkKind::Hierarchy)),
            None => r,
        }
    }
}

/// Some shown node has id `x`.
pub open spec fn view_has(vs: Seq<ViewNodeView>, x: Seq<char>) -> bool {
    exists|i: int| 0 <= i < vs.len() && (#[trigger] vs[i]).0 == x
}

/// The shown parent of the first shown node with id `x`.
pub open spec fn view_parent(vs: Seq<ViewNodeView>, x: Seq<char>) -> Option<Seq<char>>
    decreases vs.len(),
{
    if vs.len() == 0 {
        None
    } else if vs[0].0 == x {
        vs[0].4
    } else {
        view_parent(vs.drop_first(), x)
    }
}

/// A structural edge that only repeats a hierarchy link.
pub open spec fn repeats_hierarchy(vs: Seq<ViewNodeView>, e: KnowledgeGraphEdge) -> bool {
    structural(e.kind) && view_parent(vs, e.to@) == Some(e.from@)
}

/// The links of kind `k` the edges between shown nodes give, in edge order.
pub open spec fn edge_links(vs: Seq<ViewNodeView>, es: Seq<KnowledgeGraphEdge>, k: KnowledgeGraphViewLinkKind) -> Seq<LinkView>
    decreases es.len(),
{
    if es.len() == 0 {
        Seq::empty()
    } else {
        let r = edge_links(vs, es.drop_last(), k);
        let e = es.last();
        if view_has(vs, e.from@) && view_has(vs, e.to@) && !repeats_hierarchy(vs, e) && link_kind_of(e.kind) == k {
            r.push((e.from@, e.to@, k))
        } else {
            r
        }
    }
}

/// Every candidate link: hierarchy, then traceability, then knowledge.
pub open spec fn link_cands(vs: Seq<ViewNodeView>, es: Seq<KnowledgeGraphEdge>) -> Seq<LinkView> {
    hier_links(vs) + edge_links(vs, es, KnowledgeGraphViewLinkKind::Traceability)
        + edge_links(vs, es, KnowledgeGraphViewLinkKind::Knowledge)
}

/// Links are listed by source, then target; between the two, by kind.
pub open spec fn link_keys(ls: Seq<LinkView>) -> Seq<KeyView> {
    ls.map_values(|l: LinkView| (0int, l.0, 0int, 0int, l.1))
}

/// Each link once.
pub open spec fn link_first(ls: Seq<LinkView>) -> Seq<bool> {
    Seq::new(ls.len(), |i: int| forall|j: int| 0 <= j < i ==> #[trigger] ls[j] != ls[i])
}

fn vnodes_have(vs: &Vec<KnowledgeGraphViewNode>, x: &str) -> (r: bool)
    ensures
        r == view_has(vs@.map_values(|v: KnowledgeGraphViewNode| vnode_view(v)), x@),
{
    let ghost vv = vs@.map_values(|v: KnowledgeGraphViewNode| vnode_view(v));
    let mut i: usize = 0;
    while i < vs.len()
        invariant
            vv == vs@.map_values(|v: KnowledgeGraphViewNode| vnode_view(v)),
            i <= vs.len(),
            forall|j: int| 0 <= j < i ==> (#[trigger] vv[j]).0 != x@,
        decreases vs.len() - i,
    {
        if str_eq(vs[i].id.as_str(), x) {
            assert(vv[i as int].0 == x@);
            return true;
        }
        i = i + 1;
    }
    false
}

fn vnodes_parent(vs: &Vec<KnowledgeGraphViewNode>, x: &str) -> (r: Option<String>)
    ensures
        opt_view(r) == view_parent(vs@.map_values(|v: KnowledgeGraphViewNode| vnode_view(v)), x@),
{
    let ghost vv = vs@.map_values(|v: KnowledgeGraphViewNode| vnode_view(v));
    let mut i: usize = 0;
    assert(vv.skip(0) =~= vv);
    while i < vs.len()
        invariant
            vv == vs@.map_values(|v: KnowledgeGraphViewNode| vnode_view(v)),
            i <= vs.len(),
            view_parent(vv, x@) == view_parent(vv.skip(i as int), x@),
        decreases vs.len() - i,
    {
        assert(vv.skip(i as int).drop_first() =~= vv.skip(i + 1));
        if str_eq(vs[i].id.as_str(), x) {
            return match &vs[i].parent_id { Some(q) => Some(q.clone()), None => None };
        }
        i = i + 1;
    }
    None
}

fn copy_link(l: &KnowledgeGraphViewLink) -> (r: KnowledgeGraphViewLink)
    ensures
        link_view(r) == link_view(*l),
{
    KnowledgeGraphViewLink { from_id: l.from_id.clone(), to_id: l.to_id.clone(), kind: l.kind }
}

fn same_link(a: &KnowledgeGraphViewLink, b: &KnowledgeGraphViewLink) -> (r: bool)
    ensures
        r == (link_view(*a) == link_view(*b)),
{
    str_eq(a.from_id.as_str(), b.from_id.as_str()) && str_eq(a.to_id.as_str(), b.to_id.as_str())
        && match (a.kind, b.kind) {
            (KnowledgeGraphViewLinkKind::Hierarchy, KnowledgeGraphViewLinkKind::Hierarchy) => true,
            (KnowledgeGraphViewLinkKind::Traceability, KnowledgeGraphViewLinkKind::Traceability) => true,
            (KnowledgeGraphViewLinkKind::Knowledge, KnowledgeGraphViewLinkKind::Knowledge) => true,
            _ => false,
        }
}

fn push_edge_links(out: &mut Vec<KnowledgeGraphViewLink>, vs: &Vec<KnowledgeGraphViewNode>, es: &Vec<KnowledgeGraphEdge>,
    k: KnowledgeGraphViewLinkKind)
    ensures
        final(out)@.map_values(|l: KnowledgeGraphViewLink| link_view(l)) == old(out)@.map_values(|l: KnowledgeGraphViewLink| link_view(l))
            + edge_links(vs@.map_values(|v: KnowledgeGraphViewNode| vnode_view(v)), es@, k),
{
    let ghost vv = vs@.map_values(|v: KnowledgeGraphViewNode| vnode_view(v));
    let ghost start = out@.map_values(|l: KnowledgeGraphViewLink| link_view(l));
    let mut i: usize = 0;
    while i < es.len()
        invariant
            vv == vs@.map_values(|v: KnowledgeGraphViewNode| vnode_view(v)),
            i <= es.len(),
            out@.map_values(|l: KnowledgeGraphViewLink| link_view(l)) == start + edge_links(vv, es@.take(i as int), k),
        decreases es.len() - i,
    {
        assert(es@.take(i + 1).drop_last() =~= es@.take(i as int));
        let e = &es[i];
        let kind_matches = match (link_kind(e.kind), k) {
            (KnowledgeGraphViewLinkKind::Hierarchy, KnowledgeGraphViewLinkKind::Hierarchy) => true,
            (KnowledgeGraphViewLinkKind::Traceability, KnowledgeGraphViewLinkKind::Traceability) => true,
            (KnowledgeGraphViewLinkKind::Knowledge, KnowledgeGraphViewLinkKind::Knowledge) => true,
            _ => false,
        };
        if vnodes_have(vs, e.from.as_str()) && vnodes_have(vs, e.to.as_str()) && kind_matches {
            let repeats = is_structural(e.kind) && match vnodes_parent(vs, e.to.as_str()) {
                Some(q) => str_eq(q.as_str(), e.from.as_str()),
                None => false,
            };
            if !repeats {
                let ghost before = out@.map_values(|l: KnowledgeGraphViewLink| link_view(l));
                let l = KnowledgeGraphViewLink { from_id: e.from.clone(), to_id: e.to.clone(), kind: k };
                out.push(l);
                assert(out@.map_values(|l: KnowledgeGraphViewLink| link_view(l)) =~= before.push((e.from@, e.to@, k)));
            }
        }
        i = i + 1;
    }
    assert(es@.take(i as int) =~= es@);
}

// ---------------------------------------------------------------------
// The view
// ---------------------------------------------------------------------

/// The view's focus: the focused node's id, title and state.
pub open spec fn focus_matches(p: KnowledgeGraphProjection, z: KnowledgeGraphZoom, focus: Option<Seq<char>>,
    r: Option<KnowledgeGraphFocus>) -> bool
{
    match focused(p, z, focus) {
        Some(f) => match node_pos(p.nodes@, f) {
            Some(i) => r matches Some(x) && x.id@ == p.nodes@[i].id@ && x.title@ == p.nodes@[i].title@
                && opt_view(x.state) == opt_view(p.nodes@[i].state),
            None => r is None,
        },
        None => r is None,
    }
}

/// The view is the shown nodes (by kind, then id), the links between them
/// (each once, by source, target and kind), and the focus.
pub open spec fn view_with(p: KnowledgeGraphProjection, z: KnowledgeGraphZoom, focus: Option<Seq<char>>,
    r: KnowledgeGraphViewProjection, no: Seq<int>, lo: Seq<int>) -> bool
{
    let vs = no.map_values(|i: int| view_node_of(p, z, focus, p.nodes@[i]));
    let cands = link_cands(vs, p.edges@);
    &&& sorted_eligible(node_keys(p.nodes@), node_oks(p, z, focus), no)
    &&& r.nodes@.map_values(|v: KnowledgeGraphViewNode| vnode_view(v)) == vs
    &&& sorted_eligible(link_keys(cands), link_first(cands), lo)
    &&& r.links@.map_values(|l: KnowledgeGraphViewLink| link_view(l)) == lo.map_values(|i: int| cands[i])
    &&& r.zoom == z
    &&& focus_matches(p, z, focus, r.focus)
}

fn copy_opt(o: &Option<String>) -> (r: Option<String>)
    ensures
        opt_view(r) == opt_view(*o),
{
    match o { Some(x) => Some(x.clone()), None => None }
}

/// Builds the view of the knowledge graph at `zoom`, centred on `focus_id`
/// when it names a node within the zoom level: then only the focus's
/// branch, its neighbours and their ancestors are shown.
pub fn build_knowledge_graph_view(projection: &KnowledgeGraphProjection, zoom: KnowledgeGraphZoom, focus_id: Option<&str>)
    -> (r: KnowledgeGraphViewProjection)
    requires
        projection.edges@.len() <= usize::MAX / 2,
    ensures
        exists|no: Seq<int>, lo: Seq<int>| #[trigger] view_with(*projection, zoom, opt_str(focus_id),
            r, no, lo),
{
    let ghost fo: Option<Seq<char>> = opt_str(focus_id);
    let p = projection;
    let applied: Option<(String, Vec<String>)> = match focus_id {
        Some(f) => if base_has(&p.nodes, zoom, f) {
            let anc = ancestors_exec(&p.nodes, zoom, f);
            Some((owned(f), anc))
        } else {
            None
        },
        None => None,
    };
    assert(match applied { Some(fa) => focused(*p, zoom, fo) == Some(fa.0@), None => focused(*p, zoom, fo) is None });
    // Which nodes are shown, and their order.
    let mut keys: Vec<SortKey> = Vec::new();
    let mut oks: Vec<bool> = Vec::new();
    let mut k: usize = 0;
    while k < p.nodes.len()
        invariant
            k <= p.nodes.len(),
            keys@.len() == k,
            oks@.len() == k,
            match applied {
                Some(fa) => str_list(fa.1@) == ancestors(p.nodes@, zoom, fa.0@) && focused(*p, zoom, fo) == Some(fa.0@),
                None => focused(*p, zoom, fo) is None,
            },
            forall|i: int| 0 <= i < k ==> #[trigger] keys@[i].view() == node_keys(p.nodes@)[i],
            forall|i: int| 0 <= i < k ==> #[trigger] oks@[i] == node_oks(*p, zoom, fo)[i],
        decreases p.nodes.len() - k,
    {
        let n = &p.nodes[k];
        keys.push(SortKey { a: rank_of(n.kind), pre: String::new(), b: 0, c: 0, name: n.id.clone() });
        oks.push(shown_exec(p, zoom, &applied, n.id.as_str()));
        k = k + 1;
    }
    assert(keys_view(keys@) =~= node_keys(p.nodes@));
    assert(oks@ =~= node_oks(*p, zoom, fo));
    let order = sort_eligible(&keys, &oks);
    let ghost no = order@.map_values(|i: usize| i as int);
    let ghost vs = no.map_values(|i: int| view_node_of(*p, zoom, fo, p.nodes@[i]));
    let mut nodes: Vec<KnowledgeGraphViewNode> = Vec::new();
    let mut q: usize = 0;
    while q < order.len()
        invariant
            no == order@.map_values(|i: usize| i as int),
            vs == no.map_values(|i: int| view_node_of(*p, zoom, fo, p.nodes@[i])),
            sorted_eligible(node_keys(p.nodes@), node_oks(*p, zoom, fo), no),
            p.edges@.len() <= usize::MAX / 2,
            match applied {
                Some(fa) => str_list(fa.1@) == ancestors(p.nodes@, zoom, fa.0@) && focused(*p, zoom, fo) == Some(fa.0@),
                None => focused(*p, zoom, fo) is None,
            },
            q <= order.len(),
            nodes@.map_values(|v: KnowledgeGraphViewNode| vnode_view(v)) == vs.take(q as int),
        decreases order.len() - q,
    {
        let i = order[q];
        assert(no[q as int] == i as int);
        let n = &p.nodes[i];
        let parent = match &n.parent_id {
            Some(pid) => if shown_exec(p, zoom, &applied, pid.as_str()) { Some(pid.clone()) } else { None },
            None => None,
        };
        let v = KnowledgeGraphViewNode {
            id: n.id.clone(),
            title: n.title.clone(),
            kind: n.kind,
            state: copy_opt(&n.state),
            parent_id: parent,
            depth: depth_of(n.kind),
            terminal: is_terminal_state(match &n.state { Some(s) => Some(s.as_str()), None => None }),
            signal_count: signal_exec(&p.edges, n.id.as_str()),
        };
        let ghost before = nodes@.map_values(|v: KnowledgeGraphViewNode| vnode_view(v));
        nodes.push(v);
        assert(nodes@.map_values(|v: KnowledgeGraphViewNode| vnode_view(v)) =~= before.push(vs[q as int]));
        assert(vs.take(q + 1) =~= vs.take(q as int).push(vs[q as int]));
        q = q + 1;
    }
    assert(vs.take(q as int) =~= vs);
    // The candidate links.
    let mut cands: Vec<KnowledgeGraphViewLink> = Vec::new();
    let mut j: usize = 0;
    while j < nodes.len()
        invariant
            j <= nodes.len(),
            cands@.map_values(|l: KnowledgeGraphViewLink| link_view(l))
                == hier_links(nodes@.map_values(|v: KnowledgeGraphViewNode| vnode_view(v)).take(j as int)),
        decreases nodes.len() - j,
    {
        let ghost nv = nodes@.map_values(|v: KnowledgeGraphViewNode| vnode_view(v));
        assert(nv.take(j + 1).drop_last() =~= nv.take(j as int));
        match &nodes[j].parent_id {
            Some(pid) => {
                let ghost before = cands@.map_values(|l: KnowledgeGraphViewLink| link_view(l));
                cands.push(KnowledgeGraphViewLink { from_id: pid.clone(), to_id: nodes[j].id.clone(),
                    kind: KnowledgeGraphViewLinkKind::Hierarchy });
                assert(cands@.map_values(|l: KnowledgeGraphViewLink| link_view(l))
                    =~= before.push((pid@, nodes@[j as int].id@, KnowledgeGraphViewLinkKind::Hierarchy)));
            },
            None => {},
        }
        j = j + 1;
    }
    assert(nodes@.map_values(|v: KnowledgeGraphViewNode| vnode_view(v)).take(j as int)
        =~= nodes@.map_values(|v: KnowledgeGraphViewNode| vnode_view(v)));
    push_edge_links(&mut cands, &nodes, &p.edges, KnowledgeGraphViewLinkKind::Traceability);
    push_edge_links(&mut cands, &nodes, &p.edges, KnowledgeGraphViewLinkKind::Knowledge);
    let ghost cv = cands@.map_values(|l: KnowledgeGraphViewLink| link_view(l));
    assert(cv == link_cands(vs, p.edges@));
    // Each link once, in order.
    let mut lkeys: Vec<SortKey> = Vec::new();
    let mut lfirst: Vec<bool> = Vec::new();
    let mut m: usize = 0;
    while m < cands.len()
        invariant
            cv == cands@.map_values(|l: KnowledgeGraphViewLink| link_view(l)),
            m <= cands.len(),
            lkeys@.len() == m,
            lfirst@.len() == m,
            forall|i: int| 0 <= i < m ==> #[trigger] lkeys@[i].view() == link_keys(cv)[i],
            forall|i: int| 0 <= i < m ==> #[trigger] lfirst@[i] == link_first(cv)[i],
        decreases cands.len() - m,
    {
        let mut first = true;
        let mut t: usize = 0;
        while t < m
            invariant
                cv == cands@.map_values(|l: KnowledgeGraphViewLink| link_view(l)),
                m < cands.len(),
                t <= m,
                first == forall|i: int| 0 <= i < t ==> #[trigger] cv[i] != cv[m as int],
            decreases m - t,
        {
            assert(cv[t as int] == link_view(cands@[t as int]));
            assert(cv[m as int] == link_view(cands@[m as int]));
            if same_link(&cands[t], &cands[m]) {
                first = false;
            }
            t = t + 1;
        }
        lkeys.push(SortKey { a: 0, pre: cands[m].from_id.clone(), b: 0, c: 0, name: cands[m].to_id.clone() });
        lfirst.push(first);
        m = m + 1;
    }
    assert(keys_view(lkeys@) =~= link_keys(cv));
    assert(lfirst@ =~= link_first(cv));
    let lorder = sort_eligible(&lkeys, &lfirst);
    let ghost lo = lorder@.map_values(|i: usize| i as int);
    let mut links: Vec<KnowledgeGraphViewLink> = Vec::new();
    let mut u: usize = 0;
    while u < lorder.len()
        invariant
            cv == cands@.map_values(|l: KnowledgeGraphViewLink| link_view(l)),
            lo == lorder@.map_values(|i: usize| i as int),
            sorted_eligible(link_keys(cv), link_first(cv), lo),
            u <= lorder.len(),
            links@.map_values(|l: KnowledgeGraphViewLink| link_view(l)) == lo.take(u as int).map_values(|i: int| cv[i]),
        decreases lorder.len() - u,
    {
        let i = lorder[u];
        assert(lo[u as int] == i as int);
        let ghost before = links@.map_values(|l: KnowledgeGraphViewLink| link_view(l));
        links.push(copy_link(&cands[i]));
        assert(links@.map_values(|l: KnowledgeGraphViewLink| link_view(l)) =~= before.push(cv[i as int]));
        assert(lo.take(u + 1).map_values(|i: int| cv[i]) =~= lo.take(u as int).map_values(|i: int| cv[i]).push(cv[lo[u as int]]));
        u = u + 1;
    }
    assert(lo.take(u as int) =~= lo);
    // The focus.
    let focus = match &applied {
        Some(fa) => match node_index(&p.nodes, fa.0.as_str()) {
            Some(i) => Some(KnowledgeGraphFocus {
                id: p.nodes[i].id.clone(),
                title: p.nodes[i].title.clone(),
                state: copy_opt(&p.nodes[i].state),
            }),
            None => None,
        },
        None => None,
    };
    let r = KnowledgeGraphViewProjection { zoom, focus, nodes, links };
    assert(view_with(*p, zoom, fo, r, no, lo));
    r
}

} // verus!
