//! The interactive topology view: its state (zoom, focused node, whether
//! finished work is shown), how each key press changes it, and the frame
//! drawn around the rendered map.

use vstd::prelude::*;
use crate::text::{lines, lines_spec, join_with, owned, str_eq};
use crate::table::strs_view;
use crate::board::opt_view;

verus! {

/// How much of the topology is drawn.
#[derive(Clone, Copy, Debug, PartialEq, Eq, Structural)]
pub enum TopologyZoom {
    World,
    Mission,
    Epic,
    Voyage,
    Story,
}

pub open spec fn zoom_in_spec(z: TopologyZoom) -> TopologyZoom {
    match z {
        TopologyZoom::World => TopologyZoom::Mission,
        TopologyZoom::Mission => TopologyZoom::Epic,
        TopologyZoom::Epic => TopologyZoom::Voyage,
        TopologyZoom::Voyage => TopologyZoom::Story,
        TopologyZoom::Story => TopologyZoom::Story,
    }
}

pub open spec fn zoom_out_spec(z: TopologyZoom) -> TopologyZoom {
    match z {
        TopologyZoom::World => TopologyZoom::World,
        TopologyZoom::Mission => TopologyZoom::World,
        TopologyZoom::Epic => TopologyZoom::Mission,
        TopologyZoom::Voyage => TopologyZoom::Epic,
        TopologyZoom::Story => TopologyZoom::Voyage,
    }
}

impl TopologyZoom {
    /// One level deeper (the deepest level stays).
    pub fn zoom_in(self) -> (z: TopologyZoom)
        ensures
            z == zoom_in_spec(self),
    {
        match self {
            TopologyZoom::World => TopologyZoom::Mission,
            TopologyZoom::Mission => TopologyZoom::Epic,
            TopologyZoom::Epic => TopologyZoom::Voyage,
            TopologyZoom::Voyage => TopologyZoom::Story,
            TopologyZoom::Story => TopologyZoom::Story,
        }
    }

    /// One level shallower (the world level stays).
    pub fn zoom_out(self) -> (z: TopologyZoom)
        ensures
            z == zoom_out_spec(self),
    {
        match self {
            TopologyZoom::World => TopologyZoom::World,
            TopologyZoom::Mission => TopologyZoom::World,
            TopologyZoom::Epic => TopologyZoom::Mission,
            TopologyZoom::Voyage => TopologyZoom::Epic,
            TopologyZoom::Story => TopologyZoom::Voyage,
        }
    }
}

/// What the view reads of a node of the drawn map.
#[derive(Clone, Debug)]
pub struct TopologyNode {
    pub id: String,
    /// The node is the world root.
    pub is_world: bool,
    pub parent_id: Option<String>,
}

/// Which way focus cycles.
#[derive(Clone, Copy, Debug, PartialEq, Eq, Structural)]
pub enum FocusDirection {
    Previous,
    Next,
}

/// The state of the interactive view.
#[derive(Clone, Debug)]
pub struct TopologyViewState {
    pub zoom: TopologyZoom,
    pub focus_id: Option<String>,
    pub include_done: bool,
}

/// The ids of the nodes focus can move to (all but the world), in order.
pub open spec fn focus_candidates(ns: Seq<TopologyNode>) -> Seq<Seq<char>>
    decreases ns.len(),
{
    if ns.len() == 0 {
        Seq::empty()
    } else {
        let rest = focus_candidates(ns.drop_last());
        if ns.last().is_world { rest } else { rest.push(ns.last().id@) }
    }
}

/// The first position of `x` in `cs`.
pub open spec fn position_in(cs: Seq<Seq<char>>, x: Seq<char>) -> Option<int>
    decreases cs.len(),
{
    if cs.len() == 0 {
        None
    } else if cs[0] == x {
        Some(0)
    } else {
        match position_in(cs.drop_first(), x) {
            Some(i) => Some(i + 1),
            None => None,
        }
    }
}

/// The candidate focus moves to: the one after (or before) the current
/// focus, wrapping around; from no focus (or a focus that is no candidate,
/// taken as the first) the first (or last) candidate.
pub open spec fn cycled_index(cs: Seq<Seq<char>>, focus: Option<Seq<char>>, d: FocusDirection) -> int {
    let n = cs.len() as int;
    match focus {
        Some(cur) => {
            let ci = match position_in(cs, cur) { Some(i) => i, None => 0 };
            match d {
                FocusDirection::Next => (ci + 1) % n,
                FocusDirection::Previous => (ci + (n - 1)) % n,
            }
        },
        None => match d {
            FocusDirection::Next => 0,
            FocusDirection::Previous => n - 1,
        },
    }
}

/// The focus after cycling; none when there is no candidate.
pub open spec fn cycled_focus(ns: Seq<TopologyNode>, focus: Option<Seq<char>>, d: FocusDirection) -> Option<Seq<char>> {
    let cs = focus_candidates(ns);
    if cs.len() == 0 {
        None
    } else {
        Some(cs[cycled_index(cs, focus, d)])
    }
}

/// The first node with id `x`.
pub open spec fn node_named(ns: Seq<TopologyNode>, x: Seq<char>) -> Option<TopologyNode>
    decreases ns.len(),
{
    if ns.len() == 0 {
        None
    } else if ns[0].id@ == x {
        Some(ns[0])
    } else {
        node_named(ns.drop_first(), x)
    }
}

/// The focus after moving to the parent: the focused node's parent, or
/// none when the node is not drawn, has no parent, or its parent is the world.
pub open spec fn parent_focus(ns: Seq<TopologyNode>, focus: Option<Seq<char>>) -> Option<Seq<char>> {
    match focus {
        None => None,
        Some(cur) => match node_named(ns, cur) {
            None => None,
            Some(node) => match node.parent_id {
                None => None,
                Some(p) => match node_named(ns, p@) {
                    Some(pn) => if pn.is_world { None } else { Some(p@) },
                    None => Some(p@),
                },
            },
        },
    }
}

fn candidate_ids(nodes: &Vec<TopologyNode>) -> (r: Vec<String>)
    ensures
        strs_view(r@) == focus_candidates(nodes@),
{
    let mut r: Vec<String> = Vec::new();
    let mut i: usize = 0;
    while i < nodes.len()
        invariant
            i <= nodes.len(),
            strs_view(r@) == focus_candidates(nodes@.take(i as int)),
        decreases nodes.len() - i,
    {
        assert(nodes@.take(i + 1).drop_last() =~= nodes@.take(i as int));
        if !nodes[i].is_world {
            let ghost before = r@;
            r.push(nodes[i].id.clone());
            assert(strs_view(r@) =~= strs_view(before).push(nodes@[i as int].id@));
        }
        i = i + 1;
    }
    assert(nodes@.take(nodes.len() as int) =~= nodes@);
    r
}

fn position_of(cs: &Vec<String>, x: &str) -> (r: Option<usize>)
    ensures
        match r {
            Some(i) => position_in(strs_view(cs@), x@) == Some(i as int) && i < cs.len(),
            None => position_in(strs_view(cs@), x@) is None,
        },
{
    let ghost v = strs_view(cs@);
    let mut i: usize = 0;
    assert(v.skip(0) =~= v);
    while i < cs.len()
        invariant
            v == strs_view(cs@),
            i <= cs.len(),
            position_in(v, x@) == match position_in(v.skip(i as int), x@) {
                Some(j) => Some(j + i),
                None => None::<int>,
            },
        decreases cs.len() - i,
    {
        assert(v.skip(i as int).drop_first() =~= v.skip(i + 1));
        if str_eq(cs[i].as_str(), x) {
            return Some(i);
        }
        i = i + 1;
    }
    None
}

fn find_node<'a>(nodes: &'a Vec<TopologyNode>, x: &str) -> (r: Option<&'a TopologyNode>)
    ensures
        match r {
            Some(n) => node_named(nodes@, x@) == Some(*n),
            None => node_named(nodes@, x@) is None,
        },
{
    let mut i: usize = 0;
    assert(nodes@.skip(0) =~= nodes@);
    while i < nodes.len()
        invariant
            i <= nodes.len(),
            node_named(nodes@, x@) == node_named(nodes@.skip(i as int), x@),
        decreases nodes.len() - i,
    {
        assert(nodes@.skip(i as int).drop_first() =~= nodes@.skip(i + 1));
        if str_eq(nodes[i].id.as_str(), x) {
            return Some(&nodes[i]);
        }
        i = i + 1;
    }
    None
}

impl TopologyViewState {
    /// The view at `zoom`, focused on `focus_id` if given.
    pub fn new(zoom: TopologyZoom, focus_id: Option<&str>, include_done: bool) -> (s: TopologyViewState)
        ensures
            s.zoom == zoom,
            opt_view(s.focus_id) == match focus_id { Some(f) => Some(f@), None => None },
            s.include_done == include_done,
    {
        TopologyViewState {
            zoom,
            focus_id: match focus_id { Some(f) => Some(owned(f)), None => None },
            include_done,
        }
    }

    pub fn zoom_in(&mut self)
        ensures
            final(self).zoom == zoom_in_spec(old(self).zoom),
            final(self).focus_id == old(self).focus_id,
            final(self).include_done == old(self).include_done,
    {
        self.zoom = self.zoom.zoom_in();
    }

    pub fn zoom_out(&mut self)
        ensures
            final(self).zoom == zoom_out_spec(old(self).zoom),
            final(self).focus_id == old(self).focus_id,
            final(self).include_done == old(self).include_done,
    {
        self.zoom = self.zoom.zoom_out();
    }

    pub fn toggle_done(&mut self)
        ensures
            final(self).include_done == !old(self).include_done,
            final(self).zoom == old(self).zoom,
            final(self).focus_id == old(self).focus_id,
    {
        self.include_done = !self.include_done;
    }

    pub fn clear_focus(&mut self)
        ensures
            final(self).focus_id is None,
            final(self).zoom == old(self).zoom,
            final(self).include_done == old(self).include_done,
    {
        self.focus_id = None;
    }

    /// Moves focus to the next (or previous) node of the drawn map.
    pub fn cycle_focus(&mut self, nodes: &Vec<TopologyNode>, direction: FocusDirection)
        ensures
            opt_view(final(self).focus_id) == cycled_focus(nodes@, opt_view(old(self).focus_id), direction),
            final(self).zoom == old(self).zoom,
            final(self).include_done == old(self).include_done,
    {
        let candidates = candidate_ids(nodes);
        let n = candidates.len();
        if n == 0 {
            self.focus_id = None;
            return;
        }
        let next: usize = match &self.focus_id {
            Some(current) => {
                let ci = match position_of(&candidates, current.as_str()) {
                    Some(i) => i,
                    None => 0,
                };
                match direction {
                    FocusDirection::Next => (ci + 1) % n,
                    FocusDirection::Previous => ((ci as u128 + (n - 1) as u128) % (n as u128)) as usize,
                }
            },
            None => match direction {
                FocusDirection::Next => 0,
                FocusDirection::Previous => n - 1,
            },
        };
        assert(strs_view(candidates@)[next as int] == candidates@[next as int]@);
        self.focus_id = Some(candidates[next].clone());
    }

    /// Moves focus to the focused node's parent, or clears it.
    pub fn focus_parent(&mut self, nodes: &Vec<TopologyNode>)
        ensures
            opt_view(final(self).focus_id) == parent_focus(nodes@, opt_view(old(self).focus_id)),
            final(self).zoom == old(self).zoom,
            final(self).include_done == old(self).include_done,
    {
        let current = match &self.focus_id {
            Some(c) => c.clone(),
            None => return,
        };
        let node = match find_node(nodes, current.as_str()) {
            Some(n) => n,
            None => {
                self.focus_id = None;
                return;
            },
        };
        let parent = match &node.parent_id {
            Some(p) => p.clone(),
            None => {
                self.focus_id = None;
                return;
            },
        };
        let parent_is_world = match find_node(nodes, parent.as_str()) {
            Some(pn) => pn.is_world,
            None => false,
        };
        if parent_is_world {
            self.focus_id = None;
        } else {
            self.focus_id = Some(parent);
        }
    }
}

/// A key pressed in the interactive view.
#[derive(Clone, Copy, Debug, PartialEq, Eq, Structural)]
pub enum TopologyKey {
    Char(char),
    Esc,
    Up,
    Down,
    Left,
    Right,
    Backspace,
    Other,
}

/// Whether the view goes on after a key press.
#[derive(Clone, Copy, Debug, PartialEq, Eq, Structural)]
pub enum TopologyStep {
    Continue,
    Quit,
}

/// The view after key `k`, and whether it goes on: `q` quits; escape
/// clears the focus, or quits when nothing is focused; `+`, `=` and up zoom
/// in; `-`, `_` and down zoom out; `d` shows or hides finished work; `c`
/// clears the focus; `u` and backspace move focus to the parent; left and
/// `[` cycle focus back, right and `]` forward; other keys change nothing.
pub open spec fn key_step(s: TopologyViewState, ns: Seq<TopologyNode>, k: TopologyKey) -> (TopologyStep, Option<Seq<char>>, TopologyZoom, bool) {
    let f = opt_view(s.focus_id);
    let unchanged = (TopologyStep::Continue, f, s.zoom, s.include_done);
    match k {
        TopologyKey::Char('q') => (TopologyStep::Quit, f, s.zoom, s.include_done),
        TopologyKey::Esc => if f is Some {
            (TopologyStep::Continue, None, s.zoom, s.include_done)
        } else {
            (TopologyStep::Quit, f, s.zoom, s.include_done)
        },
        TopologyKey::Char('+') | TopologyKey::Char('=') | TopologyKey::Up =>
            (TopologyStep::Continue, f, zoom_in_spec(s.zoom), s.include_done),
        TopologyKey::Char('-') | TopologyKey::Char('_') | TopologyKey::Down =>
            (TopologyStep::Continue, f, zoom_out_spec(s.zoom), s.include_done),
        TopologyKey::Char('d') => (TopologyStep::Continue, f, s.zoom, !s.include_done),
        TopologyKey::Char('c') => (TopologyStep::Continue, None, s.zoom, s.include_done),
        TopologyKey::Char('u') | TopologyKey::Backspace =>
            (TopologyStep::Continue, parent_focus(ns, f), s.zoom, s.include_done),
        TopologyKey::Left | TopologyKey::Char('[') =>
            (TopologyStep::Continue, cycled_focus(ns, f, FocusDirection::Previous), s.zoom, s.include_done),
        TopologyKey::Right | TopologyKey::Char(']') =>
            (TopologyStep::Continue, cycled_focus(ns, f, FocusDirection::Next), s.zoom, s.include_done),
        _ => unchanged,
    }
}

/// Applies one key press to the view over the nodes of the drawn map.
pub fn handle_key(state: &mut TopologyViewState, nodes: &Vec<TopologyNode>, key: TopologyKey) -> (step: TopologyStep)
    ensures
        (step, opt_view(final(state).focus_id), final(state).zoom, final(state).include_done)
            == key_step(*old(state), nodes@, key),
{
    match key {
        TopologyKey::Char('q') => TopologyStep::Quit,
        TopologyKey::Esc => {
            if state.focus_id.is_some() {
                state.clear_focus();
                TopologyStep::Continue
            } else {
                TopologyStep::Quit
            }
        },
        TopologyKey::Char('+') | TopologyKey::Char('=') | TopologyKey::Up => {
            state.zoom_in();
            TopologyStep::Continue
        },
        TopologyKey::Char('-') | TopologyKey::Char('_') | TopologyKey::Down => {
            state.zoom_out();
            TopologyStep::Continue
        },
        TopologyKey::Char('d') => {
            state.toggle_done();
            TopologyStep::Continue
        },
        TopologyKey::Char('c') => {
            state.clear_focus();
            TopologyStep::Continue
        },
        TopologyKey::Char('u') | TopologyKey::Backspace => {
            state.focus_parent(nodes);
            TopologyStep::Continue
        },
        TopologyKey::Left | TopologyKey::Char('[') => {
            state.cycle_focus(nodes, FocusDirection::Previous);
            TopologyStep::Continue
        },
        TopologyKey::Right | TopologyKey::Char(']') => {
            state.cycle_focus(nodes, FocusDirection::Next);
            TopologyStep::Continue
        },
        _ => TopologyStep::Continue,
    }
}

/// The key help shown under the interactive map.
pub open spec fn controls_line() -> Seq<char> {
    "Controls: +/- zoom  [/] cycle focus  u parent  c clear  d done  q quit"@
}

/// The interactive frame: the rendered map's lines and the key help,
/// joined with carriage-return line feeds (the terminal is in raw mode).
pub fn render_interactive_frame(output: &str) -> (r: String)
    ensures
        r@ == join_with(lines_spec(output@).push(controls_line()), "\r\n"@),
{
    let mut ls = lines(output);
    ls.push(owned("Controls: +/- zoom  [/] cycle focus  u parent  c clear  d done  q quit"));
    let mut r = String::new();
    let mut i: usize = 0;
    let ghost v = strs_view(ls@);
    assert(v =~= lines_spec(output@).push(controls_line()));
    while i < ls.len()
        invariant
            v == strs_view(ls@),
            i <= ls.len(),
            r@ == join_with(v.take(i as int), "\r\n"@),
        decreases ls.len() - i,
    {
        assert(v.take(i + 1).drop_last() =~= v.take(i as int));
        if i > 0 {
            r.append("\r\n");
        } else {
            assert(v.take(1) =~= seq![v[0]]);
        }
        r.append(ls[i].as_str());
        i = i + 1;
    }
    assert(v.take(ls.len() as int) =~= v);
    r
}

} // verus!
