use keel::topology_view::{
    handle_key, render_interactive_frame, FocusDirection, TopologyKey, TopologyNode, TopologyStep,
    TopologyViewState, TopologyZoom,
};

fn node(id: &str, is_world: bool, parent: Option<&str>) -> TopologyNode {
    TopologyNode { id: id.to_string(), is_world, parent_id: parent.map(|p| p.to_string()) }
}

/// The mission-level map: the world, one mission and its epic.
fn mission_map() -> Vec<TopologyNode> {
    vec![node("world:board", true, None), node("M1", false, Some("world:board")), node("E1", false, Some("M1"))]
}

#[test]
fn topology_view_state_cycles_visible_focus_nodes() {
    let nodes = mission_map();
    let mut state = TopologyViewState::new(TopologyZoom::Mission, None, false);

    state.cycle_focus(&nodes, FocusDirection::Next);
    assert_eq!(state.focus_id.as_deref(), Some("M1"));

    state.cycle_focus(&nodes, FocusDirection::Previous);
    assert_eq!(state.focus_id.as_deref(), Some("E1"));
}

#[test]
fn topology_view_state_focus_parent_climbs_and_clears_world_parent() {
    let nodes = mission_map();
    let mut state = TopologyViewState::new(TopologyZoom::Mission, Some("E1"), false);

    state.focus_parent(&nodes);
    assert_eq!(state.focus_id.as_deref(), Some("M1"));

    state.focus_parent(&nodes);
    assert!(state.focus_id.is_none());
}

#[test]
fn interactive_frame_uses_crlf_line_endings() {
    let frame = render_interactive_frame("line one\nline two");

    assert!(frame.contains("line one\r\nline two\r\nControls:"));
    assert!(!frame.contains("line two\nControls:"));
}

#[test]
fn cycle_focus_wraps_and_skips_the_world() {
    let nodes = mission_map();
    let mut state = TopologyViewState::new(TopologyZoom::World, Some("E1"), false);
    state.cycle_focus(&nodes, FocusDirection::Next);
    assert_eq!(state.focus_id.as_deref(), Some("M1"));
    let mut lone = TopologyViewState::new(TopologyZoom::World, Some("M1"), false);
    lone.cycle_focus(&vec![node("world:board", true, None)], FocusDirection::Next);
    assert!(lone.focus_id.is_none());
    let mut stale = TopologyViewState::new(TopologyZoom::World, Some("gone"), false);
    stale.cycle_focus(&nodes, FocusDirection::Next);
    assert_eq!(stale.focus_id.as_deref(), Some("E1"));
}

#[test]
fn focus_parent_of_missing_node_clears_focus() {
    let mut state = TopologyViewState::new(TopologyZoom::World, Some("gone"), true);
    state.focus_parent(&mission_map());
    assert!(state.focus_id.is_none());
    assert!(state.include_done);
}

#[test]
fn keys_drive_the_view() {
    let nodes = mission_map();
    let mut state = TopologyViewState::new(TopologyZoom::World, None, false);
    assert_eq!(handle_key(&mut state, &nodes, TopologyKey::Char('+')), TopologyStep::Continue);
    assert_eq!(state.zoom, TopologyZoom::Mission);
    handle_key(&mut state, &nodes, TopologyKey::Down);
    handle_key(&mut state, &nodes, TopologyKey::Down);
    assert_eq!(state.zoom, TopologyZoom::World);
    handle_key(&mut state, &nodes, TopologyKey::Char('d'));
    assert!(state.include_done);
    handle_key(&mut state, &nodes, TopologyKey::Right);
    assert_eq!(state.focus_id.as_deref(), Some("M1"));
    handle_key(&mut state, &nodes, TopologyKey::Char(']'));
    assert_eq!(state.focus_id.as_deref(), Some("E1"));
    handle_key(&mut state, &nodes, TopologyKey::Backspace);
    assert_eq!(state.focus_id.as_deref(), Some("M1"));
    assert_eq!(handle_key(&mut state, &nodes, TopologyKey::Esc), TopologyStep::Continue);
    assert!(state.focus_id.is_none());
    assert_eq!(handle_key(&mut state, &nodes, TopologyKey::Other), TopologyStep::Continue);
    assert_eq!(handle_key(&mut state, &nodes, TopologyKey::Esc), TopologyStep::Quit);
    assert_eq!(handle_key(&mut state, &nodes, TopologyKey::Char('q')), TopologyStep::Quit);
}

#[test]
fn zoom_levels_saturate() {
    assert_eq!(TopologyZoom::Story.zoom_in(), TopologyZoom::Story);
    assert_eq!(TopologyZoom::World.zoom_out(), TopologyZoom::World);
    assert_eq!(TopologyZoom::Epic.zoom_in().zoom_out(), TopologyZoom::Epic);
}
