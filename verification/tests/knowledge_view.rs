use keel::knowledge_graph::{KnowledgeGraphViewLinkKind, KnowledgeGraphZoom};
use keel::knowledge_view::{
    build_knowledge_graph_view, is_terminal_state, KnowledgeGraphEdge, KnowledgeGraphEdgeKind, KnowledgeGraphNode,
    KnowledgeGraphNodeKind, KnowledgeGraphProjection,
};

fn node(id: &str, kind: KnowledgeGraphNodeKind, title: &str, state: Option<&str>, parent: Option<&str>) -> KnowledgeGraphNode {
    KnowledgeGraphNode {
        id: id.to_string(),
        title: title.to_string(),
        kind,
        state: state.map(|s| s.to_string()),
        parent_id: parent.map(|p| p.to_string()),
    }
}

fn edge(from: &str, to: &str, kind: KnowledgeGraphEdgeKind) -> KnowledgeGraphEdge {
    KnowledgeGraphEdge { from: from.to_string(), to: to.to_string(), kind }
}

fn sample_projection() -> KnowledgeGraphProjection {
    KnowledgeGraphProjection {
        nodes: vec![
            node("world:board", KnowledgeGraphNodeKind::World, "Board", Some("live"), None),
            node("mission:M1", KnowledgeGraphNodeKind::Mission, "Mission", Some("active"), Some("world:board")),
            node("story:S1", KnowledgeGraphNodeKind::Story, "Story", Some("backlog"), Some("mission:M1")),
            node("artifact:a", KnowledgeGraphNodeKind::Artifact, "Artifact", None, Some("story:S1")),
            node("source:src/lib.rs", KnowledgeGraphNodeKind::SourceFile, "src/lib.rs", None, Some("world:board")),
        ],
        edges: vec![
            edge("world:board", "mission:M1", KnowledgeGraphEdgeKind::Contains),
            edge("mission:M1", "story:S1", KnowledgeGraphEdgeKind::Contains),
            edge("story:S1", "artifact:a", KnowledgeGraphEdgeKind::Documents),
            edge("artifact:a", "source:src/lib.rs", KnowledgeGraphEdgeKind::Traceability),
        ],
    }
}

fn ids(view: &keel::knowledge_view::KnowledgeGraphViewProjection) -> Vec<&str> {
    view.nodes.iter().map(|n| n.id.as_str()).collect()
}

#[test]
fn world_zoom_hides_deeper_layers() {
    let view = build_knowledge_graph_view(&sample_projection(), KnowledgeGraphZoom::World, None);
    let ids = ids(&view);
    assert!(ids.contains(&"world:board"));
    assert!(ids.contains(&"mission:M1"));
    assert!(!ids.contains(&"story:S1"));
    assert!(!ids.contains(&"artifact:a"));
}

#[test]
fn focus_retains_branch_and_neighbors() {
    let view = build_knowledge_graph_view(&sample_projection(), KnowledgeGraphZoom::Source, Some("story:S1"));
    let ids = ids(&view);
    assert!(ids.contains(&"world:board"));
    assert!(ids.contains(&"mission:M1"));
    assert!(ids.contains(&"story:S1"));
    assert!(ids.contains(&"artifact:a"));
    assert!(ids.contains(&"source:src/lib.rs"));
    let focus = view.focus.unwrap();
    assert_eq!(focus.id, "story:S1");
    assert_eq!(focus.title, "Story");
}

#[test]
fn nodes_are_ordered_by_kind_and_links_deduplicated() {
    let view = build_knowledge_graph_view(&sample_projection(), KnowledgeGraphZoom::Source, None);
    assert_eq!(ids(&view), vec!["world:board", "mission:M1", "story:S1", "artifact:a", "source:src/lib.rs"]);
    let links: Vec<(String, String, KnowledgeGraphViewLinkKind)> =
        view.links.iter().map(|l| (l.from_id.clone(), l.to_id.clone(), l.kind)).collect();
    // Structural edges that repeat the hierarchy are not drawn twice.
    assert_eq!(
        links,
        vec![
            ("artifact:a".to_string(), "source:src/lib.rs".to_string(), KnowledgeGraphViewLinkKind::Traceability),
            ("mission:M1".to_string(), "story:S1".to_string(), KnowledgeGraphViewLinkKind::Hierarchy),
            ("story:S1".to_string(), "artifact:a".to_string(), KnowledgeGraphViewLinkKind::Hierarchy),
            ("world:board".to_string(), "mission:M1".to_string(), KnowledgeGraphViewLinkKind::Hierarchy),
            ("world:board".to_string(), "source:src/lib.rs".to_string(), KnowledgeGraphViewLinkKind::Hierarchy),
        ]
    );
    let artifact = view.nodes.iter().find(|n| n.id == "artifact:a").unwrap();
    assert_eq!(artifact.signal_count, 1);
    assert_eq!(artifact.depth, 4);
    assert_eq!(artifact.parent_id.as_deref(), Some("story:S1"));
}

#[test]
fn focus_outside_the_zoom_is_ignored() {
    let view = build_knowledge_graph_view(&sample_projection(), KnowledgeGraphZoom::World, Some("story:S1"));
    assert!(view.focus.is_none());
    assert_eq!(ids(&view), vec!["world:board", "mission:M1"]);
    // The source file's parent is shown, but the source file is not.
    assert_eq!(view.zoom, KnowledgeGraphZoom::World);
}

#[test]
fn terminal_states_are_final_ones() {
    assert!(is_terminal_state(Some("done")));
    assert!(is_terminal_state(Some("declined")));
    assert!(!is_terminal_state(Some("backlog")));
    assert!(!is_terminal_state(None));
}

#[test]
fn zooming_in_hides_no_node() {
    let p = sample_projection();
    let world = build_knowledge_graph_view(&p, KnowledgeGraphZoom::World, None);
    let source = build_knowledge_graph_view(&p, KnowledgeGraphZoom::Source, None);
    for id in ids(&world) {
        assert!(ids(&source).contains(&id));
    }
}
