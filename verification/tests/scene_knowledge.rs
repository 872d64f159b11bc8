use keel::knowledge_graph::KnowledgeGraphZoom;
use keel::scene::{render_gears, render_radar};

#[test]
fn radar_lights_at_most_three_blips() {
    assert_eq!(render_radar(0).matches('●').count(), 0);
    assert_eq!(render_radar(2).matches('●').count(), 2);
    assert_eq!(render_radar(9).matches('●').count(), 3);
    assert!(render_radar(1).contains("(+)"));
}

#[test]
fn gears_are_cyan_when_active_and_dim_when_idle() {
    assert!(render_gears(true).starts_with("\u{1b}[36m"));
    assert!(render_gears(false).starts_with("\u{1b}[2m"));
    assert!(render_gears(false).contains("( O )"));
}

#[test]
fn zoom_moves_one_level_and_stops_at_the_ends() {
    assert_eq!(KnowledgeGraphZoom::World.zoom_in(), KnowledgeGraphZoom::Delivery);
    assert_eq!(KnowledgeGraphZoom::Source.zoom_in(), KnowledgeGraphZoom::Source);
    assert_eq!(KnowledgeGraphZoom::World.zoom_out(), KnowledgeGraphZoom::World);
    assert_eq!(KnowledgeGraphZoom::Artifact.zoom_out(), KnowledgeGraphZoom::Delivery);
    assert_eq!(KnowledgeGraphZoom::Delivery.zoom_in().zoom_out(), KnowledgeGraphZoom::Delivery);
    assert_eq!(KnowledgeGraphZoom::Source.max_depth(), 5);
}

#[test]
fn zoom_names_round_trip() {
    for z in [KnowledgeGraphZoom::World, KnowledgeGraphZoom::Delivery, KnowledgeGraphZoom::Artifact, KnowledgeGraphZoom::Source] {
        assert_eq!(KnowledgeGraphZoom::parse(&z.name()), Ok(z));
    }
    assert_eq!(KnowledgeGraphZoom::parse("galaxy"), Err("unsupported knowledge graph zoom: galaxy".to_string()));
}
