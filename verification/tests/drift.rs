use keel::drift::{render_drift_coverage, DriftFacetKind, DriftFacetSummary};

fn sample_facets() -> Vec<DriftFacetSummary> {
    vec![
        DriftFacetSummary { kind: DriftFacetKind::EntityArtifacts, covered: 3, total: 5 },
        DriftFacetSummary { kind: DriftFacetKind::KnowledgeProvenance, covered: 1, total: 2 },
        DriftFacetSummary { kind: DriftFacetKind::SourceAttachments, covered: 4, total: 7 },
        DriftFacetSummary { kind: DriftFacetKind::ProjectDocs, covered: 2, total: 3 },
    ]
}

#[test]
fn render_drift_coverage_is_compact_and_deterministic() {
    let rendered = render_drift_coverage(&sample_facets());
    assert_eq!(rendered, "entities 3/5 | knowledge 1/2 | source 4/7 | docs 2/3");
}

#[test]
fn render_drift_coverage_of_no_facets_is_empty() {
    assert_eq!(render_drift_coverage(&[]), "");
    assert_eq!(render_drift_coverage(&sample_facets()[..1]), "entities 3/5");
}
