//! The coverage line of the structural-drift surface: how many entities,
//! knowledge units, source files and project documents are linked into the
//! knowledge graph.

use vstd::prelude::*;
use crate::text::{decimal, usize_to_string, join_with};

verus! {

/// What one drift facet measures.
#[derive(Clone, Copy, Debug, PartialEq, Eq, Structural)]
pub enum DriftFacetKind {
    /// Entities with artifacts.
    EntityArtifacts,
    /// Knowledge units with a source attachment.
    KnowledgeProvenance,
    /// Source files with graph attachments.
    SourceAttachments,
    /// Project documents that are linked.
    ProjectDocs,
}

/// How much of one facet is covered.
#[derive(Clone, Copy, Debug, PartialEq, Eq)]
pub struct DriftFacetSummary {
    pub kind: DriftFacetKind,
    pub covered: usize,
    pub total: usize,
}

pub open spec fn short_label(k: DriftFacetKind) -> Seq<char> {
    match k {
        DriftFacetKind::EntityArtifacts => "entities"@,
        DriftFacetKind::KnowledgeProvenance => "knowledge"@,
        DriftFacetKind::SourceAttachments => "source"@,
        DriftFacetKind::ProjectDocs => "docs"@,
    }
}

impl DriftFacetKind {
    /// The facet's short name in the coverage line.
    pub fn short_label(&self) -> (r: &'static str)
        ensures
            r@ == short_label(*self),
    {
        match self {
            DriftFacetKind::EntityArtifacts => "entities",
            DriftFacetKind::KnowledgeProvenance => "knowledge",
            DriftFacetKind::SourceAttachments => "source",
            DriftFacetKind::ProjectDocs => "docs",
        }
    }
}

/// One facet as `name covered/total`.
pub open spec fn facet_text(f: DriftFacetSummary) -> Seq<char> {
    short_label(f.kind) + " "@ + decimal(f.covered as nat) + "/"@ + decimal(f.total as nat)
}

/// The coverage line: the facets in order, separated by ` | `.
pub fn render_drift_coverage(facets: &[DriftFacetSummary]) -> (r: String)
    ensures
        r@ == join_with(facets@.map_values(|f: DriftFacetSummary| facet_text(f)), " | "@),
{
    let ghost v = facets@.map_values(|f: DriftFacetSummary| facet_text(f));
    let mut r = String::new();
    let mut i: usize = 0;
    while i < facets.len()
        invariant
            v == facets@.map_values(|f: DriftFacetSummary| facet_text(f)),
            i <= facets.len(),
            r@ == join_with(v.take(i as int), " | "@),
        decreases facets.len() - i,
    {
        assert(v.take(i + 1).drop_last() =~= v.take(i as int));
        if i > 0 {
            r.append(" | ");
        } else {
            assert(v.take(1) =~= seq![v[0]]);
        }
        let f = facets[i];
        r.append(f.kind.short_label());
        r.append(" ");
        r.append(usize_to_string(f.covered).as_str());
        r.append("/");
        r.append(usize_to_string(f.total).as_str());
        i = i + 1;
    }
    assert(v.take(i as int) =~= v);
    r
}

} // verus!
