//! The knowledge graph's zoom levels and the focus and links of its view.

use vstd::prelude::*;
use crate::text::owned;

verus! {

/// How far into the knowledge graph the view reaches.
#[derive(Clone, Copy, Debug, PartialEq, Eq, Structural)]
pub enum KnowledgeGraphZoom {
    World,
    Delivery,
    Artifact,
    Source,
}

/// The zoom levels from the widest to the closest.
pub open spec fn zoom_rank(z: KnowledgeGraphZoom) -> int {
    match z {
        KnowledgeGraphZoom::World => 0,
        KnowledgeGraphZoom::Delivery => 1,
        KnowledgeGraphZoom::Artifact => 2,
        KnowledgeGraphZoom::Source => 3,
    }
}

/// The name of a zoom level.
pub open spec fn zoom_name(z: KnowledgeGraphZoom) -> Seq<char> {
    match z {
        KnowledgeGraphZoom::World => "world"@,
        KnowledgeGraphZoom::Delivery => "delivery"@,
        KnowledgeGraphZoom::Artifact => "artifact"@,
        KnowledgeGraphZoom::Source => "source"@,
    }
}

impl KnowledgeGraphZoom {
    /// One level closer (the closest level stays).
    pub fn zoom_in(self) -> (z: KnowledgeGraphZoom)
        ensures
            zoom_rank(z) == if zoom_rank(self) < 3 { zoom_rank(self) + 1 } else { 3 },
    {
        match self {
            KnowledgeGraphZoom::World => KnowledgeGraphZoom::Delivery,
            KnowledgeGraphZoom::Delivery => KnowledgeGraphZoom::Artifact,
            KnowledgeGraphZoom::Artifact => KnowledgeGraphZoom::Source,
            KnowledgeGraphZoom::Source => KnowledgeGraphZoom::Source,
        }
    }

    /// One level wider (the widest level stays).
    pub fn zoom_out(self) -> (z: KnowledgeGraphZoom)
        ensures
            zoom_rank(z) == if zoom_rank(self) > 0 { zoom_rank(self) - 1 } else { 0 },
    {
        match self {
            KnowledgeGraphZoom::World => KnowledgeGraphZoom::World,
            KnowledgeGraphZoom::Delivery => KnowledgeGraphZoom::World,
            KnowledgeGraphZoom::Artifact => KnowledgeGraphZoom::Delivery,
            KnowledgeGraphZoom::Source => KnowledgeGraphZoom::Artifact,
        }
    }

    /// How deep the graph is shown at this level.
    pub fn max_depth(self) -> (d: usize)
        ensures
            d == zoom_rank(self) + 2,
    {
        match self {
            KnowledgeGraphZoom::World => 2,
            KnowledgeGraphZoom::Delivery => 3,
            KnowledgeGraphZoom::Artifact => 4,
            KnowledgeGraphZoom::Source => 5,
        }
    }

    /// The level's name.
    pub fn name(self) -> (r: String)
        ensures
            r@ == zoom_name(self),
    {
        match self {
            KnowledgeGraphZoom::World => owned("world"),
            KnowledgeGraphZoom::Delivery => owned("delivery"),
            KnowledgeGraphZoom::Artifact => owned("artifact"),
            KnowledgeGraphZoom::Source => owned("source"),
        }
    }

    /// The level with this name, or why there is none.
    pub fn parse(value: &str) -> (r: Result<KnowledgeGraphZoom, String>)
        ensures
            match r {
                Ok(z) => zoom_name(z) == value@,
                Err(m) => m@ == "unsupported knowledge graph zoom: "@ + value@
                    && forall|z: KnowledgeGraphZoom| zoom_name(z) != value@,
            },
    {
        proof {
            reveal_strlit("world");
            reveal_strlit("delivery");
            reveal_strlit("artifact");
            reveal_strlit("source");
        }
        if crate::text::str_eq(value, "world") {
            Ok(KnowledgeGraphZoom::World)
        } else if crate::text::str_eq(value, "delivery") {
            Ok(KnowledgeGraphZoom::Delivery)
        } else if crate::text::str_eq(value, "artifact") {
            Ok(KnowledgeGraphZoom::Artifact)
        } else if crate::text::str_eq(value, "source") {
            Ok(KnowledgeGraphZoom::Source)
        } else {
            Err(crate::text::concat2("unsupported knowledge graph zoom: ", value))
        }
    }
}

/// The entity the graph view is centred on.
#[derive(Clone, Debug)]
pub struct KnowledgeGraphFocus {
    pub id: String,
    pub title: String,
    pub state: Option<String>,
}

/// What a link of the graph view stands for.
#[derive(Clone, Copy, Debug, PartialEq, Eq, Structural)]
pub enum KnowledgeGraphViewLinkKind {
    Hierarchy,
    Traceability,
    Knowledge,
}

/// A link of the graph view.
#[derive(Clone, Debug)]
pub struct KnowledgeGraphViewLink {
    pub from_id: String,
    pub to_id: String,
    pub kind: KnowledgeGraphViewLinkKind,
}

} // verus!
