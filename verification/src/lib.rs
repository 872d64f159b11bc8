//! Verified presentation and workflow-guidance logic for the keel board CLI.

pub mod text;
pub mod ansi;
pub mod model;
pub mod theme;
pub mod style;
pub mod table;
pub mod box_component;
pub mod layout;
pub mod progress;
pub mod show;
pub mod guidance;
pub mod verification_guidance;
pub mod flow_health;
pub mod flow_state;
pub mod bottleneck;
pub mod order;
pub mod board;
pub mod next_up;
pub mod flow_format;
pub mod flow_display;
pub mod listing;
pub mod requirements;
pub mod planning_lineage;
pub mod highlight;
pub mod markdown;
pub mod scene;
pub mod knowledge_graph;
pub mod topology_view;
pub mod knowledge_view;
pub mod drift;
pub mod frontmatter;
pub mod verify;
pub mod story;
pub mod voyage;
pub mod laws;
pub mod throughput;
