//! Story commands: lifecycle gates, creation, display and audit.

pub mod guidance;
pub mod lifecycle;
pub mod start;
pub mod ice;
pub mod thaw;
pub mod reject;
pub mod accept;
pub mod reflect;
pub mod record;
pub mod link;
pub mod new;
pub mod show;
pub mod audit;
pub mod audit_scope;
