//! Voyage commands: guidance, starting, planning, creation and display.

pub mod guidance;
pub mod start;
pub mod plan;
pub mod new;
pub mod show;
