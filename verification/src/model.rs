//! Workflow states of board entities and their canonical labels.

use vstd::prelude::*;
use crate::text::owned;

verus! {

/// Lifecycle state of a story.
#[derive(Clone, Copy, Debug, PartialEq, Eq, Structural)]
pub enum StoryState {
    Backlog,
    InProgress,
    NeedsHumanVerification,
    Done,
    Rejected,
    Icebox,
}

/// Lifecycle state of an epic.
#[derive(Clone, Copy, Debug, PartialEq, Eq, Structural)]
pub enum EpicState {
    Draft,
    Active,
    Done,
}

/// Lifecycle state of a voyage.
#[derive(Clone, Copy, Debug, PartialEq, Eq, Structural)]
pub enum VoyageState {
    Draft,
    Planned,
    InProgress,
    Done,
}

/// Kind of work a story describes.
#[derive(Clone, Copy, Debug, PartialEq, Eq, Structural)]
pub enum StoryType {
    Feat,
    Bug,
    Fix,
    Refactor,
    Chore,
    Docs,
}

/// Research state of a bearing.
#[derive(Clone, Copy, Debug, PartialEq, Eq, Structural)]
pub enum BearingStatus {
    Exploring,
    Evaluating,
    Ready,
    Laid,
    Declined,
    Parked,
}

pub open spec fn story_state_label(s: StoryState) -> Seq<char> {
    match s {
        StoryState::Backlog => "backlog"@,
        StoryState::InProgress => "in-progress"@,
        StoryState::NeedsHumanVerification => "needs-human-verification"@,
        StoryState::Done => "done"@,
        StoryState::Rejected => "rejected"@,
        StoryState::Icebox => "icebox"@,
    }
}

pub open spec fn epic_state_label(s: EpicState) -> Seq<char> {
    match s {
        EpicState::Draft => "draft"@,
        EpicState::Active => "active"@,
        EpicState::Done => "done"@,
    }
}

pub open spec fn voyage_state_label(s: VoyageState) -> Seq<char> {
    match s {
        VoyageState::Draft => "draft"@,
        VoyageState::Planned => "planned"@,
        VoyageState::InProgress => "in-progress"@,
        VoyageState::Done => "done"@,
    }
}

pub open spec fn story_type_label(t: StoryType) -> Seq<char> {
    match t {
        StoryType::Feat => "feat"@,
        StoryType::Bug => "bug"@,
        StoryType::Fix => "fix"@,
        StoryType::Refactor => "refactor"@,
        StoryType::Chore => "chore"@,
        StoryType::Docs => "docs"@,
    }
}

impl StoryState {
    /// The state's label as written in frontmatter.
    pub fn label(&self) -> (r: String)
        ensures
            r@ == story_state_label(*self),
    {
        match self {
            StoryState::Backlog => owned("backlog"),
            StoryState::InProgress => owned("in-progress"),
            StoryState::NeedsHumanVerification => owned("needs-human-verification"),
            StoryState::Done => owned("done"),
            StoryState::Rejected => owned("rejected"),
            StoryState::Icebox => owned("icebox"),
        }
    }
}

impl EpicState {
    /// The state's label as written in frontmatter.
    pub fn label(&self) -> (r: String)
        ensures
            r@ == epic_state_label(*self),
    {
        match self {
            EpicState::Draft => owned("draft"),
            EpicState::Active => owned("active"),
            EpicState::Done => owned("done"),
        }
    }
}

impl VoyageState {
    /// The state's label as written in frontmatter.
    pub fn label(&self) -> (r: String)
        ensures
            r@ == voyage_state_label(*self),
    {
        match self {
            VoyageState::Draft => owned("draft"),
            VoyageState::Planned => owned("planned"),
            VoyageState::InProgress => owned("in-progress"),
            VoyageState::Done => owned("done"),
        }
    }
}

impl StoryType {
    /// The type's label as written in frontmatter.
    pub fn label(&self) -> (r: String)
        ensures
            r@ == story_type_label(*self),
    {
        match self {
            StoryType::Feat => owned("feat"),
            StoryType::Bug => owned("bug"),
            StoryType::Fix => owned("fix"),
            StoryType::Refactor => owned("refactor"),
            StoryType::Chore => owned("chore"),
            StoryType::Docs => owned("docs"),
        }
    }
}

} // verus!
