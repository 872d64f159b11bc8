//! ANSI colour theme used by the dashboard renderers.

use vstd::prelude::*;
use crate::ansi::sgr;

verus! {

/// Colour theme used by terminal presentation renderers.
#[derive(Clone, Copy, Debug)]
pub struct Theme {
    /// Colour for the human actor (cyan).
    pub human: &'static str,
    /// Colour for the agent actor (green).
    pub agent: &'static str,
    /// Colour for warnings (yellow).
    pub warning: &'static str,
    /// Colour for muted text (gray).
    pub muted: &'static str,
    /// Bold text.
    pub bold: &'static str,
    /// Reset all formatting.
    pub reset: &'static str,
}

impl Theme {
    /// The theme with colours.
    pub open spec fn is_colored(&self) -> bool {
        &&& self.human@ == sgr(seq!['3', '6'])
        &&& self.agent@ == sgr(seq!['3', '2'])
        &&& self.warning@ == sgr(seq!['3', '3'])
        &&& self.muted@ == sgr(seq!['9', '0'])
        &&& self.bold@ == sgr(seq!['1'])
        &&& self.reset@ == sgr(seq!['0'])
    }

    /// The theme whose every code is empty.
    pub open spec fn is_plain(&self) -> bool {
        &&& self.human@.len() == 0
        &&& self.agent@.len() == 0
        &&& self.warning@.len() == 0
        &&& self.muted@.len() == 0
        &&& self.bold@.len() == 0
        &&& self.reset@.len() == 0
    }

    /// The coloured theme.
    pub fn colored() -> (t: Theme)
        ensures
            t.is_colored(),
    {
        proof {
            reveal_strlit("\x1b[36m");
            reveal_strlit("\x1b[32m");
            reveal_strlit("\x1b[33m");
            reveal_strlit("\x1b[90m");
            reveal_strlit("\x1b[1m");
            reveal_strlit("\x1b[0m");
        }
        let t = Theme {
            human: "\x1b[36m",
            agent: "\x1b[32m",
            warning: "\x1b[33m",
            muted: "\x1b[90m",
            bold: "\x1b[1m",
            reset: "\x1b[0m",
        };
        assert(t.human@ =~= sgr(seq!['3', '6']));
        assert(t.agent@ =~= sgr(seq!['3', '2']));
        assert(t.warning@ =~= sgr(seq!['3', '3']));
        assert(t.muted@ =~= sgr(seq!['9', '0']));
        assert(t.bold@ =~= sgr(seq!['1']));
        assert(t.reset@ =~= sgr(seq!['0']));
        t
    }

    /// Theme with no colours (empty strings).
    pub fn no_color() -> (t: Theme)
        ensures
            t.is_plain(),
    {
        proof {
            reveal_strlit("");
        }
        Theme { human: "", agent: "", warning: "", muted: "", bold: "", reset: "" }
    }

    /// The theme for the given colour setting.
    pub fn for_color_mode(use_color: bool) -> (t: Theme)
        ensures
            use_color ==> t.is_colored(),
            !use_color ==> t.is_plain(),
    {
        if use_color {
            Theme::colored()
        } else {
            Theme::no_color()
        }
    }

    /// Whether colours are used, given the `--no-color` flag and whether the
    /// `NO_COLOR` environment variable is present (any value disables colour).
    pub fn should_use_color_with(no_color_flag: bool, no_color_env_present: bool) -> (b: bool)
        ensures
            b == (!no_color_flag && !no_color_env_present),
    {
        if no_color_flag {
            return false;
        }
        !no_color_env_present
    }
}

impl Default for Theme {
    fn default() -> (t: Theme)
        ensures
            t.is_colored(),
    {
        Theme::colored()
    }
}

} // verus!
