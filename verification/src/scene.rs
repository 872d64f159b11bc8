//! ASCII scenes for command states: a radar for `next`-style commands and
//! gears for automation.

use vstd::prelude::*;
use crate::ansi::{Color, fg, fg_spec, dimmed, dim_spec};

verus! {

/// The blip shown in radar slot `i` when `signals` signals were found: the
/// first three slots light up in turn.
pub open spec fn blip(signals: nat, i: nat) -> Seq<char> {
    fg_spec(Color::Green, if i < signals { "●"@ } else { " "@ })
}

/// The radar scene with up to three lit blips.
pub open spec fn radar_spec(signals: nat) -> Seq<char> {
    "\n      .-------.    \n    .'  \\ | /  '.  \n   /  ---(+)---  \\ \n  |       |       |\n  | "@
        + blip(signals, 0) + "     |   "@ + blip(signals, 1) + "   |\n   \\      |      / \n    '.  "@
        + blip(signals, 2) + " |    .'  \n      `-------`    \n"@
}

fn blip_text(signals: usize, i: usize) -> (r: String)
    ensures
        r@ == blip(signals as nat, i as nat),
{
    if i < signals { fg("●", Color::Green) } else { fg(" ", Color::Green) }
}

/// Renders a radar sweep; `signal_count` blips (at most three) appear.
pub fn render_radar(signal_count: usize) -> (r: String)
    ensures
        r@ == radar_spec(signal_count as nat),
{
    let mut out = String::new();
    out.append("\n      .-------.    \n    .'  \\ | /  '.  \n   /  ---(+)---  \\ \n  |       |       |\n  | ");
    out.append(blip_text(signal_count, 0).as_str());
    out.append("     |   ");
    out.append(blip_text(signal_count, 1).as_str());
    out.append("   |\n   \\      |      / \n    '.  ");
    out.append(blip_text(signal_count, 2).as_str());
    out.append(" |    .'  \n      `-------`    \n");
    out
}

/// The gear drawing.
pub open spec fn gears_art() -> Seq<char> {
    "\n      _   _ \n    /   V   \\ \n   |  ( O )  | -- _ \n    \\   ^   /   /   \n      -   -    | (O) |\n                \\ _ /\n"@
}

/// Renders the engine gears: cyan when work was done, dimmed when idle.
pub fn render_gears(active: bool) -> (r: String)
    ensures
        r@ == if active { fg_spec(Color::Cyan, gears_art()) } else { dim_spec(gears_art()) },
{
    let art = "\n      _   _ \n    /   V   \\ \n   |  ( O )  | -- _ \n    \\   ^   /   /   \n      -   -    | (O) |\n                \\ _ /\n";
    if active { fg(art, Color::Cyan) } else { dimmed(art) }
}

} // verus!
