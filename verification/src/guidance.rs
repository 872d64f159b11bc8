//! Canonical next-step and recovery guidance shared by lifecycle commands,
//! with its JSON form.

use vstd::prelude::*;
use crate::ansi::{bold, bold_spec};
use crate::text::{concat2, concat3, owned, push_char, str_chars};

verus! {

/// One suggested command.
#[derive(Debug)]
pub struct GuidanceStep {
    pub command: String,
}

/// Guidance after a command: the next lifecycle step or a recovery step.
#[derive(Debug)]
pub struct CanonicalGuidance {
    pub next_step: Option<GuidanceStep>,
    pub recovery_step: Option<GuidanceStep>,
}

/// A command suggested as the next step or as a recovery step.
#[derive(Debug)]
pub enum CommandGuidance {
    Next(String),
    Recovery(String),
}

impl CommandGuidance {
    /// A next-step suggestion.
    pub fn next(command: String) -> (g: CommandGuidance)
        ensures
            g == CommandGuidance::Next(command),
    {
        CommandGuidance::Next(command)
    }

    /// A recovery suggestion.
    pub fn recovery(command: String) -> (g: CommandGuidance)
        ensures
            g == CommandGuidance::Recovery(command),
    {
        CommandGuidance::Recovery(command)
    }
}

/// The canonical guidance for a suggestion: its command in the matching slot.
pub open spec fn canonical_spec(g: Option<CommandGuidance>) -> Option<(Option<Seq<char>>, Option<Seq<char>>)> {
    match g {
        Some(CommandGuidance::Next(c)) => Some((Some(c@), None)),
        Some(CommandGuidance::Recovery(c)) => Some((None, Some(c@))),
        None => None,
    }
}

/// The commands a guidance value holds.
pub open spec fn guidance_view(g: Option<CanonicalGuidance>) -> Option<(Option<Seq<char>>, Option<Seq<char>>)> {
    match g {
        Some(c) => Some((
            match c.next_step { Some(s) => Some(s.command@), None => None },
            match c.recovery_step { Some(s) => Some(s.command@), None => None },
        )),
        None => None,
    }
}

/// Turns a suggestion into canonical guidance.
pub fn render_command_guidance(g: Option<CommandGuidance>) -> (r: Option<CanonicalGuidance>)
    ensures
        guidance_view(r) == canonical_spec(g),
{
    match g {
        Some(CommandGuidance::Next(c)) => Some(CanonicalGuidance {
            next_step: Some(GuidanceStep { command: c }),
            recovery_step: None,
        }),
        Some(CommandGuidance::Recovery(c)) => Some(CanonicalGuidance {
            next_step: None,
            recovery_step: Some(GuidanceStep { command: c }),
        }),
        None => None,
    }
}

impl CanonicalGuidance {
    /// Guidance whose next step is `command`.
    pub fn next(command: &str) -> (g: CanonicalGuidance)
        ensures
            guidance_view(Some(g)) == Some((Some(command@), None::<Seq<char>>)),
    {
        CanonicalGuidance { next_step: Some(GuidanceStep { command: owned(command) }), recovery_step: None }
    }

    /// Guidance whose recovery step is `command`.
    pub fn recovery(command: &str) -> (g: CanonicalGuidance)
        ensures
            guidance_view(Some(g)) == Some((None::<Seq<char>>, Some(command@))),
    {
        CanonicalGuidance { next_step: None, recovery_step: Some(GuidanceStep { command: owned(command) }) }
    }

    /// The guidance as a JSON object: `next_step` and `recovery_step`, each
    /// `{"command": ...}`, an absent step left out.
    pub fn to_json(&self) -> (r: String)
        ensures
            r@ == guidance_json_spec(guidance_view(Some(*self))),
    {
        guidance_json(Some(self))
    }
}

/// Four lowercase hexadecimal digits of `c`'s code (for `\u` escapes).
pub open spec fn hex_digit(d: nat) -> char {
    if d < 10 { crate::text::digit_char(d) }
    else if d == 10 { 'a' } else if d == 11 { 'b' } else if d == 12 { 'c' }
    else if d == 13 { 'd' } else if d == 14 { 'e' } else { 'f' }
}

/// How a character appears inside a JSON string.
pub open spec fn json_char(c: char) -> Seq<char> {
    if c == '"' { seq!['\\', '"'] }
    else if c == '\\' { seq!['\\', '\\'] }
    else if c == '\n' { seq!['\\', 'n'] }
    else if c == '\r' { seq!['\\', 'r'] }
    else if c == '\t' { seq!['\\', 't'] }
    else if c == '\x08' { seq!['\\', 'b'] }
    else if c == '\x0c' { seq!['\\', 'f'] }
    else if (c as u32) < 0x20 {
        seq!['\\', 'u', '0', '0', hex_digit(((c as u32) / 16) as nat), hex_digit(((c as u32) % 16) as nat)]
    } else {
        seq![c]
    }
}

/// The escaped body of a JSON string.
pub open spec fn json_escape(s: Seq<char>) -> Seq<char>
    decreases s.len(),
{
    if s.len() == 0 {
        Seq::empty()
    } else {
        json_escape(s.drop_last()) + json_char(s.last())
    }
}

/// A JSON string literal.
pub open spec fn json_string(s: Seq<char>) -> Seq<char> {
    seq!['"'] + json_escape(s) + seq!['"']
}

/// `{"command":"..."}`.
pub open spec fn json_step(c: Seq<char>) -> Seq<char> {
    "{\"command\":"@ + json_string(c) + "}"@
}

/// The JSON text of a guidance value; `null` when there is none.
pub open spec fn guidance_json_spec(g: Option<(Option<Seq<char>>, Option<Seq<char>>)>) -> Seq<char> {
    match g {
        None => "null"@,
        Some((n, r)) => match (n, r) {
            (Some(a), Some(b)) => "{\"next_step\":"@ + json_step(a) + ",\"recovery_step\":"@ + json_step(b) + "}"@,
            (Some(a), None) => "{\"next_step\":"@ + json_step(a) + "}"@,
            (None, Some(b)) => "{\"recovery_step\":"@ + json_step(b) + "}"@,
            (None, None) => "{}"@,
        },
    }
}

fn hex_char(d: u32) -> (c: char)
    requires
        d < 16,
    ensures
        c == hex_digit(d as nat),
{
    if d == 0 { '0' } else if d == 1 { '1' } else if d == 2 { '2' } else if d == 3 { '3' }
    else if d == 4 { '4' } else if d == 5 { '5' } else if d == 6 { '6' } else if d == 7 { '7' }
    else if d == 8 { '8' } else if d == 9 { '9' } else if d == 10 { 'a' } else if d == 11 { 'b' }
    else if d == 12 { 'c' } else if d == 13 { 'd' } else if d == 14 { 'e' } else { 'f' }
}

/// Writes `s` as a JSON string literal.
pub fn json_quote(s: &str) -> (r: String)
    ensures
        r@ == json_string(s@),
{
    let cs = str_chars(s);
    let mut out = String::new();
    push_char(&mut out, '"');
    let mut i: usize = 0;
    while i < cs.len()
        invariant
            cs@ == s@,
            i <= cs.len(),
            out@ == seq!['"'] + json_escape(s@.take(i as int)),
        decreases cs.len() - i,
    {
        assert(s@.take(i + 1).drop_last() =~= s@.take(i as int));
        let c = cs[i];
        let ghost before = out@;
        if c == '"' {
            push_char(&mut out, '\\'); push_char(&mut out, '"');
        } else if c == '\\' {
            push_char(&mut out, '\\'); push_char(&mut out, '\\');
        } else if c == '\n' {
            push_char(&mut out, '\\'); push_char(&mut out, 'n');
        } else if c == '\r' {
            push_char(&mut out, '\\'); push_char(&mut out, 'r');
        } else if c == '\t' {
            push_char(&mut out, '\\'); push_char(&mut out, 't');
        } else if c == '\x08' {
            push_char(&mut out, '\\'); push_char(&mut out, 'b');
        } else if c == '\x0c' {
            push_char(&mut out, '\\'); push_char(&mut out, 'f');
        } else if (c as u32) < 0x20 {
            push_char(&mut out, '\\'); push_char(&mut out, 'u');
            push_char(&mut out, '0'); push_char(&mut out, '0');
            push_char(&mut out, hex_char((c as u32) / 16));
            push_char(&mut out, hex_char((c as u32) % 16));
        } else {
            push_char(&mut out, c);
        }
        assert(out@ =~= before + json_char(c));
        i = i + 1;
    }
    push_char(&mut out, '"');
    assert(s@.take(cs.len() as int) =~= s@);
    out
}

fn json_step_string(c: &str) -> (r: String)
    ensures
        r@ == json_step(c@),
{
    let q = json_quote(c);
    concat3("{\"command\":", q.as_str(), "}")
}

/// The JSON text of a guidance value (`null` when absent).
pub fn guidance_json(g: Option<&CanonicalGuidance>) -> (r: String)
    ensures
        r@ == guidance_json_spec(guidance_view(match g { Some(x) => Some(*x), None => None })),
{
    match g {
        None => owned("null"),
        Some(c) => match (&c.next_step, &c.recovery_step) {
            (Some(a), Some(b)) => {
                let mut r = concat2("{\"next_step\":", json_step_string(a.command.as_str()).as_str());
                r.append(",\"recovery_step\":");
                r.append(json_step_string(b.command.as_str()).as_str());
                r.append("}");
                r
            },
            (Some(a), None) => concat3("{\"next_step\":", json_step_string(a.command.as_str()).as_str(), "}"),
            (None, Some(b)) => concat3("{\"recovery_step\":", json_step_string(b.command.as_str()).as_str(), "}"),
            (None, None) => owned("{}"),
        },
    }
}

/// The human-readable block for guidance: `Next step:` with the bold command,
/// else `Recovery step:` with it, else nothing.
pub open spec fn render_human_spec(g: Option<(Option<Seq<char>>, Option<Seq<char>>)>) -> Seq<char> {
    match g {
        Some((Some(n), _)) => "\nNext step:\n  "@ + bold_spec(n) + "\n"@,
        Some((None, Some(r))) => "\nRecovery step:\n  "@ + bold_spec(r) + "\n"@,
        _ => Seq::empty(),
    }
}

/// Renders the human-readable next/recovery step block when guidance is present.
pub fn render_human(guidance: Option<&CanonicalGuidance>) -> (r: String)
    ensures
        r@ == render_human_spec(guidance_view(match guidance { Some(x) => Some(*x), None => None })),
{
    match guidance {
        Some(g) => match (&g.next_step, &g.recovery_step) {
            (Some(n), _) => concat3("\nNext step:\n  ", bold(n.command.as_str()).as_str(), "\n"),
            (None, Some(r)) => concat3("\nRecovery step:\n  ", bold(r.command.as_str()).as_str(), "\n"),
            (None, None) => String::new(),
        },
        None => String::new(),
    }
}

/// A failure message followed by its rendered recovery guidance, if any.
pub open spec fn error_with_guidance_spec(message: Seq<char>, g: Option<(Option<Seq<char>>, Option<Seq<char>>)>) -> Seq<char> {
    message + render_human_spec(g)
}

/// Appends the rendered guidance block to an error message.
pub fn error_with_guidance(message: &str, guidance: Option<&CanonicalGuidance>) -> (r: String)
    ensures
        r@ == error_with_guidance_spec(message@, guidance_view(match guidance { Some(x) => Some(*x), None => None })),
{
    let rendered = render_human(guidance);
    concat2(message, rendered.as_str())
}

} // verus!
