//! The learning furnace's notification modes and its status line.
//!
//! The terminal rendering happens in the application; the text of the status
//! line is decided and proved here from the furnace status and the seconds
//! since the last cycle, which the application measures.

use vstd::prelude::*;
use crate::text::{
    chars_of, string_of, extend_chars, push_decimal, decimal, to_lowercase, lowercase, chars_equal,
};
use std::time::Instant;

verus! {

#[verifier::external_type_specification]
#[verifier::external_body]
pub struct ExInstant(std::time::Instant);

/// How the furnace reports to the user.
#[derive(Debug, Clone, Copy, PartialEq, Eq, Structural)]
pub enum NotificationMode {
    /// One short line when a cycle completes.
    Minimal,
    /// Status shown in the prompt.
    Prompt,
    /// Silent; status only on request.
    Silent,
}

impl Default for NotificationMode {
    fn default() -> (r: NotificationMode)
        ensures
            r == NotificationMode::Minimal,
    {
        NotificationMode::Minimal
    }
}

/// The name of a mode.
pub open spec fn mode_name(m: NotificationMode) -> Seq<char> {
    match m {
        NotificationMode::Minimal => "minimal"@,
        NotificationMode::Prompt => "prompt"@,
        NotificationMode::Silent => "none"@,
    }
}

/// The mode a lowercased name stands for.
pub open spec fn mode_named(s: Seq<char>) -> Option<NotificationMode> {
    if s == "minimal"@ {
        Some(NotificationMode::Minimal)
    } else if s == "prompt"@ {
        Some(NotificationMode::Prompt)
    } else if s == "none"@ {
        Some(NotificationMode::Silent)
    } else {
        Option::None
    }
}

impl NotificationMode {
    /// Reads a mode name, ignoring case.
    pub fn from_str(s: &str) -> (r: Option<NotificationMode>)
        ensures
            r == mode_named(lowercase(s@)),
    {
        let lower = to_lowercase(s);
        let lc = chars_of(lower.as_str());
        if chars_equal(lc.as_slice(), chars_of("minimal").as_slice()) {
            Some(NotificationMode::Minimal)
        } else if chars_equal(lc.as_slice(), chars_of("prompt").as_slice()) {
            Some(NotificationMode::Prompt)
        } else if chars_equal(lc.as_slice(), chars_of("none").as_slice()) {
            Some(NotificationMode::Silent)
        } else {
            Option::None
        }
    }

    /// The name of the mode, as its display shows it.
    pub fn as_str(&self) -> (r: &'static str)
        ensures
            r@ == mode_name(*self),
    {
        match self {
            NotificationMode::Minimal => "minimal",
            NotificationMode::Prompt => "prompt",
            NotificationMode::Silent => "none",
        }
    }
}

/// Reading a mode's own name gives the mode back.
pub proof fn law_mode_name_roundtrip(m: NotificationMode)
    ensures
        mode_named(mode_name(m)) == Some(m),
{
    reveal_strlit("minimal");
    reveal_strlit("prompt");
    reveal_strlit("none");
    assert("prompt"@.len() != "minimal"@.len());
    assert("none"@.len() != "minimal"@.len());
    assert("none"@.len() != "prompt"@.len());
}

/// A duration in the shortest unit: `30s` below a minute, whole minutes `15m`
/// below an hour, whole hours `2h` otherwise.
pub open spec fn duration_text(secs: u64) -> Seq<char> {
    if secs < 60 {
        decimal(secs as nat) + "s"@
    } else if secs < 3600 {
        decimal((secs / 60) as nat) + "m"@
    } else {
        decimal((secs / 3600) as nat) + "h"@
    }
}

/// Formats a duration (see `duration_text`).
pub fn format_duration(secs: u64) -> (r: String)
    ensures
        r@ == duration_text(secs),
{
    let mut out: Vec<char> = Vec::new();
    if secs < 60 {
        push_decimal(&mut out, secs);
        extend_chars(&mut out, chars_of("s").as_slice());
    } else if secs < 3600 {
        push_decimal(&mut out, secs / 60);
        extend_chars(&mut out, chars_of("m").as_slice());
    } else {
        push_decimal(&mut out, secs / 3600);
        extend_chars(&mut out, chars_of("h").as_slice());
    }
    string_of(out.as_slice())
}

/// The furnace's state as the status line shows it.
#[derive(Debug, Clone)]
pub struct FurnaceStatus {
    /// When the last cycle ran.
    pub last_cycle: Option<Instant>,
    /// Number of patterns found.
    pub pattern_count: usize,
    /// Number of high-confidence patterns.
    pub high_confidence_count: usize,
    /// Seconds between cycles.
    pub cycle_interval_secs: u64,
    /// Whether the status line is shown.
    pub enabled: bool,
}

impl Default for FurnaceStatus {
    fn default() -> (r: FurnaceStatus)
        ensures
            r.last_cycle is None,
            r.pattern_count == 0,
            r.high_confidence_count == 0,
            r.cycle_interval_secs == 300,
            !r.enabled,
    {
        FurnaceStatus {
            last_cycle: Option::None,
            pattern_count: 0,
            high_confidence_count: 0,
            cycle_interval_secs: 300,
            enabled: false,
        }
    }
}

/// The status line. Before the first cycle: waiting, 0 patterns, and the time to
/// the next cycle. After a cycle `since` seconds ago: how long ago it ran, the
/// pattern count (with the high-confidence count and a star when there are any),
/// and the time to the next cycle, `soon` once it is due.
pub open spec fn status_text(s: FurnaceStatus, since: u64) -> Seq<char> {
    if s.last_cycle is Some {
        let next_in = if s.cycle_interval_secs > since {
            (s.cycle_interval_secs - since) as u64
        } else {
            0u64
        };
        let next = if next_in == 0 {
            "soon"@
        } else {
            duration_text(next_in)
        };
        let patterns = if s.high_confidence_count > 0 {
            decimal(s.pattern_count as nat) + " ("@ + decimal(s.high_confidence_count as nat)
                + " ⭐)"@
        } else {
            decimal(s.pattern_count as nat)
        };
        "🌊🔥 ["@ + duration_text(since) + "] "@ + patterns + " patterns | next: "@ + next
    } else {
        "🌊🔥 [waiting] 0 patterns | next: "@ + duration_text(s.cycle_interval_secs)
    }
}

/// Formats the status line; `since_last_cycle_secs` is the time elapsed since
/// `status.last_cycle` (ignored before the first cycle).
pub fn format_message(status: &FurnaceStatus, since_last_cycle_secs: u64) -> (r: String)
    ensures
        r@ == status_text(*status, since_last_cycle_secs),
{
    let since = since_last_cycle_secs;
    let mut out: Vec<char> = Vec::new();
    match status.last_cycle {
        Some(_) => {
            let next_in = status.cycle_interval_secs.saturating_sub(since);
            extend_chars(&mut out, chars_of("🌊🔥 [").as_slice());
            let ago = format_duration(since);
            extend_chars(&mut out, chars_of(ago.as_str()).as_slice());
            extend_chars(&mut out, chars_of("] ").as_slice());
            push_decimal(&mut out, status.pattern_count as u64);
            if status.high_confidence_count > 0 {
                extend_chars(&mut out, chars_of(" (").as_slice());
                push_decimal(&mut out, status.high_confidence_count as u64);
                extend_chars(&mut out, chars_of(" ⭐)").as_slice());
            }
            extend_chars(&mut out, chars_of(" patterns | next: ").as_slice());
            if next_in == 0 {
                extend_chars(&mut out, chars_of("soon").as_slice());
            } else {
                let next = format_duration(next_in);
                extend_chars(&mut out, chars_of(next.as_str()).as_slice());
            }
            assert(out@ =~= status_text(*status, since));
        },
        Option::None => {
            extend_chars(&mut out, chars_of("🌊🔥 [waiting] 0 patterns | next: ").as_slice());
            let next = format_duration(status.cycle_interval_secs);
            extend_chars(&mut out, chars_of(next.as_str()).as_slice());
            assert(out@ =~= status_text(*status, since));
        },
    }
    string_of(out.as_slice())
}

} // verus!
