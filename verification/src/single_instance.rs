//! The decisions of the Windows single-instance guard, which runs before
//! the application boots: the names of the named objects it probes, their
//! NUL-terminated UTF-16 spelling, and what each probe result leads to.
//! Whoever creates the guard mutex first is the primary; a later process
//! waits a bounded time for the primary's message window, takes over if the
//! primary dies, and otherwise exits rather than boot a second copy.
use crate::text::{chars_of, push_str, string_from_chars};
use vstd::prelude::*;

verus! {

/// How long a secondary process waits for the primary's window, in milliseconds.
pub const GUARD_DEADLINE_MS: u64 = 5000;

/// Each wait on the guard mutex between window probes, in milliseconds.
pub const GUARD_POLL_MS: u32 = 200;

/// The names of the guard mutex, the primary's window class and its window
/// title for the application identifier `id`.
pub fn guard_object_names(identifier: &str) -> (r: (String, String, String))
    ensures
        r.0@ == identifier@ + "-sim-satsuma-guard"@,
        r.1@ == identifier@ + "-sic"@,
        r.2@ == identifier@ + "-siw"@,
{
    let mut a = chars_of(identifier);
    push_str(&mut a, "-sim-satsuma-guard");
    let mut b = chars_of(identifier);
    push_str(&mut b, "-sic");
    let mut c = chars_of(identifier);
    push_str(&mut c, "-siw");
    (string_from_chars(&a), string_from_chars(&b), string_from_chars(&c))
}

/// The UTF-16 code units of one character: itself below U+10000, else a
/// surrogate pair.
pub open spec fn utf16_units(c: char) -> Seq<u16> {
    let v = c as u32;
    if v < 0x10000 {
        seq![v as u16]
    } else {
        let w = (v - 0x10000) as u32;
        seq![(0xD800 + w / 0x400) as u16, (0xDC00 + w % 0x400) as u16]
    }
}

/// The UTF-16 code units of `s`.
pub open spec fn utf16(s: Seq<char>) -> Seq<u16>
    decreases s.len(),
{
    if s.len() == 0 {
        Seq::empty()
    } else {
        utf16(s.drop_last()) + utf16_units(s.last())
    }
}

/// `text` in UTF-16 with a terminating NUL, as the Win32 wide-string calls take it.
pub fn encode_wide(text: &str) -> (r: Vec<u16>)
    ensures
        r@ == utf16(text@).push(0u16),
{
    let chars = chars_of(text);
    let mut out: Vec<u16> = Vec::new();
    for i in 0..chars.len()
        invariant
            chars@ == text@,
            out@ == utf16(chars@.take(i as int)),
    {
        let c = chars[i];
        let v = c as u32;
        proof {
            assert(chars@.take(i + 1).drop_last() =~= chars@.take(i as int));
            assert(chars@.take(i + 1).last() == c);
        }
        if v < 0x10000 {
            out.push(v as u16);
        } else {
            proof {
                vstd::utf8::char_is_scalar(c);
                assert(v <= 0x10FFFF);
            }
            let w = v - 0x10000;
            out.push((0xD800 + w / 0x400) as u16);
            out.push((0xDC00 + w % 0x400) as u16);
        }
        proof {
            assert(out@ =~= utf16(chars@.take(i as int)) + utf16_units(c));
        }
    }
    proof {
        assert(chars@.take(chars@.len() as int) =~= chars@);
    }
    out.push(0u16);
    out
}

/// What a wait on the guard mutex returned.
#[derive(Clone, Copy, Debug, PartialEq, Eq, Structural)]
pub enum GuardWait {
    /// `WAIT_OBJECT_0`: the primary released the mutex (it exited).
    Signaled,
    /// `WAIT_ABANDONED`: the primary died holding it.
    Abandoned,
    /// The poll interval passed.
    TimedOut,
    /// The wait itself failed.
    Failed,
}

/// A probe result the guard acts on.
#[derive(Clone, Copy, Debug, PartialEq, Eq, Structural)]
pub enum GuardEvent {
    /// The guard mutex was opened; `already_existed` when another process made it.
    MutexOpened { already_existed: bool },
    /// The primary's window was looked for.
    WindowProbed { found: bool },
    /// A wait on the mutex returned; `past_deadline` when the waiting time is used up.
    Waited { outcome: GuardWait, past_deadline: bool },
}

/// What the guard does next.
#[derive(Clone, Copy, Debug, PartialEq, Eq, Structural)]
pub enum GuardAction {
    /// Boot as the primary instance (keeping the mutex for the process's life).
    RunAsPrimary,
    /// Boot far enough to hand the arguments to the primary, which then takes over.
    ForwardToPrimary,
    /// Look for the primary's window.
    ProbeWindow,
    /// Wait on the mutex for one poll interval.
    Wait,
    /// Print [`guard_refusal_message`] and exit with status 0 without booting.
    ExitQuietly,
}

/// The guard's decision on each probe result.
pub open spec fn spec_guard_step(e: GuardEvent) -> GuardAction {
    match e {
        GuardEvent::MutexOpened { already_existed } => if already_existed {
            GuardAction::ProbeWindow
        } else {
            GuardAction::RunAsPrimary
        },
        GuardEvent::WindowProbed { found } => if found {
            GuardAction::ForwardToPrimary
        } else {
            GuardAction::Wait
        },
        GuardEvent::Waited { outcome, past_deadline } => if outcome == GuardWait::Signaled || outcome
            == GuardWait::Abandoned {
            GuardAction::RunAsPrimary
        } else if past_deadline {
            GuardAction::ExitQuietly
        } else {
            GuardAction::ProbeWindow
        },
    }
}

/// Decides what the guard does after `event`.
pub fn guard_step(event: GuardEvent) -> (r: GuardAction)
    ensures
        r == spec_guard_step(event),
{
    match event {
        GuardEvent::MutexOpened { already_existed } => if already_existed {
            GuardAction::ProbeWindow
        } else {
            GuardAction::RunAsPrimary
        },
        GuardEvent::WindowProbed { found } => if found {
            GuardAction::ForwardToPrimary
        } else {
            GuardAction::Wait
        },
        GuardEvent::Waited { outcome, past_deadline } => {
            if outcome == GuardWait::Signaled || outcome == GuardWait::Abandoned {
                GuardAction::RunAsPrimary
            } else if past_deadline {
                GuardAction::ExitQuietly
            } else {
                GuardAction::ProbeWindow
            }
        },
    }
}

/// The guard never boots a second copy unannounced: it boots as the primary
/// only when it made the mutex or the primary let go of it, and hands over
/// only when the primary's window exists.
pub proof fn lemma_guard_fails_closed(e: GuardEvent)
    ensures
        spec_guard_step(e) == GuardAction::RunAsPrimary ==> (e == GuardEvent::MutexOpened {
            already_existed: false,
        } || (e matches GuardEvent::Waited { outcome, .. } && (outcome == GuardWait::Signaled
            || outcome == GuardWait::Abandoned))),
        spec_guard_step(e) == GuardAction::ForwardToPrimary ==> e == (GuardEvent::WindowProbed {
            found: true,
        }),
{
}

/// What the guard prints before exiting without booting.
pub fn guard_refusal_message() -> (r: &'static str)
    ensures
        r@ == "satsuma: another instance exists but never registered its single-instance IPC window within 5s; refusing to boot a second copy (fail-closed single-instance guard, upstream bug: https://github.com/tauri-apps/plugins-workspace/issues/3587)"@,
{
    "satsuma: another instance exists but never registered its single-instance IPC window within 5s; refusing to boot a second copy (fail-closed single-instance guard, upstream bug: https://github.com/tauri-apps/plugins-workspace/issues/3587)"
}

} // verus!
