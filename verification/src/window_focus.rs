//! The decisions around focusing the overlay under X11: reading a fresh
//! server timestamp from a self-inflicted `PropertyNotify`, building the
//! EWMH `_NET_ACTIVE_WINDOW` request, and noticing when the user switches
//! away from the overlay. The X11 connection itself stays with the caller,
//! which hands each event in and acts on the answer.
use crate::text::str_is;
use vstd::prelude::*;

verus! {

/// Whether the session is a Wayland one (`XDG_SESSION_TYPE` is `wayland`),
/// where none of the X11 machinery applies.
pub fn is_wayland_session(session_type: Option<&str>) -> (r: bool)
    ensures
        r == (session_type matches Some(s) && s@ == "wayland"@),
{
    match session_type {
        Some(s) => str_is(s, "wayland"),
        None => false,
    }
}

/// An X11 event as these decisions see it.
#[derive(Clone, Copy, Debug, PartialEq, Eq, Structural)]
pub enum WindowEvent {
    /// A `PropertyNotify` on `window` for `atom`, at server time `time`.
    PropertyNotify { window: u32, atom: u32, time: u32 },
    /// Any other event.
    Other,
}

/// What one non-blocking poll of the connection gave.
#[derive(Clone, Copy, Debug, PartialEq, Eq, Structural)]
pub enum Poll {
    Event(WindowEvent),
    Empty,
    Failed,
}

/// What the timestamp probe does after a poll.
#[derive(Clone, Copy, Debug, PartialEq, Eq, Structural)]
pub enum ProbeStep {
    /// The probe's own `PropertyNotify` arrived, carrying this server time.
    Found(u32),
    /// Nothing was queued: sleep briefly, then poll again (until the deadline).
    Sleep,
    /// An unrelated event: poll again at once.
    Continue,
    /// The connection failed: give up without a timestamp.
    GiveUp,
}

/// The probe's decision on one poll, for the dummy property `probe_atom`
/// changed on `window`.
pub open spec fn spec_probe_step(poll: Poll, window: u32, probe_atom: u32) -> ProbeStep {
    match poll {
        Poll::Event(WindowEvent::PropertyNotify { window: w, atom, time }) => if w == window && atom
            == probe_atom {
            ProbeStep::Found(time)
        } else {
            ProbeStep::Continue
        },
        Poll::Event(WindowEvent::Other) => ProbeStep::Continue,
        Poll::Empty => ProbeStep::Sleep,
        Poll::Failed => ProbeStep::GiveUp,
    }
}

/// Decides what the timestamp probe does after `poll`.
pub fn probe_step(poll: Poll, window: u32, probe_atom: u32) -> (r: ProbeStep)
    ensures
        r == spec_probe_step(poll, window, probe_atom),
{
    match poll {
        Poll::Event(WindowEvent::PropertyNotify { window: w, atom, time }) => {
            if w == window && atom == probe_atom {
                ProbeStep::Found(time)
            } else {
                ProbeStep::Continue
            }
        },
        Poll::Event(WindowEvent::Other) => ProbeStep::Continue,
        Poll::Empty => ProbeStep::Sleep,
        Poll::Failed => ProbeStep::GiveUp,
    }
}

/// The data of the `_NET_ACTIVE_WINDOW` client message: source indication
/// 1 (a normal application), the timestamp, and 0 for the currently
/// active window, left unspecified.
pub fn activation_message_data(timestamp: u32) -> (r: [u32; 5])
    ensures
        r@ == seq![1u32, timestamp, 0u32, 0u32, 0u32],
{
    let r = [1u32, timestamp, 0u32, 0u32, 0u32];
    proof {
        assert(r@ =~= seq![1u32, timestamp, 0u32, 0u32, 0u32]);
    }
    r
}

/// Whether `event` is a change of the root window's `_NET_ACTIVE_WINDOW`
/// that matters: one seen while the overlay is shown.
pub fn is_active_window_change(event: WindowEvent, root: u32, net_active_window: u32, overlay_visible: bool) -> (r: bool)
    ensures
        r == (overlay_visible && (event matches WindowEvent::PropertyNotify { window, atom, .. } && window
            == root && atom == net_active_window)),
{
    match event {
        WindowEvent::PropertyNotify { window, atom, .. } => overlay_visible && window == root && atom
            == net_active_window,
        WindowEvent::Other => false,
    }
}

/// Whether the overlay is to be hidden once the active window reads back
/// as `active`: it is, unless the overlay itself is active.
pub fn focus_left_overlay(active: Option<u32>, overlay: u32) -> (r: bool)
    ensures
        r == (active != Some(overlay)),
{
    match active {
        Some(a) => a != overlay,
        None => true,
    }
}

} // verus!
