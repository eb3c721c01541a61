//! One widget, one notification-area icon.
//!
//! A named mutex settles who owns the session. A second process signals a named event and exits,
//! and the first, which polls that event, shows itself. Both objects live in the namespace of the
//! logon session: two users signed in at once each get their own widget.
use vstd::prelude::*;

verus! {

/// The mutex that is held by the one widget of the session.
pub const MUTEX_NAME: &'static str = "Local\\LinkSwitch.SingleInstance";

/// The event that asks the owner to show its window.
pub const EVENT_NAME: &'static str = "Local\\LinkSwitch.ShowWindow";

/// What a process is to do about the session's widget.
#[derive(Debug, Clone, Copy, PartialEq, Eq, Structural)]
pub enum Claim {
    /// Run, and listen for requests to show the window.
    Own,
    /// Run without knowing about others: without the mutex nothing can be settled, and running is
    /// better than refusing to start at all.
    RunUnarbitrated,
    /// Ask the owner to show itself, and exit quietly.
    GiveWay,
}

/// Claim ownership of this session's widget; `mutex` says whether the named mutex was there
/// already, if it could be had at all. Having it is not owning it: the handle is valid either way.
pub fn acquire(mutex: Option<bool>) -> (r: Claim)
    ensures
        r == match mutex {
            None => Claim::RunUnarbitrated,
            Some(existed) => if existed {
                Claim::GiveWay
            } else {
                Claim::Own
            },
        },
{
    match mutex {
        None => Claim::RunUnarbitrated,
        Some(existed) => {
            if existed {
                Claim::GiveWay
            } else {
                Claim::Own
            }
        },
    }
}

/// Has another launch asked for the window since the last check? `signalled` is the state of the
/// event, if there is one; looking at it resets it.
pub fn show_requested(signalled: Option<bool>) -> (r: bool)
    ensures
        r == (signalled == Some(true)),
{
    match signalled {
        Some(s) => s,
        None => false,
    }
}

} // verus!
