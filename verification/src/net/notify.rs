//! Live change notifications, so the widget can idle at zero CPU.
//!
//! Three notifications are registered -- interface parameters, routes, addresses -- because each
//! misses something the others catch. Each of them only marks what is displayed as stale.
use vstd::prelude::*;

use super::err;

verus! {

/// Whether anything changed since it was last looked at.
#[derive(Debug, Clone, Copy, PartialEq, Eq, Structural)]
pub struct ChangeFlag {
    pub dirty: bool,
}

impl ChangeFlag {
    /// Set at first, so that the first frame reads the real state.
    pub fn new() -> (r: ChangeFlag)
        ensures
            r.dirty,
    {
        ChangeFlag { dirty: true }
    }
}

/// Has anything changed since the last check? Clears the flag.
pub fn take_dirty(flag: &mut ChangeFlag) -> (r: bool)
    ensures
        r == old(flag).dirty,
        !final(flag).dirty,
{
    let was = flag.dirty;
    flag.dirty = false;
    was
}

/// Force a refresh on the next frame.
pub fn mark_stale(flag: &mut ChangeFlag)
    ensures
        final(flag).dirty,
{
    flag.dirty = true;
}

/// Is there any notification to rely on, given the codes of the three registrations?
pub fn register(iface: u32, route: u32, addr: u32) -> (r: bool)
    ensures
        r == (iface == err::NO_ERROR || route == err::NO_ERROR || addr == err::NO_ERROR),
{
    !(iface != err::NO_ERROR && route != err::NO_ERROR && addr != err::NO_ERROR)
}

} // verus!
