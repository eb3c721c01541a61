//! Win32 error codes of the IP Helper layer.
use vstd::prelude::*;
use vstd::string::*;

use crate::text;

verus! {

pub const NO_ERROR: u32 = 0;

pub const ERROR_FILE_NOT_FOUND: u32 = 2;

pub const ERROR_ACCESS_DENIED: u32 = 5;

pub const ERROR_INVALID_PARAMETER: u32 = 87;

pub const ERROR_BUFFER_OVERFLOW: u32 = 111;

pub const ERROR_ALREADY_EXISTS: u32 = 183;

pub const ERROR_NOT_FOUND: u32 = 1168;

/// The interface exists, but this address family is not bound to it.
///
/// This is a completely normal condition, not a failure: where a VPN has applied IPv6 leak
/// protection, every physical adapter answers it for IPv6.
pub fn is_family_absent(rc: u32) -> (r: bool)
    ensures
        r == (rc == ERROR_NOT_FOUND),
{
    rc == ERROR_NOT_FOUND
}

/// The LUID does not resolve to any interface: the adapter was unplugged, uninstalled, or
/// disabled.
pub fn is_adapter_gone(rc: u32) -> (r: bool)
    ensures
        r == (rc == ERROR_FILE_NOT_FOUND),
{
    rc == ERROR_FILE_NOT_FOUND
}

/// What a code means, in words.
pub open spec fn meaning(rc: u32) -> Seq<char> {
    if rc == NO_ERROR {
        "ok"@
    } else if rc == ERROR_ACCESS_DENIED {
        "access denied - the process is not elevated (the scheduled task did not supply an elevated token)"@
    } else if rc == ERROR_FILE_NOT_FOUND {
        "adapter no longer present - it was unplugged, disabled, or its driver was replaced"@
    } else if rc == ERROR_NOT_FOUND {
        "address family not bound on this adapter - nothing to do"@
    } else if rc == ERROR_INVALID_PARAMETER {
        "invalid parameter - Family was unset/AF_UNSPEC, or SitePrefixLength was not reset to 0 on an IPv4 Set"@
    } else {
        "unexpected Win32 error"@
    }
}

/// Human-readable explanation used in the log and surfaced in the widget.
pub fn explain(rc: u32) -> (r: &'static str)
    ensures
        r@ == meaning(rc),
{
    if rc == NO_ERROR {
        "ok"
    } else if rc == ERROR_ACCESS_DENIED {
        "access denied - the process is not elevated (the scheduled task did not supply an elevated token)"
    } else if rc == ERROR_FILE_NOT_FOUND {
        "adapter no longer present - it was unplugged, disabled, or its driver was replaced"
    } else if rc == ERROR_NOT_FOUND {
        "address family not bound on this adapter - nothing to do"
    } else if rc == ERROR_INVALID_PARAMETER {
        "invalid parameter - Family was unset/AF_UNSPEC, or SitePrefixLength was not reset to 0 on an IPv4 Set"
    } else {
        "unexpected Win32 error"
    }
}

/// The explanation with the numeric code, for logs and bug reports.
pub open spec fn described(rc: u32) -> Seq<char> {
    meaning(rc) + " (Win32 "@ + text::dec(rc as nat) + ")"@
}

/// `explain`, but carrying the numeric code for logs and bug reports.
pub fn describe(rc: u32) -> (r: String)
    ensures
        r@ == described(rc),
{
    let mut r = explain(rc).to_owned();
    r.append(" (Win32 ");
    text::push_dec(&mut r, rc as u64);
    r.append(")");
    r
}

} // verus!
