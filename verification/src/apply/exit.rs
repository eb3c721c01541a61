//! Process exit codes. Distinct per failure class, because the exit code is the only channel the
//! widget has when the worker dies before it can write a journal.
use vstd::prelude::*;

verus! {

pub const OK: u32 = 0;

pub const GENERIC: u32 = 1;

pub const NOT_ELEVATED: u32 = 2;

pub const NOT_CONFIGURED: u32 = 3;

pub const WIFI_UNAVAILABLE: u32 = 4;

pub const WRITE_FAILED: u32 = 5;

pub const VERIFY_FAILED: u32 = 6;

pub const BLOCKED_BY_POLICY: u32 = 7;

/// The adapter's IP stack could not be detached or reattached.
pub const BINDING_FAILED: u32 = 8;

/// Every exit code.
pub open spec fn all() -> Seq<u32> {
    seq![
        OK,
        GENERIC,
        NOT_ELEVATED,
        NOT_CONFIGURED,
        WIFI_UNAVAILABLE,
        WRITE_FAILED,
        VERIFY_FAILED,
        BLOCKED_BY_POLICY,
        BINDING_FAILED,
    ]
}

/// The codes that a report about a mode can carry: success, or one of the failures that have a
/// name.
pub open spec fn reported(code: u32) -> bool {
    code == OK || code == NOT_ELEVATED || code == NOT_CONFIGURED || code == WIFI_UNAVAILABLE || code
        == WRITE_FAILED || code == VERIFY_FAILED || code == BLOCKED_BY_POLICY || code
        == BINDING_FAILED
}

/// No two exit codes are the same.
pub proof fn codes_are_distinct()
    ensures
        all().no_duplicates(),
{
}

} // verus!
