//! Stable interface identity.
//!
//! The interface index is documented as not persistent, so a configuration keyed on it would
//! silently start steering the wrong adapter. The LUID is stable for as long as the adapter's
//! driver instance exists, which is the best Windows offers.
use vstd::prelude::*;
use vstd::string::*;

use crate::text;

verus! {

/// The 64-bit value of an interface LUID.
#[derive(Debug, Clone, Copy, PartialEq, Eq, PartialOrd, Ord, Hash, Structural)]
pub struct LuidKey(pub u64);

impl LuidKey {
    /// The LUID as it is displayed: `0x` and sixteen hexadecimal digits.
    pub open spec fn display(self) -> Seq<char> {
        "0x"@ + text::hex(self.0 as nat, 16)
    }

    pub fn is_zero(self) -> (r: bool)
        ensures
            r == (self.0 == 0),
    {
        self.0 == 0
    }

    /// The LUID as it is displayed.
    pub fn to_text(self) -> (r: String)
        ensures
            r@ == self.display(),
    {
        let mut r = "0x".to_owned();
        text::push_hex(&mut r, self.0, 16);
        r
    }
}

pub fn luid_u64(l: LuidKey) -> (v: u64)
    ensures
        v == l.0,
{
    l.0
}

pub fn luid_from_u64(v: u64) -> (l: LuidKey)
    ensures
        l == LuidKey(v),
{
    LuidKey(v)
}

} // verus!
