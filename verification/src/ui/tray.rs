//! The notification-area icon.
//!
//! Not optional: the widget's cross hides the window rather than closing it, so without an icon to
//! restore it from, hiding would strand the user with a running process and no way to see it.
use vstd::prelude::*;
use vstd::string::*;

use crate::config::Mode;
use crate::net::routes::Verdict;
use crate::text;

verus! {

/// What the user did in the notification area.
#[derive(Debug, Clone, Copy, PartialEq, Eq, Structural)]
pub enum TrayAction {
    /// Show the widget if hidden, hide it if visible.
    Toggle,
}

/// What the tooltip says: a switch that is under way, or who carries the traffic.
pub open spec fn tooltip_words(verdict: Verdict, pending: Option<Mode>) -> Seq<char> {
    match pending {
        Some(m) => "LinkSwitch — switching to "@ + m.name() + "..."@,
        None => match verdict {
            Verdict::Ethernet { .. } => "LinkSwitch — traffic is going over Ethernet"@,
            Verdict::Wifi { .. } => "LinkSwitch — traffic is going over Wi-Fi"@,
            Verdict::Hijacked { .. } => "LinkSwitch — a VPN is carrying all traffic"@,
            Verdict::NoRoute => "LinkSwitch — no network route"@,
        },
    }
}

pub fn tooltip_for(verdict: &Verdict, pending: Option<Mode>) -> (r: String)
    ensures
        r@ == tooltip_words(*verdict, pending),
{
    if let Some(m) = pending {
        let mut r = "LinkSwitch — switching to ".to_owned();
        r.append(m.as_str());
        r.append("...");
        return r;
    }
    match verdict {
        Verdict::Ethernet { .. } => "LinkSwitch — traffic is going over Ethernet".to_owned(),
        Verdict::Wifi { .. } => "LinkSwitch — traffic is going over Wi-Fi".to_owned(),
        Verdict::Hijacked { .. } => "LinkSwitch — a VPN is carrying all traffic".to_owned(),
        Verdict::NoRoute => "LinkSwitch — no network route".to_owned(),
    }
}

/// The tooltip that is shown.
#[derive(Debug)]
pub struct Tooltip {
    pub current: String,
}

impl Tooltip {
    /// None yet.
    pub fn new() -> (r: Tooltip)
        ensures
            r.current@.len() == 0,
    {
        let current = String::new();
        Tooltip { current }
    }

    /// Keep the tooltip in step with reality. True if it has to be shown anew.
    pub fn update_tooltip(&mut self, verdict: &Verdict, mode: Option<Mode>) -> (r: bool)
        ensures
            final(self).current@ == tooltip_words(*verdict, mode),
            r == (old(self).current@ != tooltip_words(*verdict, mode)),
    {
        let tip = tooltip_for(verdict, mode);
        if text::same(tip.as_str(), self.current.as_str()) {
            false
        } else {
            self.current = tip;
            true
        }
    }
}

/// The side of the icon, in pixels.
pub const ICON_SIDE: u32 = 16;

/// A pixel belongs to the mark.
pub open spec fn inside(x: int, y: int) -> bool {
    4 <= y < 12 && 2 <= x < 14
}

/// One of the four bytes of a pixel: red, green, blue, opacity.
pub open spec fn icon_byte(x: int, y: int, k: int) -> u8 {
    if !inside(x, y) {
        0
    } else if k == 0 {
        0x4C
    } else if k == 1 {
        0xC2
    } else if k == 2 {
        0x8C
    } else {
        0xFF
    }
}

fn push_pixel(out: &mut Vec<u8>, inside: bool)
    ensures
        final(out)@ == old(out)@ + if inside {
            seq![0x4Cu8, 0xC2, 0x8C, 0xFF]
        } else {
            seq![0u8, 0, 0, 0]
        },
{
    if inside {
        out.push(0x4C);
        out.push(0xC2);
        out.push(0x8C);
        out.push(0xFF);
        assert(out@ =~= old(out)@ + seq![0x4Cu8, 0xC2, 0x8C, 0xFF]);
    } else {
        out.push(0);
        out.push(0);
        out.push(0);
        out.push(0);
        assert(out@ =~= old(out)@ + seq![0u8, 0, 0, 0]);
    }
}

/// Byte `i` of a picture that is stored row by row.
pub open spec fn byte_at(i: int) -> u8 {
    icon_byte((i / 4) % 16, (i / 4) / 16, i % 4)
}

/// A plain mark, used only when the embedded icon is unavailable: the bytes of its pixels, row by
/// row, four to a pixel.
pub fn fallback_icon() -> (r: Vec<u8>)
    ensures
        r@.len() == ICON_SIDE * ICON_SIDE * 4,
        forall|i: int| 0 <= i < r@.len() ==> #[trigger] r@[i] == byte_at(i),
{
    let mut out: Vec<u8> = Vec::new();
    let mut p: u32 = 0;
    while p < 256
        invariant
            p <= 256,
            out@.len() == p * 4,
            forall|i: int| 0 <= i < out@.len() ==> #[trigger] out@[i] == byte_at(i),
        decreases 256 - p,
    {
        let x: u32 = p % 16;
        let y: u32 = p / 16;
        let ghost before = out@;
        push_pixel(&mut out, 4 <= y && y < 12 && 2 <= x && x < 14);
        proof {
            assert forall|i: int| 0 <= i < out@.len() implies #[trigger] out@[i] == byte_at(i) by {
                if i < before.len() {
                    assert(out@[i] == before[i]);
                } else {
                    let k = i - before.len();
                    assert(i / 4 == p && i % 4 == k);
                }
            }
        }
        p = p + 1;
    }
    out
}

} // verus!
