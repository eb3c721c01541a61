//! What the widget shows: texts, buttons and marks.
use vstd::prelude::*;
use vstd::string::*;

use super::{owned_view, App, Board};
use crate::config::{text_view, Mode};
use crate::net::adapters::{nic_views, Ipv4Addr, Nic, NicKind, NicView};
use crate::net::metric::MetricState;
use crate::net::nic_at;
use crate::net::routes::Verdict;
use crate::net::wcm::MinimizePolicy;
use crate::net::wifi::WifiStatusView;
use crate::status::{nic_view, status_view};
use crate::text;

verus! {

// --- signal ------------------------------------------------------------------------------

/// How many of the four bars are lit.
pub open spec fn bars(quality: u32) -> u32 {
    if quality == 0 {
        0
    } else if quality <= 25 {
        1
    } else if quality <= 50 {
        2
    } else if quality <= 75 {
        3
    } else {
        4
    }
}

/// How many of the four bars are lit. Nonzero whenever there is any signal at all, so a weak but
/// working link never looks identical to no link.
pub fn lit_bars(quality: u32) -> (r: u32)
    ensures
        r == bars(quality),
{
    match quality {
        0 => 0,
        1..=25 => 1,
        26..=50 => 2,
        51..=75 => 3,
        _ => 4,
    }
}

/// A stronger signal never shows fewer bars, there are never more than four, and any signal at all
/// lights one.
pub proof fn bars_climb_with_quality(a: u32, b: u32)
    requires
        a <= b,
    ensures
        bars(a) <= bars(b) <= 4,
        bars(a) > 0 <==> a > 0,
{
}

// --- rows --------------------------------------------------------------------------------

/// A link carries the traffic.
pub open spec fn wins(v: Verdict, kind: NicKind) -> bool {
    match v {
        Verdict::Ethernet { .. } => kind == NicKind::Ethernet,
        Verdict::Wifi { .. } => kind == NicKind::Wifi,
        _ => false,
    }
}

/// The short status beside the adapter name. `speed` is the link speed in words, if it is known.
///
/// A cable that is unplugged and an IP stack that is detached both leave the adapter without
/// routes; they are told apart here.
pub open spec fn state_words(
    n: Option<NicView>,
    kind: NicKind,
    detached: bool,
    wifi: Option<WifiStatusView>,
    speed: Option<Seq<char>>,
) -> Seq<char> {
    match n {
        None => "not found"@,
        Some(n) => if kind == NicKind::Ethernet {
            if detached {
                "IP stack detached"@
            } else if !n.media_connected {
                "cable unplugged"@
            } else if !n.oper_up {
                "down"@
            } else {
                match speed {
                    Some(s) => s,
                    None => "connected"@,
                }
            }
        } else {
            match wifi {
                Some(w) => if w.connected {
                    match w.ssid {
                        Some(s) => s,
                        None => "connected"@,
                    }
                } else if !w.radio_on {
                    "radio off"@
                } else {
                    "not connected"@
                },
                None => "not connected"@,
            }
        },
    }
}

/// The adapter of one row.
pub open spec fn row_nic(view: Board, kind: NicKind) -> Option<NicView> {
    if kind == NicKind::Ethernet {
        owned_view(view.eth)
    } else {
        owned_view(view.wifi)
    }
}

fn nic_of(view: &Board, kind: NicKind) -> (r: Option<&Nic>)
    ensures
        nic_view(r) == row_nic(*view, kind),
{
    if kind == NicKind::Ethernet {
        match &view.eth {
            Some(n) => Some(n),
            None => None,
        }
    } else {
        match &view.wifi {
            Some(n) => Some(n),
            None => None,
        }
    }
}

/// A link speed in words: `gigabits` per second, or a whole number of megabits.
pub open spec fn speed_words(bps: Option<u64>, gigabits: Seq<char>) -> Option<Seq<char>> {
    match bps {
        None => None,
        Some(bps) => Some(
            if bps >= 1_000_000_000 {
                gigabits + " Gbps"@
            } else {
                text::dec((bps / 1_000_000) as nat) + " Mbps"@
            },
        ),
    }
}

/// The link speed of a row, as far as it is known.
pub open spec fn row_speed(n: Option<NicView>, gigabits: Seq<char>) -> Option<Seq<char>> {
    match n {
        Some(n) => speed_words(n.tx_speed_bps, gigabits),
        None => None,
    }
}

/// The short status beside the adapter name. `gigabits` is the speed of the link in gigabits per
/// second with one decimal; it is used only for a link of at least one gigabit.
pub fn state_text(view: &Board, kind: NicKind, gigabits: &str) -> (r: String)
    ensures
        r@ == state_words(
            row_nic(*view, kind),
            kind,
            view.eth_ip_detached,
            status_view(view.wifi_status),
            row_speed(row_nic(*view, kind), gigabits@),
        ),
{
    match nic_of(view, kind) {
        None => "not found".to_owned(),
        Some(n) => {
            if kind == NicKind::Ethernet {
                if view.eth_ip_detached {
                    "IP stack detached".to_owned()
                } else if !n.media_connected {
                    "cable unplugged".to_owned()
                } else if !n.oper_up {
                    "down".to_owned()
                } else {
                    match n.link_speed_text(gigabits) {
                        Some(s) => s,
                        None => "connected".to_owned(),
                    }
                }
            } else {
                match &view.wifi_status {
                    Some(w) => {
                        if w.connected {
                            match &w.ssid {
                                Some(s) => s.as_str().to_owned(),
                                None => "connected".to_owned(),
                            }
                        } else if !w.radio_on {
                            "radio off".to_owned()
                        } else {
                            "not connected".to_owned()
                        }
                    },
                    None => "not connected".to_owned(),
                }
            }
        },
    }
}

/// The first address that is not link-local.
pub open spec fn first_real(v: Seq<Ipv4Addr>, from: int) -> Option<Ipv4Addr>
    decreases v.len() - from,
{
    if from >= v.len() || from < 0 {
        None
    } else if !v[from].link_local() {
        Some(v[from])
    } else {
        first_real(v, from + 1)
    }
}

/// The second line of a row: the address, if there is a real one, and the metric.
pub open spec fn detail_words(n: Option<NicView>, m: Option<MetricState>) -> Seq<char> {
    match n {
        None => ""@,
        Some(n) => {
            let metric = match m {
                Some(s) => if s.automatic {
                    "metric "@ + text::dec(s.metric as nat) + " (auto)"@
                } else {
                    "metric "@ + text::dec(s.metric as nat) + " (set by LinkSwitch)"@
                },
                None => "no IPv4"@,
            };
            match first_real(n.ipv4, 0) {
                Some(a) => a.display() + " · "@ + metric,
                None => metric,
            }
        },
    }
}

fn find_real(v: &Vec<Ipv4Addr>) -> (r: Option<Ipv4Addr>)
    ensures
        r == first_real(v@, 0),
{
    let mut i: usize = 0;
    while i < v.len()
        invariant
            i <= v.len(),
            first_real(v@, 0) == first_real(v@, i as int),
        decreases v.len() - i,
    {
        if !v[i].is_link_local() {
            return Some(v[i]);
        }
        i = i + 1;
    }
    None
}

/// The second line of a row; `m` is the metric of the adapter, if it has IPv4.
pub fn detail_text(view: &Board, kind: NicKind, m: Option<MetricState>) -> (r: String)
    ensures
        r@ == detail_words(row_nic(*view, kind), m),
{
    match nic_of(view, kind) {
        None => "".to_owned(),
        Some(n) => {
            let metric = match m {
                Some(s) => {
                    let mut t = "metric ".to_owned();
                    text::push_dec(&mut t, s.metric as u64);
                    if s.automatic {
                        t.append(" (auto)");
                    } else {
                        t.append(" (set by LinkSwitch)");
                    }
                    t
                },
                None => "no IPv4".to_owned(),
            };
            match find_real(&n.ipv4) {
                Some(a) => {
                    let mut r = a.to_text();
                    r.append(" · ");
                    r.append(metric.as_str());
                    r
                },
                None => metric,
            }
        },
    }
}

/// The signal of a connected Wi-Fi, as far as it is known.
pub open spec fn signal_of(w: Option<WifiStatusView>) -> Option<u32> {
    match w {
        Some(w) => if w.connected {
            w.signal_quality
        } else {
            None
        },
        None => None,
    }
}

/// One row: who it is about, whether that link carries the traffic, and the bars to draw.
#[derive(Debug)]
pub struct LinkRow {
    pub label: &'static str,
    pub winning: bool,
    /// The signal, for Wi-Fi that is connected.
    pub signal: Option<u32>,
}

/// What a row shows beside its texts.
pub fn link_row(view: &Board, kind: NicKind) -> (r: LinkRow)
    ensures
        r.label@ == if kind == NicKind::Ethernet {
            "Ethernet"@
        } else {
            "Wi-Fi"@
        },
        r.winning == wins(view.verdict, kind),
        r.signal == if kind == NicKind::Wifi {
            signal_of(status_view(view.wifi_status))
        } else {
            None
        },
{
    let winning = match view.verdict {
        Verdict::Ethernet { .. } => kind == NicKind::Ethernet,
        Verdict::Wifi { .. } => kind == NicKind::Wifi,
        _ => false,
    };
    let signal = if kind == NicKind::Wifi {
        match &view.wifi_status {
            Some(w) => {
                if w.connected {
                    w.signal_quality
                } else {
                    None
                }
            },
            None => None,
        }
    } else {
        None
    };
    LinkRow {
        label: if kind == NicKind::Ethernet {
            "Ethernet"
        } else {
            "Wi-Fi"
        },
        winning,
        signal,
    }
}

// --- buttons -----------------------------------------------------------------------------

/// One button.
#[derive(Debug)]
pub struct ModeButton {
    pub mode: Mode,
    pub text: &'static str,
    /// Drawn as the mode that is active.
    pub on: bool,
    pub enabled: bool,
    pub tip: &'static str,
}

pub struct ButtonView {
    pub mode: Mode,
    pub text: Seq<char>,
    pub on: bool,
    pub enabled: bool,
    pub tip: Seq<char>,
}

impl View for ModeButton {
    type V = ButtonView;

    open spec fn view(&self) -> ButtonView {
        ButtonView {
            mode: self.mode,
            text: self.text@,
            on: self.on,
            enabled: self.enabled,
            tip: self.tip@,
        }
    }
}

/// The four buttons, two to a row. None is enabled while a switch is under way.
pub open spec fn buttons_of(app: App) -> Seq<ButtonView> {
    let idle = app.pending is None;
    let active = app.view.active();
    let blocked = app.view.policy.policy is PreventWifi;
    let unplugged = match owned_view(app.view.eth) {
        Some(n) => !n.media_connected,
        None => true,
    };
    let detached = app.view.eth_ip_detached;
    seq![
        ButtonView {
            mode: Mode::Ethernet,
            text: "Ethernet"@,
            on: active == Some(Mode::Ethernet) && !detached,
            enabled: !unplugged && idle,
            tip: if unplugged {
                "The Ethernet cable is not connected."@
            } else {
                "Send traffic over the cable."@
            },
        },
        ButtonView {
            mode: Mode::Wifi,
            text: "Wi-Fi"@,
            on: active == Some(Mode::Wifi) && !detached,
            enabled: !blocked && idle,
            tip: if blocked {
                "Group Policy prevents Wi-Fi while Ethernet is connected."@
            } else {
                "Send traffic over Wi-Fi. Ethernet stays connected and keeps its own subnet."@
            },
        },
        ButtonView {
            mode: Mode::WifiOnly,
            text: "Wi-Fi only"@,
            on: detached,
            enabled: !blocked && idle,
            tip: if blocked {
                "Group Policy prevents Wi-Fi while Ethernet is connected."@
            } else {
                "Detach Ethernet's IP stack entirely: no address, no routes, no DNS. The cable                  stays plugged in and the adapter stays enabled."@
            },
        },
        ButtonView {
            mode: Mode::Auto,
            text: "Auto"@,
            on: active == Some(Mode::Auto),
            enabled: idle,
            tip: "Let Windows decide again."@,
        },
    ]
}

fn is_active(app: &App, mode: Mode) -> (r: bool)
    ensures
        r == (app.view.active() == Some(mode)),
{
    match app.view.active_mode() {
        Some(m) => m == mode,
        None => false,
    }
}

pub fn buttons(app: &App) -> (r: Vec<ModeButton>)
    ensures
        r@.map_values(|b: ModeButton| b@) == buttons_of(*app),
{
    let idle = app.pending.is_none();
    let blocked = !app.view.policy.policy.permits_manual_wifi();
    let unplugged = match &app.view.eth {
        Some(n) => !n.media_connected,
        None => true,
    };
    let detached = app.view.eth_ip_detached;
    let mut r: Vec<ModeButton> = Vec::new();
    r.push(
        ModeButton {
            mode: Mode::Ethernet,
            text: "Ethernet",
            on: is_active(app, Mode::Ethernet) && !detached,
            enabled: !unplugged && idle,
            tip: if unplugged {
                "The Ethernet cable is not connected."
            } else {
                "Send traffic over the cable."
            },
        },
    );
    r.push(
        ModeButton {
            mode: Mode::Wifi,
            text: "Wi-Fi",
            on: is_active(app, Mode::Wifi) && !detached,
            enabled: !blocked && idle,
            tip: if blocked {
                "Group Policy prevents Wi-Fi while Ethernet is connected."
            } else {
                "Send traffic over Wi-Fi. Ethernet stays connected and keeps its own subnet."
            },
        },
    );
    r.push(
        ModeButton {
            mode: Mode::WifiOnly,
            text: "Wi-Fi only",
            on: detached,
            enabled: !blocked && idle,
            tip: if blocked {
                "Group Policy prevents Wi-Fi while Ethernet is connected."
            } else {
                "Detach Ethernet's IP stack entirely: no address, no routes, no DNS. The cable                  stays plugged in and the adapter stays enabled."
            },
        },
    );
    r.push(
        ModeButton {
            mode: Mode::Auto,
            text: "Auto",
            on: is_active(app, Mode::Auto),
            enabled: idle,
            tip: "Let Windows decide again.",
        },
    );
    assert(r@.map_values(|b: ModeButton| b@) =~= buttons_of(*app));
    r
}

/// At most one button is drawn as active, and while a switch is under way none can be pressed.
pub proof fn one_mode_is_active(app: App, i: int, j: int)
    requires
        0 <= i < j < 4,
    ensures
        buttons_of(app).len() == 4,
        !(buttons_of(app)[i].on && buttons_of(app)[j].on),
        app.pending is Some ==> !buttons_of(app)[i].enabled && !buttons_of(app)[j].enabled,
{
}

// --- the line under the buttons ----------------------------------------------------------

/// How serious a line is.
#[derive(Debug, Clone, Copy, PartialEq, Eq, Structural)]
pub enum Tone {
    Danger,
    Warn,
    Muted,
}

/// The one line under the buttons. Only the most important thing is shown, in priority order.
pub open spec fn banner_words(app: App) -> (Seq<char>, Tone) {
    if app.error is Some {
        (app.error->0@, Tone::Danger)
    } else if app.status is Some {
        (app.status->0@, Tone::Warn)
    } else if !app.view.installed {
        (
            "Not installed yet — run `linkswitch --install` once to switch without a UAC prompt."@,
            Tone::Warn,
        )
    } else if app.view.verdict is Hijacked {
        (
            carrier_name(app.view.verdict, nic_views(app.view.snap.nics@))
                + " is carrying all traffic. LinkSwitch chooses which link it runs over."@,
            Tone::Warn,
        )
    } else if app.view.policy.policy is PreventWifi {
        ("Group Policy prevents Wi-Fi while Ethernet is connected."@, Tone::Danger)
    } else if app.view.eth_ip_detached {
        match text_view(app.view.bridge_note) {
            Some(note) => ("Ethernet has no IP stack. "@ + note, Tone::Warn),
            None => (
                "Ethernet has no IP stack. Discovery protocols still reach the wire."@,
                Tone::Muted,
            ),
        }
    } else if app.view.verdict is NoRoute {
        ("No network route right now."@, Tone::Danger)
    } else {
        (
            "Applies to new connections. DNS lookups still go out on both links."@,
            Tone::Muted,
        )
    }
}

/// The name of the interface that a VPN or tunnel runs on.
pub open spec fn carrier_name(v: Verdict, nics: Seq<NicView>) -> Seq<char> {
    match v {
        Verdict::Hijacked { luid, if_index, .. } => match nic_at(nics, luid, 0) {
            Some(i) => nics[i].label(),
            None => "interface "@ + text::dec(if_index as nat),
        },
        _ => ""@,
    }
}

pub fn banner_text(app: &App) -> (r: (String, Tone))
    ensures
        (r.0@, r.1) == banner_words(*app),
{
    if let Some(e) = &app.error {
        return (e.as_str().to_owned(), Tone::Danger);
    }
    if let Some(s) = &app.status {
        return (s.as_str().to_owned(), Tone::Warn);
    }
    if !app.view.installed {
        return (
            "Not installed yet — run `linkswitch --install` once to switch without a UAC prompt.".to_owned(),
            Tone::Warn,
        );
    }
    if let Verdict::Hijacked { luid, if_index, .. } = &app.view.verdict {
        let mut line = match app.view.snap.nic(*luid) {
            Some(n) => n.label().to_owned(),
            None => {
                let mut name = "interface ".to_owned();
                text::push_dec(&mut name, *if_index as u64);
                name
            },
        };
        line.append(" is carrying all traffic. LinkSwitch chooses which link it runs over.");
        return (line, Tone::Warn);
    }
    let prevented = match app.view.policy.policy {
        MinimizePolicy::PreventWifi => true,
        _ => false,
    };
    if prevented {
        return (
            "Group Policy prevents Wi-Fi while Ethernet is connected.".to_owned(),
            Tone::Danger,
        );
    }
    if app.view.eth_ip_detached {
        return match &app.view.bridge_note {
            Some(note) => {
                let mut line = "Ethernet has no IP stack. ".to_owned();
                line.append(note.as_str());
                (line, Tone::Warn)
            },
            None => (
                "Ethernet has no IP stack. Discovery protocols still reach the wire.".to_owned(),
                Tone::Muted,
            ),
        };
    }
    let unrouted = match app.view.verdict {
        Verdict::NoRoute => true,
        _ => false,
    };
    if unrouted {
        return ("No network route right now.".to_owned(), Tone::Danger);
    }
    (
        "Applies to new connections. DNS lookups still go out on both links.".to_owned(),
        Tone::Muted,
    )
}

// --- the window --------------------------------------------------------------------------

/// A window that is in neither the taskbar nor the window switcher.
pub const WS_EX_TOOLWINDOW: u32 = 0x0000_0080;

/// A window that is forced into the taskbar.
pub const WS_EX_APPWINDOW: u32 = 0x0004_0000;

/// The style of the widget's window, from the style that it was made with.
pub fn polished_style(ex: u32) -> (r: u32)
    ensures
        r == (ex | WS_EX_TOOLWINDOW) & !WS_EX_APPWINDOW,
{
    (ex | WS_EX_TOOLWINDOW) & !WS_EX_APPWINDOW
}

} // verus!
