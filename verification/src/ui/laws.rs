//! What holds of the widget, in terms of what was read and of what is shown.
use vstd::prelude::*;
use vstd::string::*;

use super::tray::{byte_at, tooltip_words};
use super::widget::{
    banner_words, bars, buttons_of, carrier_name, detail_words, first_real, signal_of, speed_words,
    state_words, wins, Tone,
};
use super::{request_words, shown, App, Board};
use crate::config::{resolved, AdapterRefView, Mode};
use crate::laws::{likeness, the_best_match_is_found};
use crate::net::adapters::{is_ranking, Ipv4Addr, NicKind, NicView, Tier};
use crate::net::best_candidate;
use crate::net::laws::{a_luid_finds_its_adapter, best_of, the_best_candidate_is_picked};
use crate::net::luid::LuidKey;
use crate::net::metric::MetricState;
use crate::net::routes::Verdict;
use crate::net::wifi::WifiStatusView;
use crate::text;

verus! {

// --- rows --------------------------------------------------------------------------------

/// A row shows the adapter that matches the configured one best, of whatever kind it is; where none
/// does, or none is configured, it shows the best candidate of its kind, and nothing only where
/// there is no candidate either.
pub proof fn a_row_shows_its_adapter(
    saved: Option<AdapterRefView>,
    kind: NicKind,
    nics: Seq<NicView>,
    order: Seq<int>,
)
    requires
        is_ranking(nics, kind, order),
    ensures
        ({
            let known = saved is Some && exists|i: int|
                0 <= i < nics.len() && likeness(saved->0, None, #[trigger] nics[i]) > 0;
            match shown(saved, kind, nics) {
                Some(n) => exists|i: int|
                    0 <= i < nics.len() && #[trigger] nics[i] == n && (if known {
                        likeness(saved->0, None, n) > 0 && forall|j: int|
                            0 <= j < nics.len() ==> likeness(saved->0, None, #[trigger] nics[j])
                                <= likeness(saved->0, None, n)
                    } else {
                        best_of(nics, kind, i)
                    }),
                None => !known && forall|j: int|
                    0 <= j < nics.len() && (#[trigger] nics[j]).kind == kind ==> nics[j].tier
                        == Tier::Rejected,
            }
        }),
{
    the_best_candidate_is_picked(nics, kind, order);
    if let Some(a) = saved {
        the_best_match_is_found(a, None, nics);
    }
    match resolved(saved, None, nics) {
        Some(i) => {
            assert(nics[i] == shown(saved, kind, nics)->0);
        },
        None => {
            if let Some(i) = best_candidate(nics, kind) {
                assert(best_of(nics, kind, i));
                assert(nics[i] == shown(saved, kind, nics)->0);
            }
        },
    }
}

/// A link wins exactly where the verdict names it.
pub proof fn a_link_wins_by_the_verdict(v: Verdict, kind: NicKind)
    ensures
        wins(v, kind) <==> (v is Ethernet && kind is Ethernet) || (v is Wifi && kind is Wifi),
{
}

/// The state of a row: an adapter that is not there is not found. For Ethernet a stack that is
/// detached comes first, then a cable that is out, then a link that is down; else it is the speed.
/// For Wi-Fi it is the name of the network, and else the reason why there is none. A detached stack
/// is never taken for an unplugged cable.
pub proof fn a_row_tells_its_state(
    n: NicView,
    kind: NicKind,
    detached: bool,
    wifi: Option<WifiStatusView>,
    speed: Option<Seq<char>>,
)
    ensures
        ({
            let said = state_words(Some(n), kind, detached, wifi, speed);
            &&& state_words(None, kind, detached, wifi, speed) == "not found"@
            &&& kind is Ethernet && detached ==> said == "IP stack detached"@
            &&& kind is Ethernet && !detached && !n.media_connected ==> said == "cable unplugged"@
            &&& kind is Ethernet && !detached && n.media_connected && !n.oper_up ==> said == "down"@
            &&& kind is Ethernet && !detached && n.media_connected && n.oper_up ==> said
                == if speed is Some {
                speed->0
            } else {
                "connected"@
            }
            &&& kind !is Ethernet && wifi is Some && (wifi->0).connected ==> said
                == if (wifi->0).ssid is Some {
                (wifi->0).ssid->0
            } else {
                "connected"@
            }
            &&& kind !is Ethernet && wifi is Some && !(wifi->0).connected && !(wifi->0).radio_on
                ==> said == "radio off"@
            &&& kind !is Ethernet && (wifi is None || (!(wifi->0).connected && (wifi->0).radio_on))
                ==> said == "not connected"@
            &&& "IP stack detached"@ != "cable unplugged"@
        }),
{
    reveal_strlit("IP stack detached");
    reveal_strlit("cable unplugged");
    assert("IP stack detached"@.len() != "cable unplugged"@.len());
}

/// A speed is given in gigabits from one gigabit on, and below that in whole megabits, rounded
/// down.
pub proof fn a_speed_is_given_in_its_unit(bps: u64, gigabits: Seq<char>)
    ensures
        speed_words(None, gigabits) is None,
        bps >= 1_000_000_000 ==> speed_words(Some(bps), gigabits) == Some(gigabits + " Gbps"@),
        bps < 1_000_000_000 ==> exists|m: nat|
            m * 1_000_000 <= bps < (m + 1) * 1_000_000 && speed_words(Some(bps), gigabits) == Some(
                #[trigger] text::dec(m) + " Mbps"@,
            ),
{
    let m = (bps / 1_000_000) as nat;
    if bps < 1_000_000_000 {
        assert(speed_words(Some(bps), gigabits) == Some(text::dec(m) + " Mbps"@));
    }
}

/// The address of a row is the first that is not link-local: one of 169.254 is passed over, and no
/// other one is.
pub proof fn the_first_proper_address_is_shown(v: Seq<Ipv4Addr>, from: int)
    requires
        0 <= from <= v.len(),
    ensures
        match first_real(v, from) {
            Some(a) => exists|i: int|
                from <= i < v.len() && #[trigger] v[i] == a && !(a.a == 169 && a.b
                    == 254) && forall|j: int|
                    from <= j < i ==> (#[trigger] v[j]).a == 169 && v[j].b == 254,
            None => forall|j: int|
                from <= j < v.len() ==> (#[trigger] v[j]).a == 169 && v[j].b == 254,
        },
    decreases v.len() - from,
{
    if from < v.len() {
        if v[from].link_local() {
            the_first_proper_address_is_shown(v, from + 1);
        } else {
            assert(v[from] == first_real(v, from)->0);
        }
    }
}

/// The second line of a row ends in the metric, marked by who set it; where there is no metric it
/// ends in that. Before it stands the address, where there is a proper one, and nothing else.
pub proof fn a_row_gives_its_metric(n: NicView, m: MetricState)
    ensures
        detail_words(None, Some(m)).len() == 0,
        first_real(n.ipv4, 0) is None ==> detail_words(Some(n), None) == "no IPv4"@,
        first_real(n.ipv4, 0) is None && m.automatic ==> detail_words(Some(n), Some(m))
            == "metric "@ + text::dec(m.metric as nat) + " (auto)"@,
        first_real(n.ipv4, 0) is None && !m.automatic ==> detail_words(Some(n), Some(m))
            == "metric "@ + text::dec(m.metric as nat) + " (set by LinkSwitch)"@,
        first_real(n.ipv4, 0) is Some ==> detail_words(Some(n), Some(m)) == first_real(
            n.ipv4,
            0,
        )->0.display() + " · "@ + detail_words(Some(NicView { ipv4: Seq::empty(), ..n }), Some(m)),
        first_real(n.ipv4, 0) is Some ==> detail_words(Some(n), None) == first_real(
            n.ipv4,
            0,
        )->0.display() + " · "@ + "no IPv4"@,
{
    reveal_strlit("");
}

/// Every quarter of the scale lights one bar more.
pub proof fn a_bar_stands_for_a_quarter(quality: u32)
    ensures
        quality == 0 ==> bars(quality) == 0,
        0 < quality <= 100 ==> 25 * (bars(quality) - 1) < quality <= 25 * bars(quality),
        quality > 100 ==> bars(quality) == 4,
{
}

/// A signal is shown only of a Wi-Fi that is connected, and then as it was read.
pub proof fn a_signal_needs_a_connection(w: WifiStatusView)
    ensures
        signal_of(None) is None,
        !w.connected ==> signal_of(Some(w)) is None,
        w.connected ==> signal_of(Some(w)) == w.signal_quality,
{
}

// --- buttons -----------------------------------------------------------------------------

/// Each mode has one button. It can be pressed only while no switch is under way: that of Ethernet
/// only with a cable in, those of Wi-Fi only where no policy forbids it, that of automatic always.
/// While the stack is detached only the button of that mode is drawn as active; else the one of the
/// link that carries the traffic is, if any.
pub proof fn a_button_is_offered_where_it_can_work(app: App)
    ensures
        ({
            let b = buttons_of(app);
            let idle = app.pending is None;
            let forbidden = app.view.policy.policy is PreventWifi;
            let detached = app.view.eth_ip_detached;
            &&& b.len() == 4
            &&& b[0].mode == Mode::Ethernet && b[1].mode == Mode::Wifi && b[2].mode
                == Mode::WifiOnly && b[3].mode == Mode::Auto
            &&& b[0].enabled <==> idle && app.view.eth is Some && (
            app.view.eth->0).media_connected
            &&& b[1].enabled <==> idle && !forbidden
            &&& b[2].enabled <==> idle && !forbidden
            &&& b[3].enabled <==> idle
            &&& b[0].on <==> !detached && app.view.verdict is Ethernet
            &&& b[1].on <==> !detached && app.view.verdict is Wifi
            &&& b[2].on <==> detached
            &&& !b[3].on
        }),
{
}

/// The mode that is active is that of the link that carries the traffic; with a tunnel, or without
/// a route, there is none.
pub proof fn the_carrier_is_the_active_mode(b: Board)
    ensures
        b.active() == Some(Mode::Ethernet) <==> b.verdict is Ethernet,
        b.active() == Some(Mode::Wifi) <==> b.verdict is Wifi,
        b.active() is None <==> b.verdict is Hijacked || b.verdict is NoRoute,
{
}

// --- texts -------------------------------------------------------------------------------

/// What went wrong is shown before anything else, then what is under way; nothing else is shown in
/// their place, and they are shown as they are.
pub proof fn an_error_is_never_hidden(app: App)
    ensures
        app.error is Some ==> banner_words(app) == (app.error->0@, Tone::Danger),
        app.error is None && app.status is Some ==> banner_words(app) == (
            app.status->0@,
            Tone::Warn,
        ),
{
}

/// A line is alarming only for an error, for Wi-Fi that a policy forbids, or for a machine without
/// a route; it is muted exactly where there is nothing to see to.
pub proof fn the_tone_fits_the_news(app: App)
    requires
        app.error is None,
        app.status is None,
    ensures
        ({
            let tone = banner_words(app).1;
            let v = app.view;
            let forbidden = v.policy.policy is PreventWifi;
            &&& !v.installed || v.verdict is Hijacked ==> tone is Warn
            &&& v.installed && v.verdict !is Hijacked && forbidden ==> tone is Danger
            &&& v.installed && v.verdict !is Hijacked && !forbidden && v.eth_ip_detached ==> (tone
                is Warn <==> v.bridge_note is Some) && tone !is Danger
            &&& v.installed && v.verdict is NoRoute && !forbidden && !v.eth_ip_detached ==> tone
                is Danger
            &&& v.installed && (v.verdict is Ethernet || v.verdict is Wifi) && !forbidden
                && !v.eth_ip_detached ==> tone is Muted
        }),
{
}

/// A tunnel is named after the adapter that it runs on, or by its index where that is not known.
pub proof fn a_tunnel_is_named(
    luid: LuidKey,
    if_index: u32,
    total: u32,
    nics: Seq<NicView>,
    i: int,
)
    requires
        0 <= i < nics.len(),
    ensures
        ({
            let name = carrier_name(Verdict::Hijacked { luid, if_index, total }, nics);
            &&& nics[i].luid == luid && (forall|j: int|
                0 <= j < i ==> (#[trigger] nics[j]).luid != luid) ==> name == nics[i].label()
            &&& (forall|j: int| 0 <= j < nics.len() ==> (#[trigger] nics[j]).luid != luid) ==> name
                == "interface "@ + text::dec(if_index as nat)
        }),
{
    a_luid_finds_its_adapter(nics, luid, 0);
}

/// A tooltip tells of a switch under way whatever the verdict, and else of who carries the traffic.
pub proof fn a_tooltip_tells_what_goes_on(a: Verdict, b: Verdict, mode: Mode)
    ensures
        tooltip_words(a, Some(mode)) == tooltip_words(b, Some(mode)),
        tooltip_words(a, Some(mode)) == "LinkSwitch — switching to "@ + mode.name() + "..."@,
        a is Ethernet ==> tooltip_words(a, None) == "LinkSwitch — traffic is going over Ethernet"@,
        a is Wifi ==> tooltip_words(a, None) == "LinkSwitch — traffic is going over Wi-Fi"@,
        a is Hijacked ==> tooltip_words(a, None) == "LinkSwitch — a VPN is carrying all traffic"@,
        a is NoRoute ==> tooltip_words(a, None) == "LinkSwitch — no network route"@,
{
}

/// What is said while a switch is under way names what it does.
pub proof fn a_switch_is_announced()
    ensures
        request_words(Mode::Wifi) == "Connecting Wi-Fi and switching..."@,
        request_words(Mode::WifiOnly) == "Connecting Wi-Fi and detaching Ethernet..."@,
        request_words(Mode::Ethernet) == "Switching to Ethernet..."@,
        request_words(Mode::Auto) == "Restoring automatic metrics..."@,
{
}

/// The mark is a rectangle of one colour, twelve pixels wide and eight high, in the middle of a
/// square that is clear elsewhere.
pub proof fn the_mark_is_a_rectangle(x: int, y: int)
    requires
        0 <= x < 16,
        0 <= y < 16,
    ensures
        ({
            let at = (y * 16 + x) * 4;
            if 4 <= y <= 11 && 2 <= x <= 13 {
                byte_at(at) == 0x4C && byte_at(at + 1) == 0xC2 && byte_at(at + 2) == 0x8C
                    && byte_at(at + 3) == 0xFF
            } else {
                byte_at(at) == 0 && byte_at(at + 1) == 0 && byte_at(at + 2) == 0 && byte_at(at + 3)
                    == 0
            }
        }),
{
}

} // verus!
