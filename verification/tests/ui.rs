use linkswitch::config::{MachineConfig, Mode};
use linkswitch::net::adapters::{Ipv4Addr, Nic, NicKind, Tier};
use linkswitch::net::binding::BindingState;
use linkswitch::net::metric::MetricState;
use linkswitch::net::routes::{DefaultRoute, Verdict};
use linkswitch::net::wcm::effective;
use linkswitch::net::wifi::WifiStatus;
use linkswitch::net::{LuidKey, Snapshot};
use linkswitch::ui::tray::{fallback_icon, tooltip_for, Tooltip, TrayAction, ICON_SIDE};
use linkswitch::ui::widget::{
    banner_text, buttons, detail_text, link_row, lit_bars, polished_style, state_text, Tone,
};
use linkswitch::ui::{App, ApplyResult, Board};

#[test]
fn the_tooltip_says_which_link_is_carrying_traffic() {
    assert!(tooltip_for(&Verdict::Ethernet { total: 5 }, None).contains("Ethernet"));
    assert!(tooltip_for(&Verdict::Wifi { total: 30 }, None).contains("Wi-Fi"));
    assert!(tooltip_for(
        &Verdict::Hijacked {
            luid: LuidKey(1),
            if_index: 43,
            total: 0
        },
        None
    )
    .contains("VPN"));
    assert!(tooltip_for(&Verdict::NoRoute, None).contains("no network"));
}

#[test]
fn a_pending_switch_takes_over_the_tooltip() {
    let t = tooltip_for(&Verdict::Ethernet { total: 5 }, Some(Mode::Wifi));
    assert!(t.contains("switching"), "got {t}");
    assert!(t.contains("wifi"), "got {t}");
}

#[test]
fn every_tooltip_is_prefixed_so_it_is_identifiable_in_a_crowded_tray() {
    for v in [
        Verdict::Ethernet { total: 5 },
        Verdict::Wifi { total: 30 },
        Verdict::NoRoute,
    ] {
        assert!(tooltip_for(&v, None).starts_with("LinkSwitch"));
    }
}

#[test]
fn the_fallback_icon_is_a_valid_bitmap() {
    assert_eq!(fallback_icon().len() as u32, ICON_SIDE * ICON_SIDE * 4);
}

#[test]
fn lit_bars_climb_with_quality_and_never_exceed_four() {
    assert_eq!(lit_bars(0), 0);
    assert_eq!(lit_bars(1), 1);
    assert_eq!(lit_bars(50), 2);
    assert_eq!(lit_bars(85), 4);
    assert_eq!(lit_bars(100), 4);
    for q in 0..=100 {
        assert!(lit_bars(q) <= 4, "quality {q} lit too many bars");
    }
}

#[test]
fn lit_bars_is_monotonic() {
    // A stronger signal must never show fewer bars than a weaker one.
    let mut prev = 0;
    for q in 0..=100 {
        let n = lit_bars(q);
        assert!(n >= prev, "quality {q} went backwards");
        prev = n;
    }
}

#[test]
fn any_signal_at_all_lights_a_bar() {
    // A weak but working link must not look identical to no link.
    assert!(lit_bars(1) > 0);
}

fn wired(plugged: bool) -> Nic {
    Nic {
        luid: LuidKey(1),
        if_index: 1,
        friendly_name: "Ethernet".to_string(),
        description: "Intel".to_string(),
        adapter_name: "{guid}".to_string(),
        if_type: 6,
        kind: NicKind::Ethernet,
        tier: Tier::Hardware,
        oper_up: plugged,
        media_connected: plugged,
        tx_speed_bps: Some(100_000_000),
        mac: None,
        permanent_mac: None,
        ipv4: vec![Ipv4Addr::new(169, 254, 0, 1), Ipv4Addr::new(10, 0, 0, 7)],
        ipv6: vec![],
        gateways: vec![],
    }
}

fn board(plugged: bool, routes: Vec<DefaultRoute>, wifi: Option<WifiStatus>, policy: u32) -> Board {
    Board::read(
        &MachineConfig::default(),
        Snapshot { nics: vec![wired(plugged)], metrics: vec![], routes },
        wifi,
        effective(Some(policy), None),
        true,
    )
}

fn over(luid: u64) -> Vec<DefaultRoute> {
    vec![DefaultRoute {
        luid: LuidKey(luid),
        if_index: 43,
        route_metric: 0,
        iface_metric: 5,
        total: 5,
        family_is_v6: false,
    }]
}

#[test]
fn the_icon_is_a_mark_on_nothing() {
    let icon = fallback_icon();
    let pixel = |x: usize, y: usize| icon[(y * 16 + x) * 4..(y * 16 + x) * 4 + 4].to_vec();
    assert_eq!(pixel(0, 0), vec![0, 0, 0, 0]);
    assert_eq!(pixel(2, 4), vec![0x4C, 0xC2, 0x8C, 0xFF]);
    assert_eq!(pixel(13, 11), vec![0x4C, 0xC2, 0x8C, 0xFF]);
    assert_eq!(pixel(14, 11), vec![0, 0, 0, 0]);
}

#[test]
fn the_tooltip_is_set_only_when_it_changes() {
    let mut tip = Tooltip::new();
    assert!(tip.update_tooltip(&Verdict::NoRoute, None));
    assert!(!tip.update_tooltip(&Verdict::NoRoute, None));
    assert!(tip.update_tooltip(&Verdict::NoRoute, Some(Mode::Auto)));
    assert_eq!(tip.current, "LinkSwitch \u{2014} switching to auto...");
}

#[test]
fn rows_tell_unplugged_from_detached() {
    let mut b = board(true, over(1), None, 1);
    assert_eq!(b.active_mode(), Some(Mode::Ethernet));
    assert_eq!(state_text(&b, NicKind::Ethernet, "0.1"), "100 Mbps");
    assert_eq!(state_text(&b, NicKind::Wifi, ""), "not found");
    let row = link_row(&b, NicKind::Ethernet);
    assert!(row.winning && row.signal.is_none() && row.label == "Ethernet");
    b.see_binding(Some(BindingState { v4: false, v6: false }), None);
    assert_eq!(state_text(&b, NicKind::Ethernet, "0.1"), "IP stack detached");
    assert_eq!(state_text(&board(false, vec![], None, 1), NicKind::Ethernet, ""), "cable unplugged");
}

#[test]
fn details_show_a_real_address_and_the_metric() {
    let m = MetricState { metric: 9000, automatic: false, default_routes_disabled: false };
    let b = board(true, vec![], None, 1);
    assert_eq!(
        detail_text(&b, NicKind::Ethernet, Some(m)),
        "10.0.0.7 \u{b7} metric 9000 (set by LinkSwitch)"
    );
    assert_eq!(detail_text(&b, NicKind::Ethernet, None), "10.0.0.7 \u{b7} no IPv4");
    assert_eq!(detail_text(&b, NicKind::Wifi, None), "");
}

#[test]
fn buttons_follow_the_machine() {
    let enabled = |a: &App| buttons(a).iter().map(|b| b.enabled).collect::<Vec<bool>>();
    let on = |a: &App| buttons(a).iter().map(|b| b.on).collect::<Vec<bool>>();
    let mut app = App::new(MachineConfig::default(), board(true, over(1), None, 1), true);
    assert_eq!(enabled(&app), vec![true, true, true, true]);
    assert_eq!(on(&app), vec![true, false, false, false]);
    app.view = board(false, vec![], None, 3);
    assert_eq!(enabled(&app), vec![false, false, false, true]);
    assert_eq!(buttons(&app)[0].tip, "The Ethernet cable is not connected.");
    app.view.see_binding(Some(BindingState { v4: false, v6: false }), None);
    assert_eq!(on(&app), vec![false, false, true, false]);
    assert!(app.request(Mode::Auto, 0));
    assert_eq!(enabled(&app), vec![false; 4]);
}

#[test]
fn the_banner_shows_the_most_important_thing() {
    let mut app = App::new(MachineConfig::default(), board(true, over(9), None, 3), true);
    assert_eq!(
        banner_text(&app).0,
        "interface 43 is carrying all traffic. LinkSwitch chooses which link it runs over."
    );
    app.view = board(true, over(1), None, 3);
    assert_eq!(
        banner_text(&app),
        ("Group Policy prevents Wi-Fi while Ethernet is connected.".to_string(), Tone::Danger)
    );
    app.view = board(true, vec![], None, 1);
    assert_eq!(banner_text(&app), ("No network route right now.".to_string(), Tone::Danger));
    app.view.see_binding(
        Some(BindingState { v4: false, v6: false }),
        Some("A still uses it.".to_string()),
    );
    assert_eq!(
        banner_text(&app),
        ("Ethernet has no IP stack. A still uses it.".to_string(), Tone::Warn)
    );
    app.view = board(true, over(1), None, 1);
    assert_eq!(
        banner_text(&app),
        (
            "Applies to new connections. DNS lookups still go out on both links.".to_string(),
            Tone::Muted
        )
    );
    app.view.installed = false;
    assert!(banner_text(&app).0.starts_with("Not installed yet"));
    app.request(Mode::Wifi, 0);
    assert_eq!(
        banner_text(&app),
        ("Connecting Wi-Fi and switching...".to_string(), Tone::Warn)
    );
    app.finish(ApplyResult { mode: Mode::Wifi, error: Some("It failed.".to_string()) });
    assert_eq!(banner_text(&app), ("It failed.".to_string(), Tone::Danger));
}

#[test]
fn one_switch_at_a_time_and_not_forever() {
    let mut app = App::new(MachineConfig::default(), board(true, over(1), None, 1), false);
    assert!(app.request(Mode::Wifi, 1_000));
    assert!(!app.request(Mode::Auto, 2_000));
    assert_eq!(app.pending, Some((Mode::Wifi, 1_000)));
    assert!(app.check_pending(46_000));
    assert!(!app.check_pending(46_001));
    assert_eq!(app.pending, None);
    assert_eq!(
        app.error.as_deref(),
        Some("The wifi switch did not report back. Check `linkswitch --status`.")
    );
    assert!(app.request(Mode::Auto, 50_000));
    assert_eq!(app.error, None);
    assert!(app.finish(ApplyResult { mode: Mode::Auto, error: None }));
    assert!(app.pending.is_none() && app.status.is_none());
}

#[test]
fn a_window_without_an_icon_is_not_put_away() {
    let mut app = App::new(MachineConfig::default(), board(true, over(1), None, 1), false);
    assert!(!app.can_hide() && !app.put_away() && app.visible);
    app.tray = true;
    assert!(app.put_away() && !app.visible);
    assert!(app.on_tray(TrayAction::Toggle) && app.visible);
    assert!(!app.on_tray(TrayAction::Toggle));
    assert_eq!(app.tooltip(), "LinkSwitch \u{2014} traffic is going over Ethernet");
}

#[test]
fn the_signal_is_shown_only_while_connected() {
    let wifi = |connected| WifiStatus {
        ssid: Some("HomeNet".to_string()),
        profile: None,
        signal_quality: Some(61),
        connected,
        radio_on: false,
    };
    let mut b = board(true, over(1), Some(wifi(true)), 1);
    assert_eq!(link_row(&b, NicKind::Wifi).signal, Some(61));
    b.wifi = Some(wired(true));
    assert_eq!(state_text(&b, NicKind::Wifi, ""), "HomeNet");
    b.wifi_status = Some(wifi(false));
    assert_eq!(link_row(&b, NicKind::Wifi).signal, None);
    assert_eq!(state_text(&b, NicKind::Wifi, ""), "radio off");
}

#[test]
fn the_window_is_a_tool_window() {
    assert_eq!(polished_style(0x0004_0008), 0x0000_0088);
}
