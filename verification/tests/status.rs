use linkswitch::config::{Journal, MachineConfig, MetricBackup};
use linkswitch::net::adapters::{Ipv4Addr, Nic, NicKind, Tier};
use linkswitch::net::binding::{BindError, BindingState};
use linkswitch::net::metric::MetricState;
use linkswitch::net::routes::{DefaultRoute, Verdict};
use linkswitch::net::wcm::effective;
use linkswitch::net::wifi::WifiStatus;
use linkswitch::net::{LuidKey, Snapshot};
use linkswitch::status::{describe_verdict, print_status, Reading, Seen};
use linkswitch::tasks::health;

fn nic() -> Nic {
    Nic {
        luid: LuidKey(0x11),
        if_index: 3,
        friendly_name: "My \"wire\" \\".to_string(),
        description: "Intel".to_string(),
        adapter_name: "{guid}".to_string(),
        if_type: 6,
        kind: NicKind::Ethernet,
        tier: Tier::Hardware,
        oper_up: true,
        media_connected: true,
        tx_speed_bps: None,
        mac: None,
        permanent_mac: Some([0, 1, 2, 0xab, 0xcd, 0xef]),
        ipv4: vec![Ipv4Addr::new(10, 0, 0, 7), Ipv4Addr::new(10, 0, 0, 8)],
        ipv6: vec![],
        gateways: vec![],
    }
}

fn seen() -> Seen {
    Seen {
        version: "0.1.0".to_string(),
        installed: false,
        elevated: true,
        snap: Snapshot {
            nics: vec![nic()],
            metrics: vec![],
            routes: vec![DefaultRoute {
                luid: LuidKey(0x99),
                if_index: 43,
                route_metric: 0,
                iface_metric: 7,
                total: 7,
                family_is_v6: false,
            }],
        },
        cfg: MachineConfig::default(),
        journal: Journal::default(),
        wifi_status: Some(WifiStatus {
            ssid: Some("Home\"Net".to_string()),
            profile: None,
            signal_quality: Some(61),
            connected: true,
            radio_on: true,
        }),
        policy: effective(Some(9), Some((true, true))),
        health: health(&vec![]),
        ethernet: Reading {
            metric: Some(MetricState {
                metric: 9000,
                automatic: false,
                default_routes_disabled: false,
            }),
            binding: Ok(BindingState { v4: false, v6: true }),
            warning: Some("A still uses it.".to_string()),
        },
        wifi: Reading {
            metric: None,
            binding: Err(BindError::AdapterNotFound),
            warning: None,
        },
    }
}

#[test]
fn the_json_status_is_stable() {
    let task = |name: &str| {
        "{\"name\":\"".to_string() + name + "\",\"registered\":false,\"last_result\":null}"
    };
    let tasks = ["ApplyEthernet", "ApplyWifi", "ApplyWifiOnly", "ApplyAuto", "Recover"]
        .iter()
        .map(|n| task(n))
        .collect::<Vec<String>>()
        .join(",");
    let lines = [
        "{".to_string(),
        r#"  "version": "0.1.0","#.to_string(),
        r#"  "installed": false,"#.to_string(),
        r#"  "elevated": true,"#.to_string(),
        r#"  "ethernet": {"name":"My \"wire\" \\","if_index":3,"luid":"0x0000000000000011","permanent_mac":"00:01:02:ab:cd:ef","up":true,"media_connected":true,"ipv4":["10.0.0.7", "10.0.0.8"]},"#
            .to_string(),
        r#"  "wifi": null,"#.to_string(),
        r#"  "verdict": "Hijacked { luid: LuidKey(153), if_index: 43, total: 7 }","#.to_string(),
        r#"  "wifi_ssid": "Home\"Net","#.to_string(),
        r#"  "wcm_policy": "Unknown(9)","#.to_string(),
        r#"  "wcm_is_group_policy": true,"#.to_string(),
        r#"  "journal_mode": "auto","#.to_string(),
        r#"  "journal_torn": false,"#.to_string(),
        "  \"tasks\": [".to_string() + &tasks + "]",
        "}".to_string(),
        String::new(),
    ];
    let json = print_status(true, &seen());
    assert_eq!(json, lines.join("\n"));
    let parsed: serde_json::Value = serde_json::from_str(&json).unwrap();
    assert_eq!(parsed["ethernet"]["name"], "My \"wire\" \\");
    assert_eq!(parsed["wifi_ssid"], "Home\"Net");
}

#[test]
fn the_status_in_words_lines_up() {
    let mut s = seen();
    s.journal.in_flight = true;
    s.journal.restore.push(MetricBackup { luid: 1, family_v6: false, metric: 5, automatic: true });
    let text = print_status(false, &s);
    let lines: Vec<&str> = text.lines().collect();
    assert_eq!(
        lines,
        vec![
            "LinkSwitch 0.1.0",
            "  installed:        no  (run `linkswitch --install`)",
            "  ethernet:         My \"wire\" \\ - 10.0.0.7, metric 9000 (pinned)",
            "  wi-fi:            not found",
            "                    connected to \"Home\"Net\" (61%)",
            "  ethernet ip stack: IPv4 UNBOUND  IPv6 bound",
            "                    note: A still uses it.",
            "  carrying traffic: interface 43 - a VPN or tunnel holds the default route (total metric 7)",
            lines[8],
            "                    (set by Group Policy)",
            "  WARNING: a previous switch was interrupted; run `linkswitch --recover`.",
        ]
    );
    assert!(lines[8].starts_with("  windows policy:   "));
}

#[test]
fn verdicts_are_told_in_words() {
    let snap = seen().snap;
    assert_eq!(
        describe_verdict(&Verdict::Ethernet { total: 5 }, &snap),
        "Ethernet (total metric 5)"
    );
    assert_eq!(describe_verdict(&Verdict::Wifi { total: 30 }, &snap), "Wi-Fi (total metric 30)");
    assert_eq!(describe_verdict(&Verdict::NoRoute, &snap), "nothing - no default route");
    let known = Verdict::Hijacked { luid: LuidKey(0x11), if_index: 3, total: 1 };
    assert!(describe_verdict(&known, &snap).starts_with("My \"wire\" \\ - a VPN"));
}
