use linkswitch::config::{
    config_path, format_mac, journal_path, machine_dir, prefs_path, resolve, resolve_kind, user_dir,
    widget_log_path, worker_log_path, AdapterRef, Journal, MachineConfig, MetricBackup, Mode,
    SCHEMA,
};
use linkswitch::net::adapters::{Nic, NicKind, Tier};
use linkswitch::net::LuidKey;

fn nic(luid: u64, name: &str, desc: &str, mac: Option<[u8; 6]>) -> Nic {
    Nic {
        luid: LuidKey(luid),
        if_index: 1,
        friendly_name: name.into(),
        description: desc.into(),
        adapter_name: "{guid}".into(),
        if_type: 6,
        kind: NicKind::Ethernet,
        tier: Tier::Hardware,
        oper_up: true,
        media_connected: true,
        tx_speed_bps: Some(1_000_000_000),
        mac,
        permanent_mac: None,
        ipv4: vec![],
        ipv6: vec![],
        gateways: vec![],
    }
}

#[test]
fn mode_round_trips_through_strings() {
    for m in [Mode::Ethernet, Mode::Wifi, Mode::Auto] {
        assert_eq!(Mode::parse(m.as_str()), Some(m));
    }
    assert_eq!(Mode::parse("  WiFi "), Some(Mode::Wifi));
    assert_eq!(Mode::parse("wired"), Some(Mode::Ethernet));
    assert_eq!(Mode::parse("nonsense"), None);
}

#[test]
fn resolve_prefers_the_luid() {
    let nics = [nic(1, "Ethernet", "Intel I225-V", None), nic(2, "Other", "X", None)];
    let saved = AdapterRef {
        luid: 2,
        name: "Ethernet".into(),
        description: "Intel I225-V".into(),
        mac: None,
    };
    // LUID wins even though the name matches the other adapter.
    assert_eq!(resolve(Some(&saved), &nics).unwrap().luid.0, 2);
}

#[test]
fn resolve_falls_back_to_mac_when_the_luid_changed() {
    // A dock reconnect or driver reinstall mints a new LUID; the MAC is stable.
    let mac = [0xaa, 0xbb, 0xcc, 0xdd, 0xee, 0x02];
    let nics = [nic(999, "Ethernet 2", "Intel I225-V", Some(mac))];
    let saved = AdapterRef {
        luid: 1,
        name: "Ethernet".into(),
        description: "Intel I225-V".into(),
        mac: Some(format_mac(mac)),
    };
    assert_eq!(resolve(Some(&saved), &nics).unwrap().luid.0, 999);
}

#[test]
fn resolve_falls_back_to_name_then_description() {
    let nics = [nic(999, "Ethernet", "Intel I225-V", None)];
    let by_name = AdapterRef {
        luid: 1,
        name: "Ethernet".into(),
        description: "something else".into(),
        mac: None,
    };
    assert_eq!(resolve(Some(&by_name), &nics).unwrap().luid.0, 999);

    let by_desc = AdapterRef {
        luid: 1,
        name: "renamed by the user".into(),
        description: "Intel I225-V".into(),
        mac: None,
    };
    assert_eq!(resolve(Some(&by_desc), &nics).unwrap().luid.0, 999);
}

#[test]
fn resolve_gives_up_when_nothing_matches() {
    let nics = [nic(999, "Wi-Fi", "RZ608", None)];
    let saved = AdapterRef {
        luid: 1,
        name: "Ethernet".into(),
        description: "Intel I225-V".into(),
        mac: None,
    };
    assert!(resolve(Some(&saved), &nics).is_none());
    assert!(resolve(None, &nics).is_none());
}

#[test]
fn a_journal_left_in_flight_is_torn() {
    let mut j = Journal::default();
    assert!(!j.is_torn());
    j.in_flight = true;
    // In-flight with nothing recorded yet means nothing was changed.
    assert!(!j.is_torn());
    j.restore.push(MetricBackup {
        luid: 1,
        family_v6: false,
        metric: 5,
        automatic: true,
    });
    assert!(j.is_torn());
    j.in_flight = false;
    assert!(!j.is_torn());
}

#[test]
fn new_stores_carry_the_current_schema() {
    assert_eq!(SCHEMA, 2);
    assert_eq!(Journal::default().schema, 2);
    assert_eq!(MachineConfig::default().schema, 2);
    assert!(Journal::default().touched.is_empty());
}

#[test]
fn mac_formatting_is_stable_lowercase_hex() {
    assert_eq!(
        format_mac([0xaa, 0xbb, 0xcc, 0xdd, 0xee, 0x02]),
        "aa:bb:cc:dd:ee:02"
    );
    assert_eq!(format_mac([0, 0, 0, 0, 0, 0]), "00:00:00:00:00:00");
}

#[test]
fn every_mode_is_recognised_by_its_name() {
    for m in [Mode::Ethernet, Mode::Wifi, Mode::WifiOnly, Mode::Auto] {
        assert_eq!(Mode::parse(m.as_str()), Some(m));
        let loud = format!("\t \u{3000}{}\r\n", m.as_str().to_uppercase());
        assert_eq!(Mode::parse(&loud), Some(m));
    }
    for s in ["wifi-only", "WIFIONLY", "wifi_only", "only"] {
        assert_eq!(Mode::parse(s), Some(Mode::WifiOnly));
    }
    assert_eq!(Mode::parse(""), None);
}

#[test]
fn a_remembered_adapter_is_found_again() {
    let mac = [2, 4, 6, 8, 10, 12];
    let mut before = nic(5, "Ethernet", "Intel", Some([9; 6]));
    before.permanent_mac = Some(mac);
    let saved = AdapterRef::from(&before);
    assert_eq!(saved.mac.as_deref(), Some("02:04:06:08:0a:0c"));
    let mut after = nic(77, "Renamed", "Other", Some([1; 6]));
    after.permanent_mac = Some(mac);
    let same_name = nic(78, "Ethernet", "Intel", None);
    assert_eq!(resolve(Some(&saved), &[same_name, after]).unwrap().luid.0, 77);
}

#[test]
fn a_kind_is_never_mistaken_for_the_other() {
    let saved = AdapterRef {
        luid: 5,
        name: "Link".to_string(),
        description: String::new(),
        mac: None,
    };
    let mut radio = nic(5, "Link", "Radio", None);
    radio.kind = NicKind::Wifi;
    assert!(resolve(Some(&saved), std::slice::from_ref(&radio)).is_some());
    assert!(resolve_kind(Some(&saved), NicKind::Ethernet, std::slice::from_ref(&radio)).is_none());
    assert!(resolve_kind(Some(&saved), NicKind::Wifi, std::slice::from_ref(&radio)).is_some());
}

#[test]
fn files_stand_where_they_belong() {
    let machine = machine_dir(Some(r"D:\Data"));
    assert_eq!(machine, r"D:\Data\LinkSwitch");
    assert_eq!(config_path(&machine), r"D:\Data\LinkSwitch\config.json");
    assert_eq!(journal_path(&machine), r"D:\Data\LinkSwitch\state.json");
    assert!(worker_log_path(&machine).starts_with(&machine));
    let user = user_dir(None, Some(r"C:\Roaming"));
    assert_eq!(prefs_path(&user), r"C:\Roaming\LinkSwitch\prefs.json");
    assert!(widget_log_path(&user).starts_with(&user));
    assert_eq!(MachineConfig::default().park_metric, 9000);
}
