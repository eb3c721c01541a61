use linkswitch::net::adapters::{
    buffer_words, candidates, classify_tier, enumerate, if_detail, is_usable_v4, is_usable_v6,
    kind_from_if_type, rank, ranked, sockaddr_to_ip, walk, IfDetail, IfRow, IpAddr, Ipv4Addr,
    Ipv6Addr, Listing, Nic, NicKind, RawAdapter, RawAddress, Routable, Tier,
    IF_TYPE_ETHERNET_CSMACD, IF_TYPE_IEEE80211,
};
use linkswitch::net::LuidKey;

fn v6(s: [u16; 8]) -> Ipv6Addr {
    Ipv6Addr {
        s0: s[0],
        s1: s[1],
        s2: s[2],
        s3: s[3],
        s4: s[4],
        s5: s[5],
        s6: s[6],
        s7: s[7],
    }
}

fn detail(hardware: bool, connector: bool, filter: bool, end_point: bool) -> IfDetail {
    IfDetail {
        kind: NicKind::Ethernet,
        hardware,
        connector_present: connector,
        filter_interface: filter,
        end_point,
        media_connected: true,
        oper_up: true,
        tx_speed_bps: Some(1_000_000_000),
        permanent_mac: None,
    }
}

const ROUTABLE: Routable = Routable {
    usable_ip: true,
    gateway: true,
};
/// The shape every idle virtual adapter on a real machine has: an APIPA address and no
/// gateway.
const DEAD_END: Routable = Routable {
    usable_ip: false,
    gateway: false,
};

#[test]
fn real_nic_is_hardware_tier() {
    assert_eq!(
        classify_tier(&detail(true, true, false, false), ROUTABLE),
        Tier::Hardware
    );
}

#[test]
fn a_hardware_nic_stays_hardware_even_with_no_address() {
    // Cable unplugged: no usable IP, no gateway. It is still the adapter to steer.
    assert_eq!(
        classify_tier(&detail(true, true, false, false), DEAD_END),
        Tier::Hardware
    );
}

#[test]
fn external_vswitch_carrying_the_stack_is_kept_as_a_fallback() {
    // Hyper-V external vSwitch: not hardware, but it holds the address and the gateway.
    assert_eq!(
        classify_tier(&detail(false, false, false, false), ROUTABLE),
        Tier::Virtualised
    );
}

#[test]
fn internal_switches_and_pseudo_adapters_are_rejected() {
    // The real regression: Bluetooth PAN, the Hyper-V *internal* Default Switch, Wi-Fi
    // Direct "Local Area Connection* N" and ICS hosts all have an address but no gateway,
    // and were being offered as switch targets.
    let ip_but_no_gateway = Routable {
        usable_ip: true,
        gateway: false,
    };
    assert_eq!(
        classify_tier(&detail(false, false, false, false), ip_but_no_gateway),
        Tier::Rejected
    );
    // APIPA only, which is what a disconnected pseudo-adapter reports.
    assert_eq!(
        classify_tier(&detail(false, false, false, false), DEAD_END),
        Tier::Rejected
    );
}

#[test]
fn filter_and_endpoint_interfaces_are_always_rejected() {
    assert_eq!(
        classify_tier(&detail(true, true, true, false), ROUTABLE),
        Tier::Rejected
    );
    assert_eq!(
        classify_tier(&detail(true, true, false, true), ROUTABLE),
        Tier::Rejected
    );
}

#[test]
fn other_media_is_rejected_even_when_it_is_hardware() {
    let mut d = detail(true, true, false, false);
    d.kind = NicKind::Other;
    assert_eq!(classify_tier(&d, ROUTABLE), Tier::Rejected);
}

#[test]
fn apipa_addresses_are_not_usable() {
    assert!(!is_usable_v4(&Ipv4Addr::new(169, 254, 166, 142)));
    assert!(!is_usable_v4(&Ipv4Addr::new(127, 0, 0, 1)));
    assert!(!is_usable_v4(&Ipv4Addr::new(0, 0, 0, 0)));
    assert!(is_usable_v4(&Ipv4Addr::new(192, 168, 1, 134)));
    assert!(is_usable_v4(&Ipv4Addr::new(10, 2, 0, 2)));
}

#[test]
fn ipv6_link_local_is_not_usable() {
    assert!(!is_usable_v6(&v6([0xfe80, 0, 0, 0, 0, 0, 0, 1])));
    assert!(!is_usable_v6(&v6([0xfebf, 0, 0, 0, 0, 0, 0, 1])));
    assert!(!is_usable_v6(&v6([0, 0, 0, 0, 0, 0, 0, 1])));
    assert!(is_usable_v6(&v6([0x2001, 0xdb8, 0, 0, 0, 0, 0, 1])));
    assert!(is_usable_v6(&v6([0xfd00, 0, 0, 0, 0, 0, 0, 1])));
}

#[test]
fn if_type_fallback_maps_the_two_kinds_we_care_about() {
    assert_eq!(kind_from_if_type(IF_TYPE_ETHERNET_CSMACD), NicKind::Ethernet);
    assert_eq!(kind_from_if_type(IF_TYPE_IEEE80211), NicKind::Wifi);
    assert_eq!(kind_from_if_type(24), NicKind::Other); // loopback
    assert_eq!(kind_from_if_type(131), NicKind::Other); // tunnel
}

fn nic(live: bool, tier: Tier, gw: bool, speed: u64) -> Nic {
    Nic {
        luid: LuidKey(speed.max(1)),
        if_index: 1,
        friendly_name: "x".into(),
        description: "x".into(),
        adapter_name: "{x}".into(),
        if_type: IF_TYPE_ETHERNET_CSMACD,
        kind: NicKind::Ethernet,
        tier,
        oper_up: live,
        media_connected: live,
        tx_speed_bps: Some(speed),
        mac: None,
        permanent_mac: None,
        ipv4: if live { vec![Ipv4Addr::new(192, 168, 1, 2)] } else { vec![] },
        ipv6: vec![],
        gateways: if gw { vec![IpAddr::V4(Ipv4Addr::new(192, 168, 1, 1))] } else { vec![] },
    }
}

#[test]
fn ranking_prefers_live_hardware_with_a_gateway() {
    let good = nic(true, Tier::Hardware, true, 1_000_000_000);
    let dead = nic(false, Tier::Hardware, true, 10_000_000_000);
    let virt = nic(true, Tier::Virtualised, true, 10_000_000_000);
    let no_gw = nic(true, Tier::Hardware, false, 10_000_000_000);
    assert!(rank(&good) < rank(&dead), "live beats faster-but-dead");
    assert!(rank(&good) < rank(&virt), "hardware beats virtualised");
    assert!(rank(&good) < rank(&no_gw), "having a gateway wins");
}

#[test]
fn ranking_breaks_ties_on_speed() {
    let fast = nic(true, Tier::Hardware, true, 2_500_000_000);
    let slow = nic(true, Tier::Hardware, true, 100_000_000);
    assert!(rank(&fast) < rank(&slow));
}

fn raw_v4(a: [u8; 4]) -> RawAddress {
    let mut bytes = [0u8; 16];
    bytes[..4].copy_from_slice(&a);
    RawAddress { family: 2, bytes }
}

fn wired_row() -> IfRow {
    IfRow {
        flags: 0b101,
        if_type: 6,
        physical_medium: 14,
        media_connect_state: 1,
        oper_status: 1,
        transmit_link_speed: 2_500_000_000,
        physical_address_length: 6,
        permanent_physical_address: [1, 2, 3, 4, 5, 6],
    }
}

fn raw(luid: u64, row: Option<IfRow>) -> RawAdapter {
    RawAdapter {
        luid: LuidKey(luid),
        if_index: 4,
        if_type: 6,
        oper_status: 1,
        friendly_name: "Ethernet \u{1f600}".encode_utf16().collect(),
        description: "Intel".encode_utf16().collect(),
        adapter_name: b"{66666666-7777-8888-9999-AAAAAAAAAAAA}".to_vec(),
        physical_address: [9, 8, 7, 6, 5, 4],
        physical_address_length: 6,
        unicast: vec![raw_v4([192, 168, 1, 9]), raw_v4([169, 254, 1, 1])],
        gateways: vec![raw_v4([192, 168, 1, 1])],
        row,
    }
}

#[test]
fn a_listed_adapter_is_read_whole() {
    let nics = walk(&[raw(7, Some(wired_row()))]);
    assert_eq!(nics.len(), 1);
    let n = &nics[0];
    assert_eq!(n.luid, LuidKey(7));
    assert_eq!(n.friendly_name, "Ethernet \u{1f600}");
    assert_eq!(n.kind, NicKind::Ethernet);
    assert_eq!(n.tier, Tier::Hardware);
    assert!(n.media_connected && n.oper_up);
    assert_eq!(n.tx_speed_bps, Some(2_500_000_000));
    assert_eq!(n.permanent_mac, Some([1, 2, 3, 4, 5, 6]));
    assert_eq!(n.mac, Some([9, 8, 7, 6, 5, 4]));
    assert_eq!(n.gateways, vec![IpAddr::V4(Ipv4Addr::new(192, 168, 1, 1))]);
    assert_eq!(n.link_speed_text("2.5").as_deref(), Some("2.5 Gbps"));
}

#[test]
fn details_come_from_the_row() {
    let d = if_detail(&wired_row());
    assert!(d.hardware && d.connector_present && !d.filter_interface);
    assert_eq!(d.kind, NicKind::Ethernet);
    assert!(d.media_connected && d.oper_up);
}

#[test]
fn addresses_of_other_families_are_none() {
    assert_eq!(
        sockaddr_to_ip(&raw_v4([10, 0, 0, 1])),
        Some(IpAddr::V4(Ipv4Addr::new(10, 0, 0, 1)))
    );
    assert_eq!(sockaddr_to_ip(&RawAddress { family: 1, bytes: [0; 16] }), None);
}

#[test]
fn a_buffer_that_is_too_small_is_asked_for_again() {
    assert_eq!(enumerate(0, 0, 0), Listing::Walk);
    assert_eq!(enumerate(0, 111, 9000), Listing::Retry(9000));
    assert_eq!(enumerate(99, 111, 9000), Listing::GiveUp);
    assert_eq!(enumerate(0, 5, 0), Listing::GiveUp);
    assert_eq!(buffer_words(15), 3);
    assert_eq!(buffer_words(16), 3);
}

#[test]
fn candidates_are_ranked_and_rejected_ones_left_out() {
    let all = vec![
        nic(true, Tier::Hardware, true, 100),
        nic(true, Tier::Rejected, true, 900),
        nic(true, Tier::Hardware, true, 300),
    ];
    assert_eq!(ranked(&all, NicKind::Ethernet), vec![2, 0]);
    assert!(ranked(&all, NicKind::Wifi).is_empty());
    let (eth, wifi) = candidates(&all);
    assert_eq!(eth.iter().map(|n| n.luid.0).collect::<Vec<u64>>(), vec![300, 100]);
    assert!(wifi.is_empty());
}

#[test]
fn slow_links_are_told_in_megabits() {
    assert_eq!(
        nic(true, Tier::Hardware, true, 433_300_000).link_speed_text("0.4").as_deref(),
        Some("433 Mbps")
    );
}
