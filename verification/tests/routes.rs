use linkswitch::net::metric::{park_value, IfaceMetric, AF_INET, AF_INET6};
use linkswitch::net::routes::{
    all_default_routes, total_for, winner, DefaultRoute, ForwardRow, Verdict,
};
use linkswitch::net::LuidKey;

const ETH: LuidKey = LuidKey(0x1111);
const WIFI: LuidKey = LuidKey(0x2222);
const VPN: LuidKey = LuidKey(0x3333);

fn route(luid: LuidKey, route_metric: u32, iface_metric: u32) -> DefaultRoute {
    DefaultRoute {
        luid,
        if_index: 1,
        route_metric,
        iface_metric,
        total: route_metric + iface_metric,
        family_is_v6: false,
    }
}

#[test]
fn no_routes_means_no_winner() {
    assert_eq!(winner(&[], Some(ETH), Some(WIFI)), Verdict::NoRoute);
}

#[test]
fn lowest_total_wins_not_lowest_interface_metric() {
    // Ethernet has the lower *interface* metric but a route offset pushes its total above
    // Wi-Fi's. Windows compares the sum, so Wi-Fi must win.
    let routes = [route(ETH, 500, 5), route(WIFI, 0, 30)];
    assert_eq!(winner(&routes, Some(ETH), Some(WIFI)), Verdict::Wifi { total: 30 });
}

#[test]
fn parked_ethernet_hands_the_win_to_wifi() {
    let routes = [route(ETH, 0, 9000), route(WIFI, 0, 30)];
    assert_eq!(winner(&routes, Some(ETH), Some(WIFI)), Verdict::Wifi { total: 30 });
}

#[test]
fn default_state_gives_ethernet_the_win() {
    // The machine's real automatic metrics: Ethernet 5, Wi-Fi 30.
    let routes = [route(ETH, 0, 5), route(WIFI, 0, 30)];
    assert_eq!(winner(&routes, Some(ETH), Some(WIFI)), Verdict::Ethernet { total: 5 });
}

#[test]
fn a_vpn_holding_the_best_route_is_reported_as_hijacked() {
    let routes = [route(VPN, 0, 0), route(WIFI, 0, 30)];
    match winner(&routes, Some(ETH), Some(WIFI)) {
        Verdict::Hijacked { luid, total, .. } => {
            assert_eq!(luid, VPN);
            assert_eq!(total, 0);
        }
        other => panic!("expected Hijacked, got {other:?}"),
    }
}

#[test]
fn an_unplugged_interface_simply_has_no_route() {
    // Cable out: Ethernet contributes no default route at all, so Wi-Fi wins by default.
    let routes = [route(WIFI, 0, 30)];
    assert_eq!(winner(&routes, Some(ETH), Some(WIFI)), Verdict::Wifi { total: 30 });
    assert_eq!(total_for(&routes, ETH), None);
    assert_eq!(total_for(&routes, WIFI), Some(30));
}

#[test]
fn winner_is_stable_when_a_candidate_is_not_configured() {
    let routes = [route(WIFI, 0, 30)];
    // No Ethernet configured yet -- Wi-Fi still resolves correctly rather than reading as
    // hijacked.
    assert_eq!(winner(&routes, None, Some(WIFI)), Verdict::Wifi { total: 30 });
}

#[test]
fn total_for_picks_the_cheapest_route_on_an_interface() {
    let routes = [route(WIFI, 0, 30), route(WIFI, 100, 30)];
    assert_eq!(total_for(&routes, WIFI), Some(30));
}

fn metric_row(luid: LuidKey, family: u16, metric: u32) -> IfaceMetric {
    IfaceMetric {
        luid,
        if_index: 1,
        family,
        metric,
        automatic: false,
        connected: true,
        default_routes_disabled: false,
    }
}

fn row(luid: LuidKey, prefix_length: u8, metric: u32) -> ForwardRow {
    ForwardRow { luid, if_index: 7, prefix_length, metric }
}

#[test]
fn only_default_routes_count_and_cost_the_sum() {
    let metrics = [metric_row(ETH, AF_INET, 5), metric_row(ETH, AF_INET6, 15)];
    let v4 = [row(ETH, 0, 256), row(ETH, 24, 1)];
    let v6 = [row(ETH, 0, 16), row(VPN, 0, 3)];
    let routes = all_default_routes(&v4, &v6, &metrics);
    let totals: Vec<u32> = routes.iter().map(|r| r.total).collect();
    assert_eq!(totals, vec![261, 31, 3]);
    assert_eq!(total_for(&routes, ETH), Some(31));
}

#[test]
fn a_tie_goes_to_ipv4() {
    let six = DefaultRoute { family_is_v6: true, ..route(ETH, 0, 30) };
    let routes = [six, route(WIFI, 0, 30)];
    assert_eq!(winner(&routes, Some(ETH), Some(WIFI)), Verdict::Wifi { total: 30 });
}

#[test]
fn parking_above_the_rival_hands_the_win_over() {
    for rival in [30u32, 8950, 9000, 9990] {
        let park = park_value(9000, Some(rival));
        let routes = [route(ETH, 0, park), route(WIFI, 0, rival)];
        assert_eq!(winner(&routes, Some(ETH), Some(WIFI)), Verdict::Wifi { total: rival });
    }
}
