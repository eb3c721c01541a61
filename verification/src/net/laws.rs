//! What holds of reading, judging and steering the machine's links, in terms of what Windows
//! reports and of what is asked of it.
use vstd::prelude::*;

use super::adapters::{
    adapter_of, adapters_in, addresses, address_of, any_usable, detail_of, is_ranking, only_v4,
    only_v6, tier_of, usable_v4, usable_v6, IfDetail, IfRow, IpAddr, NicKind, NicView, RawAdapter,
    RawAddress, Routable, Tier,
};
use super::luid::LuidKey;
use super::metric::{
    first_metric, parking, retargeted, steering, unreadable, write_outcome, FamilyOutcome,
    IfaceMetric, InterfaceRow, SteerOutcome,
};
use super::routes::{
    a_best_route_exists, best_total, defaults_in, is_best, is_total_for, judged,
    verdict_on, DefaultRoute, ForwardRow, Verdict,
};
use super::{best_candidate, nic_at};

verus! {

// --- metrics -----------------------------------------------------------------------------

/// Whatever the family, the row that is handed back to Windows carries what was asked for: the
/// number that is to be pinned with automatic off, or automatic on. It is the row of the same
/// interface and family, and nothing else of it changes but IPv4's site prefix length, which
/// Windows wants to be zero.
pub proof fn a_write_carries_its_target(row: InterfaceRow, target: Option<u32>)
    ensures
        ({
            let w = retargeted(row, target);
            &&& target matches Some(m) ==> w.metric == m && !w.automatic
            &&& target is None ==> w.automatic && w.metric == 0
            &&& w.luid == row.luid && w.family == row.family
            &&& w.default_routes_disabled == row.default_routes_disabled
            &&& row.family == 2 ==> w.site_prefix_length == 0
            &&& row.family != 2 ==> w.site_prefix_length == row.site_prefix_length
        }),
{
}

/// A write counts as applied exactly where Windows returned no error, and then reports the row as
/// it was and as it was handed back. A missing adapter is told apart from every other failure, and
/// a failure keeps its code.
pub proof fn an_applied_write_reports_the_change(row: InterfaceRow, target: Option<u32>, rc: u32)
    ensures
        ({
            let o = write_outcome(row, target, rc);
            let w = retargeted(row, target);
            &&& rc == 0 ==> o == (FamilyOutcome::Applied {
                before: row.metric,
                before_auto: row.automatic,
                after: w.metric,
                after_auto: w.automatic,
            })
            &&& o is Applied ==> rc == 0
            &&& o is AdapterGone <==> rc == 2
            &&& !(o is FamilyAbsent)
            &&& o matches FamilyOutcome::Failed(c) ==> c == rc && rc != 0
            &&& o.ok() <==> rc == 0
        }),
{
}

/// A row that cannot be read excuses the write only where the family is not bound; a missing
/// adapter is told apart, and any other code is a failure that keeps it.
pub proof fn only_an_unbound_family_is_excused(rc: u32)
    ensures
        unreadable(rc).ok() <==> rc == 1168,
        unreadable(rc) is AdapterGone <==> rc == 2,
        rc != 1168 && rc != 2 ==> unreadable(rc) == FamilyOutcome::Failed(rc),
{
}

/// Steering went well exactly where neither family failed or lost its adapter.
pub proof fn a_steer_needs_both_families(v4: FamilyOutcome, v6: FamilyOutcome)
    ensures
        (SteerOutcome { v4, v6 }).ok() <==> !(v4 is Failed || v4 is AdapterGone || v6 is Failed
            || v6 is AdapterGone),
        v4.ok() <==> v4 is Applied || v4 is FamilyAbsent,
{
}

/// Steering an interface writes its IPv4 metric and its IPv6 metric, each once, both to the same
/// target, and nothing of any other interface.
pub proof fn steering_covers_both_families(luid: LuidKey, target: Option<u32>)
    ensures
        steering(luid, target).len() == 2,
        forall|i: int| 0 <= i < 2 ==> (#[trigger] steering(luid, target)[i]).luid == luid,
        forall|i: int| 0 <= i < 2 ==> (#[trigger] steering(luid, target)[i]).target == target,
        steering(luid, target)[0].family == 2,
        steering(luid, target)[1].family == 23,
{
}

/// A park metric is the configured one wherever that is allowed and high enough, and otherwise no
/// higher than it takes to stay a hundred above the rival.
pub proof fn a_park_is_no_higher_than_needed(configured: u32, rival: Option<u32>)
    ensures
        100 <= configured <= 9999 && (rival matches Some(t) ==> t + 100 <= configured)
            ==> parking(configured, rival) == configured,
        rival is None && configured < 100 ==> parking(configured, rival) == 100,
        rival is None && configured > 9999 ==> parking(configured, rival) == 9999,
        rival matches Some(t) && 100 <= configured < t + 100 <= 9999 ==> parking(configured, rival)
            == rival->0 + 100,
{
}

/// A lookup gives the first row of the interface and family, and nothing only where there is none.
pub proof fn a_lookup_gives_the_first_match(snap: Seq<IfaceMetric>, luid: LuidKey, family: u16)
    ensures
        match first_metric(snap, luid, family) {
            Some(m) => exists|i: int|
                #![trigger snap[i]]
                0 <= i < snap.len() && snap[i] == m && m.luid == luid && m.family == family
                    && forall|j: int|
                    0 <= j < i ==> !((#[trigger] snap[j]).luid == luid && snap[j].family == family),
            None => forall|j: int|
                0 <= j < snap.len() ==> !((#[trigger] snap[j]).luid == luid && snap[j].family
                    == family),
        },
    decreases snap.len(),
{
    if snap.len() > 0 && !(snap[0].luid == luid && snap[0].family == family) {
        let rest = snap.skip(1);
        a_lookup_gives_the_first_match(rest, luid, family);
        assert(forall|j: int| 0 <= j < rest.len() ==> rest[j] == #[trigger] snap[j + 1]);
        match first_metric(rest, luid, family) {
            Some(m) => {
                let i = choose|i: int|
                    #![trigger rest[i]]
                    0 <= i < rest.len() && rest[i] == m && m.luid == luid && m.family == family
                        && forall|j: int|
                        0 <= j < i ==> !((#[trigger] rest[j]).luid == luid && rest[j].family
                            == family);
                assert(snap[i + 1] == m);
                assert forall|j: int| 0 <= j < i + 1 implies !((#[trigger] snap[j]).luid == luid
                    && snap[j].family == family) by {
                    if j > 0 {
                        assert(rest[j - 1] == snap[j]);
                    }
                }
            },
            None => {
                assert forall|j: int| 0 <= j < snap.len() implies !((#[trigger] snap[j]).luid == luid
                    && snap[j].family == family) by {
                    if j > 0 {
                        assert(rest[j - 1] == snap[j]);
                    }
                }
            },
        }
    } else if snap.len() > 0 {
        assert(snap[0] == first_metric(snap, luid, family)->0);
    }
}

// --- default routes ----------------------------------------------------------------------

/// How many of the first `n` rows have a prefix of length zero.
pub open spec fn zero_prefixes(rows: Seq<ForwardRow>, n: int) -> int
    decreases n,
{
    if n <= 0 {
        0
    } else {
        zero_prefixes(rows, n - 1) + if rows[n - 1].prefix_length == 0 {
            1int
        } else {
            0int
        }
    }
}

proof fn lemma_zero_prefixes_prefix(rows: Seq<ForwardRow>, n: int)
    requires
        0 <= n < rows.len(),
    ensures
        zero_prefixes(rows.drop_last(), n) == zero_prefixes(rows, n),
        0 <= zero_prefixes(rows, n) <= n,
    decreases n,
{
    if n > 0 {
        lemma_zero_prefixes_prefix(rows, n - 1);
    }
}

proof fn lemma_zero_prefixes_grow(rows: Seq<ForwardRow>, i: int, n: int)
    requires
        0 <= i < n,
        rows[i].prefix_length == 0,
    ensures
        0 <= zero_prefixes(rows, i) < zero_prefixes(rows, n),
    decreases n,
{
    lemma_zero_prefixes_positive(rows, i);
    if i < n - 1 {
        lemma_zero_prefixes_grow(rows, i, n - 1);
    }
}

proof fn lemma_zero_prefixes_positive(rows: Seq<ForwardRow>, n: int)
    ensures
        zero_prefixes(rows, n) >= 0,
    decreases n,
{
    if n > 0 {
        lemma_zero_prefixes_positive(rows, n - 1);
    }
}

/// The cost that Windows compares: the sum of the route's and the interface's metric, as far as a
/// number can go.
pub open spec fn is_sum(total: u32, a: u32, b: u32) -> bool {
    &&& total == a + b || (total == u32::MAX && a + b > u32::MAX)
}

/// The interface metric that counts for a route: that of the first row of the snapshot for its
/// interface and family, and zero where there is none.
pub open spec fn is_metric_of(
    found: u32,
    luid: LuidKey,
    family: u16,
    metrics: Seq<IfaceMetric>,
) -> bool {
    ||| exists|i: int|
        #![trigger metrics[i]]
        0 <= i < metrics.len() && metrics[i].luid == luid && metrics[i].family == family
            && metrics[i].metric == found && forall|j: int|
            0 <= j < i ==> !((#[trigger] metrics[j]).luid == luid && metrics[j].family == family)
    ||| found == 0 && forall|j: int|
        0 <= j < metrics.len() ==> !((#[trigger] metrics[j]).luid == luid && metrics[j].family
            == family)
}

/// The default routes of a table are exactly its rows with a prefix of length zero, in the table's
/// order and each once, whatever their metric: as many as there are such rows, and each with the
/// row's interface and metric, the interface's metric of that family, and the sum of the two.
pub proof fn every_default_row_is_a_route(
    rows: Seq<ForwardRow>,
    family: u16,
    metrics: Seq<IfaceMetric>,
)
    ensures
        defaults_in(rows, family, metrics).len() == zero_prefixes(rows, rows.len() as int),
        forall|i: int|
            0 <= i < rows.len() && (#[trigger] rows[i]).prefix_length == 0 ==> {
                let at = zero_prefixes(rows, i);
                let r = defaults_in(rows, family, metrics)[at];
                &&& 0 <= at < defaults_in(rows, family, metrics).len()
                &&& r.luid == rows[i].luid
                &&& r.if_index == rows[i].if_index
                &&& r.route_metric == rows[i].metric
                &&& r.family_is_v6 == (family == 23)
                &&& is_metric_of(r.iface_metric, r.luid, family, metrics)
                &&& is_sum(r.total, r.route_metric, r.iface_metric)
            },
    decreases rows.len(),
{
    if rows.len() > 0 {
        let before = rows.drop_last();
        let n = rows.len() - 1;
        every_default_row_is_a_route(before, family, metrics);
        lemma_zero_prefixes_prefix(rows, n);
        let all = defaults_in(rows, family, metrics);
        let head = defaults_in(before, family, metrics);
        assert forall|i: int| 0 <= i < rows.len() && (#[trigger] rows[i]).prefix_length == 0 implies {
            let at = zero_prefixes(rows, i);
            let r = all[at];
            &&& 0 <= at < all.len()
            &&& r.luid == rows[i].luid
            &&& r.if_index == rows[i].if_index
            &&& r.route_metric == rows[i].metric
            &&& r.family_is_v6 == (family == 23)
            &&& is_metric_of(r.iface_metric, r.luid, family, metrics)
            &&& is_sum(r.total, r.route_metric, r.iface_metric)
        } by {
            if i < n {
                assert(before[i] == rows[i]);
                lemma_zero_prefixes_prefix(rows, i);
                assert(all[zero_prefixes(rows, i)] == head[zero_prefixes(rows, i)]);
            } else {
                a_lookup_gives_the_first_match(metrics, rows[i].luid, family);
                assert(all[head.len() as int].luid == rows[i].luid);
            }
        }
    }
}

/// Who carries the traffic is decided by the lowest total alone: there is a verdict for a link
/// exactly where there is any default route, its total is the least of all, and it names the link
/// that route belongs to. Of several routes with the least total, one of IPv4 is preferred.
pub proof fn the_lowest_total_wins(
    routes: Seq<DefaultRoute>,
    eth: Option<LuidKey>,
    wifi: Option<LuidKey>,
)
    ensures
        verdict_on(routes, eth, wifi) is NoRoute <==> routes.len() == 0,
        routes.len() > 0 ==> exists|i: int|
            #![trigger routes[i]]
            {
                let v = verdict_on(routes, eth, wifi);
                let best = routes[i];
                &&& 0 <= i < routes.len()
                &&& forall|j: int|
                    0 <= j < routes.len() ==> best.total <= (#[trigger] routes[j]).total
                &&& forall|j: int|
                    0 <= j < routes.len() && (#[trigger] routes[j]).total == best.total
                        && !routes[j].family_is_v6 ==> !best.family_is_v6 && i <= j
                &&& forall|j: int|
                    0 <= j < i ==> (#[trigger] routes[j]).total != best.total
                        || routes[j].family_is_v6 && !best.family_is_v6
                &&& v matches Verdict::Ethernet { total } ==> eth == Some(best.luid) && total
                    == best.total
                &&& v matches Verdict::Wifi { total } ==> eth != Some(best.luid) && wifi == Some(
                    best.luid,
                ) && total == best.total
                &&& v matches Verdict::Hijacked { luid, if_index, total } ==> luid == best.luid
                    && if_index == best.if_index && total == best.total && eth != Some(luid) && wifi
                    != Some(luid)
            },
{
    if routes.len() > 0 {
        a_best_route_exists(routes);
        let i = choose|i: int| is_best(routes, i);
        let best = routes[i];
        assert(verdict_on(routes, eth, wifi) == judged(best, eth, wifi));
        assert forall|j: int|
            0 <= j < routes.len() && (#[trigger] routes[j]).total == best.total
                && !routes[j].family_is_v6 implies !best.family_is_v6 && i <= j by {}
    }
}

/// The best total of an interface is that of one of its routes, and none of them is lower; there is
/// none exactly where it has no route.
pub proof fn a_best_total_is_the_least(routes: Seq<DefaultRoute>, luid: LuidKey)
    ensures
        match best_total(routes, luid) {
            Some(t) => {
                &&& exists|i: int|
                    0 <= i < routes.len() && (#[trigger] routes[i]).luid == luid && routes[i].total
                        == t
                &&& forall|i: int|
                    0 <= i < routes.len() && (#[trigger] routes[i]).luid == luid ==> t
                        <= routes[i].total
            },
            None => forall|i: int| 0 <= i < routes.len() ==> (#[trigger] routes[i]).luid != luid,
        },
{
    if exists|i: int| 0 <= i < routes.len() && (#[trigger] routes[i]).luid == luid {
        lemma_a_total_exists(routes, luid);
    }
}

proof fn lemma_a_total_exists(routes: Seq<DefaultRoute>, luid: LuidKey)
    requires
        exists|i: int| 0 <= i < routes.len() && (#[trigger] routes[i]).luid == luid,
    ensures
        exists|t: u32| is_total_for(routes, luid, t),
    decreases routes.len(),
{
    let head = routes.drop_last();
    let n = routes.len() - 1;
    assert(forall|j: int| 0 <= j < n ==> head[j] == #[trigger] routes[j]);
    if exists|i: int| 0 <= i < head.len() && (#[trigger] head[i]).luid == luid {
        lemma_a_total_exists(head, luid);
        let t = choose|t: u32| is_total_for(head, luid, t);
        let k = choose|k: int|
            0 <= k < head.len() && (#[trigger] head[k]).luid == luid && head[k].total == t;
        assert(routes[k].luid == luid && routes[k].total == t);
        if routes[n].luid == luid && routes[n].total < t {
            assert forall|i: int| 0 <= i < routes.len() && (#[trigger] routes[i]).luid == luid implies
                routes[n].total <= routes[i].total by {
                if i < n {
                    assert(head[i] == routes[i]);
                }
            }
            assert(is_total_for(routes, luid, routes[n].total));
        } else {
            assert forall|i: int| 0 <= i < routes.len() && (#[trigger] routes[i]).luid == luid implies
                t <= routes[i].total by {
                if i < n {
                    assert(head[i] == routes[i]);
                }
            }
            assert(is_total_for(routes, luid, t));
        }
    } else {
        assert forall|i: int| 0 <= i < n implies (#[trigger] routes[i]).luid != luid by {
            assert(head[i] == routes[i]);
        }
        assert(routes[n].luid == luid);
        assert(is_total_for(routes, luid, routes[n].total));
    }
}

// --- adapters ----------------------------------------------------------------------------

/// The physical medium decides what an interface is: the three wireless media are Wi-Fi and 802.3
/// is Ethernet, whatever the type says; only for any other medium does the type decide.
pub proof fn the_medium_decides_the_kind(raw: RawAdapter, row: IfRow)
    ensures
        row.physical_medium == 1 || row.physical_medium == 8 || row.physical_medium == 9
            ==> detail_of(row).kind == NicKind::Wifi,
        row.physical_medium == 14 ==> detail_of(row).kind == NicKind::Ethernet,
        row.physical_medium != 1 && row.physical_medium != 8 && row.physical_medium != 9
            && row.physical_medium != 14 ==> {
            &&& detail_of(row).kind == NicKind::Ethernet <==> row.if_type == 6
            &&& detail_of(row).kind == NicKind::Wifi <==> row.if_type == 71
        },
        raw.row == Some(row) ==> adapter_of(raw).kind == detail_of(row).kind,
        raw.row is None ==> {
            &&& adapter_of(raw).kind == NicKind::Ethernet <==> raw.if_type == 6
            &&& adapter_of(raw).kind == NicKind::Wifi <==> raw.if_type == 71
        },
{
}

/// Each detail of an interface is the flag or the field of its row that stands for it.
pub proof fn details_are_read_from_the_row(row: IfRow)
    ensures
        ({
            let d = detail_of(row);
            &&& d.hardware <==> row.flags % 2 == 1
            &&& d.filter_interface <==> (row.flags / 2) % 2 == 1
            &&& d.connector_present <==> (row.flags / 4) % 2 == 1
            &&& d.end_point <==> row.flags >= 128
            &&& d.media_connected <==> row.media_connect_state == 1 && (row.flags / 16) % 2 == 0
            &&& d.oper_up <==> row.oper_status == 1
            &&& d.tx_speed_bps is None <==> row.transmit_link_speed == 0 || row.transmit_link_speed
                == u64::MAX
            &&& d.tx_speed_bps matches Some(bps) ==> bps == row.transmit_link_speed
            &&& d.permanent_mac is Some <==> row.physical_address_length == 6
            &&& d.permanent_mac matches Some(m) ==> m == row.permanent_physical_address
        }),
{
    let f: u8 = row.flags;
    assert((f & 0x01 != 0) <==> f % 2 == 1) by (bit_vector);
    assert((f & 0x02 != 0) <==> (f / 2) % 2 == 1) by (bit_vector);
    assert((f & 0x04 != 0) <==> (f / 4) % 2 == 1) by (bit_vector);
    assert((f & 0x80 != 0) <==> f >= 128) by (bit_vector);
    assert((f & 0x10 == 0) <==> (f / 16) % 2 == 0) by (bit_vector);
}

/// An interface is steered only if it is Ethernet or Wi-Fi and neither an end point nor a filter;
/// and then it is hardware where it has both the hardware and the connector flag, and virtualised
/// where it does not but has a usable address and a gateway.
pub proof fn only_a_real_link_is_steered(d: IfDetail, r: Routable)
    ensures
        ({
            let t = tier_of(d, r);
            let link = (d.kind == NicKind::Ethernet || d.kind == NicKind::Wifi) && !d.end_point
                && !d.filter_interface;
            &&& t == Tier::Hardware <==> link && d.hardware && d.connector_present
            &&& t == Tier::Virtualised <==> link && !(d.hardware && d.connector_present)
                && r.usable_ip && r.gateway
            &&& t == Tier::Rejected <==> !link || (!(d.hardware && d.connector_present) && !(
            r.usable_ip && r.gateway))
        }),
{
}

/// The entry holds an address that can carry traffic off the machine: an IPv4 address that is not
/// link-local, loopback or unspecified, or an IPv6 address that is none of these.
pub open spec fn can_carry(e: RawAddress) -> bool {
    let b = e.bytes@;
    ||| e.family == 2 && !(b[0] == 169 && b[1] == 254) && b[0] != 127 && !(b[0] == 0 && b[1] == 0
        && b[2] == 0 && b[3] == 0)
    ||| e.family == 23 && !(b[0] == 0xfe && 0x80 <= b[1] <= 0xbf) && !(b[15] <= 1 && forall|k: int|
        0 <= k < 15 ==> #[trigger] b[k] == 0)
}

/// How many of the first `n` entries are of a family.
pub open spec fn of_family(list: Seq<RawAddress>, family: u16, n: int) -> int
    decreases n,
{
    if n <= 0 {
        0
    } else {
        of_family(list, family, n - 1) + if list[n - 1].family == family {
            1int
        } else {
            0int
        }
    }
}

proof fn lemma_of_family(list: Seq<RawAddress>, family: u16, n: int)
    requires
        0 <= n < list.len(),
    ensures
        of_family(list.drop_last(), family, n) == of_family(list, family, n),
        0 <= of_family(list, family, n) <= n,
    decreases n,
{
    if n > 0 {
        lemma_of_family(list, family, n - 1);
    }
}

/// The segments of an IPv6 address, each from two bytes in network order.
pub open spec fn spells_v6(a: super::adapters::Ipv6Addr, b: Seq<u8>) -> bool {
    &&& a.s0 == b[0] * 256 + b[1]
    &&& a.s1 == b[2] * 256 + b[3]
    &&& a.s2 == b[4] * 256 + b[5]
    &&& a.s3 == b[6] * 256 + b[7]
    &&& a.s4 == b[8] * 256 + b[9]
    &&& a.s5 == b[10] * 256 + b[11]
    &&& a.s6 == b[12] * 256 + b[13]
    &&& a.s7 == b[14] * 256 + b[15]
}

/// Every IPv4 and every IPv6 entry of an address list is read, in order and each once, byte for
/// byte; entries of other families are not.
pub proof fn every_address_is_read(list: Seq<RawAddress>)
    ensures
        ({
            let all = addresses(list);
            let n = list.len() as int;
            &&& all.len() == of_family(list, 2, n) + of_family(list, 23, n)
            &&& only_v4(all).len() == of_family(list, 2, n)
            &&& only_v6(all).len() == of_family(list, 23, n)
            &&& forall|i: int|
                0 <= i < n && (#[trigger] list[i]).family == 2 ==> {
                    let at = of_family(list, 2, i);
                    let b = list[i].bytes@;
                    let a = only_v4(all)[at];
                    &&& 0 <= at < only_v4(all).len()
                    &&& a.a == b[0] && a.b == b[1] && a.c == b[2] && a.d == b[3]
                    &&& all[at + of_family(list, 23, i)] == IpAddr::V4(a)
                }
            &&& forall|i: int|
                0 <= i < n && (#[trigger] list[i]).family == 23 ==> {
                    let at = of_family(list, 23, i);
                    let a = only_v6(all)[at];
                    &&& 0 <= at < only_v6(all).len()
                    &&& spells_v6(a, list[i].bytes@)
                    &&& all[of_family(list, 2, i) + at] == IpAddr::V6(a)
                }
        }),
    decreases list.len(),
{
    if list.len() > 0 {
        let before = list.drop_last();
        let n = list.len() - 1;
        every_address_is_read(before);
        lemma_of_family(list, 2, n);
        lemma_of_family(list, 23, n);
        let head = addresses(before);
        let all = addresses(list);
        if address_of(list.last()) is Some {
            assert(all.drop_last() =~= head);
        }
        assert(list.last() == list[n]);
        assert forall|i: int| 0 <= i < list.len() && (#[trigger] list[i]).family == 2 implies {
            let at = of_family(list, 2, i);
            let b = list[i].bytes@;
            let a = only_v4(all)[at];
            &&& 0 <= at < only_v4(all).len()
            &&& a.a == b[0] && a.b == b[1] && a.c == b[2] && a.d == b[3]
            &&& all[at + of_family(list, 23, i)] == IpAddr::V4(a)
        } by {
            if i < n {
                assert(before[i] == list[i]);
                lemma_of_family(list, 2, i);
                lemma_of_family(list, 23, i);
                lemma_of_family_grows(list, i, n);
            }
        }
        assert forall|i: int| 0 <= i < list.len() && (#[trigger] list[i]).family == 23 implies {
            let at = of_family(list, 23, i);
            let a = only_v6(all)[at];
            &&& 0 <= at < only_v6(all).len()
            &&& spells_v6(a, list[i].bytes@)
            &&& all[of_family(list, 2, i) + at] == IpAddr::V6(a)
        } by {
            if i < n {
                assert(before[i] == list[i]);
                lemma_of_family(list, 2, i);
                lemma_of_family(list, 23, i);
                lemma_of_family_grows(list, i, n);
            }
        }
    }
}

proof fn lemma_of_family_grows(list: Seq<RawAddress>, i: int, n: int)
    requires
        0 <= i < n,
    ensures
        of_family(list, 2, i) + (if list[i].family == 2 {
            1int
        } else {
            0int
        }) <= of_family(list, 2, n),
        of_family(list, 23, i) + (if list[i].family == 23 {
            1int
        } else {
            0int
        }) <= of_family(list, 23, n),
    decreases n,
{
    if i < n - 1 {
        lemma_of_family_grows(list, i, n - 1);
    }
}

/// Something of a list can carry traffic exactly where one of its entries can.
proof fn lemma_usable(list: Seq<RawAddress>)
    ensures
        any_usable(only_v4(addresses(list)), only_v6(addresses(list))) <==> exists|i: int|
            0 <= i < list.len() && can_carry(#[trigger] list[i]),
    decreases list.len(),
{
    let all = addresses(list);
    let v4 = only_v4(all);
    let v6 = only_v6(all);
    if list.len() > 0 {
        let before = list.drop_last();
        let n = list.len() - 1;
        lemma_usable(before);
        let head = addresses(before);
        let h4 = only_v4(head);
        let h6 = only_v6(head);
        let e = list[n];
        let b = e.bytes@;
        assert(list.last() == e);
        assert(forall|i: int| 0 <= i < n ==> before[i] == #[trigger] list[i]);
        if e.family == 2 {
            assert(all.drop_last() =~= head);
            let a = v4.last();
            assert(v4 =~= h4.push(a));
            assert(v6 =~= h6);
            assert(usable_v4(a) <==> can_carry(e));
            assert(v4[h4.len() as int] == a);
            assert(forall|i: int| 0 <= i < h4.len() ==> #[trigger] v4[i] == h4[i]);
            assert(forall|i: int| 0 <= i < h4.len() ==> v4[i] == #[trigger] h4[i]);
        } else if e.family == 23 {
            assert(all.drop_last() =~= head);
            let a = v6.last();
            assert(v6 =~= h6.push(a));
            assert(v4 =~= h4);
            lemma_carries_v6(e, a);
            assert(v6[h6.len() as int] == a);
            assert(forall|i: int| 0 <= i < h6.len() ==> #[trigger] v6[i] == h6[i]);
            assert(forall|i: int| 0 <= i < h6.len() ==> v6[i] == #[trigger] h6[i]);
        }
        if any_usable(v4, v6) {
            if any_usable(h4, h6) {
                let i = choose|i: int| 0 <= i < before.len() && can_carry(#[trigger] before[i]);
                assert(can_carry(list[i]));
            } else {
                assert(can_carry(list[n]));
            }
        }
        if exists|i: int| 0 <= i < list.len() && can_carry(#[trigger] list[i]) {
            let i = choose|i: int| 0 <= i < list.len() && can_carry(#[trigger] list[i]);
            if i < n {
                assert(can_carry(before[i]));
                assert(any_usable(h4, h6));
            }
        }
    }
}

proof fn lemma_carries_v6(e: RawAddress, a: super::adapters::Ipv6Addr)
    requires
        e.family == 23,
        spells_v6(a, e.bytes@),
    ensures
        usable_v6(a) <==> can_carry(e),
{
    let b = e.bytes@;
    let zero = forall|k: int| 0 <= k < 15 ==> #[trigger] b[k] == 0;
    assert((0xfe80 <= a.s0 <= 0xfebf) <==> (b[0] == 0xfe && 0x80 <= b[1] <= 0xbf));
    if a.s0 == 0 && a.s1 == 0 && a.s2 == 0 && a.s3 == 0 && a.s4 == 0 && a.s5 == 0 && a.s6 == 0
        && a.s7 <= 1 {
        assert(b[0] == 0 && b[1] == 0 && b[2] == 0 && b[3] == 0 && b[4] == 0 && b[5] == 0 && b[6]
            == 0 && b[7] == 0 && b[8] == 0 && b[9] == 0 && b[10] == 0 && b[11] == 0 && b[12] == 0
            && b[13] == 0 && b[14] == 0 && b[15] <= 1);
        assert(zero);
    }
    if zero {
        assert(b[0] == 0 && b[1] == 0 && b[2] == 0 && b[3] == 0 && b[4] == 0 && b[5] == 0 && b[6]
            == 0 && b[7] == 0 && b[8] == 0 && b[9] == 0 && b[10] == 0 && b[11] == 0 && b[12] == 0
            && b[13] == 0 && b[14] == 0);
    }
}

/// What an entry of Windows' adapter list is worth as a link to steer, in terms of its row and its
/// addresses alone. Without a row it is never steered.
pub proof fn an_adapter_is_worth_what_windows_says(raw: RawAdapter)
    ensures
        raw.row is None ==> adapter_of(raw).tier == Tier::Rejected,
        raw.row matches Some(row) ==> {
            let n = adapter_of(raw);
            let link = n.kind != NicKind::Other && row.flags < 128 && (row.flags / 2) % 2 == 0;
            let solid = row.flags % 2 == 1 && (row.flags / 4) % 2 == 1;
            let carries = exists|i: int|
                0 <= i < raw.unicast@.len() && can_carry(#[trigger] raw.unicast@[i]);
            let routed = exists|i: int|
                0 <= i < raw.gateways@.len() && ((#[trigger] raw.gateways@[i]).family == 2
                    || raw.gateways@[i].family == 23);
            &&& n.tier == Tier::Hardware <==> link && solid
            &&& n.tier == Tier::Virtualised <==> link && !solid && carries && routed
        },
{
    if let Some(row) = raw.row {
        details_are_read_from_the_row(row);
        lemma_usable(raw.unicast@);
        lemma_gateways(raw.gateways@);
    }
}

proof fn lemma_gateways(list: Seq<RawAddress>)
    ensures
        addresses(list).len() > 0 <==> exists|i: int|
            0 <= i < list.len() && ((#[trigger] list[i]).family == 2 || list[i].family == 23),
    decreases list.len(),
{
    if list.len() > 0 {
        let before = list.drop_last();
        let n = list.len() - 1;
        lemma_gateways(before);
        assert(list.last() == list[n]);
        assert(forall|i: int| 0 <= i < n ==> before[i] == #[trigger] list[i]);
        if addresses(before).len() > 0 {
            let i = choose|i: int|
                0 <= i < before.len() && ((#[trigger] before[i]).family == 2 || before[i].family
                    == 23);
            assert(list[i].family == 2 || list[i].family == 23);
        }
        if exists|i: int|
            0 <= i < list.len() && ((#[trigger] list[i]).family == 2 || list[i].family == 23) {
            let i = choose|i: int|
                0 <= i < list.len() && ((#[trigger] list[i]).family == 2 || list[i].family == 23);
            if i < n {
                assert(before[i].family == 2 || before[i].family == 23);
            }
        }
    }
}

/// How many of the first `n` entries have a LUID.
pub open spec fn with_luid(list: Seq<RawAdapter>, n: int) -> int
    decreases n,
{
    if n <= 0 {
        0
    } else {
        with_luid(list, n - 1) + if list[n - 1].luid.0 != 0 {
            1int
        } else {
            0int
        }
    }
}

proof fn lemma_with_luid(list: Seq<RawAdapter>, n: int)
    requires
        0 <= n < list.len(),
    ensures
        with_luid(list.drop_last(), n) == with_luid(list, n),
        0 <= with_luid(list, n) <= n,
    decreases n,
{
    if n > 0 {
        lemma_with_luid(list, n - 1);
    }
}

/// An adapter has the identity, the addresses and the state that its entry and its row report.
pub proof fn an_adapter_keeps_what_windows_reports(raw: RawAdapter)
    ensures
        ({
            let n = adapter_of(raw);
            &&& n.luid == raw.luid && n.if_index == raw.if_index && n.if_type == raw.if_type
            &&& n.ipv4 == only_v4(addresses(raw.unicast@))
            &&& n.ipv6 == only_v6(addresses(raw.unicast@))
            &&& n.gateways == addresses(raw.gateways@)
            &&& n.mac is Some <==> raw.physical_address_length == 6
            &&& n.mac matches Some(m) ==> m == raw.physical_address
            &&& raw.row matches Some(row) ==> {
                &&& n.oper_up <==> row.oper_status == 1
                &&& n.media_connected == detail_of(row).media_connected
                &&& n.tx_speed_bps == detail_of(row).tx_speed_bps
                &&& n.permanent_mac == detail_of(row).permanent_mac
            }
            &&& raw.row is None ==> {
                &&& n.oper_up <==> raw.oper_status == 1
                &&& !n.media_connected
                &&& n.tx_speed_bps is None
                &&& n.permanent_mac is None
            }
        }),
{
}

/// Every entry of Windows' list that has a LUID is an adapter, in order and each once: entry `i`
/// stands where as many come before it as have a LUID.
pub proof fn every_adapter_is_listed(list: Seq<RawAdapter>, i: int)
    requires
        0 <= i < list.len(),
    ensures
        adapters_in(list).len() == with_luid(list, list.len() as int),
        list[i].luid.0 != 0 ==> 0 <= with_luid(list, i) < adapters_in(list).len() && adapters_in(
            list,
        )[with_luid(list, i)] == adapter_of(list[i]),
    decreases list.len(),
{
    let before = list.drop_last();
    let n = list.len() - 1;
    lemma_as_many_adapters(before);
    lemma_with_luid(list, n);
    lemma_with_luid(list, i);
    assert(list.last() == list[n]);
    if i < n {
        assert(before[i] == list[i]);
        every_adapter_is_listed(before, i);
    }
}

proof fn lemma_as_many_adapters(list: Seq<RawAdapter>)
    ensures
        adapters_in(list).len() == with_luid(list, list.len() as int),
    decreases list.len(),
{
    if list.len() > 0 {
        lemma_as_many_adapters(list.drop_last());
        lemma_with_luid(list, list.len() - 1);
    }
}

/// The link is up, plugged in and has an IPv4 address.
pub open spec fn works(n: NicView) -> bool {
    n.oper_up && n.media_connected && n.ipv4.len() > 0
}

/// The speed that counts in a comparison.
pub open spec fn speed(n: NicView) -> u64 {
    match n.tx_speed_bps {
        Some(bps) => bps,
        None => 0,
    }
}

/// Adapter `a`, at place `i` of the list, is at least as good a choice as `b` at place `j`: it
/// works where `b` does; all else equal it is hardware where `b` is, has a gateway where `b` has,
/// and is as fast; and of two that are equal in all that, it stands first.
pub open spec fn no_worse(a: NicView, i: int, b: NicView, j: int) -> bool {
    let hard_a = a.tier == Tier::Hardware;
    let hard_b = b.tier == Tier::Hardware;
    let gate_a = a.gateways.len() > 0;
    let gate_b = b.gateways.len() > 0;
    ||| works(a) && !works(b)
    ||| works(a) == works(b) && hard_a && !hard_b
    ||| works(a) == works(b) && hard_a == hard_b && gate_a && !gate_b
    ||| works(a) == works(b) && hard_a == hard_b && gate_a == gate_b && speed(a) > speed(b)
    ||| works(a) == works(b) && hard_a == hard_b && gate_a == gate_b && speed(a) == speed(b) && i
        < j
}

/// The candidates of a kind are exactly the adapters of that kind that were not rejected, and each
/// is a better choice than all that follow.
pub proof fn candidates_are_ordered(nics: Seq<NicView>, kind: NicKind, order: Seq<int>)
    requires
        is_ranking(nics, kind, order),
    ensures
        forall|k: int|
            0 <= k < order.len() ==> 0 <= #[trigger] order[k] < nics.len() && nics[order[k]].kind
                == kind && nics[order[k]].tier != Tier::Rejected,
        forall|i: int|
            0 <= i < nics.len() && (#[trigger] nics[i]).kind == kind && nics[i].tier
                != Tier::Rejected ==> order.contains(i),
        forall|k: int, l: int|
            0 <= k < l < order.len() ==> no_worse(
                nics[#[trigger] order[k]],
                order[k],
                nics[#[trigger] order[l]],
                order[l],
            ),
{
    assert forall|i: int|
        0 <= i < nics.len() && (#[trigger] nics[i]).kind == kind && nics[i].tier
            != Tier::Rejected implies order.contains(i) by {
        assert(super::adapters::eligible(nics[i], kind));
    }
    assert forall|k: int, l: int| 0 <= k < l < order.len() implies no_worse(
        nics[#[trigger] order[k]],
        order[k],
        nics[#[trigger] order[l]],
        order[l],
    ) by {
        assert(super::adapters::ahead(nics, order[k], order[l]));
    }
}

/// The adapter at `i` is one of the kind that may be managed, and no other one is better.
pub open spec fn best_of(nics: Seq<NicView>, kind: NicKind, i: int) -> bool {
    &&& 0 <= i < nics.len() && nics[i].kind == kind && nics[i].tier != Tier::Rejected
    &&& forall|j: int|
        0 <= j < nics.len() && j != i && (#[trigger] nics[j]).kind == kind && nics[j].tier
            != Tier::Rejected ==> no_worse(nics[i], i, nics[j], j)
}

/// The adapter that is picked is of the kind and not rejected, and no other one of the kind is a
/// better choice.
pub proof fn the_best_candidate_is_picked(nics: Seq<NicView>, kind: NicKind, order: Seq<int>)
    requires
        is_ranking(nics, kind, order),
    ensures
        match best_candidate(nics, kind) {
            Some(i) => {
                &&& 0 <= i < nics.len() && nics[i].kind == kind && nics[i].tier != Tier::Rejected
                &&& forall|j: int|
                    0 <= j < nics.len() && j != i && (#[trigger] nics[j]).kind == kind
                        && nics[j].tier != Tier::Rejected ==> no_worse(nics[i], i, nics[j], j)
            },
            None => forall|j: int|
                0 <= j < nics.len() && (#[trigger] nics[j]).kind == kind ==> nics[j].tier
                    == Tier::Rejected,
        },
{
    let o = choose|o: Seq<int>| is_ranking(nics, kind, o);
    candidates_are_ordered(nics, kind, o);
    if o.len() > 0 {
        let i = o[0];
        assert forall|j: int|
            0 <= j < nics.len() && j != i && (#[trigger] nics[j]).kind == kind && nics[j].tier
                != Tier::Rejected implies no_worse(nics[i], i, nics[j], j) by {
            assert(o.contains(j));
            let l = choose|l: int| 0 <= l < o.len() && o[l] == j;
            assert(no_worse(nics[o[0]], o[0], nics[o[l]], o[l]));
        }
    }
}

/// Looking an adapter up by its LUID gives the first that has it, and nothing only where none has.
pub proof fn a_luid_finds_its_adapter(nics: Seq<NicView>, luid: LuidKey, from: int)
    requires
        0 <= from,
    ensures
        match nic_at(nics, luid, from) {
            Some(i) => {
                &&& from <= i < nics.len() && nics[i].luid == luid
                &&& forall|j: int| from <= j < i ==> (#[trigger] nics[j]).luid != luid
            },
            None => forall|j: int| from <= j < nics.len() ==> (#[trigger] nics[j]).luid != luid,
        },
    decreases nics.len() - from,
{
    if from < nics.len() && nics[from].luid != luid {
        a_luid_finds_its_adapter(nics, luid, from + 1);
    }
}

} // verus!
