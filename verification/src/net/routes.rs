//! Which interface is actually carrying traffic right now.
//!
//! The forwarding table is read, its default routes are kept, and each one's interface metric is
//! added to get the total that Windows itself compares.
use vstd::prelude::*;

use super::luid::LuidKey;
use super::metric;
use super::metric::IfaceMetric;

verus! {

/// A default route (`0.0.0.0/0` or `::/0`) and its true cost.
#[derive(Debug, Clone, Copy, PartialEq, Eq, Structural)]
pub struct DefaultRoute {
    pub luid: LuidKey,
    pub if_index: u32,
    /// The route's own offset.
    pub route_metric: u32,
    /// The interface metric for this (luid, family).
    pub iface_metric: u32,
    /// What Windows compares: `route_metric + iface_metric`.
    pub total: u32,
    pub family_is_v6: bool,
}

/// Who is winning the race for internet traffic.
#[derive(Debug, Clone, Copy, PartialEq, Eq, Structural)]
pub enum Verdict {
    Ethernet { total: u32 },
    Wifi { total: u32 },
    /// Some third interface -- a VPN tunnel, a virtual switch -- holds the best default route.
    ///
    /// This is a normal state, not an error: the public address will not change whichever link is
    /// chosen, because the tunnel is what actually reaches the internet.
    Hijacked { luid: LuidKey, if_index: u32, total: u32 },
    /// Neither candidate has a default route: cable out and Wi-Fi down.
    NoRoute,
}

/// One row of the forwarding table, as far as it matters here.
#[derive(Debug, Clone, Copy, PartialEq, Eq, Structural)]
pub struct ForwardRow {
    pub luid: LuidKey,
    pub if_index: u32,
    pub prefix_length: u8,
    pub metric: u32,
}

/// The default route that a row of the forwarding table stands for.
pub open spec fn costed(row: ForwardRow, family: u16, metrics: Seq<IfaceMetric>) -> DefaultRoute {
    let iface_metric: u32 = match metric::first_metric(metrics, row.luid, family) {
        Some(m) => m.metric,
        None => 0,
    };
    DefaultRoute {
        luid: row.luid,
        if_index: row.if_index,
        route_metric: row.metric,
        iface_metric,
        total: if row.metric + iface_metric > u32::MAX {
            u32::MAX
        } else {
            (row.metric + iface_metric) as u32
        },
        family_is_v6: family == metric::AF_INET6,
    }
}

/// The default routes among the rows of one family's forwarding table, in the table's order.
pub open spec fn defaults_in(
    rows: Seq<ForwardRow>,
    family: u16,
    metrics: Seq<IfaceMetric>,
) -> Seq<DefaultRoute>
    decreases rows.len(),
{
    if rows.len() == 0 {
        Seq::empty()
    } else {
        let head = defaults_in(rows.drop_last(), family, metrics);
        if rows.last().prefix_length == 0 {
            head.push(costed(rows.last(), family, metrics))
        } else {
            head
        }
    }
}

/// Every default route for one address family, from its forwarding table.
pub fn default_routes(rows: &[ForwardRow], family: u16, metrics: &[IfaceMetric]) -> (r: Vec<
    DefaultRoute,
>)
    ensures
        r@ == defaults_in(rows@, family, metrics@),
{
    let mut out: Vec<DefaultRoute> = Vec::new();
    let mut i: usize = 0;
    while i < rows.len()
        invariant
            i <= rows@.len(),
            out@ == defaults_in(rows@.take(i as int), family, metrics@),
        decreases rows@.len() - i,
    {
        let row = rows[i];
        assert(rows@.take(i + 1).drop_last() =~= rows@.take(i as int));
        assert(rows@.take(i + 1).last() == row);
        if row.prefix_length == 0 {
            let iface_metric: u32 = match metric::find(metrics, row.luid, family) {
                Some(m) => m.metric,
                None => 0,
            };
            out.push(
                DefaultRoute {
                    luid: row.luid,
                    if_index: row.if_index,
                    route_metric: row.metric,
                    iface_metric,
                    total: row.metric.saturating_add(iface_metric),
                    family_is_v6: family == metric::AF_INET6,
                },
            );
        }
        i = i + 1;
    }
    assert(rows@.take(i as int) =~= rows@);
    out
}

/// Default routes for both families: those of IPv4 first.
pub fn all_default_routes(v4: &[ForwardRow], v6: &[ForwardRow], metrics: &[IfaceMetric]) -> (r: Vec<
    DefaultRoute,
>)
    ensures
        r@ == defaults_in(v4@, metric::AF_INET, metrics@) + defaults_in(
            v6@,
            metric::AF_INET6,
            metrics@,
        ),
{
    let mut v = default_routes(v4, metric::AF_INET, metrics);
    let mut w = default_routes(v6, metric::AF_INET6, metrics);
    v.append(&mut w);
    v
}

/// Route `a` is better than route `b`: its total is lower, or it is the same and only `a` is of
/// IPv4.
pub open spec fn better(a: DefaultRoute, b: DefaultRoute) -> bool {
    a.total < b.total || a.total == b.total && !a.family_is_v6 && b.family_is_v6
}

/// Position `i` holds the best route: none is better, and none before it is as good.
pub open spec fn is_best(routes: Seq<DefaultRoute>, i: int) -> bool {
    &&& 0 <= i < routes.len()
    &&& forall|j: int| 0 <= j < routes.len() ==> !better(#[trigger] routes[j], routes[i])
    &&& forall|j: int| 0 <= j < i ==> better(routes[i], #[trigger] routes[j])
}

/// What the best route says about the two candidate interfaces.
pub open spec fn judged(best: DefaultRoute, eth: Option<LuidKey>, wifi: Option<LuidKey>) -> Verdict {
    if eth == Some(best.luid) {
        Verdict::Ethernet { total: best.total }
    } else if wifi == Some(best.luid) {
        Verdict::Wifi { total: best.total }
    } else {
        Verdict::Hijacked { luid: best.luid, if_index: best.if_index, total: best.total }
    }
}

/// Who is winning: what the best route says, or nobody when there is no route.
pub open spec fn verdict_on(
    routes: Seq<DefaultRoute>,
    eth: Option<LuidKey>,
    wifi: Option<LuidKey>,
) -> Verdict {
    if routes.len() == 0 {
        Verdict::NoRoute
    } else {
        judged(routes[choose|i: int| is_best(routes, i)], eth, wifi)
    }
}

/// A list of routes has exactly one best position.
pub proof fn best_is_unique(routes: Seq<DefaultRoute>, i: int, j: int)
    requires
        is_best(routes, i),
        is_best(routes, j),
    ensures
        i == j,
{
    if i < j {
        assert(better(routes[j], routes[i]));
    }
    if j < i {
        assert(better(routes[i], routes[j]));
    }
}

fn best_index(routes: &[DefaultRoute]) -> (r: usize)
    requires
        routes@.len() > 0,
    ensures
        is_best(routes@, r as int),
{
    let mut at: usize = 0;
    let mut i: usize = 1;
    while i < routes.len()
        invariant
            at < i <= routes@.len(),
            forall|j: int| 0 <= j < i ==> !better(#[trigger] routes@[j], routes@[at as int]),
            forall|j: int| 0 <= j < at ==> better(routes@[at as int], #[trigger] routes@[j]),
        decreases routes@.len() - i,
    {
        let a = routes[i];
        let b = routes[at];
        if a.total < b.total || (a.total == b.total && !a.family_is_v6 && b.family_is_v6) {
            at = i;
        }
        i = i + 1;
    }
    at
}

/// Decide who is winning, given the default routes and the two candidate interfaces.
///
/// The lowest total wins; ties break toward IPv4 purely for display stability.
pub fn winner(routes: &[DefaultRoute], eth: Option<LuidKey>, wifi: Option<LuidKey>) -> (r: Verdict)
    ensures
        r == verdict_on(routes@, eth, wifi),
        routes@.len() > 0 ==> exists|i: int| #[trigger]
            is_best(routes@, i) && r == judged(routes@[i], eth, wifi),
{
    if routes.len() == 0 {
        return Verdict::NoRoute;
    }
    let at = best_index(routes);
    let best = routes[at];
    proof {
        best_is_unique(routes@, at as int, choose|i: int| is_best(routes@, i));
    }
    let is_eth = match eth {
        Some(l) => l == best.luid,
        None => false,
    };
    if is_eth {
        return Verdict::Ethernet { total: best.total };
    }
    let is_wifi = match wifi {
        Some(l) => l == best.luid,
        None => false,
    };
    if is_wifi {
        return Verdict::Wifi { total: best.total };
    }
    Verdict::Hijacked { luid: best.luid, if_index: best.if_index, total: best.total }
}

/// `total` is the best total metric among the routes of one interface.
pub open spec fn is_total_for(routes: Seq<DefaultRoute>, luid: LuidKey, total: u32) -> bool {
    &&& exists|i: int| 0 <= i < routes.len() && (#[trigger] routes[i]).luid == luid && routes[i].total == total
    &&& forall|i: int| 0 <= i < routes.len() && (#[trigger] routes[i]).luid == luid ==> total <= routes[i].total
}

/// The interface has a default route.
pub open spec fn has_route(routes: Seq<DefaultRoute>, luid: LuidKey) -> bool {
    exists|i: int| 0 <= i < routes.len() && (#[trigger] routes[i]).luid == luid
}

/// The best total metric of one interface, if it has any route.
pub open spec fn best_total(routes: Seq<DefaultRoute>, luid: LuidKey) -> Option<u32> {
    if has_route(routes, luid) {
        Some(choose|t: u32| is_total_for(routes, luid, t))
    } else {
        None
    }
}

/// Best total metric among the routes belonging to one interface, if it has any.
pub fn total_for(routes: &[DefaultRoute], luid: LuidKey) -> (r: Option<u32>)
    ensures
        r == best_total(routes@, luid),
        match r {
            Some(t) => is_total_for(routes@, luid, t),
            None => !has_route(routes@, luid),
        },
{
    let mut best: Option<u32> = None;
    let mut i: usize = 0;
    while i < routes.len()
        invariant
            i <= routes@.len(),
            match best {
                Some(t) => is_total_for(routes@.take(i as int), luid, t),
                None => !has_route(routes@.take(i as int), luid),
            },
        decreases routes@.len() - i,
    {
        let ghost head = routes@.take(i as int);
        let ghost longer = routes@.take(i + 1);
        assert(forall|j: int| 0 <= j < i ==> head[j] == #[trigger] longer[j]);
        assert(longer[i as int] == routes@[i as int]);
        let r = routes[i];
        if r.luid == luid {
            let t: u32 = match best {
                Some(t) => if t <= r.total {
                    t
                } else {
                    r.total
                },
                None => r.total,
            };
            proof {
                match best {
                    Some(b) => {
                        let k = choose|k: int|
                            0 <= k < head.len() && (#[trigger] head[k]).luid == luid
                                && head[k].total == b;
                        assert(longer[k] == head[k]);
                        assert forall|j: int|
                            0 <= j < longer.len() && (#[trigger] longer[j]).luid == luid implies t
                            <= longer[j].total by {
                            if j < i {
                                assert(head[j] == longer[j]);
                            }
                        }
                    },
                    None => {
                        assert forall|j: int|
                            0 <= j < longer.len() && (#[trigger] longer[j]).luid == luid implies t
                            <= longer[j].total by {
                            if j < i {
                                assert(head[j] == longer[j]);
                            }
                        }
                    },
                }
            }
            best = Some(t);
        } else {
            proof {
                match best {
                    Some(b) => {
                        let k = choose|k: int|
                            0 <= k < head.len() && (#[trigger] head[k]).luid == luid
                                && head[k].total == b;
                        assert(longer[k] == head[k]);
                        assert forall|j: int|
                            0 <= j < longer.len() && (#[trigger] longer[j]).luid == luid implies b
                            <= longer[j].total by {
                            assert(head[j] == longer[j]);
                        }
                    },
                    None => {
                        assert forall|j: int| 0 <= j < longer.len() implies (
                        #[trigger] longer[j]).luid != luid by {
                            if j < i {
                                assert(head[j] == longer[j]);
                            }
                        }
                    },
                }
            }
        }
        i = i + 1;
    }
    assert(routes@.take(i as int) =~= routes@);
    proof {
        if let Some(t) = best {
            let u = choose|u: u32| is_total_for(routes@, luid, u);
            assert(is_total_for(routes@, luid, u));
        }
    }
    best
}

/// Some position of a list of routes that is not empty is the best.
pub proof fn a_best_route_exists(routes: Seq<DefaultRoute>)
    requires
        routes.len() > 0,
    ensures
        exists|i: int| is_best(routes, i),
    decreases routes.len(),
{
    if routes.len() == 1 {
        assert(is_best(routes, 0));
    } else {
        let head = routes.drop_last();
        a_best_route_exists(head);
        let i = choose|i: int| is_best(head, i);
        let n = routes.len() - 1;
        assert(forall|j: int| 0 <= j < n ==> head[j] == #[trigger] routes[j]);
        if better(routes[n], routes[i]) {
            assert forall|j: int| 0 <= j < n implies better(routes[n], #[trigger] routes[j]) by {
                assert(!better(head[j], head[i]));
            }
            assert(is_best(routes, n));
        } else {
            assert forall|j: int| 0 <= j < routes.len() implies !better(
                #[trigger] routes[j],
                routes[i],
            ) by {
                if j < n {
                    assert(!better(head[j], head[i]));
                }
            }
            assert forall|j: int| 0 <= j < i implies better(routes[i], #[trigger] routes[j]) by {
                assert(better(head[i], head[j]));
            }
            assert(is_best(routes, i));
        }
    }
}

/// The verdict is `NoRoute` exactly when there is no default route, and otherwise it names the
/// interface of the best one with its total.
pub proof fn the_verdict_is_the_best_route(
    routes: Seq<DefaultRoute>,
    eth: Option<LuidKey>,
    wifi: Option<LuidKey>,
    i: int,
)
    ensures
        verdict_on(routes, eth, wifi) is NoRoute <==> routes.len() == 0,
        is_best(routes, i) ==> verdict_on(routes, eth, wifi) == judged(routes[i], eth, wifi),
{
    if is_best(routes, i) {
        best_is_unique(routes, i, choose|j: int| is_best(routes, j));
    }
}

/// Every default route of a table costs what its own metric and its interface's metric sum to, and
/// never less than either.
pub proof fn costs_are_sums(rows: Seq<ForwardRow>, family: u16, metrics: Seq<IfaceMetric>, i: int)
    requires
        0 <= i < defaults_in(rows, family, metrics).len(),
    ensures
        ({
            let r = defaults_in(rows, family, metrics)[i];
            &&& r.route_metric + r.iface_metric <= u32::MAX ==> r.total == r.route_metric
                + r.iface_metric
            &&& r.total >= r.route_metric
            &&& r.total >= r.iface_metric
            &&& r.family_is_v6 == (family == metric::AF_INET6)
        }),
    decreases rows.len(),
{
    if rows.len() > 0 {
        let head = defaults_in(rows.drop_last(), family, metrics);
        if i < head.len() {
            costs_are_sums(rows.drop_last(), family, metrics, i);
        }
    }
}

/// Once every default route of Ethernet costs at least the park metric chosen against Wi-Fi's best
/// total, Ethernet no longer wins; and where no third interface has a default route, Wi-Fi does.
///
/// A Wi-Fi total at or above the top of the range cannot be outbid.
pub proof fn parking_hands_the_win_over(
    routes: Seq<DefaultRoute>,
    eth: LuidKey,
    wifi: LuidKey,
    configured: u32,
    rival: u32,
)
    requires
        eth != wifi,
        is_total_for(routes, wifi, rival),
        rival < metric::PARK_MAX,
        forall|i: int|
            0 <= i < routes.len() && (#[trigger] routes[i]).luid == eth ==> routes[i].total
                >= metric::parking(configured, Some(rival)),
    ensures
        !(verdict_on(routes, Some(eth), Some(wifi)) is Ethernet),
        (forall|i: int|
            0 <= i < routes.len() ==> (#[trigger] routes[i]).luid == eth || routes[i].luid == wifi)
            ==> verdict_on(routes, Some(eth), Some(wifi)) == (Verdict::Wifi { total: rival }),
{
    let w = choose|i: int|
        0 <= i < routes.len() && (#[trigger] routes[i]).luid == wifi && routes[i].total == rival;
    a_best_route_exists(routes);
    let b = choose|i: int| is_best(routes, i);
    the_verdict_is_the_best_route(routes, Some(eth), Some(wifi), b);
    metric::park_loses_against_rival(configured, rival);
    assert(!better(routes[w], routes[b]));
    if routes[b].luid == eth {
        assert(routes[b].total > rival);
        assert(better(routes[w], routes[b]));
    }
    if routes[b].luid == wifi {
        assert(rival <= routes[b].total);
    }
}

} // verus!
