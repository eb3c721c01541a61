//! Everything that concerns the Windows networking stack.
pub mod adapters;
pub mod binding;
pub mod err;
pub mod guid;
pub mod laws;
pub mod luid;
pub mod metric;
pub mod notify;
pub mod routes;
pub mod run_laws;
pub mod wcm;
pub mod wifi;

use vstd::prelude::*;

pub use luid::LuidKey;

verus! {

/// A complete, consistent read of the machine's networking state.
///
/// Taken as one unit so that nothing is decided on a torn view -- an adapter list from before a
/// cable was pulled against a route table from after it.
#[derive(Debug, Clone)]
pub struct Snapshot {
    pub nics: Vec<adapters::Nic>,
    pub metrics: Vec<metric::IfaceMetric>,
    pub routes: Vec<routes::DefaultRoute>,
}

/// The first adapter at or after `from` with this LUID.
pub open spec fn nic_at(nics: Seq<adapters::NicView>, luid: LuidKey, from: int) -> Option<int>
    decreases nics.len() - from,
{
    if from < 0 || from >= nics.len() {
        None
    } else if nics[from].luid == luid {
        Some(from)
    } else {
        nic_at(nics, luid, from + 1)
    }
}

/// The best candidate of one kind: the first of the ranking, if there is any.
pub open spec fn best_candidate(
    nics: Seq<adapters::NicView>,
    kind: adapters::NicKind,
) -> Option<int> {
    let order = choose|o: Seq<int>| adapters::is_ranking(nics, kind, o);
    if order.len() > 0 {
        Some(order[0])
    } else {
        None
    }
}

/// The best candidate of one kind, if there is any.
pub fn first_candidate<'a>(nics: &'a Vec<adapters::Nic>, kind: adapters::NicKind) -> (r: Option<
    &'a adapters::Nic,
>)
    ensures
        match best_candidate(adapters::nic_views(nics@), kind) {
            Some(i) => 0 <= i < nics@.len() && r == Some(&nics@[i]),
            None => r is None,
        },
{
    let order = adapters::ranked(nics.as_slice(), kind);
    proof {
        let all = adapters::nic_views(nics@);
        let o = choose|o: Seq<int>| adapters::is_ranking(all, kind, o);
        adapters::ranking_is_unique(all, kind, adapters::as_ints(order@), o);
        if order.len() > 0 {
            assert(adapters::as_ints(order@)[0] == order@[0]);
        }
    }
    if order.len() > 0 {
        Some(&nics[order[0]])
    } else {
        None
    }
}

impl Snapshot {
    /// A snapshot from what was read: the adapter list, the interface metrics, and the two
    /// forwarding tables.
    pub fn read(
        list: &[adapters::RawAdapter],
        metrics: Vec<metric::IfaceMetric>,
        v4: &[routes::ForwardRow],
        v6: &[routes::ForwardRow],
    ) -> (r: Snapshot)
        ensures
            adapters::nic_views(r.nics@) == adapters::adapters_in(list@),
            r.metrics@ == metrics@,
            r.routes@ == routes::defaults_in(v4@, metric::AF_INET, metrics@)
                + routes::defaults_in(v6@, metric::AF_INET6, metrics@),
    {
        let nics = adapters::walk(list);
        let routes = routes::all_default_routes(v4, v6, metrics.as_slice());
        Snapshot { nics, metrics, routes }
    }

    pub fn nic(&self, luid: LuidKey) -> (r: Option<&adapters::Nic>)
        ensures
            match nic_at(adapters::nic_views(self.nics@), luid, 0) {
                Some(i) => 0 <= i < self.nics@.len() && r == Some(&self.nics@[i]),
                None => r is None,
            },
    {
        let ghost all = adapters::nic_views(self.nics@);
        let mut i: usize = 0;
        while i < self.nics.len()
            invariant
                i <= self.nics@.len(),
                all == adapters::nic_views(self.nics@),
                nic_at(all, luid, 0) == nic_at(all, luid, i as int),
            decreases self.nics@.len() - i,
        {
            assert(all[i as int].luid == self.nics@[i as int].luid);
            if self.nics[i].luid == luid {
                return Some(&self.nics[i]);
            }
            i = i + 1;
        }
        None
    }

    /// Steerable candidates, best-first, split by kind: Ethernet, then Wi-Fi.
    pub fn candidates(&self) -> (r: (Vec<&adapters::Nic>, Vec<&adapters::Nic>))
        ensures
            exists|e: Seq<int>, w: Seq<int>|
                {
                    &&& #[trigger] adapters::is_ranking(
                        adapters::nic_views(self.nics@),
                        adapters::NicKind::Ethernet,
                        e,
                    )
                    &&& #[trigger] adapters::is_ranking(
                        adapters::nic_views(self.nics@),
                        adapters::NicKind::Wifi,
                        w,
                    )
                    &&& r.0@ == e.map_values(|i: int| &self.nics@[i])
                    &&& r.1@ == w.map_values(|i: int| &self.nics@[i])
                },
    {
        let e = adapters::ranked(self.nics.as_slice(), adapters::NicKind::Ethernet);
        let w = adapters::ranked(self.nics.as_slice(), adapters::NicKind::Wifi);
        let eth = self.pick(&e, adapters::NicKind::Ethernet);
        let wifi = self.pick(&w, adapters::NicKind::Wifi);
        (eth, wifi)
    }

    fn pick(&self, order: &Vec<usize>, kind: adapters::NicKind) -> (r: Vec<&adapters::Nic>)
        requires
            adapters::is_ranking(
                adapters::nic_views(self.nics@),
                kind,
                adapters::as_ints(order@),
            ),
        ensures
            r@ == adapters::as_ints(order@).map_values(|i: int| &self.nics@[i]),
    {
        let ghost ints = adapters::as_ints(order@);
        let mut out: Vec<&adapters::Nic> = Vec::new();
        let mut k: usize = 0;
        while k < order.len()
            invariant
                k <= order.len(),
                ints == adapters::as_ints(order@),
                forall|k: int| 0 <= k < ints.len() ==> (#[trigger] ints[k]) < self.nics@.len(),
                out@ == ints.take(k as int).map_values(|i: int| &self.nics@[i]),
            decreases order.len() - k,
        {
            assert(ints[k as int] == order@[k as int]);
            out.push(&self.nics[order[k]]);
            k = k + 1;
            assert(out@ =~= ints.take(k as int).map_values(|i: int| &self.nics@[i]));
        }
        assert(ints.take(k as int) =~= ints);
        out
    }

    pub fn verdict(&self, eth: Option<LuidKey>, wifi: Option<LuidKey>) -> (r: routes::Verdict)
        ensures
            r == routes::verdict_on(self.routes@, eth, wifi),
    {
        routes::winner(self.routes.as_slice(), eth, wifi)
    }
}

} // verus!
