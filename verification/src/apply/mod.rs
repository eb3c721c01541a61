//! The elevated worker: the only part that changes anything.
//!
//! Everything that can fail happens before anything is changed. Parking Ethernet and then
//! discovering that Wi-Fi cannot connect would leave the user with no working link and nothing
//! running to fix it.
pub mod exit;
pub mod laws;
pub mod mode_laws;
pub mod report_laws;
pub mod run;

pub use run::{apply, recover_if_torn};

use vstd::prelude::*;
use vstd::string::*;

use crate::config::{ref_view, resolve_kind, resolved, MachineConfig, MetricBackup, Mode};
use crate::net::adapters::{nic_views, Nic, NicKind, NicView};
use crate::net::metric::{FamilyOutcome, MetricState, MetricWrite, AF_INET, AF_INET6};
use crate::net::{best_candidate, first_candidate, LuidKey, Snapshot};
use crate::text;

verus! {

#[derive(Debug)]
pub struct ApplyReport {
    pub mode: Mode,
    pub ok: bool,
    pub exit_code: u32,
    /// One sentence for the user.
    pub message: String,
    pub details: Vec<String>,
}

/// A report as plain values.
#[verifier::ext_equal]
pub struct ReportView {
    pub mode: Mode,
    pub ok: bool,
    pub exit_code: u32,
    pub message: Seq<char>,
    pub details: Seq<Seq<char>>,
}

impl View for ApplyReport {
    type V = ReportView;

    open spec fn view(&self) -> ReportView {
        ReportView {
            mode: self.mode,
            ok: self.ok,
            exit_code: self.exit_code,
            message: self.message@,
            details: text::views(self.details@),
        }
    }
}

impl ApplyReport {
    /// A report of a failure.
    pub open spec fn failed(mode: Mode, code: u32, message: Seq<char>) -> ReportView {
        ReportView { mode, ok: false, exit_code: code, message, details: Seq::empty() }
    }

    pub fn fail(mode: Mode, code: u32, message: String) -> (r: ApplyReport)
        ensures
            r@ == ApplyReport::failed(mode, code, message@),
    {
        let r = ApplyReport { mode, ok: false, exit_code: code, message, details: Vec::new() };
        assert(r@.details =~= Seq::empty());
        r
    }
}

// --- what to steer -----------------------------------------------------------------------

/// What the two managed interfaces resolved to.
pub struct Targets<'a> {
    pub eth: Option<&'a Nic>,
    pub wifi: Option<&'a Nic>,
}

/// The adapter to manage as one kind: the configured one, or the best candidate where none is
/// configured or the configured one is gone.
pub open spec fn target(
    saved: Option<crate::config::AdapterRefView>,
    kind: NicKind,
    nics: Seq<NicView>,
) -> Option<int> {
    match resolved(saved, Some(kind), nics) {
        Some(i) => Some(i),
        None => best_candidate(nics, kind),
    }
}

fn find_target<'a>(
    saved: &Option<crate::config::AdapterRef>,
    kind: NicKind,
    nics: &'a Vec<Nic>,
) -> (r: Option<&'a Nic>)
    ensures
        match target(ref_view(*saved), kind, nic_views(nics@)) {
            Some(i) => 0 <= i < nics@.len() && r == Some(&nics@[i]),
            None => r is None,
        },
{
    let known = match saved {
        Some(s) => resolve_kind(Some(s), kind, nics.as_slice()),
        None => None,
    };
    if known.is_some() {
        return known;
    }
    first_candidate(nics, kind)
}

impl<'a> Targets<'a> {
    /// What the configuration manages on this machine. A fresh install works before anything is
    /// configured.
    pub fn resolve(cfg: &MachineConfig, snap: &'a Snapshot) -> (r: Targets<'a>)
        ensures
            match target(cfg@.ethernet, NicKind::Ethernet, nic_views(snap.nics@)) {
                Some(i) => 0 <= i < snap.nics@.len() && r.eth == Some(&snap.nics@[i]),
                None => r.eth is None,
            },
            match target(cfg@.wifi, NicKind::Wifi, nic_views(snap.nics@)) {
                Some(i) => 0 <= i < snap.nics@.len() && r.wifi == Some(&snap.nics@[i]),
                None => r.wifi is None,
            },
    {
        Targets {
            eth: find_target(&cfg.ethernet, NicKind::Ethernet, &snap.nics),
            wifi: find_target(&cfg.wifi, NicKind::Wifi, &snap.nics),
        }
    }
}

// --- capturing and restoring -------------------------------------------------------------

/// One family's metric, if it could be read. A family that is not bound has nothing to restore,
/// so it is simply not recorded.
pub open spec fn captured_one(luid: LuidKey, v6: bool, state: Option<MetricState>) -> Seq<
    MetricBackup,
> {
    match state {
        Some(s) => seq![
            MetricBackup {
                luid: luid.0,
                family_v6: v6,
                metric: s.metric,
                automatic: s.automatic,
            },
        ],
        None => Seq::empty(),
    }
}

/// The metrics of one interface, IPv4 first.
pub open spec fn captured(luid: LuidKey, v4: Option<MetricState>, v6: Option<MetricState>) -> Seq<
    MetricBackup,
> {
    captured_one(luid, false, v4) + captured_one(luid, true, v6)
}

/// Capture the current metric of one interface for both families, for the journal.
pub fn capture(luid: LuidKey, v4: Option<MetricState>, v6: Option<MetricState>) -> (r: Vec<
    MetricBackup,
>)
    ensures
        r@ == captured(luid, v4, v6),
{
    let mut out: Vec<MetricBackup> = Vec::new();
    if let Some(s) = v4 {
        out.push(
            MetricBackup {
                luid: luid.0,
                family_v6: false,
                metric: s.metric,
                automatic: s.automatic,
            },
        );
    }
    if let Some(s) = v6 {
        out.push(
            MetricBackup {
                luid: luid.0,
                family_v6: true,
                metric: s.metric,
                automatic: s.automatic,
            },
        );
    }
    assert(out@ =~= captured(luid, v4, v6));
    out
}

/// The write that puts one captured metric back: automatic where it was automatic, else the exact
/// manual number it held before.
pub open spec fn restoring(b: MetricBackup) -> MetricWrite {
    MetricWrite {
        luid: LuidKey(b.luid),
        family: if b.family_v6 {
            AF_INET6
        } else {
            AF_INET
        },
        target: if b.automatic {
            None
        } else {
            Some(b.metric)
        },
    }
}

/// The writes that put captured metrics back, in order.
pub open spec fn restoring_all(backups: Seq<MetricBackup>) -> Seq<MetricWrite> {
    backups.map_values(|b: MetricBackup| restoring(b))
}

/// Put back exactly what was captured: the writes it takes. Never substitutes a default.
pub fn restore_backups(backups: &Vec<MetricBackup>) -> (r: Vec<MetricWrite>)
    ensures
        r@ == restoring_all(backups@),
{
    let mut out: Vec<MetricWrite> = Vec::new();
    let mut i: usize = 0;
    while i < backups.len()
        invariant
            i <= backups.len(),
            out@ == restoring_all(backups@.take(i as int)),
        decreases backups.len() - i,
    {
        let b = backups[i];
        out.push(
            MetricWrite {
                luid: LuidKey(b.luid),
                family: if b.family_v6 {
                    AF_INET6
                } else {
                    AF_INET
                },
                target: if b.automatic {
                    None
                } else {
                    Some(b.metric)
                },
            },
        );
        i = i + 1;
        assert(out@ =~= restoring_all(backups@.take(i as int)));
    }
    assert(backups@.take(i as int) =~= backups@);
    out
}

// --- what was there first ----------------------------------------------------------------

/// Two records of the same metric: one interface, one family.
pub open spec fn same_metric(a: MetricBackup, b: MetricBackup) -> bool {
    a.luid == b.luid && a.family_v6 == b.family_v6
}

/// A list holds a record of the same metric.
pub open spec fn has_metric(list: Seq<MetricBackup>, b: MetricBackup) -> bool {
    exists|i: int| 0 <= i < list.len() && same_metric(#[trigger] list[i], b)
}

/// What is known stays as it is; metrics that were not known yet are added.
pub open spec fn first_kept(known: Seq<MetricBackup>, more: Seq<MetricBackup>) -> Seq<MetricBackup>
    decreases more.len(),
{
    if more.len() == 0 {
        known
    } else {
        let sofar = first_kept(known, more.drop_last());
        if has_metric(sofar, more.last()) {
            sofar
        } else {
            sofar.push(more.last())
        }
    }
}

fn is_known(list: &Vec<MetricBackup>, b: MetricBackup) -> (r: bool)
    ensures
        r == has_metric(list@, b),
{
    let mut i: usize = 0;
    while i < list.len()
        invariant
            i <= list.len(),
            forall|k: int| 0 <= k < i ==> !same_metric(#[trigger] list@[k], b),
        decreases list.len() - i,
    {
        if list[i].luid == b.luid && list[i].family_v6 == b.family_v6 {
            assert(same_metric(list@[i as int], b));
            return true;
        }
        i = i + 1;
    }
    false
}

/// Add what is not known yet to what is: the value a metric had first is the one that stays.
pub fn keep_first(known: &mut Vec<MetricBackup>, more: &Vec<MetricBackup>)
    ensures
        final(known)@ == first_kept(old(known)@, more@),
{
    let mut i: usize = 0;
    assert(more@.take(0).len() == 0);
    while i < more.len()
        invariant
            i <= more.len(),
            known@ == first_kept(old(known)@, more@.take(i as int)),
        decreases more.len() - i,
    {
        let b = more[i];
        assert(more@.take(i + 1).drop_last() =~= more@.take(i as int));
        if !is_known(known, b) {
            known.push(b);
        }
        i = i + 1;
    }
    assert(more@.take(i as int) =~= more@);
}

/// Keeping what was first loses nothing and overwrites nothing: what was known is still there, in
/// its place; every metric of the addition has a record now; and what is new comes from the
/// addition.
pub proof fn the_first_value_stays(known: Seq<MetricBackup>, more: Seq<MetricBackup>)
    ensures
        known.is_prefix_of(first_kept(known, more)),
        forall|i: int|
            0 <= i < more.len() ==> has_metric(first_kept(known, more), #[trigger] more[i]),
        forall|i: int|
            known.len() <= i < first_kept(known, more).len() ==> more.contains(
                #[trigger] first_kept(known, more)[i],
            ),
    decreases more.len(),
{
    if more.len() > 0 {
        let fewer = more.drop_last();
        let sofar = first_kept(known, fewer);
        let all = first_kept(known, more);
        the_first_value_stays(known, fewer);
        assert(sofar.is_prefix_of(all));
        assert forall|i: int| 0 <= i < more.len() implies has_metric(all, #[trigger] more[i]) by {
            if i < fewer.len() {
                assert(has_metric(sofar, fewer[i]));
                let k = choose|k: int|
                    0 <= k < sofar.len() && same_metric(#[trigger] sofar[k], fewer[i]);
                assert(same_metric(all[k], more[i]));
            } else if has_metric(sofar, more.last()) {
                assert(all == sofar);
            } else {
                assert(same_metric(all[sofar.len() as int], more[i]));
            }
        }
        assert forall|i: int| known.len() <= i < all.len() implies more.contains(
            #[trigger] all[i],
        ) by {
            if i < sofar.len() {
                assert(all[i] == sofar[i]);
                assert(fewer.contains(sofar[i]));
                let k = choose|k: int| 0 <= k < fewer.len() && fewer[k] == sofar[i];
                assert(more[k] == all[i]);
            } else {
                assert(more[more.len() - 1] == all[i]);
            }
        }
    }
}

/// Every write went well.
pub open spec fn all_ok(outcomes: Seq<FamilyOutcome>) -> bool {
    forall|i: int| 0 <= i < outcomes.len() ==> (#[trigger] outcomes[i]).ok()
}

pub fn every_ok(outcomes: &Vec<FamilyOutcome>) -> (r: bool)
    ensures
        r == all_ok(outcomes@),
{
    let mut i: usize = 0;
    while i < outcomes.len()
        invariant
            i <= outcomes.len(),
            forall|k: int| 0 <= k < i ==> (#[trigger] outcomes@[k]).ok(),
        decreases outcomes.len() - i,
    {
        if !outcomes[i].is_ok() {
            return false;
        }
        i = i + 1;
    }
    true
}

/// Every answer is yes.
pub open spec fn all_true(v: Seq<bool>) -> bool {
    forall|i: int| 0 <= i < v.len() ==> #[trigger] v[i]
}

pub fn every_true(v: &Vec<bool>) -> (r: bool)
    ensures
        r == all_true(v@),
{
    let mut i: usize = 0;
    while i < v.len()
        invariant
            i <= v.len(),
            forall|k: int| 0 <= k < i ==> #[trigger] v@[k],
        decreases v.len() - i,
    {
        if !v[i] {
            return false;
        }
        i = i + 1;
    }
    true
}

/// Restoring writes exactly what was captured: for every family that could be read, the automatic
/// metric where it was automatic, and otherwise the very number; for a family that could not be
/// read, nothing.
pub proof fn restore_is_exact(luid: LuidKey, v4: Option<MetricState>, v6: Option<MetricState>)
    ensures
        ({
            let writes = restoring_all(captured(luid, v4, v6));
            let back = |s: MetricState| if s.automatic {
                None
            } else {
                Some(s.metric)
            };
            &&& writes.len() == (if v4 is Some {
                1int
            } else {
                0int
            }) + (if v6 is Some {
                1int
            } else {
                0int
            })
            &&& v4 is Some ==> writes[0] == (MetricWrite {
                luid,
                family: AF_INET,
                target: back(v4->0),
            })
            &&& v6 is Some ==> writes.last() == (MetricWrite {
                luid,
                family: AF_INET6,
                target: back(v6->0),
            })
        }),
{
}

} // verus!
