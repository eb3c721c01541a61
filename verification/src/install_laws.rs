//! What holds of installing and removing, in terms of what was answered and of what is asked for.
use vstd::prelude::*;

use crate::config::{AdapterRefView, JournalView, MachineView, MetricBackup, Mode};
use crate::install::{
    closed_journal, install_asks, install_step, is_present, relocated, sound_install,
    uninstall_asks, uninstall_step, InstallActionView, InstallEventView, InstallStage, InstallView,
    UninstallView,
};
use crate::laws::{likeness, the_best_match_is_found};
use crate::net::adapters::{is_ranking, NicKind, NicView, Tier};
use crate::net::best_candidate;
use crate::net::laws::{best_of, the_best_candidate_is_picked};
use crate::net::metric::FamilyOutcome;
use crate::net::wcm::RegistryChange;
use crate::tasks::HealthView;

verus! {

// --- installing --------------------------------------------------------------------------

/// What was asked for did not work.
pub open spec fn refused(e: InstallEventView) -> bool {
    match e {
        InstallEventView::Program(Err(_)) => true,
        InstallEventView::Tried(Some(_)) => true,
        InstallEventView::PolicyChanged(Err(_)) => true,
        _ => false,
    }
}

/// The answer is of the kind that is waited for.
pub open spec fn answers(a: InstallActionView, e: InstallEventView) -> bool {
    match a {
        InstallActionView::FindProgram => e is Program,
        InstallActionView::MakeDir(_) => e is Tried,
        InstallActionView::Copy { .. } => e is Tried,
        InstallActionView::Harden(_) => e is Tried,
        InstallActionView::LoadMachine => e is Machine,
        InstallActionView::SaveMachine(_) => e is Tried,
        InstallActionView::ReadSnapshot => e is Snapshot,
        InstallActionView::ReadPolicy => e is Policy,
        InstallActionView::ReadRegistry => e is Registry,
        InstallActionView::ChangePolicy(_) => e is PolicyChanged,
        InstallActionView::RegisterTasks { .. } => e is Tried,
        InstallActionView::UnregisterTasks => e is Tried,
        InstallActionView::SetAutostart(_) => e is Tried,
        InstallActionView::LoadJournal => e is Journal,
        InstallActionView::SaveJournal(_) => e is Tried,
        InstallActionView::WriteBindings(_) => e is Bindings,
        InstallActionView::WriteMetrics(_) => e is MetricsWritten,
        InstallActionView::RemoveData => e is Tried,
        InstallActionView::Nothing => false,
    }
}

/// An installation that nothing fails in finds the program, copies it to its place, makes and locks
/// down the data directory, chooses the adapters, saves the choice, registers the tasks for that
/// copy and that account, sets the startup entry where that is wanted, and reports success.
#[verifier::spinoff_prover]
#[verifier::rlimit(40)]
pub proof fn an_installation_goes_through(
    r: InstallView,
    source: Seq<char>,
    cfg: MachineView,
    nics: Seq<NicView>,
)
    requires
        r.stage is Locating,
        r.outcome.ok,
        !r.keep_wifi,
    ensures
        ({
            let went_well = InstallEventView::Tried(None);
            let found = install_step(r, InstallEventView::Program(Ok((source, false))));
            let made = install_step(found, went_well);
            let copied = install_step(made, went_well);
            let placed = install_step(copied, went_well);
            let locked = install_step(placed, went_well);
            let known = install_step(locked, InstallEventView::Machine(cfg));
            let seen = install_step(known, InstallEventView::Snapshot(nics));
            let saved = install_step(seen, went_well);
            let registered = install_step(saved, went_well);
            let started = install_step(registered, went_well);
            &&& install_asks(r) is FindProgram
            &&& install_asks(found) == InstallActionView::MakeDir(r.dir)
            &&& install_asks(made) == (InstallActionView::Copy { from: source, to: r.exe })
            &&& install_asks(copied) == InstallActionView::MakeDir(r.data_dir)
            &&& install_asks(placed) == InstallActionView::Harden(r.data_dir)
            &&& install_asks(locked) is LoadMachine
            &&& install_asks(known) is ReadSnapshot
            &&& install_asks(seen) == InstallActionView::SaveMachine(seen.cfg)
            &&& install_asks(saved) == (InstallActionView::RegisterTasks {
                exe: r.exe,
                user: r.user,
            })
            &&& r.autostart ==> install_asks(registered) == InstallActionView::SetAutostart(
                Some(r.exe),
            )
            &&& r.autostart ==> started.stage is Finished && started.outcome.ok
            &&& !r.autostart ==> registered.stage is Finished && registered.outcome.ok
        }),
{
}

/// The installed program is not copied onto itself: the run goes on with the data directory.
pub proof fn the_installed_program_is_not_copied(r: InstallView, source: Seq<char>)
    requires
        r.stage is Locating,
    ensures
        install_asks(install_step(r, InstallEventView::Program(Ok((source, true)))))
            == InstallActionView::MakeDir(r.data_dir),
{
}

/// An installation gives up only where the program is not found, a directory cannot be made or the
/// program cannot be copied; it is over, else, only with the tasks and the startup entry tried.
/// It reports failure exactly where something failed, the startup entry aside. Where it goes, and
/// for whom, stays as it was.
#[verifier::spinoff_prover]
#[verifier::rlimit(40)]
pub proof fn an_installation_fails_only_for_its_reason(r: InstallView, e: InstallEventView)
    ensures
        ({
            let after = install_step(r, e);
            let heard = answers(install_asks(r), e);
            &&& after.outcome.ok <==> r.outcome.ok && !(heard && refused(e)
                && r.stage !is SettingAutostart)
            &&& after.stage is Finished <==> {
                ||| r.stage is Finished
                ||| heard && refused(e) && (r.stage is Locating || r.stage is MakingProgramDir
                    || r.stage is Copying || r.stage is MakingDataDir)
                ||| heard && r.stage is RegisteringTasks && !r.autostart
                ||| heard && r.stage is SettingAutostart
            }
            &&& !heard ==> after == r
            &&& heard ==> after.stage != r.stage
            &&& heard && refused(e) ==> after.outcome.messages.len() > 0
            &&& after.keep_wifi == r.keep_wifi && after.autostart == r.autostart
            &&& after.dir == r.dir && after.exe == r.exe && after.data_dir == r.data_dir
                && after.user == r.user
        }),
{
}

/// What went wrong stands in the last thing that is said.
pub proof fn the_reason_is_told(r: InstallView, e: Seq<char>)
    requires
        answers(install_asks(r), InstallEventView::Tried(Some(e))),
    ensures
        ({
            let said = install_step(r, InstallEventView::Tried(Some(e))).outcome.messages.last();
            exists|from: int|
                0 <= from && from + e.len() <= said.len() && #[trigger] said.subrange(
                    from,
                    from + e.len() as int,
                ) == e
        }),
{
    let said = install_step(r, InstallEventView::Tried(Some(e))).outcome.messages.last();
    let tail = ". Close LinkSwitch if it is running, then try again."@;
    let from: int = if r.stage is Copying {
        said.len() - tail.len() - e.len()
    } else {
        said.len() - e.len()
    };
    assert(said.subrange(from, from + e.len() as int) =~= e);
}

/// An adapter that was not chosen before is the best one of its kind that is there now, remembered
/// by its LUID and its name; there is none only where every one of that kind is rejected. Nothing
/// else of what is saved changes.
pub proof fn the_best_adapters_are_chosen(
    r: InstallView,
    nics: Seq<NicView>,
    wired: Seq<int>,
    wireless: Seq<int>,
)
    requires
        r.stage is ReadingAdapters,
        is_ranking(nics, NicKind::Ethernet, wired),
        is_ranking(nics, NicKind::Wifi, wireless),
    ensures
        ({
            let cfg = install_step(r, InstallEventView::Snapshot(nics)).cfg;
            &&& r.cfg.ethernet is None ==> best_is_kept(cfg.ethernet, NicKind::Ethernet, nics)
            &&& r.cfg.wifi is None ==> best_is_kept(cfg.wifi, NicKind::Wifi, nics)
            &&& r.cfg.ethernet is Some ==> cfg.ethernet == r.cfg.ethernet
            &&& r.cfg.wifi is Some ==> cfg.wifi == r.cfg.wifi
            &&& cfg.schema == r.cfg.schema && cfg.park_metric == r.cfg.park_metric
            &&& cfg.wcm_backup == r.cfg.wcm_backup
            &&& cfg.wifi_profile_hint == r.cfg.wifi_profile_hint
        }),
{
    the_best_candidate_is_picked(nics, NicKind::Ethernet, wired);
    the_best_candidate_is_picked(nics, NicKind::Wifi, wireless);
    if let Some(i) = best_candidate(nics, NicKind::Ethernet) {
        assert(best_of(nics, NicKind::Ethernet, i));
    }
    if let Some(i) = best_candidate(nics, NicKind::Wifi) {
        assert(best_of(nics, NicKind::Wifi, i));
    }
}

/// The best adapter of a kind is remembered, or there is none.
pub open spec fn best_is_kept(
    kept: Option<AdapterRefView>,
    kind: NicKind,
    nics: Seq<NicView>,
) -> bool {
    match kept {
        Some(a) => exists|i: int| #[trigger]
            best_of(nics, kind, i) && a.luid == nics[i].luid.0 && a.name == nics[i].friendly_name
                && a.description == nics[i].description,
        None => forall|j: int|
            0 <= j < nics.len() && (#[trigger] nics[j]).kind == kind ==> nics[j].tier
                == Tier::Rejected,
    }
}

/// The policy of the machine is looked at only where that was asked for. One that Group Policy sets
/// is left alone; any other one is set to keep all connections, once what was there is recorded,
/// and that record is never replaced.
pub proof fn the_policy_is_changed_only_on_request(r: InstallView, e: InstallEventView)
    ensures
        ({
            let after = install_step(r, e);
            let on_policy = |s: InstallStage|
                s is ReadingPolicy || s is ReadingRegistry || s is ChangingPolicy;
            &&& on_policy(after.stage) && !on_policy(r.stage) ==> r.keep_wifi && r.stage
                is ReadingAdapters
            &&& r.stage is ReadingAdapters && e is Snapshot && r.keep_wifi ==> install_asks(after)
                is ReadPolicy
            &&& r.stage is ReadingPolicy && e is Policy ==> {
                let p = e->Policy_0;
                &&& p.is_group_policy ==> install_asks(after) == InstallActionView::SaveMachine(
                    r.cfg,
                )
                &&& !p.is_group_policy && r.cfg.wcm_backup is None ==> install_asks(after)
                    is ReadRegistry
                &&& !p.is_group_policy && r.cfg.wcm_backup is Some ==> install_asks(after)
                    == InstallActionView::ChangePolicy(RegistryChange::Write(0))
            }
            &&& r.stage is ReadingRegistry && e is Registry ==> {
                let b = after.cfg.wcm_backup->0;
                &&& after.cfg.wcm_backup is Some
                &&& e->Registry_0 is None ==> !b.present
                &&& e->Registry_0 is Some ==> b.present && b.value == e->Registry_0->0
                &&& install_asks(after) == InstallActionView::ChangePolicy(RegistryChange::Write(0))
            }
            &&& after.stage is ChangingPolicy && r.stage !is ChangingPolicy
                ==> after.cfg.wcm_backup is Some
            &&& r.stage is ChangingPolicy && e is PolicyChanged ==> install_asks(after)
                == InstallActionView::SaveMachine(r.cfg)
            &&& r.stage !is LoadingMachine && r.cfg.wcm_backup is Some && r.stage
                !is ReadingRegistry ==> after.cfg.wcm_backup == r.cfg.wcm_backup
        }),
{
}

/// LinkSwitch counts as installed only if every task is registered and none has a command whose
/// program is gone; one that is missing, or one such command, is enough for it not to count.
pub proof fn one_broken_task_is_enough(health: Seq<HealthView>, exists: Seq<bool>, i: int)
    requires
        0 <= i < health.len(),
    ensures
        !health[i].registered ==> !sound_install(health, exists),
        health[i].command is Some && i < exists.len() && !exists[i] ==> !sound_install(
            health,
            exists,
        ),
        (forall|k: int|
            0 <= k < health.len() ==> (#[trigger] health[k]).registered && health[k].command
                is None) ==> sound_install(health, exists),
        (forall|k: int|
            0 <= k < health.len() ==> (#[trigger] health[k]).registered && k < exists.len()
                && exists[k]) ==> sound_install(health, exists),
{
}

// --- removing ----------------------------------------------------------------------------

/// A metric is as it should be, or there is nothing left to set it on.
pub open spec fn settled(o: FamilyOutcome) -> bool {
    o is Applied || o is FamilyAbsent || o is AdapterGone
}

/// A removal that nothing fails in reads the journal, sets the bindings, reads the machine's
/// configuration and adapters, restores the metrics, closes the journal, puts the policy back where
/// it was changed, removes the tasks, the startup entry and the data, and reports success.
#[verifier::spinoff_prover]
#[verifier::rlimit(60)]
pub proof fn a_removal_goes_through(
    r: UninstallView,
    j: JournalView,
    cfg: MachineView,
    nics: Seq<NicView>,
    bound: Seq<bool>,
    undone: Seq<FamilyOutcome>,
    first: Seq<FamilyOutcome>,
    now: u64,
)
    requires
        r.stage is LoadingJournal,
        r.outcome.ok,
        forall|i: int| 0 <= i < bound.len() ==> #[trigger] bound[i],
        forall|i: int| 0 <= i < undone.len() ==> settled(#[trigger] undone[i]),
        forall|i: int| 0 <= i < first.len() ==> settled(#[trigger] first[i]),
    ensures
        ({
            let went_well = InstallEventView::Tried(None);
            let loaded = uninstall_step(r, InstallEventView::Journal(j), now);
            let rebound = uninstall_step(loaded, InstallEventView::Bindings(bound), now);
            let known = uninstall_step(rebound, InstallEventView::Machine(cfg), now);
            let found = uninstall_step(known, InstallEventView::Snapshot(nics), now);
            let back = uninstall_step(found, InstallEventView::MetricsWritten(undone), now);
            let closing = uninstall_step(back, InstallEventView::MetricsWritten(first), now);
            let closed = uninstall_step(closing, went_well, now);
            let unchanged = if cfg.wcm_backup is Some {
                uninstall_step(closed, InstallEventView::PolicyChanged(Ok(())), now)
            } else {
                closed
            };
            let unregistered = uninstall_step(unchanged, went_well, now);
            let cleared = uninstall_step(unregistered, went_well, now);
            let removed = uninstall_step(cleared, went_well, now);
            &&& uninstall_asks(r) is LoadJournal
            &&& uninstall_asks(loaded) == InstallActionView::WriteBindings(j.bindings)
            &&& uninstall_asks(rebound) is LoadMachine
            &&& uninstall_asks(known) is ReadSnapshot
            &&& uninstall_asks(found) is WriteMetrics
            &&& uninstall_asks(back) is WriteMetrics
            &&& uninstall_asks(closing) is SaveJournal
            &&& cfg.wcm_backup is Some ==> uninstall_asks(closed) is ChangePolicy
            &&& uninstall_asks(unchanged) is UnregisterTasks
            &&& uninstall_asks(unregistered) == InstallActionView::SetAutostart(None)
            &&& uninstall_asks(cleared) is RemoveData
            &&& removed.stage is Finished && removed.outcome.ok
        }),
{
}

/// A removal goes on whatever fails, and reports failure exactly where a binding could not be set,
/// a metric of an interface that is there could not be restored, or the policy or the tasks could
/// not be put back or removed. What it cannot do otherwise it leaves, and where it stands stays as
/// it was.
#[verifier::spinoff_prover]
#[verifier::rlimit(60)]
pub proof fn a_removal_fails_only_for_its_reason(r: UninstallView, e: InstallEventView, now: u64)
    requires
        r.stage is RestoringPolicy ==> r.cfg.wcm_backup is Some,
    ensures
        ({
            let after = uninstall_step(r, e, now);
            let heard = answers(uninstall_asks(r), e);
            &&& after.outcome.ok <==> r.outcome.ok && !{
                ||| r.stage is Rebinding && e is Bindings && exists|i: int|
                    0 <= i < e->Bindings_0.len() && !(#[trigger] e->Bindings_0[i])
                ||| r.stage is RestoringFirst && e is MetricsWritten && (!r.restored || exists|
                    i: int,
                | 0 <= i < e->MetricsWritten_0.len() && !settled(#[trigger] e->MetricsWritten_0[i]))
                ||| r.stage is RestoringPolicy && e is PolicyChanged && e->PolicyChanged_0 is Err
                ||| r.stage is UnregisteringTasks && e is Tried && e->Tried_0 is Some
            }
            &&& r.stage is RestoringMetrics && e is MetricsWritten ==> (after.restored <==> forall|
                i: int,
            | 0 <= i < e->MetricsWritten_0.len() ==> settled(#[trigger] e->MetricsWritten_0[i]))
            &&& after.stage is Finished <==> {
                ||| r.stage is Finished
                ||| r.stage is ClearingAutostart && e is Tried && !r.outcome.ok
                ||| r.stage is RemovingData && e is Tried
            }
            &&& !heard ==> after == r
            &&& heard ==> after.stage != r.stage
            &&& after.dir == r.dir && after.data_dir == r.data_dir
        }),
{
}

/// A record of a metric follows the adapter it belongs to. Where one with its LUID is there, it
/// stays; else it goes to the managed adapter that was saved under that LUID -- Ethernet before
/// Wi-Fi -- wherever an adapter of that kind matches, and to the one that matches best. What is
/// recorded stays the same.
pub proof fn a_record_follows_its_adapter(b: MetricBackup, cfg: MachineView, nics: Seq<NicView>)
    ensures
        ({
            let r = relocated(b, cfg, nics);
            let here = exists|i: int| 0 <= i < nics.len() && (#[trigger] nics[i]).luid.0 == b.luid;
            &&& r.family_v6 == b.family_v6 && r.metric == b.metric && r.automatic == b.automatic
            &&& here ==> r.luid == b.luid
            &&& !here && was(cfg.ethernet, b.luid) && somewhere(cfg.ethernet, NicKind::Ethernet, nics)
                ==> goes_to(cfg.ethernet->0, NicKind::Ethernet, nics, r.luid)
            &&& !here && !(was(cfg.ethernet, b.luid) && somewhere(
                cfg.ethernet,
                NicKind::Ethernet,
                nics,
            )) && was(cfg.wifi, b.luid) && somewhere(cfg.wifi, NicKind::Wifi, nics) ==> goes_to(
                cfg.wifi->0,
                NicKind::Wifi,
                nics,
                r.luid,
            )
            &&& !(was(cfg.ethernet, b.luid) && somewhere(cfg.ethernet, NicKind::Ethernet, nics))
                && !(was(cfg.wifi, b.luid) && somewhere(cfg.wifi, NicKind::Wifi, nics)) ==> r.luid
                == b.luid
        }),
{
    if let Some(a) = cfg.ethernet {
        the_best_match_is_found(a, Some(NicKind::Ethernet), nics);
        if let Some(i) = crate::config::resolved(cfg.ethernet, Some(NicKind::Ethernet), nics) {
            assert(matches_best(a, NicKind::Ethernet, nics, i));
        }
    }
    if let Some(a) = cfg.wifi {
        the_best_match_is_found(a, Some(NicKind::Wifi), nics);
        if let Some(i) = crate::config::resolved(cfg.wifi, Some(NicKind::Wifi), nics) {
            assert(matches_best(a, NicKind::Wifi, nics, i));
        }
    }
    assert(is_present(b.luid, nics) == exists|i: int|
        0 <= i < nics.len() && (#[trigger] nics[i]).luid.0 == b.luid);
}

/// An adapter was saved under this LUID.
pub open spec fn was(saved: Option<AdapterRefView>, luid: u64) -> bool {
    saved is Some && (saved->0).luid == luid
}

/// Some adapter of the kind matches the saved one.
pub open spec fn somewhere(
    saved: Option<AdapterRefView>,
    kind: NicKind,
    nics: Seq<NicView>,
) -> bool {
    saved is Some && exists|i: int|
        0 <= i < nics.len() && likeness(saved->0, Some(kind), #[trigger] nics[i]) > 0
}

/// The adapter at `i` matches the saved one, and none does so better.
pub open spec fn matches_best(
    saved: AdapterRefView,
    kind: NicKind,
    nics: Seq<NicView>,
    i: int,
) -> bool {
    &&& 0 <= i < nics.len() && likeness(saved, Some(kind), nics[i]) > 0
    &&& forall|j: int|
        0 <= j < nics.len() ==> likeness(saved, Some(kind), #[trigger] nics[j]) <= likeness(
            saved,
            Some(kind),
            nics[i],
        )
}

/// This is the LUID of an adapter that matches the saved one best.
pub open spec fn goes_to(
    saved: AdapterRefView,
    kind: NicKind,
    nics: Seq<NicView>,
    luid: u64,
) -> bool {
    exists|i: int| #[trigger] matches_best(saved, kind, nics, i) && nics[i].luid.0 == luid
}

/// The journal that a removal leaves is that of a finished change to automatic. It forgets the
/// bindings once they are set and those of a change that was interrupted, and it keeps every first
/// value.
pub proof fn a_closed_journal_keeps_what_is_not_done(j: JournalView, rebound: bool, now: u64)
    ensures
        ({
            let c = closed_journal(j, rebound, now);
            &&& c.mode == Mode::Auto && !c.in_flight && c.restore.len() == 0
            &&& c.finished_unix == Some(now) && c.started_unix == j.started_unix
            &&& c.last_error is None
            &&& rebound ==> c.bindings.len() == 0
            &&& !rebound && !j.in_flight ==> c.bindings == j.bindings
            &&& j.touched.is_prefix_of(c.touched)
        }),
{
    crate::apply::the_first_value_stays(j.touched, j.restore);
}

} // verus!
