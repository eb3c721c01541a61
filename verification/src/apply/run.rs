//! Applying a mode, and undoing a half-finished change, step by step.
//!
//! A run says what has to be done next and takes what came back. It decides everything; what it
//! asks for is plain reading and writing.
use vstd::prelude::*;
use vstd::string::*;

use super::exit;
use super::{
    all_ok, all_true, capture, captured, every_ok, every_true, first_kept, keep_first,
    restore_backups, restoring_all, target, ApplyReport, ReportView, Targets,
};
use crate::config::{
    binding_views, text_view, BindingBackup, BindingView, Journal, JournalView, MachineConfig,
    MachineView, MetricBackup, Mode, SCHEMA,
};
use crate::net::adapters::{nic_views, NicKind, NicView};
use crate::net::binding::{
    BindError, BindErrorView, BindOutcome, BindingState,
};
use crate::net::metric::{
    park_value, parking, steer, steering, FamilyOutcome, MetricState, MetricWrite, SteerOutcome,
    AF_INET, AF_INET6,
};
use crate::net::routes::{best_total, total_for, verdict_on, DefaultRoute, Verdict};
use crate::net::wcm::PolicyState;
use crate::net::wifi::{WifiError, WifiErrorView};
use crate::net::{LuidKey, Snapshot};
use crate::text;

verus! {

/// How long Wi-Fi may take to associate. On a known network it is usually two to four seconds;
/// fifteen covers a slow roam without making a failure feel like a hang.
pub const WIFI_TIMEOUT_MS: u64 = 15_000;

/// How long the routing table is given to follow a metric write.
pub const SETTLE_MS: u64 = 400;

/// One metric to read.
#[derive(Debug, Clone, Copy, PartialEq, Eq, Structural)]
pub struct MetricKey {
    pub luid: LuidKey,
    pub family: u16,
}

/// What has to be done outside before a run can go on.
#[derive(Debug)]
pub enum Action<'a> {
    /// Undo what an interrupted run left behind, with a [`RecoverRun`].
    Recover,
    /// Load the machine configuration.
    LoadMachine,
    /// Save the machine configuration.
    SaveMachine(&'a MachineConfig),
    /// Load the journal.
    LoadJournal,
    /// Save the journal.
    SaveJournal(&'a Journal),
    /// Read the machine's networking state.
    ReadSnapshot,
    /// Read the effective connection policy.
    ReadPolicy,
    /// Have Wi-Fi associated within [`WIFI_TIMEOUT_MS`]; the profile is the preferred one.
    ConnectWifi(&'a Option<String>),
    /// Read which IP protocols are bound to the adapter with this GUID.
    ReadBinding(&'a String),
    /// Set the IP bindings of one adapter.
    SetBinding(&'a String, BindingState),
    /// Set the IP bindings of every adapter of the list to exactly what is recorded, in order.
    WriteBindings(&'a Vec<BindingBackup>),
    /// Read these metrics.
    ReadMetrics(Vec<MetricKey>),
    /// Write these metrics, in order.
    WriteMetrics(Vec<MetricWrite>),
    /// Wait so many milliseconds.
    Pause(u64),
    /// Look for bridges on the adapter with this GUID.
    FindBridges(&'a String),
    /// Nothing: the run is over.
    Nothing,
}

/// What has to be done, as plain values.
pub enum ActionView {
    Recover,
    LoadMachine,
    SaveMachine(MachineView),
    LoadJournal,
    SaveJournal(JournalView),
    ReadSnapshot,
    ReadPolicy,
    ConnectWifi(Option<Seq<char>>),
    ReadBinding(Seq<char>),
    SetBinding(Seq<char>, BindingState),
    WriteBindings(Seq<BindingView>),
    ReadMetrics(Seq<MetricKey>),
    WriteMetrics(Seq<MetricWrite>),
    Pause(u64),
    FindBridges(Seq<char>),
    Nothing,
}

impl<'a> View for Action<'a> {
    type V = ActionView;

    open spec fn view(&self) -> ActionView {
        match self {
            Action::Recover => ActionView::Recover,
            Action::LoadMachine => ActionView::LoadMachine,
            Action::SaveMachine(c) => ActionView::SaveMachine(c@),
            Action::LoadJournal => ActionView::LoadJournal,
            Action::SaveJournal(j) => ActionView::SaveJournal(j@),
            Action::ReadSnapshot => ActionView::ReadSnapshot,
            Action::ReadPolicy => ActionView::ReadPolicy,
            Action::ConnectWifi(p) => ActionView::ConnectWifi(text_view(**p)),
            Action::ReadBinding(g) => ActionView::ReadBinding(g@),
            Action::SetBinding(g, b) => ActionView::SetBinding(g@, *b),
            Action::WriteBindings(v) => ActionView::WriteBindings(binding_views(v@)),
            Action::ReadMetrics(v) => ActionView::ReadMetrics(v@),
            Action::WriteMetrics(v) => ActionView::WriteMetrics(v@),
            Action::Pause(ms) => ActionView::Pause(*ms),
            Action::FindBridges(g) => ActionView::FindBridges(g@),
            Action::Nothing => ActionView::Nothing,
        }
    }
}

/// What came back.
#[derive(Debug)]
pub enum Event {
    /// What was asked for is done, or at least tried: saving, recovering, pausing.
    Done,
    Machine(MachineConfig),
    Journal(Journal),
    Snapshot(Snapshot),
    Policy(PolicyState),
    Wifi(Result<String, WifiError>),
    Binding(Result<BindingState, BindError>),
    BindingSet(Result<BindOutcome, BindError>),
    /// For every adapter of the list, whether its bindings were set.
    Bindings(Vec<bool>),
    /// For every metric that was asked for, what it is, if it could be read.
    MetricsRead(Vec<Option<MetricState>>),
    /// For every metric that was to be written, what came of it.
    MetricsWritten(Vec<FamilyOutcome>),
    /// What there is to warn about, if there are bridges.
    Bridges(Option<String>),
}

/// What came back, as plain values.
pub enum EventView {
    Done,
    Machine(MachineView),
    Journal(JournalView),
    Snapshot { nics: Seq<NicView>, routes: Seq<DefaultRoute> },
    Policy(PolicyState),
    Wifi(Result<Seq<char>, WifiErrorView>),
    Binding(Result<BindingState, BindErrorView>),
    BindingSet(Result<BindOutcome, BindErrorView>),
    Bindings(Seq<bool>),
    MetricsRead(Seq<Option<MetricState>>),
    MetricsWritten(Seq<FamilyOutcome>),
    Bridges(Option<Seq<char>>),
}

impl View for Event {
    type V = EventView;

    open spec fn view(&self) -> EventView {
        match self {
            Event::Done => EventView::Done,
            Event::Machine(c) => EventView::Machine(c@),
            Event::Journal(j) => EventView::Journal(j@),
            Event::Snapshot(s) => EventView::Snapshot {
                nics: nic_views(s.nics@),
                routes: s.routes@,
            },
            Event::Policy(p) => EventView::Policy(*p),
            Event::Wifi(Ok(p)) => EventView::Wifi(Ok(p@)),
            Event::Wifi(Err(e)) => EventView::Wifi(Err(e@)),
            Event::Binding(Ok(b)) => EventView::Binding(Ok(*b)),
            Event::Binding(Err(e)) => EventView::Binding(Err(e@)),
            Event::BindingSet(Ok(o)) => EventView::BindingSet(Ok(*o)),
            Event::BindingSet(Err(e)) => EventView::BindingSet(Err(e@)),
            Event::Bindings(v) => EventView::Bindings(v@),
            Event::MetricsRead(v) => EventView::MetricsRead(v@),
            Event::MetricsWritten(v) => EventView::MetricsWritten(v@),
            Event::Bridges(w) => EventView::Bridges(text_view(*w)),
        }
    }
}

// --- recovery ----------------------------------------------------------------------------

#[derive(Debug, Clone, Copy, PartialEq, Eq, Structural)]
pub enum RecoverStage {
    Loading,
    /// Bindings first: a metric is meaningless on an interface with no IP stack.
    Rebinding,
    Rewriting,
    Saving,
    Finished,
}

/// Undoing a half-finished change left by a worker that was killed mid-apply.
#[derive(Debug)]
pub struct RecoverRun {
    pub stage: RecoverStage,
    pub journal: Journal,
    /// Whether every binding could be put back.
    pub rebound: bool,
}

#[verifier::ext_equal]
pub struct RecoverView {
    pub stage: RecoverStage,
    pub journal: JournalView,
    pub rebound: bool,
}

impl View for RecoverRun {
    type V = RecoverView;

    open spec fn view(&self) -> RecoverView {
        RecoverView { stage: self.stage, journal: self.journal@, rebound: self.rebound }
    }
}

/// What a recovery does at each stage.
pub open spec fn recover_asks(r: RecoverView) -> ActionView {
    match r.stage {
        RecoverStage::Loading => ActionView::LoadJournal,
        RecoverStage::Rebinding => ActionView::WriteBindings(r.journal.bindings),
        RecoverStage::Rewriting => ActionView::WriteMetrics(restoring_all(r.journal.restore)),
        RecoverStage::Saving => ActionView::SaveJournal(r.journal),
        RecoverStage::Finished => ActionView::Nothing,
    }
}

/// The journal after a recovery: closed, with nothing left to restore.
pub open spec fn recovered_journal(j: JournalView, ok: bool, now: u64) -> JournalView {
    JournalView {
        in_flight: false,
        finished_unix: Some(now),
        last_error: Some(
            if ok {
                "recovered from an interrupted apply"@
            } else {
                "recovery from an interrupted apply was incomplete"@
            },
        ),
        restore: Seq::empty(),
        bindings: Seq::empty(),
        ..j
    }
}

/// The next state of a recovery. What it is not waiting for leaves it where it is.
pub open spec fn recover_step(r: RecoverView, e: EventView, now: u64) -> RecoverView {
    match (r.stage, e) {
        (RecoverStage::Loading, EventView::Journal(j)) => RecoverView {
            journal: j,
            stage: if j.torn() {
                RecoverStage::Rebinding
            } else {
                RecoverStage::Finished
            },
            ..r
        },
        (RecoverStage::Rebinding, EventView::Bindings(v)) => RecoverView {
            rebound: all_true(v),
            stage: RecoverStage::Rewriting,
            ..r
        },
        (RecoverStage::Rewriting, EventView::MetricsWritten(v)) => RecoverView {
            journal: recovered_journal(r.journal, r.rebound && all_ok(v), now),
            stage: RecoverStage::Saving,
            ..r
        },
        (RecoverStage::Saving, EventView::Done) => RecoverView {
            stage: RecoverStage::Finished,
            ..r
        },
        _ => r,
    }
}

/// Undo a half-finished change, if there is one: the start of the run.
pub fn recover_if_torn() -> (r: RecoverRun)
    ensures
        r@.stage is Loading,
{
    RecoverRun { stage: RecoverStage::Loading, journal: Journal::default(), rebound: false }
}

impl RecoverRun {
    /// What has to be done now.
    pub fn action(&self) -> (r: Action<'_>)
        ensures
            r@ == recover_asks(self@),
    {
        match self.stage {
            RecoverStage::Loading => Action::LoadJournal,
            RecoverStage::Rebinding => Action::WriteBindings(&self.journal.bindings),
            RecoverStage::Rewriting => Action::WriteMetrics(restore_backups(&self.journal.restore)),
            RecoverStage::Saving => Action::SaveJournal(&self.journal),
            RecoverStage::Finished => Action::Nothing,
        }
    }

    /// Go on with what came back; `now` is the time, in seconds since 1970.
    pub fn step(&mut self, event: Event, now: u64)
        ensures
            final(self)@ == recover_step(old(self)@, event@, now),
    {
        match (self.stage, event) {
            (RecoverStage::Loading, Event::Journal(j)) => {
                self.stage = if j.is_torn() {
                    RecoverStage::Rebinding
                } else {
                    RecoverStage::Finished
                };
                self.journal = j;
            },
            (RecoverStage::Rebinding, Event::Bindings(v)) => {
                self.rebound = every_true(&v);
                self.stage = RecoverStage::Rewriting;
            },
            (RecoverStage::Rewriting, Event::MetricsWritten(v)) => {
                let ok = self.rebound && every_ok(&v);
                self.journal.in_flight = false;
                self.journal.finished_unix = Some(now);
                self.journal.last_error = Some(
                    if ok {
                        "recovered from an interrupted apply".to_owned()
                    } else {
                        "recovery from an interrupted apply was incomplete".to_owned()
                    },
                );
                self.journal.restore = Vec::new();
                self.journal.bindings = Vec::new();
                self.stage = RecoverStage::Saving;
                assert(self.journal@.bindings =~= Seq::empty());
                assert(self.journal@.restore =~= Seq::empty());
            },
            (RecoverStage::Saving, Event::Done) => {
                self.stage = RecoverStage::Finished;
            },
            _ => {},
        }
    }
}

// --- applying a mode ---------------------------------------------------------------------

/// What a run is waiting for.
#[derive(Debug, Clone, Copy, PartialEq, Eq, Structural)]
pub enum Stage {
    /// The recovery of an interrupted run.
    Recovering,
    LoadingMachine,
    ReadingAdapters,
    /// The previous journal: it holds what every metric was first, and leaving "Wi-Fi only" must
    /// reattach the IP stack before anything else.
    LoadingJournal,
    Reattaching,
    SavingReattached,
    ReadingPolicy,
    ConnectingWifi,
    /// The routes after Wi-Fi was associated.
    ReadingRoutes,
    ReadingBinding,
    /// The metrics as they are before anything is changed.
    ReadingMetrics,
    /// The journal, before anything is changed.
    OpeningJournal,
    WritingMetrics,
    Detaching,
    /// Bindings being put back after a failed detachment.
    RestoringBindings,
    /// Whether Ethernet wins on automatic metrics.
    CheckingEthernet,
    ParkingWifi,
    Settling,
    Verifying,
    /// Metrics being put back after a failed change.
    RestoringMetrics,
    ClosingJournal,
    LoadingHint,
    SavingHint,
    LookingForBridges,
    Finished,
}

/// What a run has to know of an adapter that it changes.
#[derive(Debug)]
pub struct Link {
    pub luid: LuidKey,
    pub guid: String,
    pub media_connected: bool,
}

#[verifier::ext_equal]
pub struct LinkView {
    pub luid: LuidKey,
    pub guid: Seq<char>,
    pub media_connected: bool,
}

/// Applying one mode. This is the whole product.
#[derive(Debug)]
pub struct ApplyRun {
    pub stage: Stage,
    pub mode: Mode,
    pub cfg: MachineConfig,
    pub eth: Link,
    pub wifi: LuidKey,
    /// The Wi-Fi profile that is connected, where Wi-Fi was asked for.
    pub profile: String,
    /// The metric Ethernet is parked at, or none.
    pub park: u32,
    /// Ethernet's bindings before they were detached.
    pub bound: BindingState,
    /// The metrics before they were changed.
    pub backups: Vec<MetricBackup>,
    pub journal: Journal,
    /// Whether the closed journal carries the time it was finished.
    pub stamped: bool,
    pub needs_reboot: bool,
    pub report: ApplyReport,
}

#[verifier::ext_equal]
pub struct RunView {
    pub stage: Stage,
    pub mode: Mode,
    pub cfg: MachineView,
    pub eth: LinkView,
    pub wifi: LuidKey,
    pub profile: Seq<char>,
    pub park: u32,
    pub bound: BindingState,
    pub backups: Seq<MetricBackup>,
    pub journal: JournalView,
    pub stamped: bool,
    pub needs_reboot: bool,
    pub report: ReportView,
}

impl View for Link {
    type V = LinkView;

    open spec fn view(&self) -> LinkView {
        LinkView { luid: self.luid, guid: self.guid@, media_connected: self.media_connected }
    }
}

impl View for ApplyRun {
    type V = RunView;

    open spec fn view(&self) -> RunView {
        RunView {
            stage: self.stage,
            mode: self.mode,
            cfg: self.cfg@,
            eth: self.eth@,
            wifi: self.wifi,
            profile: self.profile@,
            park: self.park,
            bound: self.bound,
            backups: self.backups@,
            journal: self.journal@,
            stamped: self.stamped,
            needs_reboot: self.needs_reboot,
            report: self.report@,
        }
    }
}

/// The two metrics of one interface.
pub open spec fn keys_of(luid: LuidKey) -> Seq<MetricKey> {
    seq![MetricKey { luid, family: AF_INET }, MetricKey { luid, family: AF_INET6 }]
}

/// The metrics a run records before it changes anything: those of both interfaces, since every mode
/// writes some of each.
pub open spec fn keys_for(r: RunView) -> Seq<MetricKey> {
    keys_of(r.eth.luid) + keys_of(r.wifi)
}

/// The backups of both interfaces, from what their four metrics were.
pub open spec fn captured_both(eth: LuidKey, wifi: LuidKey, m: Seq<Option<MetricState>>) -> Seq<
    MetricBackup,
> {
    captured(eth, m[0], m[1]) + captured(wifi, m[2], m[3])
}

/// The metrics a mode writes. Wi-Fi goes back to its automatic metric and Ethernet is parked above
/// it; or, where Ethernet loses its IP stack outright, there is none left on it to park; or both
/// go back to automatic.
pub open spec fn writes_for(r: RunView) -> Seq<MetricWrite> {
    match r.mode {
        Mode::Wifi => steering(r.wifi, None) + steering(r.eth.luid, Some(r.park)),
        Mode::WifiOnly => steering(r.wifi, None),
        Mode::Ethernet | Mode::Auto => steering(r.eth.luid, None) + steering(r.wifi, None),
    }
}

/// What a run does at each stage.
pub open spec fn asks(r: RunView) -> ActionView {
    match r.stage {
        Stage::Recovering => ActionView::Recover,
        Stage::LoadingMachine => ActionView::LoadMachine,
        Stage::ReadingAdapters => ActionView::ReadSnapshot,
        Stage::LoadingJournal => ActionView::LoadJournal,
        Stage::Reattaching => ActionView::WriteBindings(r.journal.bindings),
        Stage::SavingReattached => ActionView::SaveJournal(r.journal),
        Stage::ReadingPolicy => ActionView::ReadPolicy,
        Stage::ConnectingWifi => ActionView::ConnectWifi(r.cfg.wifi_profile_hint),
        Stage::ReadingRoutes => ActionView::ReadSnapshot,
        Stage::ReadingBinding => ActionView::ReadBinding(r.eth.guid),
        Stage::ReadingMetrics => ActionView::ReadMetrics(keys_for(r)),
        Stage::OpeningJournal => ActionView::SaveJournal(r.journal),
        Stage::WritingMetrics => ActionView::WriteMetrics(writes_for(r)),
        Stage::Detaching => ActionView::SetBinding(
            r.eth.guid,
            BindingState { v4: false, v6: false },
        ),
        Stage::RestoringBindings => ActionView::WriteBindings(r.journal.bindings),
        Stage::CheckingEthernet => ActionView::ReadSnapshot,
        Stage::ParkingWifi => ActionView::WriteMetrics(steering(r.wifi, Some(r.park))),
        Stage::Settling => ActionView::Pause(SETTLE_MS),
        Stage::Verifying => ActionView::ReadSnapshot,
        Stage::RestoringMetrics => ActionView::WriteMetrics(restoring_all(r.backups)),
        Stage::ClosingJournal => ActionView::SaveJournal(r.journal),
        Stage::LoadingHint => ActionView::LoadMachine,
        Stage::SavingHint => ActionView::SaveMachine(r.cfg),
        Stage::LookingForBridges => ActionView::FindBridges(r.eth.guid),
        Stage::Finished => ActionView::Nothing,
    }
}

// What happens at each stage.

pub open spec fn at(r: RunView, stage: Stage) -> RunView {
    RunView { stage, ..r }
}

/// The run ends here, with nothing changed by it.
pub open spec fn refused(r: RunView, code: u32, message: Seq<char>) -> RunView {
    RunView {
        stage: Stage::Finished,
        report: ApplyReport::failed(r.mode, code, message),
        ..r
    }
}

/// Both links are found, or the run ends.
pub open spec fn with_adapters(r: RunView, nics: Seq<NicView>) -> RunView {
    match (
        target(r.cfg.ethernet, NicKind::Ethernet, nics),
        target(r.cfg.wifi, NicKind::Wifi, nics),
    ) {
        (None, _) => refused(
            r,
            exit::NOT_CONFIGURED,
            "No Ethernet adapter is available on this machine."@,
        ),
        (_, None) => refused(
            r,
            exit::NOT_CONFIGURED,
            "No Wi-Fi adapter is available on this machine."@,
        ),
        (Some(e), Some(w)) => RunView {
            eth: LinkView {
                luid: nics[e].luid,
                guid: nics[e].adapter_name,
                media_connected: nics[e].media_connected,
            },
            wifi: nics[w].luid,
            stage: Stage::LoadingJournal,
            ..r
        },
    }
}

/// The mode itself begins.
pub open spec fn begun(r: RunView) -> RunView {
    match r.mode {
        Mode::Wifi | Mode::WifiOnly => at(r, Stage::ReadingPolicy),
        Mode::Ethernet => if r.eth.media_connected {
            at(r, Stage::ReadingMetrics)
        } else {
            refused(
                r,
                exit::NOT_CONFIGURED,
                "The Ethernet cable is not connected, so there is nothing to switch to."@,
            )
        },
        Mode::Auto => at(r, Stage::ReadingMetrics),
    }
}

/// An IP stack that a previous run detached is reattached first, unless it is to be detached: a
/// metric on an interface that has none is a no-op.
pub open spec fn with_previous(r: RunView, j: JournalView) -> RunView {
    let held = RunView { journal: j, ..r };
    if r.mode != Mode::WifiOnly && j.bindings.len() > 0 {
        at(held, Stage::Reattaching)
    } else {
        begun(held)
    }
}

pub open spec fn reattached(r: RunView, oks: Seq<bool>) -> RunView {
    if all_true(oks) {
        RunView {
            journal: JournalView { bindings: Seq::empty(), ..r.journal },
            stage: Stage::SavingReattached,
            ..r
        }
    } else {
        refused(
            r,
            exit::BINDING_FAILED,
            "Could not reattach Ethernet's IP stack. Run `linkswitch --recover`."@,
        )
    }
}

/// A policy that blocks even a manual association leaves nothing to do but say so.
pub open spec fn with_policy(r: RunView, p: PolicyState) -> RunView {
    if p.policy is PreventWifi {
        refused(
            r,
            exit::BLOCKED_BY_POLICY,
            p.policy.words() + ". LinkSwitch cannot switch to Wi-Fi on this machine."@,
        )
    } else {
        at(r, Stage::ConnectingWifi)
    }
}

pub open spec fn with_wifi(r: RunView, w: Result<Seq<char>, WifiErrorView>) -> RunView {
    match w {
        Ok(profile) => RunView { profile, stage: Stage::ReadingRoutes, ..r },
        Err(e) => refused(r, exit::WIFI_UNAVAILABLE, e.message()),
    }
}

/// Wi-Fi is up; it also needs a default route before Ethernet is given up.
pub open spec fn with_routes(r: RunView, routes: Seq<DefaultRoute>) -> RunView {
    match best_total(routes, r.wifi) {
        None => refused(
            r,
            exit::WIFI_UNAVAILABLE,
            "Wi-Fi is connected but has no default route yet. Try again in a moment."@,
        ),
        Some(total) => if r.mode == Mode::WifiOnly {
            at(r, Stage::ReadingBinding)
        } else {
            RunView {
                park: parking(r.cfg.park_metric, Some(total)) as u32,
                stage: Stage::ReadingMetrics,
                ..r
            }
        },
    }
}

pub open spec fn with_binding(r: RunView, b: Result<BindingState, BindErrorView>) -> RunView {
    match b {
        Err(e) => refused(r, exit::BINDING_FAILED, e.message()),
        Ok(b) => if b.v4 || b.v6 {
            RunView { bound: b, stage: Stage::ReadingMetrics, ..r }
        } else {
            refused(r, exit::BINDING_FAILED, "Ethernet already has no IP stack attached."@)
        },
    }
}

/// What every metric was first, once some more are about to be changed: what the previous journal
/// says, and for those it does not mention, what they are now.
pub open spec fn first_values(j: JournalView, backups: Seq<MetricBackup>) -> Seq<MetricBackup> {
    first_kept(first_kept(j.touched, j.restore), backups)
}

/// The metrics before anything is changed, and the journal that records them.
pub open spec fn with_metrics(r: RunView, m: Seq<Option<MetricState>>, now: u64) -> RunView {
    if m.len() != keys_for(r).len() {
        r
    } else {
        let backups = captured_both(r.eth.luid, r.wifi, m);
        RunView {
            backups,
            journal: JournalView {
                schema: SCHEMA,
                mode: r.mode,
                in_flight: true,
                started_unix: now,
                finished_unix: None,
                restore: backups,
                bindings: if r.mode == Mode::WifiOnly {
                    seq![BindingView { guid: r.eth.guid, v4: r.bound.v4, v6: r.bound.v6 }]
                } else {
                    Seq::empty()
                },
                touched: first_values(r.journal, backups),
                last_error: None,
            },
            stage: Stage::OpeningJournal,
            ..r
        }
    }
}

/// A change that could not be made: everything is put back, and the journal will say why.
pub open spec fn undoing(
    r: RunView,
    code: u32,
    message: Seq<char>,
    reason: Seq<char>,
    stamped: bool,
) -> RunView {
    RunView {
        journal: JournalView { last_error: Some(reason), ..r.journal },
        stamped,
        report: ApplyReport::failed(r.mode, code, message),
        stage: Stage::RestoringMetrics,
        ..r
    }
}

/// The first interface that was steered, and the second.
pub open spec fn steered(v: Seq<FamilyOutcome>, i: int) -> SteerOutcome {
    SteerOutcome { v4: v[2 * i], v6: v[2 * i + 1] }
}

pub open spec fn with_writes(r: RunView, v: Seq<FamilyOutcome>, now: u64) -> RunView {
    if v.len() != writes_for(r).len() {
        r
    } else {
        match r.mode {
            Mode::Wifi => {
                let eth = steered(v, 1);
                if eth.ok() {
                    at(r, Stage::Settling)
                } else {
                    undoing(
                        r,
                        exit::WRITE_FAILED,
                        "Could not change the Ethernet metric: "@ + eth.words(),
                        eth.words(),
                        true,
                    )
                }
            },
            Mode::WifiOnly => at(r, Stage::Detaching),
            Mode::Ethernet => {
                let eth = steered(v, 0);
                if eth.ok() {
                    at(r, Stage::CheckingEthernet)
                } else {
                    undoing(
                        r,
                        exit::WRITE_FAILED,
                        "Could not restore the Ethernet metric: "@ + eth.words(),
                        eth.words(),
                        false,
                    )
                }
            },
            Mode::Auto => {
                let eth = steered(v, 0);
                let wifi = steered(v, 1);
                let ok = eth.ok() && wifi.ok();
                RunView {
                    journal: JournalView {
                        in_flight: false,
                        restore: Seq::empty(),
                        finished_unix: Some(now),
                        ..r.journal
                    },
                    report: ReportView {
                        mode: r.mode,
                        ok,
                        exit_code: if ok {
                            exit::OK
                        } else {
                            exit::WRITE_FAILED
                        },
                        message: if ok {
                            "Both adapters are back on Windows' automatic metrics."@
                        } else {
                            "Could not fully restore automatic metrics."@
                        },
                        details: seq![eth.words(), wifi.words()],
                    },
                    stage: Stage::ClosingJournal,
                    ..r
                }
            },
        }
    }
}

pub open spec fn with_detached(
    r: RunView,
    o: Result<BindOutcome, BindErrorView>,
    now: u64,
) -> RunView {
    match o {
        Err(e) => RunView {
            journal: JournalView { last_error: Some(e.message()), ..r.journal },
            stamped: true,
            report: ApplyReport::failed(r.mode, exit::BINDING_FAILED, e.message()),
            stage: Stage::RestoringBindings,
            ..r
        },
        Ok(o) => RunView {
            journal: JournalView {
                in_flight: false,
                finished_unix: Some(now),
                ..r.journal
            },
            needs_reboot: o.needs_reboot,
            report: ReportView {
                mode: r.mode,
                ok: true,
                exit_code: exit::OK,
                message: "Ethernet's IP stack is detached. The cable is still plugged in and the adapter is still enabled."@,
                details: seq!["Ethernet has no IP address, routes or DNS servers."@],
            },
            stage: Stage::ClosingJournal,
            ..r
        },
    }
}

/// If Ethernet does not win on automatic metrics -- an unusual machine -- Wi-Fi is parked instead
/// of silently doing nothing.
pub open spec fn ethernet_checked(r: RunView, routes: Seq<DefaultRoute>) -> RunView {
    if verdict_on(routes, Some(r.eth.luid), Some(r.wifi)) is Ethernet {
        at(r, Stage::Settling)
    } else {
        match best_total(routes, r.eth.luid) {
            None => at(r, Stage::Settling),
            Some(total) => RunView {
                park: parking(r.cfg.park_metric, Some(total)) as u32,
                stage: Stage::ParkingWifi,
                ..r
            },
        }
    }
}

/// The report of a change that is in place, for the link that was to win.
pub open spec fn confirmed(r: RunView, routes: Seq<DefaultRoute>) -> ReportView {
    let want = if r.mode == Mode::Ethernet {
        r.eth.luid
    } else {
        r.wifi
    };
    let verdict = verdict_on(routes, Some(want), None);
    let parked: Seq<Seq<char>> = if r.mode == Mode::Wifi && r.park > 0 {
        seq!["Ethernet parked at metric "@ + text::dec(r.park as nat)]
    } else {
        Seq::empty()
    };
    ReportView {
        mode: r.mode,
        ok: true,
        exit_code: exit::OK,
        message: match verdict {
            Verdict::Ethernet { .. } | Verdict::Wifi { .. } => match r.mode {
                Mode::Wifi => "Traffic now goes over Wi-Fi. Ethernet stays connected."@,
                Mode::Ethernet => "Traffic now goes over Ethernet."@,
                Mode::WifiOnly => "Ethernet's IP stack is detached."@,
                Mode::Auto => "Automatic metrics restored."@,
            },
            Verdict::Hijacked { .. } => if r.mode == Mode::Wifi {
                "Ethernet is parked; your VPN tunnel now runs over Wi-Fi for new connections."@
            } else {
                "Applied. A VPN is still carrying all traffic."@
            },
            Verdict::NoRoute => "Applied, but no default route is present yet."@,
        },
        details: match verdict {
            Verdict::Hijacked { if_index, .. } => parked.push(
                "A VPN or tunnel on interface "@ + text::dec(if_index as nat)
                    + " is carrying all traffic."@,
            ),
            _ => parked,
        },
    }
}

/// If nothing at all can reach the internet now, everything is put back. A VPN holding the default
/// route counts as connectivity. Otherwise the journal is closed and keeps what it captured.
pub open spec fn verified(r: RunView, routes: Seq<DefaultRoute>, now: u64) -> RunView {
    if routes.len() == 0 {
        undoing(
            r,
            exit::VERIFY_FAILED,
            "The change left this machine with no network route, so it was undone."@,
            "no default route after the change; reverted"@,
            true,
        )
    } else {
        RunView {
            journal: JournalView {
                in_flight: false,
                finished_unix: Some(now),
                restore: r.backups,
                ..r.journal
            },
            report: confirmed(r, routes),
            stage: Stage::ClosingJournal,
            ..r
        }
    }
}

/// Everything is back as it was.
pub open spec fn metrics_restored(r: RunView, now: u64) -> RunView {
    RunView {
        journal: JournalView {
            in_flight: false,
            restore: Seq::empty(),
            bindings: Seq::empty(),
            finished_unix: if r.stamped {
                Some(now)
            } else {
                r.journal.finished_unix
            },
            ..r.journal
        },
        stage: Stage::ClosingJournal,
        ..r
    }
}

/// After the Wi-Fi profile has been seen to.
pub open spec fn hinted(r: RunView) -> RunView {
    if r.mode == Mode::WifiOnly {
        at(r, Stage::LookingForBridges)
    } else {
        at(r, Stage::Finished)
    }
}

/// The journal is closed. A profile that was connected is remembered, so that a later unattended
/// switch reconnects the right network.
pub open spec fn closed(r: RunView) -> RunView {
    if !r.report.ok {
        at(r, Stage::Finished)
    } else if r.profile.len() > 0 {
        at(r, Stage::LoadingHint)
    } else {
        hinted(r)
    }
}

pub open spec fn with_hint(r: RunView, c: MachineView) -> RunView {
    if c.wifi_profile_hint == Some(r.profile) {
        hinted(r)
    } else {
        RunView {
            cfg: MachineView { wifi_profile_hint: Some(r.profile), ..c },
            stage: Stage::SavingHint,
            ..r
        }
    }
}

/// Detaching silences the IP stack, not the wire; the report says so.
pub open spec fn with_bridges(r: RunView, warning: Option<Seq<char>>) -> RunView {
    let warned = match warning {
        Some(w) => r.report.details.push(w),
        None => r.report.details,
    };
    RunView {
        report: ReportView {
            details: if r.needs_reboot {
                warned.push("Windows asked for a reboot to finish applying this."@)
            } else {
                warned
            },
            ..r.report
        },
        stage: Stage::Finished,
        ..r
    }
}

/// The next state of a run. What a run is not waiting for leaves it where it is.
pub open spec fn next(r: RunView, e: EventView, now: u64) -> RunView {
    match (r.stage, e) {
        (Stage::Recovering, EventView::Done) => at(r, Stage::LoadingMachine),
        (Stage::LoadingMachine, EventView::Machine(c)) => RunView {
            cfg: c,
            stage: Stage::ReadingAdapters,
            ..r
        },
        (Stage::ReadingAdapters, EventView::Snapshot { nics, .. }) => with_adapters(r, nics),
        (Stage::LoadingJournal, EventView::Journal(j)) => with_previous(r, j),
        (Stage::Reattaching, EventView::Bindings(oks)) => reattached(r, oks),
        (Stage::SavingReattached, EventView::Done) => begun(r),
        (Stage::ReadingPolicy, EventView::Policy(p)) => with_policy(r, p),
        (Stage::ConnectingWifi, EventView::Wifi(w)) => with_wifi(r, w),
        (Stage::ReadingRoutes, EventView::Snapshot { routes, .. }) => with_routes(r, routes),
        (Stage::ReadingBinding, EventView::Binding(b)) => with_binding(r, b),
        (Stage::ReadingMetrics, EventView::MetricsRead(m)) => with_metrics(r, m, now),
        (Stage::OpeningJournal, EventView::Done) => at(r, Stage::WritingMetrics),
        (Stage::WritingMetrics, EventView::MetricsWritten(v)) => with_writes(r, v, now),
        (Stage::Detaching, EventView::BindingSet(o)) => with_detached(r, o, now),
        (Stage::RestoringBindings, EventView::Bindings(_)) => at(r, Stage::RestoringMetrics),
        (Stage::CheckingEthernet, EventView::Snapshot { routes, .. }) => ethernet_checked(
            r,
            routes,
        ),
        (Stage::ParkingWifi, EventView::MetricsWritten(_)) => at(r, Stage::Settling),
        (Stage::Settling, EventView::Done) => at(r, Stage::Verifying),
        (Stage::Verifying, EventView::Snapshot { routes, .. }) => verified(r, routes, now),
        (Stage::RestoringMetrics, EventView::MetricsWritten(_)) => metrics_restored(r, now),
        (Stage::ClosingJournal, EventView::Done) => closed(r),
        (Stage::LoadingHint, EventView::Machine(c)) => with_hint(r, c),
        (Stage::SavingHint, EventView::Done) => hinted(r),
        (Stage::LookingForBridges, EventView::Bridges(w)) => with_bridges(r, w),
        _ => r,
    }
}

// --- the steps ---------------------------------------------------------------------------

fn copied(backups: &Vec<MetricBackup>) -> (r: Vec<MetricBackup>)
    ensures
        r@ == backups@,
{
    let mut out: Vec<MetricBackup> = Vec::new();
    let mut i: usize = 0;
    while i < backups.len()
        invariant
            i <= backups.len(),
            out@ == backups@.take(i as int),
        decreases backups.len() - i,
    {
        out.push(backups[i]);
        i = i + 1;
        assert(out@ =~= backups@.take(i as int));
    }
    assert(backups@.take(i as int) =~= backups@);
    out
}

fn push_keys(out: &mut Vec<MetricKey>, luid: LuidKey)
    ensures
        final(out)@ == old(out)@ + keys_of(luid),
{
    out.push(MetricKey { luid, family: AF_INET });
    out.push(MetricKey { luid, family: AF_INET6 });
    assert(out@ =~= old(out)@ + keys_of(luid));
}

fn push_steering(out: &mut Vec<MetricWrite>, luid: LuidKey, target: Option<u32>)
    ensures
        final(out)@ == old(out)@ + steering(luid, target),
{
    let mut more = steer(luid, target);
    out.append(&mut more);
}

/// The start of a run. Without administrator rights it is over before it begins.
pub open spec fn started(mode: Mode, elevated: bool) -> (Stage, ReportView) {
    (
        if elevated {
            Stage::Recovering
        } else {
            Stage::Finished
        },
        ApplyReport::failed(
            mode,
            exit::NOT_ELEVATED,
            "LinkSwitch needs administrator rights to change a network metric."@,
        ),
    )
}

/// Apply a mode: the start of the run.
pub fn apply(mode: Mode, elevated: bool) -> (r: ApplyRun)
    ensures
        (r@.stage, r@.report) == started(mode, elevated),
        r@.mode == mode,
        r@.profile.len() == 0,
        r@.park == 0,
{
    let profile = String::new();
    ApplyRun {
        stage: if elevated {
            Stage::Recovering
        } else {
            Stage::Finished
        },
        mode,
        cfg: MachineConfig::default(),
        eth: Link { luid: LuidKey(0), guid: String::new(), media_connected: false },
        wifi: LuidKey(0),
        profile,
        park: 0,
        bound: BindingState { v4: false, v6: false },
        backups: Vec::new(),
        journal: Journal::default(),
        stamped: false,
        needs_reboot: false,
        report: ApplyReport::fail(
            mode,
            exit::NOT_ELEVATED,
            "LinkSwitch needs administrator rights to change a network metric.".to_owned(),
        ),
    }
}

impl ApplyRun {
    /// What has to be done now.
    pub fn action(&self) -> (r: Action<'_>)
        ensures
            r@ == asks(self@),
    {
        match self.stage {
            Stage::Recovering => Action::Recover,
            Stage::LoadingMachine => Action::LoadMachine,
            Stage::ReadingAdapters => Action::ReadSnapshot,
            Stage::LoadingJournal => Action::LoadJournal,
            Stage::Reattaching => Action::WriteBindings(&self.journal.bindings),
            Stage::SavingReattached => Action::SaveJournal(&self.journal),
            Stage::ReadingPolicy => Action::ReadPolicy,
            Stage::ConnectingWifi => Action::ConnectWifi(&self.cfg.wifi_profile_hint),
            Stage::ReadingRoutes => Action::ReadSnapshot,
            Stage::ReadingBinding => Action::ReadBinding(&self.eth.guid),
            Stage::ReadingMetrics => Action::ReadMetrics(self.keys()),
            Stage::OpeningJournal => Action::SaveJournal(&self.journal),
            Stage::WritingMetrics => Action::WriteMetrics(self.writes()),
            Stage::Detaching => Action::SetBinding(
                &self.eth.guid,
                BindingState { v4: false, v6: false },
            ),
            Stage::RestoringBindings => Action::WriteBindings(&self.journal.bindings),
            Stage::CheckingEthernet => Action::ReadSnapshot,
            Stage::ParkingWifi => Action::WriteMetrics(steer(self.wifi, Some(self.park))),
            Stage::Settling => Action::Pause(SETTLE_MS),
            Stage::Verifying => Action::ReadSnapshot,
            Stage::RestoringMetrics => Action::WriteMetrics(restore_backups(&self.backups)),
            Stage::ClosingJournal => Action::SaveJournal(&self.journal),
            Stage::LoadingHint => Action::LoadMachine,
            Stage::SavingHint => Action::SaveMachine(&self.cfg),
            Stage::LookingForBridges => Action::FindBridges(&self.eth.guid),
            Stage::Finished => Action::Nothing,
        }
    }

    fn keys(&self) -> (r: Vec<MetricKey>)
        ensures
            r@ == keys_for(self@),
    {
        let mut out: Vec<MetricKey> = Vec::new();
        push_keys(&mut out, self.eth.luid);
        push_keys(&mut out, self.wifi);
        assert(out@ =~= keys_for(self@));
        out
    }

    fn writes(&self) -> (r: Vec<MetricWrite>)
        ensures
            r@ == writes_for(self@),
    {
        let mut out: Vec<MetricWrite> = Vec::new();
        match self.mode {
            Mode::Wifi => {
                push_steering(&mut out, self.wifi, None);
                push_steering(&mut out, self.eth.luid, Some(self.park));
            },
            Mode::WifiOnly => {
                push_steering(&mut out, self.wifi, None);
            },
            Mode::Ethernet | Mode::Auto => {
                push_steering(&mut out, self.eth.luid, None);
                push_steering(&mut out, self.wifi, None);
            },
        }
        assert(out@ =~= writes_for(self@));
        out
    }

    fn refuse(&mut self, code: u32, message: String)
        ensures
            final(self)@ == refused(old(self)@, code, message@),
    {
        self.stage = Stage::Finished;
        self.report = ApplyReport::fail(self.mode, code, message);
    }

    fn see_adapters(&mut self, snap: &Snapshot)
        ensures
            final(self)@ == with_adapters(old(self)@, nic_views(snap.nics@)),
    {
        let targets = Targets::resolve(&self.cfg, snap);
        match targets.eth {
            None => {
                self.refuse(
                    exit::NOT_CONFIGURED,
                    "No Ethernet adapter is available on this machine.".to_owned(),
                );
            },
            Some(e) => match targets.wifi {
                None => {
                    self.refuse(
                        exit::NOT_CONFIGURED,
                        "No Wi-Fi adapter is available on this machine.".to_owned(),
                    );
                },
                Some(w) => {
                    self.eth = Link {
                        luid: e.luid,
                        guid: e.adapter_name.as_str().to_owned(),
                        media_connected: e.media_connected,
                    };
                    self.wifi = w.luid;
                    self.stage = Stage::LoadingJournal;
                },
            },
        }
    }

    fn begin(&mut self)
        ensures
            final(self)@ == begun(old(self)@),
    {
        match self.mode {
            Mode::Wifi | Mode::WifiOnly => {
                self.stage = Stage::ReadingPolicy;
            },
            Mode::Ethernet => {
                if self.eth.media_connected {
                    self.stage = Stage::ReadingMetrics;
                } else {
                    self.refuse(
                        exit::NOT_CONFIGURED,
                        "The Ethernet cable is not connected, so there is nothing to switch to.".to_owned(),
                    );
                }
            },
            Mode::Auto => {
                self.stage = Stage::ReadingMetrics;
            },
        }
    }

    fn see_previous(&mut self, j: Journal)
        ensures
            final(self)@ == with_previous(old(self)@, j@),
    {
        self.journal = j;
        if self.mode != Mode::WifiOnly && self.journal.bindings.len() > 0 {
            self.stage = Stage::Reattaching;
        } else {
            self.begin();
        }
    }

    fn see_reattached(&mut self, oks: &Vec<bool>)
        ensures
            final(self)@ == reattached(old(self)@, oks@),
    {
        if every_true(oks) {
            self.journal.bindings = Vec::new();
            self.stage = Stage::SavingReattached;
            assert(self.journal@.bindings =~= Seq::empty());
        } else {
            self.refuse(
                exit::BINDING_FAILED,
                "Could not reattach Ethernet's IP stack. Run `linkswitch --recover`.".to_owned(),
            );
        }
    }

    fn see_policy(&mut self, p: PolicyState)
        ensures
            final(self)@ == with_policy(old(self)@, p),
    {
        if p.policy.permits_manual_wifi() {
            self.stage = Stage::ConnectingWifi;
        } else {
            let mut message = p.policy.describe().to_owned();
            message.append(". LinkSwitch cannot switch to Wi-Fi on this machine.");
            self.refuse(exit::BLOCKED_BY_POLICY, message);
        }
    }

    fn see_wifi(&mut self, w: Result<String, WifiError>)
        ensures
            final(self)@ == with_wifi(
                old(self)@,
                match w {
                    Ok(p) => Ok(p@),
                    Err(e) => Err(e@),
                },
            ),
    {
        match w {
            Ok(profile) => {
                self.profile = profile;
                self.stage = Stage::ReadingRoutes;
            },
            Err(e) => {
                let message = e.user_message();
                self.refuse(exit::WIFI_UNAVAILABLE, message);
            },
        }
    }

    fn see_routes(&mut self, routes: &Vec<DefaultRoute>)
        ensures
            final(self)@ == with_routes(old(self)@, routes@),
    {
        match total_for(routes.as_slice(), self.wifi) {
            None => {
                self.refuse(
                    exit::WIFI_UNAVAILABLE,
                    "Wi-Fi is connected but has no default route yet. Try again in a moment.".to_owned(),
                );
            },
            Some(total) => {
                if self.mode == Mode::WifiOnly {
                    self.stage = Stage::ReadingBinding;
                } else {
                    self.park = park_value(self.cfg.park_metric, Some(total));
                    self.stage = Stage::ReadingMetrics;
                }
            },
        }
    }

    fn see_binding(&mut self, b: Result<BindingState, BindError>)
        ensures
            final(self)@ == with_binding(
                old(self)@,
                match b {
                    Ok(b) => Ok(b),
                    Err(e) => Err(e@),
                },
            ),
    {
        match b {
            Err(e) => {
                let message = e.user_message();
                self.refuse(exit::BINDING_FAILED, message);
            },
            Ok(b) => {
                if b.v4 || b.v6 {
                    self.bound = b;
                    self.stage = Stage::ReadingMetrics;
                } else {
                    self.refuse(
                        exit::BINDING_FAILED,
                        "Ethernet already has no IP stack attached.".to_owned(),
                    );
                }
            },
        }
    }

    fn see_metrics(&mut self, m: &Vec<Option<MetricState>>, now: u64)
        ensures
            final(self)@ == with_metrics(old(self)@, m@, now),
    {
        if m.len() != 4 {
            return ;
        }
        let mut backups = capture(self.eth.luid, m[0], m[1]);
        let mut more = capture(self.wifi, m[2], m[3]);
        backups.append(&mut more);
        let mut touched = copied(&self.journal.touched);
        keep_first(&mut touched, &self.journal.restore);
        keep_first(&mut touched, &backups);
        let mut bindings: Vec<BindingBackup> = Vec::new();
        if self.mode == Mode::WifiOnly {
            bindings.push(
                BindingBackup {
                    guid: self.eth.guid.as_str().to_owned(),
                    v4: self.bound.v4,
                    v6: self.bound.v6,
                },
            );
        }
        self.journal = Journal {
            schema: SCHEMA,
            mode: self.mode,
            in_flight: true,
            started_unix: now,
            finished_unix: None,
            restore: copied(&backups),
            bindings,
            touched,
            last_error: None,
        };
        self.backups = backups;
        self.stage = Stage::OpeningJournal;
        assert(self@.journal =~= with_metrics(old(self)@, m@, now).journal);
    }

    fn undo(&mut self, code: u32, message: String, reason: String, stamped: bool)
        ensures
            final(self)@ == undoing(old(self)@, code, message@, reason@, stamped),
    {
        self.journal.last_error = Some(reason);
        self.stamped = stamped;
        self.report = ApplyReport::fail(self.mode, code, message);
        self.stage = Stage::RestoringMetrics;
    }

    fn see_writes(&mut self, v: &Vec<FamilyOutcome>, now: u64)
        ensures
            final(self)@ == with_writes(old(self)@, v@, now),
    {
        let wanted: usize = match self.mode {
            Mode::WifiOnly => 2,
            _ => 4,
        };
        if v.len() != wanted {
            return ;
        }
        match self.mode {
            Mode::Wifi => {
                let eth = SteerOutcome { v4: v[2], v6: v[3] };
                if eth.is_ok() {
                    self.stage = Stage::Settling;
                } else {
                    let mut message = "Could not change the Ethernet metric: ".to_owned();
                    message.append(eth.describe().as_str());
                    self.undo(exit::WRITE_FAILED, message, eth.describe(), true);
                }
            },
            Mode::WifiOnly => {
                self.stage = Stage::Detaching;
            },
            Mode::Ethernet => {
                let eth = SteerOutcome { v4: v[0], v6: v[1] };
                if eth.is_ok() {
                    self.stage = Stage::CheckingEthernet;
                } else {
                    let mut message = "Could not restore the Ethernet metric: ".to_owned();
                    message.append(eth.describe().as_str());
                    self.undo(exit::WRITE_FAILED, message, eth.describe(), false);
                }
            },
            Mode::Auto => {
                let eth = SteerOutcome { v4: v[0], v6: v[1] };
                let wifi = SteerOutcome { v4: v[2], v6: v[3] };
                let ok = eth.is_ok() && wifi.is_ok();
                self.journal.in_flight = false;
                self.journal.restore = Vec::new();
                self.journal.finished_unix = Some(now);
                let mut details: Vec<String> = Vec::new();
                details.push(eth.describe());
                details.push(wifi.describe());
                self.report = ApplyReport {
                    mode: self.mode,
                    ok,
                    exit_code: if ok {
                        exit::OK
                    } else {
                        exit::WRITE_FAILED
                    },
                    message: if ok {
                        "Both adapters are back on Windows' automatic metrics.".to_owned()
                    } else {
                        "Could not fully restore automatic metrics.".to_owned()
                    },
                    details,
                };
                self.stage = Stage::ClosingJournal;
                assert(self@ =~= with_writes(old(self)@, v@, now));
            },
        }
    }

    fn see_detached(&mut self, o: Result<BindOutcome, BindError>, now: u64)
        ensures
            final(self)@ == with_detached(
                old(self)@,
                match o {
                    Ok(o) => Ok(o),
                    Err(e) => Err(e@),
                },
                now,
            ),
    {
        match o {
            Err(e) => {
                self.journal.last_error = Some(e.user_message());
                self.stamped = true;
                self.report = ApplyReport::fail(self.mode, exit::BINDING_FAILED, e.user_message());
                self.stage = Stage::RestoringBindings;
            },
            Ok(o) => {
                self.journal.in_flight = false;
                self.journal.finished_unix = Some(now);
                self.needs_reboot = o.needs_reboot;
                let mut details: Vec<String> = Vec::new();
                details.push("Ethernet has no IP address, routes or DNS servers.".to_owned());
                self.report = ApplyReport {
                    mode: self.mode,
                    ok: true,
                    exit_code: exit::OK,
                    message: "Ethernet's IP stack is detached. The cable is still plugged in and the adapter is still enabled.".to_owned(),
                    details,
                };
                self.stage = Stage::ClosingJournal;
                assert(self@ =~= with_detached(old(self)@, Ok(o), now));
            },
        }
    }

    fn check_ethernet(&mut self, snap: &Snapshot)
        ensures
            final(self)@ == ethernet_checked(old(self)@, snap.routes@),
    {
        let wins = match snap.verdict(Some(self.eth.luid), Some(self.wifi)) {
            Verdict::Ethernet { .. } => true,
            _ => false,
        };
        if wins {
            self.stage = Stage::Settling;
        } else {
            match total_for(snap.routes.as_slice(), self.eth.luid) {
                None => {
                    self.stage = Stage::Settling;
                },
                Some(total) => {
                    self.park = park_value(self.cfg.park_metric, Some(total));
                    self.stage = Stage::ParkingWifi;
                },
            }
        }
    }

    fn confirm(&self, snap: &Snapshot) -> (r: ApplyReport)
        ensures
            r@ == confirmed(self@, snap.routes@),
    {
        let want = if self.mode == Mode::Ethernet {
            self.eth.luid
        } else {
            self.wifi
        };
        let verdict = snap.verdict(Some(want), None);
        let mut details: Vec<String> = Vec::new();
        if self.mode == Mode::Wifi && self.park > 0 {
            let mut parked = "Ethernet parked at metric ".to_owned();
            text::push_dec(&mut parked, self.park as u64);
            details.push(parked);
        }
        let message = match verdict {
            Verdict::Ethernet { .. } | Verdict::Wifi { .. } => match self.mode {
                Mode::Wifi => "Traffic now goes over Wi-Fi. Ethernet stays connected.",
                Mode::Ethernet => "Traffic now goes over Ethernet.",
                Mode::WifiOnly => "Ethernet's IP stack is detached.",
                Mode::Auto => "Automatic metrics restored.",
            },
            Verdict::Hijacked { if_index, .. } => {
                let mut tunnel = "A VPN or tunnel on interface ".to_owned();
                text::push_dec(&mut tunnel, if_index as u64);
                tunnel.append(" is carrying all traffic.");
                details.push(tunnel);
                if self.mode == Mode::Wifi {
                    "Ethernet is parked; your VPN tunnel now runs over Wi-Fi for new connections."
                } else {
                    "Applied. A VPN is still carrying all traffic."
                }
            },
            Verdict::NoRoute => "Applied, but no default route is present yet.",
        };
        let report = ApplyReport {
            mode: self.mode,
            ok: true,
            exit_code: exit::OK,
            message: message.to_owned(),
            details,
        };
        assert(report@.details =~= confirmed(self@, snap.routes@).details);
        report
    }

    fn verify(&mut self, snap: &Snapshot, now: u64)
        ensures
            final(self)@ == verified(old(self)@, snap.routes@, now),
    {
        if snap.routes.len() == 0 {
            self.undo(
                exit::VERIFY_FAILED,
                "The change left this machine with no network route, so it was undone.".to_owned(),
                "no default route after the change; reverted".to_owned(),
                true,
            );
        } else {
            self.report = self.confirm(snap);
            self.journal.in_flight = false;
            self.journal.finished_unix = Some(now);
            self.journal.restore = copied(&self.backups);
            self.stage = Stage::ClosingJournal;
        }
    }

    fn see_metrics_restored(&mut self, now: u64)
        ensures
            final(self)@ == metrics_restored(old(self)@, now),
    {
        self.journal.in_flight = false;
        self.journal.restore = Vec::new();
        self.journal.bindings = Vec::new();
        if self.stamped {
            self.journal.finished_unix = Some(now);
        }
        self.stage = Stage::ClosingJournal;
        assert(self.journal@.restore =~= Seq::empty());
        assert(self.journal@.bindings =~= Seq::empty());
    }

    fn after_hint(&mut self)
        ensures
            final(self)@ == hinted(old(self)@),
    {
        self.stage = if self.mode == Mode::WifiOnly {
            Stage::LookingForBridges
        } else {
            Stage::Finished
        };
    }

    fn see_closed(&mut self)
        ensures
            final(self)@ == closed(old(self)@),
    {
        if !self.report.ok {
            self.stage = Stage::Finished;
        } else if self.profile.as_str().unicode_len() > 0 {
            self.stage = Stage::LoadingHint;
        } else {
            self.after_hint();
        }
    }

    fn see_hint(&mut self, c: MachineConfig)
        ensures
            final(self)@ == with_hint(old(self)@, c@),
    {
        let known = match &c.wifi_profile_hint {
            Some(p) => text::same(p.as_str(), self.profile.as_str()),
            None => false,
        };
        if known {
            self.after_hint();
        } else {
            self.cfg = c;
            self.cfg.wifi_profile_hint = Some(self.profile.as_str().to_owned());
            self.stage = Stage::SavingHint;
        }
    }

    fn see_bridges(&mut self, warning: Option<String>)
        ensures
            final(self)@ == with_bridges(old(self)@, text_view(warning)),
    {
        if let Some(w) = warning {
            self.report.details.push(w);
        }
        if self.needs_reboot {
            self.report.details.push("Windows asked for a reboot to finish applying this.".to_owned());
        }
        self.stage = Stage::Finished;
        assert(self@ =~= with_bridges(old(self)@, text_view(warning)));
    }

    /// Go on with what came back; `now` is the time, in seconds since 1970.
    #[verifier::spinoff_prover]
    #[verifier::rlimit(60)]
    pub fn step(&mut self, event: Event, now: u64)
        ensures
            final(self)@ == next(old(self)@, event@, now),
    {
        match (self.stage, event) {
            (Stage::Recovering, Event::Done) => {
                self.stage = Stage::LoadingMachine;
            },
            (Stage::LoadingMachine, Event::Machine(c)) => {
                self.cfg = c;
                self.stage = Stage::ReadingAdapters;
            },
            (Stage::ReadingAdapters, Event::Snapshot(s)) => self.see_adapters(&s),
            (Stage::LoadingJournal, Event::Journal(j)) => self.see_previous(j),
            (Stage::Reattaching, Event::Bindings(oks)) => self.see_reattached(&oks),
            (Stage::SavingReattached, Event::Done) => self.begin(),
            (Stage::ReadingPolicy, Event::Policy(p)) => self.see_policy(p),
            (Stage::ConnectingWifi, Event::Wifi(w)) => self.see_wifi(w),
            (Stage::ReadingRoutes, Event::Snapshot(s)) => self.see_routes(&s.routes),
            (Stage::ReadingBinding, Event::Binding(b)) => self.see_binding(b),
            (Stage::ReadingMetrics, Event::MetricsRead(m)) => self.see_metrics(&m, now),
            (Stage::OpeningJournal, Event::Done) => {
                self.stage = Stage::WritingMetrics;
            },
            (Stage::WritingMetrics, Event::MetricsWritten(v)) => self.see_writes(&v, now),
            (Stage::Detaching, Event::BindingSet(o)) => self.see_detached(o, now),
            (Stage::RestoringBindings, Event::Bindings(_)) => {
                self.stage = Stage::RestoringMetrics;
            },
            (Stage::CheckingEthernet, Event::Snapshot(s)) => self.check_ethernet(&s),
            (Stage::ParkingWifi, Event::MetricsWritten(_)) => {
                self.stage = Stage::Settling;
            },
            (Stage::Settling, Event::Done) => {
                self.stage = Stage::Verifying;
            },
            (Stage::Verifying, Event::Snapshot(s)) => self.verify(&s, now),
            (Stage::RestoringMetrics, Event::MetricsWritten(_)) => self.see_metrics_restored(now),
            (Stage::ClosingJournal, Event::Done) => self.see_closed(),
            (Stage::LoadingHint, Event::Machine(c)) => self.see_hint(c),
            (Stage::SavingHint, Event::Done) => self.after_hint(),
            (Stage::LookingForBridges, Event::Bridges(w)) => self.see_bridges(w),
            _ => {},
        }
    }
}

} // verus!
