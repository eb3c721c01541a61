//! Install and uninstall.
//!
//! Install is the only step that shows a prompt. It copies the program somewhere a
//! medium-integrity process cannot rewrite it, locks down the machine data directory, records
//! which adapters to manage, and registers the scheduled tasks that let the widget switch without
//! prompting again.
//!
//! Uninstall's first job is to put the machine back. It restores every metric from the journal --
//! exact prior values, never guessed defaults -- before removing anything, so that nobody who
//! uninstalls mid-switch keeps a parked Ethernet adapter forever. Everything after that is cleanup.
use vstd::prelude::*;
use vstd::string::*;

use crate::apply::exit;
use crate::apply::run::{recover_asks, recover_step, EventView, RecoverView};
use crate::apply::{
    all_ok, all_true, every_ok, every_true, first_kept, keep_first, restore_backups, restoring,
    restoring_all, the_first_value_stays,
};
use crate::config::{
    binding_views, joined, join_path, ref_view, resolve_kind, resolved, AdapterRef, AdapterRefView,
    BindingBackup, BindingView, Journal, JournalView, MachineConfig, MachineView, MetricBackup, Mode,
    SCHEMA,
};
use crate::elevate::ElevateError;
use crate::encoding::{utf16, utf8_lossy, utf8_to_string, wide};
use crate::net::adapters::{nic_views, Nic, NicKind, NicView};
use crate::net::err;
use crate::net::metric::{FamilyOutcome, MetricWrite, AF_INET, AF_INET6};
use crate::net::wcm::{self, PolicyState, RegistryChange};
use crate::net::{best_candidate, first_candidate, LuidKey, Snapshot};
use crate::tasks::{all_tasks, registered, HealthView, TaskHealth};
use crate::text;

verus! {

/// The key of the per-user startup entries.
pub const RUN_KEY: &'static str = "Software\\Microsoft\\Windows\\CurrentVersion\\Run";

/// The name of the startup entry. Another name would orphan the old entry and start the widget
/// twice.
pub const RUN_VALUE: &'static str = "LinkSwitch";

// --- where things are --------------------------------------------------------------------

/// The directory the program is installed to.
pub open spec fn program_dir(program_files: Option<Seq<char>>) -> Seq<char> {
    joined(
        match program_files {
            Some(d) => d,
            None => "C:\\Program Files"@,
        },
        "LinkSwitch"@,
    )
}

/// A text slice that may be absent.
pub open spec fn slice_view(s: Option<&str>) -> Option<Seq<char>> {
    match s {
        Some(t) => Some(t@),
        None => None,
    }
}

/// `%ProgramFiles%\LinkSwitch`. The argument is the value of `ProgramFiles`, if it is set.
pub fn install_dir(program_files: Option<&str>) -> (r: String)
    ensures
        r@ == program_dir(slice_view(program_files)),
{
    let base = match program_files {
        Some(d) => d,
        None => "C:\\Program Files",
    };
    join_path(base, "LinkSwitch")
}

/// The installed program.
pub fn installed_exe(program_files: Option<&str>) -> (r: String)
    ensures
        r@ == joined(program_dir(slice_view(program_files)), "linkswitch.exe"@),
{
    join_path(install_dir(program_files).as_str(), "linkswitch.exe")
}

/// Every task is registered, and every command that is known belongs to a program that exists;
/// `exists[i]` says so of the command of task `i`.
pub open spec fn sound_install(health: Seq<HealthView>, exists: Seq<bool>) -> bool {
    forall|i: int|
        0 <= i < health.len() ==> (#[trigger] health[i]).registered && (health[i].command is Some
            ==> i < exists.len() && exists[i])
}

fn all_sound(h: &Vec<TaskHealth>, exists: &Vec<bool>) -> (r: bool)
    ensures
        r == sound_install(h@.map_values(|t: TaskHealth| t@), exists@),
{
    let ghost views = h@.map_values(|t: TaskHealth| t@);
    let mut i: usize = 0;
    while i < h.len()
        invariant
            i <= h.len(),
            views == h@.map_values(|t: TaskHealth| t@),
            forall|k: int|
                0 <= k < i ==> (#[trigger] views[k]).registered && (views[k].command is Some ==> k
                    < exists@.len() && exists@[k]),
        decreases h.len() - i,
    {
        assert(views[i as int] == h@[i as int]@);
        if !h[i].registered {
            return false;
        }
        if h[i].command.is_some() && !(i < exists.len() && exists[i]) {
            return false;
        }
        i = i + 1;
    }
    true
}

/// Is LinkSwitch set up on this machine, and pointing at a program that still exists? Without an
/// answer from Task Scheduler it is not.
pub fn is_installed(health: Option<&Vec<TaskHealth>>, exists: &Vec<bool>) -> (r: bool)
    ensures
        r == match health {
            Some(h) => sound_install(h@.map_values(|t: TaskHealth| t@), exists@),
            None => false,
        },
{
    match health {
        Some(h) => all_sound(h, exists),
        None => false,
    }
}

// --- one change at a time ----------------------------------------------------------------

/// Full access for administrators and the system, read access for users, nothing inherited.
pub open spec fn dacl_arguments(dir: Seq<char>) -> Seq<Seq<char>> {
    seq![
        dir,
        "/inheritance:r"@,
        "/grant:r"@,
        "*S-1-5-32-544:(OI)(CI)F"@,
        "/grant:r"@,
        "*S-1-5-18:(OI)(CI)F"@,
        "/grant:r"@,
        "*S-1-5-32-545:(OI)(CI)RX"@,
        "/T"@,
        "/C"@,
        "/Q"@,
    ]
}

/// Restrict the machine data directory to administrators and the system, with read-only access
/// for ordinary users: the arguments of `icacls`.
pub fn harden_dacl(dir: &str) -> (r: Vec<String>)
    ensures
        text::views(r@) == dacl_arguments(dir@),
{
    let mut r: Vec<String> = Vec::new();
    r.push(dir.to_owned());
    r.push("/inheritance:r".to_owned());
    r.push("/grant:r".to_owned());
    r.push("*S-1-5-32-544:(OI)(CI)F".to_owned());
    r.push("/grant:r".to_owned());
    r.push("*S-1-5-18:(OI)(CI)F".to_owned());
    r.push("/grant:r".to_owned());
    r.push("*S-1-5-32-545:(OI)(CI)RX".to_owned());
    r.push("/T".to_owned());
    r.push("/C".to_owned());
    r.push("/Q".to_owned());
    assert(text::views(r@) =~= dacl_arguments(dir@));
    r
}

/// What came of it: where `icacls` failed, what it wrote to its error output.
pub fn hardened(success: bool, stderr: &[u8]) -> (r: Result<(), String>)
    ensures
        match r {
            Ok(_) => success,
            Err(e) => !success && e@ == text::trim(utf8_lossy(stderr@)),
        },
{
    if success {
        Ok(())
    } else {
        Err(text::trim_text(utf8_to_string(stderr).as_str()))
    }
}

/// A change to the startup entry.
#[derive(Debug)]
pub enum AutostartChange {
    /// Write this text, which ends in a NUL.
    Write(Vec<u16>),
    Delete,
}

/// Add or remove the per-user startup entry. The path is quoted: an unquoted one with a space in
/// it would start something else.
pub fn set_autostart(exe: Option<&str>) -> (r: AutostartChange)
    ensures
        match exe {
            Some(p) => r matches AutostartChange::Write(units) && units@ == utf16(
                "\""@ + p@ + "\""@,
            ).push(0),
            None => r is Delete,
        },
{
    match exe {
        Some(p) => {
            let mut command = "\"".to_owned();
            command.append(p);
            command.append("\"");
            AutostartChange::Write(wide(command.as_str()))
        },
        None => AutostartChange::Delete,
    }
}

/// Whether a change to the startup entry that returned `rc` succeeded. An entry that is already
/// gone needs no deleting.
pub fn autostart_changed(change: &AutostartChange, rc: u32) -> (r: Result<(), u32>)
    ensures
        r == if rc == err::NO_ERROR || change is Delete && rc == err::ERROR_FILE_NOT_FOUND {
            Ok::<(), u32>(())
        } else {
            Err(rc)
        },
{
    let gone = match change {
        AutostartChange::Write(_) => false,
        AutostartChange::Delete => rc == err::ERROR_FILE_NOT_FOUND,
    };
    if rc == err::NO_ERROR || gone {
        Ok(())
    } else {
        Err(rc)
    }
}

// --- installing --------------------------------------------------------------------------

#[derive(Debug)]
pub struct InstallOutcome {
    pub ok: bool,
    pub messages: Vec<String>,
}

#[verifier::ext_equal]
pub struct OutcomeView {
    pub ok: bool,
    pub messages: Seq<Seq<char>>,
}

impl View for InstallOutcome {
    type V = OutcomeView;

    open spec fn view(&self) -> OutcomeView {
        OutcomeView { ok: self.ok, messages: text::views(self.messages@) }
    }
}

/// What has to be done outside before an installation, or a removal, can go on.
#[derive(Debug)]
pub enum InstallAction<'a> {
    /// Find the running program.
    FindProgram,
    /// Create a directory and those above it.
    MakeDir(&'a String),
    /// Copy the program.
    Copy { from: &'a String, to: &'a String },
    /// Lock a directory down with [`harden_dacl`].
    Harden(&'a String),
    LoadMachine,
    SaveMachine(&'a MachineConfig),
    ReadSnapshot,
    /// Read the effective connection policy.
    ReadPolicy,
    /// Read the policy's registry value.
    ReadRegistry,
    ChangePolicy(RegistryChange),
    /// Register every task for this program and this account.
    RegisterTasks { exe: &'a String, user: &'a String },
    UnregisterTasks,
    /// Set the startup entry, or remove it.
    SetAutostart(Option<&'a String>),
    LoadJournal,
    SaveJournal(&'a Journal),
    /// Set the IP bindings of every adapter of the list to exactly what is recorded, in order.
    WriteBindings(&'a Vec<BindingBackup>),
    /// Write these metrics, in order.
    WriteMetrics(Vec<MetricWrite>),
    /// Remove the machine's and the user's data.
    RemoveData,
    /// Nothing: the run is over.
    Nothing,
}

pub enum InstallActionView {
    FindProgram,
    MakeDir(Seq<char>),
    Copy { from: Seq<char>, to: Seq<char> },
    Harden(Seq<char>),
    LoadMachine,
    SaveMachine(MachineView),
    ReadSnapshot,
    ReadPolicy,
    ReadRegistry,
    ChangePolicy(RegistryChange),
    RegisterTasks { exe: Seq<char>, user: Seq<char> },
    UnregisterTasks,
    SetAutostart(Option<Seq<char>>),
    LoadJournal,
    SaveJournal(JournalView),
    WriteBindings(Seq<BindingView>),
    WriteMetrics(Seq<MetricWrite>),
    RemoveData,
    Nothing,
}

impl<'a> View for InstallAction<'a> {
    type V = InstallActionView;

    open spec fn view(&self) -> InstallActionView {
        match self {
            InstallAction::FindProgram => InstallActionView::FindProgram,
            InstallAction::MakeDir(d) => InstallActionView::MakeDir(d@),
            InstallAction::Copy { from, to } => InstallActionView::Copy { from: from@, to: to@ },
            InstallAction::Harden(d) => InstallActionView::Harden(d@),
            InstallAction::LoadMachine => InstallActionView::LoadMachine,
            InstallAction::SaveMachine(c) => InstallActionView::SaveMachine(c@),
            InstallAction::ReadSnapshot => InstallActionView::ReadSnapshot,
            InstallAction::ReadPolicy => InstallActionView::ReadPolicy,
            InstallAction::ReadRegistry => InstallActionView::ReadRegistry,
            InstallAction::ChangePolicy(c) => InstallActionView::ChangePolicy(*c),
            InstallAction::RegisterTasks { exe, user } => InstallActionView::RegisterTasks {
                exe: exe@,
                user: user@,
            },
            InstallAction::UnregisterTasks => InstallActionView::UnregisterTasks,
            InstallAction::SetAutostart(Some(e)) => InstallActionView::SetAutostart(Some(e@)),
            InstallAction::SetAutostart(None) => InstallActionView::SetAutostart(None),
            InstallAction::LoadJournal => InstallActionView::LoadJournal,
            InstallAction::SaveJournal(j) => InstallActionView::SaveJournal(j@),
            InstallAction::WriteBindings(v) => InstallActionView::WriteBindings(
                binding_views(v@),
            ),
            InstallAction::WriteMetrics(v) => InstallActionView::WriteMetrics(v@),
            InstallAction::RemoveData => InstallActionView::RemoveData,
            InstallAction::Nothing => InstallActionView::Nothing,
        }
    }
}

/// What came back.
#[derive(Debug)]
pub enum InstallEvent {
    /// The running program, and whether that is the installed one; or why it was not found.
    Program(Result<(String, bool), String>),
    /// What was asked for went well, or why not.
    Tried(Result<(), String>),
    Machine(MachineConfig),
    Snapshot(Snapshot),
    Policy(PolicyState),
    Registry(Option<u32>),
    /// A policy change went well, or the code it failed with.
    PolicyChanged(Result<(), u32>),
    Journal(Journal),
    /// For every adapter of the list, whether its bindings were set.
    Bindings(Vec<bool>),
    /// For every metric that was to be written, what came of it.
    MetricsWritten(Vec<FamilyOutcome>),
}

pub enum InstallEventView {
    Program(Result<(Seq<char>, bool), Seq<char>>),
    Tried(Option<Seq<char>>),
    Machine(MachineView),
    Snapshot(Seq<NicView>),
    Policy(PolicyState),
    Registry(Option<u32>),
    PolicyChanged(Result<(), u32>),
    Journal(JournalView),
    Bindings(Seq<bool>),
    MetricsWritten(Seq<FamilyOutcome>),
}

/// What went wrong, if anything did.
pub open spec fn trouble(r: Result<(), String>) -> Option<Seq<char>> {
    match r {
        Ok(_) => None,
        Err(e) => Some(e@),
    }
}

impl View for InstallEvent {
    type V = InstallEventView;

    open spec fn view(&self) -> InstallEventView {
        match self {
            InstallEvent::Program(Ok(p)) => InstallEventView::Program(Ok((p.0@, p.1))),
            InstallEvent::Program(Err(e)) => InstallEventView::Program(Err(e@)),
            InstallEvent::Tried(r) => InstallEventView::Tried(trouble(*r)),
            InstallEvent::Machine(c) => InstallEventView::Machine(c@),
            InstallEvent::Snapshot(s) => InstallEventView::Snapshot(nic_views(s.nics@)),
            InstallEvent::Policy(p) => InstallEventView::Policy(*p),
            InstallEvent::Registry(v) => InstallEventView::Registry(*v),
            InstallEvent::PolicyChanged(r) => InstallEventView::PolicyChanged(*r),
            InstallEvent::Journal(j) => InstallEventView::Journal(j@),
            InstallEvent::Bindings(v) => InstallEventView::Bindings(v@),
            InstallEvent::MetricsWritten(v) => InstallEventView::MetricsWritten(v@),
        }
    }
}

#[derive(Debug, Clone, Copy, PartialEq, Eq, Structural)]
pub enum InstallStage {
    /// The running program.
    Locating,
    MakingProgramDir,
    Copying,
    MakingDataDir,
    Hardening,
    LoadingMachine,
    /// The adapters to choose from.
    ReadingAdapters,
    ReadingPolicy,
    ReadingRegistry,
    ChangingPolicy,
    SavingMachine,
    RegisteringTasks,
    SettingAutostart,
    Finished,
}

/// An installation.
#[derive(Debug)]
pub struct InstallRun {
    pub stage: InstallStage,
    pub keep_wifi: bool,
    pub autostart: bool,
    /// The directory the program goes to, and the program there.
    pub dir: String,
    pub exe: String,
    /// The machine's data.
    pub data_dir: String,
    /// The account the tasks are for.
    pub user: String,
    /// The running program.
    pub source: String,
    pub cfg: MachineConfig,
    pub outcome: InstallOutcome,
}

#[verifier::ext_equal]
pub struct InstallView {
    pub stage: InstallStage,
    pub keep_wifi: bool,
    pub autostart: bool,
    pub dir: Seq<char>,
    pub exe: Seq<char>,
    pub data_dir: Seq<char>,
    pub user: Seq<char>,
    pub source: Seq<char>,
    pub cfg: MachineView,
    pub outcome: OutcomeView,
}

impl View for InstallRun {
    type V = InstallView;

    open spec fn view(&self) -> InstallView {
        InstallView {
            stage: self.stage,
            keep_wifi: self.keep_wifi,
            autostart: self.autostart,
            dir: self.dir@,
            exe: self.exe@,
            data_dir: self.data_dir@,
            user: self.user@,
            source: self.source@,
            cfg: self.cfg@,
            outcome: self.outcome@,
        }
    }
}

/// What an installation does at each stage.
pub open spec fn install_asks(r: InstallView) -> InstallActionView {
    match r.stage {
        InstallStage::Locating => InstallActionView::FindProgram,
        InstallStage::MakingProgramDir => InstallActionView::MakeDir(r.dir),
        InstallStage::Copying => InstallActionView::Copy { from: r.source, to: r.exe },
        InstallStage::MakingDataDir => InstallActionView::MakeDir(r.data_dir),
        InstallStage::Hardening => InstallActionView::Harden(r.data_dir),
        InstallStage::LoadingMachine => InstallActionView::LoadMachine,
        InstallStage::ReadingAdapters => InstallActionView::ReadSnapshot,
        InstallStage::ReadingPolicy => InstallActionView::ReadPolicy,
        InstallStage::ReadingRegistry => InstallActionView::ReadRegistry,
        InstallStage::ChangingPolicy => InstallActionView::ChangePolicy(RegistryChange::Write(0)),
        InstallStage::SavingMachine => InstallActionView::SaveMachine(r.cfg),
        InstallStage::RegisteringTasks => InstallActionView::RegisterTasks {
            exe: r.exe,
            user: r.user,
        },
        InstallStage::SettingAutostart => InstallActionView::SetAutostart(Some(r.exe)),
        InstallStage::Finished => InstallActionView::Nothing,
    }
}

pub open spec fn at(r: InstallView, stage: InstallStage) -> InstallView {
    InstallView { stage, ..r }
}

/// The installation ends here, with nothing but this to say.
pub open spec fn stopped(r: InstallView, message: Seq<char>) -> InstallView {
    InstallView {
        stage: InstallStage::Finished,
        outcome: OutcomeView { ok: false, messages: seq![message] },
        ..r
    }
}

/// One more thing to say.
pub open spec fn noted(r: InstallView, message: Seq<char>) -> InstallView {
    InstallView {
        outcome: OutcomeView { messages: r.outcome.messages.push(message), ..r.outcome },
        ..r
    }
}

/// One more thing to say, and it went wrong.
pub open spec fn spoiled(r: InstallView, message: Seq<char>) -> InstallView {
    InstallView {
        outcome: OutcomeView { ok: false, messages: r.outcome.messages.push(message) },
        ..r
    }
}

/// The adapter to manage as one kind: the one chosen before, or the best one there is.
pub open spec fn chosen(
    before: Option<AdapterRefView>,
    kind: NicKind,
    nics: Seq<NicView>,
) -> Option<AdapterRefView> {
    if before is Some {
        before
    } else {
        match best_candidate(nics, kind) {
            Some(i) => Some(AdapterRef::remembering(nics[i])),
            None => None,
        }
    }
}

/// What is said of the choice of adapters.
pub open spec fn choice_words(cfg: MachineView) -> Seq<char> {
    match (cfg.ethernet, cfg.wifi) {
        (Some(e), Some(w)) => "Managing \""@ + e.label() + "\" and \""@ + w.label() + "\"."@,
        (None, _) => "Warning: no Ethernet adapter was found."@,
        (_, None) => "Warning: no Wi-Fi adapter was found."@,
    }
}

pub open spec fn with_choice(r: InstallView, nics: Seq<NicView>) -> InstallView {
    let cfg = MachineView {
        ethernet: chosen(r.cfg.ethernet, NicKind::Ethernet, nics),
        wifi: chosen(r.cfg.wifi, NicKind::Wifi, nics),
        ..r.cfg
    };
    at(
        noted(InstallView { cfg, ..r }, choice_words(cfg)),
        if r.keep_wifi {
            InstallStage::ReadingPolicy
        } else {
            InstallStage::SavingMachine
        },
    )
}

pub open spec fn located(r: InstallView, p: Result<(Seq<char>, bool), Seq<char>>) -> InstallView {
    match p {
        Err(e) => stopped(r, "Cannot locate the running executable: "@ + e),
        Ok(found) => InstallView {
            source: found.0,
            stage: if found.1 {
                InstallStage::MakingDataDir
            } else {
                InstallStage::MakingProgramDir
            },
            ..r
        },
    }
}

pub open spec fn copied(r: InstallView, e: Option<Seq<char>>) -> InstallView {
    match e {
        None => at(noted(r, "Installed to "@ + r.exe), InstallStage::MakingDataDir),
        Some(e) => stopped(
            r,
            "Cannot copy to "@ + r.exe + ": "@ + e
                + ". Close LinkSwitch if it is running, then try again."@,
        ),
    }
}

/// A directory that had to be made.
pub open spec fn dir_made(
    r: InstallView,
    dir: Seq<char>,
    e: Option<Seq<char>>,
    then: InstallStage,
) -> InstallView {
    match e {
        None => at(r, then),
        Some(e) => stopped(r, "Cannot create "@ + dir + ": "@ + e),
    }
}

pub open spec fn locked_down(r: InstallView, e: Option<Seq<char>>) -> InstallView {
    at(
        match e {
            None => r,
            Some(e) => spoiled(r, "Warning: could not lock down "@ + r.data_dir + ": "@ + e),
        },
        InstallStage::LoadingMachine,
    )
}

/// A policy that Group Policy sets is left alone. What it was before is recorded once, and never
/// overwritten by what LinkSwitch itself wrote.
pub open spec fn with_policy(r: InstallView, p: PolicyState) -> InstallView {
    if p.is_group_policy {
        at(
            noted(
                r,
                "Skipped --keep-wifi-connected: the policy is set by Group Policy and a local change would be reverted at the next update."@,
            ),
            InstallStage::SavingMachine,
        )
    } else if r.cfg.wcm_backup is None {
        at(r, InstallStage::ReadingRegistry)
    } else {
        at(r, InstallStage::ChangingPolicy)
    }
}

pub open spec fn with_registry(r: InstallView, v: Option<u32>) -> InstallView {
    InstallView {
        cfg: MachineView { wcm_backup: Some(wcm::backup_of(v)), ..r.cfg },
        stage: InstallStage::ChangingPolicy,
        ..r
    }
}

pub open spec fn policy_changed(r: InstallView, c: Result<(), u32>) -> InstallView {
    at(
        match c {
            Ok(_) => noted(
                r,
                "Windows will now keep Wi-Fi connected alongside Ethernet. This is a machine-wide policy; --uninstall puts it back exactly as it was."@,
            ),
            Err(rc) => spoiled(
                r,
                "Could not change the Wi-Fi policy: "@ + text::dec(rc as nat),
            ),
        },
        InstallStage::SavingMachine,
    )
}

pub open spec fn machine_saved(r: InstallView, e: Option<Seq<char>>) -> InstallView {
    at(
        match e {
            None => r,
            Some(e) => spoiled(r, "Could not write the configuration: "@ + e),
        },
        InstallStage::RegisteringTasks,
    )
}

pub open spec fn tasks_registered(r: InstallView, e: Option<Seq<char>>) -> InstallView {
    at(
        match e {
            None => noted(
                r,
                "Registered "@ + text::dec(registered().len()) + " scheduled tasks for "@ + r.user
                    + "."@,
            ),
            Some(e) => spoiled(r, "Could not register the scheduled tasks: "@ + e),
        },
        if r.autostart {
            InstallStage::SettingAutostart
        } else {
            InstallStage::Finished
        },
    )
}

pub open spec fn autostart_set(r: InstallView, e: Option<Seq<char>>) -> InstallView {
    at(
        match e {
            None => noted(r, "The widget will start at logon."@),
            Some(e) => noted(r, "Warning: could not set autostart: "@ + e),
        },
        InstallStage::Finished,
    )
}

/// The next state of an installation. What it is not waiting for leaves it where it is.
pub open spec fn install_step(r: InstallView, e: InstallEventView) -> InstallView {
    match (r.stage, e) {
        (InstallStage::Locating, InstallEventView::Program(p)) => located(r, p),
        (InstallStage::MakingProgramDir, InstallEventView::Tried(e)) => dir_made(
            r,
            r.dir,
            e,
            InstallStage::Copying,
        ),
        (InstallStage::Copying, InstallEventView::Tried(e)) => copied(r, e),
        (InstallStage::MakingDataDir, InstallEventView::Tried(e)) => dir_made(
            r,
            r.data_dir,
            e,
            InstallStage::Hardening,
        ),
        (InstallStage::Hardening, InstallEventView::Tried(e)) => locked_down(r, e),
        (InstallStage::LoadingMachine, InstallEventView::Machine(c)) => InstallView {
            cfg: c,
            stage: InstallStage::ReadingAdapters,
            ..r
        },
        (InstallStage::ReadingAdapters, InstallEventView::Snapshot(nics)) => with_choice(r, nics),
        (InstallStage::ReadingPolicy, InstallEventView::Policy(p)) => with_policy(r, p),
        (InstallStage::ReadingRegistry, InstallEventView::Registry(v)) => with_registry(r, v),
        (InstallStage::ChangingPolicy, InstallEventView::PolicyChanged(c)) => policy_changed(r, c),
        (InstallStage::SavingMachine, InstallEventView::Tried(e)) => machine_saved(r, e),
        (InstallStage::RegisteringTasks, InstallEventView::Tried(e)) => tasks_registered(r, e),
        (InstallStage::SettingAutostart, InstallEventView::Tried(e)) => autostart_set(r, e),
        _ => r,
    }
}

/// Where an installation puts things, and for whom.
#[derive(Debug)]
pub struct Places {
    /// The directory the program goes to, and the program there.
    pub dir: String,
    pub exe: String,
    /// The machine's data.
    pub data_dir: String,
    /// The account the tasks are for.
    pub user: String,
}

/// Install: the start of the run. Without administrator rights it is over before it begins.
pub fn install(keep_wifi: bool, autostart: bool, elevated: bool, places: Places) -> (r: InstallRun)
    ensures
        r@.keep_wifi == keep_wifi,
        r@.autostart == autostart,
        r@.dir == places.dir@,
        r@.exe == places.exe@,
        r@.data_dir == places.data_dir@,
        r@.user == places.user@,
        elevated ==> r@.stage is Locating && r@.outcome == (OutcomeView {
            ok: true,
            messages: Seq::empty(),
        }),
        !elevated ==> r@.stage is Finished && r@.outcome == (OutcomeView {
            ok: false,
            messages: seq!["Install needs administrator rights."@],
        }),
{
    let mut messages: Vec<String> = Vec::new();
    if !elevated {
        messages.push("Install needs administrator rights.".to_owned());
    }
    let r = InstallRun {
        stage: if elevated {
            InstallStage::Locating
        } else {
            InstallStage::Finished
        },
        keep_wifi,
        autostart,
        dir: places.dir,
        exe: places.exe,
        data_dir: places.data_dir,
        user: places.user,
        source: String::new(),
        cfg: MachineConfig::default(),
        outcome: InstallOutcome { ok: elevated, messages },
    };
    proof {
        if elevated {
            assert(r@.outcome.messages =~= Seq::empty());
        } else {
            assert(r@.outcome.messages =~= seq!["Install needs administrator rights."@]);
        }
    }
    r
}

/// What is said of the choice of adapters.
fn describe_choice(cfg: &MachineConfig) -> (r: String)
    ensures
        r@ == choice_words(cfg@),
{
    match (&cfg.ethernet, &cfg.wifi) {
        (Some(e), Some(w)) => {
            let mut r = "Managing \"".to_owned();
            r.append(e.label());
            r.append("\" and \"");
            r.append(w.label());
            r.append("\".");
            r
        },
        (None, _) => "Warning: no Ethernet adapter was found.".to_owned(),
        (_, None) => "Warning: no Wi-Fi adapter was found.".to_owned(),
    }
}

fn remember(nics: &Vec<Nic>, kind: NicKind) -> (r: Option<AdapterRef>)
    ensures
        ref_view(r) == chosen(None, kind, nic_views(nics@)),
{
    match first_candidate(nics, kind) {
        Some(n) => Some(AdapterRef::from(n)),
        None => None,
    }
}

/// Two or three texts in a row.
fn said(a: &str, b: &str, c: &str) -> (r: String)
    ensures
        r@ == a@ + b@ + c@,
{
    let mut r = a.to_owned();
    r.append(b);
    r.append(c);
    r
}

impl InstallRun {
    /// What has to be done now.
    pub fn action(&self) -> (r: InstallAction<'_>)
        ensures
            r@ == install_asks(self@),
    {
        match self.stage {
            InstallStage::Locating => InstallAction::FindProgram,
            InstallStage::MakingProgramDir => InstallAction::MakeDir(&self.dir),
            InstallStage::Copying => InstallAction::Copy { from: &self.source, to: &self.exe },
            InstallStage::MakingDataDir => InstallAction::MakeDir(&self.data_dir),
            InstallStage::Hardening => InstallAction::Harden(&self.data_dir),
            InstallStage::LoadingMachine => InstallAction::LoadMachine,
            InstallStage::ReadingAdapters => InstallAction::ReadSnapshot,
            InstallStage::ReadingPolicy => InstallAction::ReadPolicy,
            InstallStage::ReadingRegistry => InstallAction::ReadRegistry,
            InstallStage::ChangingPolicy => InstallAction::ChangePolicy(wcm::set_allow()),
            InstallStage::SavingMachine => InstallAction::SaveMachine(&self.cfg),
            InstallStage::RegisteringTasks => InstallAction::RegisterTasks {
                exe: &self.exe,
                user: &self.user,
            },
            InstallStage::SettingAutostart => InstallAction::SetAutostart(Some(&self.exe)),
            InstallStage::Finished => InstallAction::Nothing,
        }
    }

    fn stop(&mut self, message: String)
        ensures
            final(self)@ == stopped(old(self)@, message@),
    {
        let mut messages: Vec<String> = Vec::new();
        messages.push(message);
        self.outcome = InstallOutcome { ok: false, messages };
        self.stage = InstallStage::Finished;
        assert(self.outcome@.messages =~= seq![message@]);
    }

    fn note(&mut self, message: String)
        ensures
            final(self)@ == noted(old(self)@, message@),
    {
        self.outcome.messages.push(message);
        assert(self.outcome@.messages =~= old(self)@.outcome.messages.push(message@));
    }

    fn spoil(&mut self, message: String)
        ensures
            final(self)@ == spoiled(old(self)@, message@),
    {
        self.outcome.ok = false;
        self.note(message);
    }

    fn locate(&mut self, p: Result<(String, bool), String>)
        ensures
            final(self)@ == located(
                old(self)@,
                match p {
                    Ok(found) => Ok((found.0@, found.1)),
                    Err(e) => Err(e@),
                },
            ),
    {
        match p {
            Err(e) => {
                let mut message = "Cannot locate the running executable: ".to_owned();
                message.append(e.as_str());
                self.stop(message);
            },
            Ok(found) => {
                self.stage = if found.1 {
                    InstallStage::MakingDataDir
                } else {
                    InstallStage::MakingProgramDir
                };
                self.source = found.0;
            },
        }
    }

    fn see_dir(&mut self, program: bool, r: Result<(), String>, then: InstallStage)
        ensures
            final(self)@ == dir_made(
                old(self)@,
                if program {
                    old(self)@.dir
                } else {
                    old(self)@.data_dir
                },
                trouble(r),
                then,
            ),
    {
        match r {
            Ok(_) => {
                self.stage = then;
            },
            Err(e) => {
                let mut message = if program {
                    said("Cannot create ", self.dir.as_str(), ": ")
                } else {
                    said("Cannot create ", self.data_dir.as_str(), ": ")
                };
                message.append(e.as_str());
                self.stop(message);
            },
        }
    }

    fn see_copy(&mut self, r: Result<(), String>)
        ensures
            final(self)@ == copied(old(self)@, trouble(r)),
    {
        match r {
            Ok(_) => {
                let mut message = "Installed to ".to_owned();
                message.append(self.exe.as_str());
                self.note(message);
                self.stage = InstallStage::MakingDataDir;
            },
            Err(e) => {
                let mut message = said("Cannot copy to ", self.exe.as_str(), ": ");
                message.append(e.as_str());
                message.append(". Close LinkSwitch if it is running, then try again.");
                self.stop(message);
            },
        }
    }

    fn see_lock_down(&mut self, r: Result<(), String>)
        ensures
            final(self)@ == locked_down(old(self)@, trouble(r)),
    {
        if let Err(e) = r {
            let mut message = said("Warning: could not lock down ", self.data_dir.as_str(), ": ");
            message.append(e.as_str());
            self.spoil(message);
        }
        self.stage = InstallStage::LoadingMachine;
    }

    fn choose_adapters(&mut self, snap: &Snapshot)
        ensures
            final(self)@ == with_choice(old(self)@, nic_views(snap.nics@)),
    {
        if self.cfg.ethernet.is_none() {
            self.cfg.ethernet = remember(&snap.nics, NicKind::Ethernet);
        }
        if self.cfg.wifi.is_none() {
            self.cfg.wifi = remember(&snap.nics, NicKind::Wifi);
        }
        let message = describe_choice(&self.cfg);
        self.note(message);
        self.stage = if self.keep_wifi {
            InstallStage::ReadingPolicy
        } else {
            InstallStage::SavingMachine
        };
    }

    fn see_policy(&mut self, p: PolicyState)
        ensures
            final(self)@ == with_policy(old(self)@, p),
    {
        if p.is_group_policy {
            self.note(
                "Skipped --keep-wifi-connected: the policy is set by Group Policy and a local change would be reverted at the next update.".to_owned(),
            );
            self.stage = InstallStage::SavingMachine;
        } else if self.cfg.wcm_backup.is_none() {
            self.stage = InstallStage::ReadingRegistry;
        } else {
            self.stage = InstallStage::ChangingPolicy;
        }
    }

    fn see_policy_changed(&mut self, c: Result<(), u32>)
        ensures
            final(self)@ == policy_changed(old(self)@, c),
    {
        match c {
            Ok(_) => {
                self.note(
                    "Windows will now keep Wi-Fi connected alongside Ethernet. This is a machine-wide policy; --uninstall puts it back exactly as it was.".to_owned(),
                );
            },
            Err(rc) => {
                let mut message = "Could not change the Wi-Fi policy: ".to_owned();
                text::push_dec(&mut message, rc as u64);
                self.spoil(message);
            },
        }
        self.stage = InstallStage::SavingMachine;
    }

    fn see_saved(&mut self, r: Result<(), String>)
        ensures
            final(self)@ == machine_saved(old(self)@, trouble(r)),
    {
        if let Err(e) = r {
            let mut message = "Could not write the configuration: ".to_owned();
            message.append(e.as_str());
            self.spoil(message);
        }
        self.stage = InstallStage::RegisteringTasks;
    }

    fn see_tasks(&mut self, r: Result<(), String>)
        ensures
            final(self)@ == tasks_registered(old(self)@, trouble(r)),
    {
        match r {
            Ok(_) => {
                let tasks = all_tasks();
                proof {
                    assert(tasks@.map_values(|t: crate::tasks::TaskSpec| t@).len() == tasks@.len());
                }
                let mut message = "Registered ".to_owned();
                text::push_dec(&mut message, tasks.len() as u64);
                message.append(" scheduled tasks for ");
                message.append(self.user.as_str());
                message.append(".");
                self.note(message);
            },
            Err(e) => {
                let mut message = "Could not register the scheduled tasks: ".to_owned();
                message.append(e.as_str());
                self.spoil(message);
            },
        }
        self.stage = if self.autostart {
            InstallStage::SettingAutostart
        } else {
            InstallStage::Finished
        };
    }

    fn see_autostart(&mut self, r: Result<(), String>)
        ensures
            final(self)@ == autostart_set(old(self)@, trouble(r)),
    {
        match r {
            Ok(_) => {
                self.note("The widget will start at logon.".to_owned());
            },
            Err(e) => {
                let mut message = "Warning: could not set autostart: ".to_owned();
                message.append(e.as_str());
                self.note(message);
            },
        }
        self.stage = InstallStage::Finished;
    }

    /// Go on with what came back.
    pub fn step(&mut self, event: InstallEvent)
        ensures
            final(self)@ == install_step(old(self)@, event@),
    {
        match (self.stage, event) {
            (InstallStage::Locating, InstallEvent::Program(p)) => self.locate(p),
            (InstallStage::MakingProgramDir, InstallEvent::Tried(r)) => self.see_dir(
                true,
                r,
                InstallStage::Copying,
            ),
            (InstallStage::Copying, InstallEvent::Tried(r)) => self.see_copy(r),
            (InstallStage::MakingDataDir, InstallEvent::Tried(r)) => self.see_dir(
                false,
                r,
                InstallStage::Hardening,
            ),
            (InstallStage::Hardening, InstallEvent::Tried(r)) => self.see_lock_down(r),
            (InstallStage::LoadingMachine, InstallEvent::Machine(c)) => {
                self.cfg = c;
                self.stage = InstallStage::ReadingAdapters;
            },
            (InstallStage::ReadingAdapters, InstallEvent::Snapshot(s)) => self.choose_adapters(&s),
            (InstallStage::ReadingPolicy, InstallEvent::Policy(p)) => self.see_policy(p),
            (InstallStage::ReadingRegistry, InstallEvent::Registry(v)) => {
                self.cfg.wcm_backup = Some(wcm::backup(v));
                self.stage = InstallStage::ChangingPolicy;
            },
            (InstallStage::ChangingPolicy, InstallEvent::PolicyChanged(c)) =>
                self.see_policy_changed(c),
            (InstallStage::SavingMachine, InstallEvent::Tried(r)) => self.see_saved(r),
            (InstallStage::RegisteringTasks, InstallEvent::Tried(r)) => self.see_tasks(r),
            (InstallStage::SettingAutostart, InstallEvent::Tried(r)) => self.see_autostart(r),
            _ => {},
        }
    }
}

// --- uninstalling ------------------------------------------------------------------------

#[derive(Debug, Clone, Copy, PartialEq, Eq, Structural)]
pub enum UninstallStage {
    /// The journal: what it takes to put the machine back, before anything is removed.
    LoadingJournal,
    /// Bindings first: a metric is meaningless on an interface with no IP stack.
    Rebinding,
    LoadingMachine,
    /// The adapters that are there now: one that is managed may have got a new LUID.
    ReadingAdapters,
    /// Undoing the last change.
    RestoringMetrics,
    /// Putting every metric back to what it was before the first change.
    RestoringFirst,
    /// Nothing that is left behind may look like an interrupted change.
    ClosingJournal,
    RestoringPolicy,
    UnregisteringTasks,
    ClearingAutostart,
    RemovingData,
    Finished,
}

/// A removal.
#[derive(Debug)]
pub struct UninstallRun {
    pub stage: UninstallStage,
    /// The directory the program is in, and the machine's data.
    pub dir: String,
    pub data_dir: String,
    pub journal: Journal,
    pub cfg: MachineConfig,
    pub nics: Vec<Nic>,
    /// Whether every binding could be put back.
    pub rebound: bool,
    /// Whether the last change could be undone.
    pub restored: bool,
    pub outcome: InstallOutcome,
}

#[verifier::ext_equal]
pub struct UninstallView {
    pub stage: UninstallStage,
    pub dir: Seq<char>,
    pub data_dir: Seq<char>,
    pub journal: JournalView,
    pub cfg: MachineView,
    pub nics: Seq<NicView>,
    pub rebound: bool,
    pub restored: bool,
    pub outcome: OutcomeView,
}

impl View for UninstallRun {
    type V = UninstallView;

    open spec fn view(&self) -> UninstallView {
        UninstallView {
            stage: self.stage,
            dir: self.dir@,
            data_dir: self.data_dir@,
            journal: self.journal@,
            cfg: self.cfg@,
            nics: nic_views(self.nics@),
            rebound: self.rebound,
            restored: self.restored,
            outcome: self.outcome@,
        }
    }
}

// Where a recorded metric is now.

/// An adapter with this LUID is there.
pub open spec fn is_present(luid: u64, nics: Seq<NicView>) -> bool {
    exists|i: int| 0 <= i < nics.len() && (#[trigger] nics[i]).luid == LuidKey(luid)
}

/// The LUID that a managed adapter has now, if it was saved under this one.
pub open spec fn moved_to(
    saved: Option<AdapterRefView>,
    kind: NicKind,
    luid: u64,
    nics: Seq<NicView>,
) -> Option<LuidKey> {
    match saved {
        Some(a) => if a.luid == luid {
            match resolved(saved, Some(kind), nics) {
                Some(i) => Some(nics[i].luid),
                None => None,
            }
        } else {
            None
        },
        None => None,
    }
}

/// What was recorded of a metric, with the LUID that its interface has now: that of the record
/// where it is there, else that of the managed adapter it belonged to, where that is found again.
pub open spec fn relocated(b: MetricBackup, cfg: MachineView, nics: Seq<NicView>) -> MetricBackup {
    if is_present(b.luid, nics) {
        b
    } else {
        match moved_to(cfg.ethernet, NicKind::Ethernet, b.luid, nics) {
            Some(l) => MetricBackup { luid: l.0, ..b },
            None => match moved_to(cfg.wifi, NicKind::Wifi, b.luid, nics) {
                Some(l) => MetricBackup { luid: l.0, ..b },
                None => b,
            },
        }
    }
}

/// All records of a list, where they are now.
pub open spec fn relocated_all(
    backups: Seq<MetricBackup>,
    cfg: MachineView,
    nics: Seq<NicView>,
) -> Seq<MetricBackup> {
    backups.map_values(|b: MetricBackup| relocated(b, cfg, nics))
}

fn has_luid(luid: u64, nics: &Vec<Nic>) -> (r: bool)
    ensures
        r == is_present(luid, nic_views(nics@)),
{
    let mut i: usize = 0;
    while i < nics.len()
        invariant
            i <= nics.len(),
            forall|k: int| 0 <= k < i ==> (#[trigger] nic_views(nics@)[k]).luid != LuidKey(luid),
        decreases nics.len() - i,
    {
        assert(nic_views(nics@)[i as int].luid == nics@[i as int].luid);
        if nics[i].luid.0 == luid {
            return true;
        }
        i = i + 1;
    }
    false
}

fn find_moved(saved: &Option<AdapterRef>, kind: NicKind, luid: u64, nics: &Vec<Nic>) -> (r: Option<
    LuidKey,
>)
    ensures
        r == moved_to(ref_view(*saved), kind, luid, nic_views(nics@)),
{
    match saved {
        Some(a) => {
            if a.luid != luid {
                return None;
            }
            match resolve_kind(Some(a), kind, nics.as_slice()) {
                Some(n) => Some(n.luid),
                None => None,
            }
        },
        None => None,
    }
}

fn relocate(b: MetricBackup, cfg: &MachineConfig, nics: &Vec<Nic>) -> (r: MetricBackup)
    ensures
        r == relocated(b, cfg@, nic_views(nics@)),
{
    if has_luid(b.luid, nics) {
        return b;
    }
    match find_moved(&cfg.ethernet, NicKind::Ethernet, b.luid, nics) {
        Some(l) => MetricBackup { luid: l.0, ..b },
        None => match find_moved(&cfg.wifi, NicKind::Wifi, b.luid, nics) {
            Some(l) => MetricBackup { luid: l.0, ..b },
            None => b,
        },
    }
}

fn relocate_all(backups: &Vec<MetricBackup>, cfg: &MachineConfig, nics: &Vec<Nic>) -> (r: Vec<
    MetricBackup,
>)
    ensures
        r@ == relocated_all(backups@, cfg@, nic_views(nics@)),
{
    let mut out: Vec<MetricBackup> = Vec::new();
    let mut i: usize = 0;
    while i < backups.len()
        invariant
            i <= backups.len(),
            out@ == relocated_all(backups@.take(i as int), cfg@, nic_views(nics@)),
        decreases backups.len() - i,
    {
        out.push(relocate(backups[i], cfg, nics));
        i = i + 1;
        assert(out@ =~= relocated_all(backups@.take(i as int), cfg@, nic_views(nics@)));
    }
    assert(backups@.take(i as int) =~= backups@);
    out
}

/// The journal once the machine is put back: closed, with nothing left to undo. Bindings that could
/// not be set stay recorded, unless they were those of an interrupted change; first values always
/// do.
pub open spec fn closed_journal(j: JournalView, rebound: bool, now: u64) -> JournalView {
    JournalView {
        schema: SCHEMA,
        mode: Mode::Auto,
        in_flight: false,
        started_unix: j.started_unix,
        finished_unix: Some(now),
        restore: Seq::empty(),
        bindings: if rebound || j.torn() {
            Seq::empty()
        } else {
            j.bindings
        },
        touched: first_kept(j.touched, j.restore),
        last_error: None,
    }
}

/// What a removal does at each stage.
pub open spec fn uninstall_asks(r: UninstallView) -> InstallActionView {
    match r.stage {
        UninstallStage::LoadingJournal => InstallActionView::LoadJournal,
        UninstallStage::Rebinding => InstallActionView::WriteBindings(r.journal.bindings),
        UninstallStage::LoadingMachine => InstallActionView::LoadMachine,
        UninstallStage::ReadingAdapters => InstallActionView::ReadSnapshot,
        UninstallStage::RestoringMetrics => InstallActionView::WriteMetrics(
            restoring_all(relocated_all(r.journal.restore, r.cfg, r.nics)),
        ),
        UninstallStage::RestoringFirst => InstallActionView::WriteMetrics(
            restoring_all(relocated_all(r.journal.touched, r.cfg, r.nics)),
        ),
        UninstallStage::ClosingJournal => InstallActionView::SaveJournal(r.journal),
        UninstallStage::RestoringPolicy => match r.cfg.wcm_backup {
            Some(b) => InstallActionView::ChangePolicy(wcm::restoring(b)),
            None => InstallActionView::Nothing,
        },
        UninstallStage::UnregisteringTasks => InstallActionView::UnregisterTasks,
        UninstallStage::ClearingAutostart => InstallActionView::SetAutostart(None),
        UninstallStage::RemovingData => InstallActionView::RemoveData,
        UninstallStage::Finished => InstallActionView::Nothing,
    }
}

/// Things said, and whether all went well so far.
pub open spec fn told(r: UninstallView, ok: bool, message: Seq<char>) -> UninstallView {
    UninstallView {
        outcome: OutcomeView { ok: r.outcome.ok && ok, messages: r.outcome.messages.push(message) },
        ..r
    }
}

/// The last thing that is said.
pub open spec fn parting(r: UninstallView) -> UninstallView {
    UninstallView {
        stage: UninstallStage::Finished,
        ..told(
            r,
            true,
            "The program itself is still at "@ + r.dir + "; delete that folder to finish."@,
        )
    }
}

/// The startup entry is gone, or not. The data is removed only where everything went well: the log
/// is the only record of what did not.
pub open spec fn autostart_cleared(r: UninstallView, e: Option<Seq<char>>) -> UninstallView {
    let cleared = match e {
        None => r,
        Some(e) => told(r, true, "Warning: could not clear autostart: "@ + e),
    };
    if r.outcome.ok {
        UninstallView { stage: UninstallStage::RemovingData, ..cleared }
    } else {
        parting(
            told(
                cleared,
                true,
                "Left "@ + r.data_dir + " in place so the log can be inspected."@,
            ),
        )
    }
}

/// There is nothing left to do for any of these metrics: it was written, or what it belonged to is
/// gone.
pub open spec fn all_settled(v: Seq<FamilyOutcome>) -> bool {
    forall|i: int| 0 <= i < v.len() ==> (#[trigger] v[i]).ok() || v[i] is AdapterGone
}

fn every_settled(v: &Vec<FamilyOutcome>) -> (r: bool)
    ensures
        r == all_settled(v@),
{
    let mut i: usize = 0;
    while i < v.len()
        invariant
            i <= v.len(),
            forall|k: int| 0 <= k < i ==> (#[trigger] v@[k]).ok() || v@[k] is AdapterGone,
        decreases v.len() - i,
    {
        let gone = match v[i] {
            FamilyOutcome::AdapterGone => true,
            _ => false,
        };
        if !gone && !v[i].is_ok() {
            return false;
        }
        i = i + 1;
    }
    true
}

/// What is said of the metrics, once all have been tried.
pub open spec fn metrics_told(r: UninstallView, v: Seq<FamilyOutcome>) -> UninstallView {
    if r.restored && all_ok(v) {
        told(r, true, "Restored every metric LinkSwitch changed."@)
    } else if r.restored && all_settled(v) {
        told(r, true, "Restored every metric LinkSwitch changed on adapters that are still here."@)
    } else {
        told(r, false, "Could not restore every metric LinkSwitch changed."@)
    }
}

/// The next state of a removal. What it is not waiting for leaves it where it is.
pub open spec fn uninstall_step(r: UninstallView, e: InstallEventView, now: u64) -> UninstallView {
    match (r.stage, e) {
        (UninstallStage::LoadingJournal, InstallEventView::Journal(j)) => UninstallView {
            journal: j,
            stage: UninstallStage::Rebinding,
            ..r
        },
        (UninstallStage::Rebinding, InstallEventView::Bindings(v)) => UninstallView {
            rebound: all_true(v),
            stage: UninstallStage::LoadingMachine,
            ..if all_true(v) {
                r
            } else {
                told(r, false, "Could not reattach Ethernet's IP stack."@)
            }
        },
        (UninstallStage::LoadingMachine, InstallEventView::Machine(c)) => UninstallView {
            cfg: c,
            stage: UninstallStage::ReadingAdapters,
            ..r
        },
        (UninstallStage::ReadingAdapters, InstallEventView::Snapshot(nics)) => UninstallView {
            nics,
            stage: UninstallStage::RestoringMetrics,
            ..r
        },
        (UninstallStage::RestoringMetrics, InstallEventView::MetricsWritten(v)) => UninstallView {
            restored: all_settled(v),
            stage: UninstallStage::RestoringFirst,
            ..r
        },
        (UninstallStage::RestoringFirst, InstallEventView::MetricsWritten(v)) => UninstallView {
            journal: closed_journal(r.journal, r.rebound, now),
            stage: UninstallStage::ClosingJournal,
            ..metrics_told(r, v)
        },
        (UninstallStage::ClosingJournal, InstallEventView::Tried(_)) => UninstallView {
            stage: if r.cfg.wcm_backup is Some {
                UninstallStage::RestoringPolicy
            } else {
                UninstallStage::UnregisteringTasks
            },
            ..r
        },
        (UninstallStage::RestoringPolicy, InstallEventView::PolicyChanged(c)) => UninstallView {
            stage: UninstallStage::UnregisteringTasks,
            ..match c {
                Ok(_) => told(r, true, "Restored the Windows Wi-Fi connection policy."@),
                Err(rc) => told(
                    r,
                    false,
                    "Could not restore the Wi-Fi policy: "@ + text::dec(rc as nat),
                ),
            }
        },
        (UninstallStage::UnregisteringTasks, InstallEventView::Tried(e)) => UninstallView {
            stage: UninstallStage::ClearingAutostart,
            ..match e {
                None => told(r, true, "Removed the scheduled tasks."@),
                Some(e) => told(r, false, "Could not remove the scheduled tasks: "@ + e),
            }
        },
        (UninstallStage::ClearingAutostart, InstallEventView::Tried(e)) => autostart_cleared(r, e),
        (UninstallStage::RemovingData, InstallEventView::Tried(_)) => parting(
            told(r, true, "Removed LinkSwitch's data."@),
        ),
        _ => r,
    }
}

/// Uninstall: the start of the run. Without administrator rights it is over before it begins.
pub fn uninstall(elevated: bool, dir: String, data_dir: String) -> (r: UninstallRun)
    ensures
        r@.dir == dir@,
        r@.data_dir == data_dir@,
        elevated ==> r@.stage is LoadingJournal && r@.outcome == (OutcomeView {
            ok: true,
            messages: Seq::empty(),
        }),
        !elevated ==> r@.stage is Finished && r@.outcome == (OutcomeView {
            ok: false,
            messages: seq!["Uninstall needs administrator rights."@],
        }),
{
    let mut messages: Vec<String> = Vec::new();
    if !elevated {
        messages.push("Uninstall needs administrator rights.".to_owned());
    }
    let r = UninstallRun {
        stage: if elevated {
            UninstallStage::LoadingJournal
        } else {
            UninstallStage::Finished
        },
        dir,
        data_dir,
        journal: Journal::default(),
        cfg: MachineConfig::default(),
        nics: Vec::new(),
        rebound: false,
        restored: false,
        outcome: InstallOutcome { ok: elevated, messages },
    };
    proof {
        if elevated {
            assert(r@.outcome.messages =~= Seq::empty());
        } else {
            assert(r@.outcome.messages =~= seq!["Uninstall needs administrator rights."@]);
        }
    }
    r
}

impl UninstallRun {
    /// What has to be done now.
    pub fn action(&self) -> (r: InstallAction<'_>)
        ensures
            r@ == uninstall_asks(self@),
    {
        match self.stage {
            UninstallStage::LoadingJournal => InstallAction::LoadJournal,
            UninstallStage::Rebinding => InstallAction::WriteBindings(&self.journal.bindings),
            UninstallStage::LoadingMachine => InstallAction::LoadMachine,
            UninstallStage::ReadingAdapters => InstallAction::ReadSnapshot,
            UninstallStage::RestoringMetrics => InstallAction::WriteMetrics(
                restore_backups(&relocate_all(&self.journal.restore, &self.cfg, &self.nics)),
            ),
            UninstallStage::RestoringFirst => InstallAction::WriteMetrics(
                restore_backups(&relocate_all(&self.journal.touched, &self.cfg, &self.nics)),
            ),
            UninstallStage::ClosingJournal => InstallAction::SaveJournal(&self.journal),
            UninstallStage::RestoringPolicy => match self.cfg.wcm_backup {
                Some(b) => InstallAction::ChangePolicy(wcm::restore(b)),
                None => InstallAction::Nothing,
            },
            UninstallStage::UnregisteringTasks => InstallAction::UnregisterTasks,
            UninstallStage::ClearingAutostart => InstallAction::SetAutostart(None),
            UninstallStage::RemovingData => InstallAction::RemoveData,
            UninstallStage::Finished => InstallAction::Nothing,
        }
    }

    fn tell(&mut self, ok: bool, message: String)
        ensures
            final(self)@ == told(old(self)@, ok, message@),
    {
        self.outcome.ok = self.outcome.ok && ok;
        self.outcome.messages.push(message);
        assert(self.outcome@.messages =~= old(self)@.outcome.messages.push(message@));
    }

    fn part(&mut self)
        ensures
            final(self)@ == parting(old(self)@),
    {
        let message = said(
            "The program itself is still at ",
            self.dir.as_str(),
            "; delete that folder to finish.",
        );
        self.tell(true, message);
        self.stage = UninstallStage::Finished;
    }

    fn see_autostart(&mut self, r: Result<(), String>)
        ensures
            final(self)@ == autostart_cleared(old(self)@, trouble(r)),
    {
        if let Err(e) = r {
            let mut message = "Warning: could not clear autostart: ".to_owned();
            message.append(e.as_str());
            self.tell(true, message);
        }
        if self.outcome.ok {
            self.stage = UninstallStage::RemovingData;
        } else {
            let message = said(
                "Left ",
                self.data_dir.as_str(),
                " in place so the log can be inspected.",
            );
            self.tell(true, message);
            self.part();
        }
    }

    fn see_policy(&mut self, c: Result<(), u32>)
        ensures
            final(self)@ == (UninstallView {
                stage: UninstallStage::UnregisteringTasks,
                ..match c {
                    Ok(_) => told(
                        old(self)@,
                        true,
                        "Restored the Windows Wi-Fi connection policy."@,
                    ),
                    Err(rc) => told(
                        old(self)@,
                        false,
                        "Could not restore the Wi-Fi policy: "@ + text::dec(rc as nat),
                    ),
                }
            }),
    {
        match c {
            Ok(_) => {
                self.tell(true, "Restored the Windows Wi-Fi connection policy.".to_owned());
            },
            Err(rc) => {
                let mut message = "Could not restore the Wi-Fi policy: ".to_owned();
                text::push_dec(&mut message, rc as u64);
                self.tell(false, message);
            },
        }
        self.stage = UninstallStage::UnregisteringTasks;
    }

    fn see_unregistered(&mut self, r: Result<(), String>)
        ensures
            final(self)@ == (UninstallView {
                stage: UninstallStage::ClearingAutostart,
                ..match trouble(r) {
                    None => told(old(self)@, true, "Removed the scheduled tasks."@),
                    Some(e) => told(
                        old(self)@,
                        false,
                        "Could not remove the scheduled tasks: "@ + e,
                    ),
                }
            }),
    {
        match r {
            Ok(_) => {
                self.tell(true, "Removed the scheduled tasks.".to_owned());
            },
            Err(e) => {
                let mut message = "Could not remove the scheduled tasks: ".to_owned();
                message.append(e.as_str());
                self.tell(false, message);
            },
        }
        self.stage = UninstallStage::ClearingAutostart;
    }

    fn see_first_restored(&mut self, v: &Vec<FamilyOutcome>, now: u64)
        ensures
            final(self)@ == (UninstallView {
                journal: closed_journal(old(self)@.journal, old(self)@.rebound, now),
                stage: UninstallStage::ClosingJournal,
                ..metrics_told(old(self)@, v@)
            }),
    {
        if self.restored && every_ok(v) {
            self.tell(true, "Restored every metric LinkSwitch changed.".to_owned());
        } else if self.restored && every_settled(v) {
            self.tell(
                true,
                "Restored every metric LinkSwitch changed on adapters that are still here.".to_owned(),
            );
        } else {
            self.tell(false, "Could not restore every metric LinkSwitch changed.".to_owned());
        }
        let torn = self.journal.is_torn();
        keep_first(&mut self.journal.touched, &self.journal.restore);
        self.journal.schema = SCHEMA;
        self.journal.mode = Mode::Auto;
        self.journal.in_flight = false;
        self.journal.finished_unix = Some(now);
        self.journal.restore = Vec::new();
        if self.rebound || torn {
            self.journal.bindings = Vec::new();
        }
        self.journal.last_error = None;
        self.stage = UninstallStage::ClosingJournal;
        assert(self@.journal =~= closed_journal(old(self)@.journal, old(self)@.rebound, now));
    }

    /// Go on with what came back; `now` is the time, in seconds since 1970.
    pub fn step(&mut self, event: InstallEvent, now: u64)
        ensures
            final(self)@ == uninstall_step(old(self)@, event@, now),
    {
        match (self.stage, event) {
            (UninstallStage::LoadingJournal, InstallEvent::Journal(j)) => {
                self.journal = j;
                self.stage = UninstallStage::Rebinding;
            },
            (UninstallStage::Rebinding, InstallEvent::Bindings(v)) => {
                self.rebound = every_true(&v);
                if !self.rebound {
                    self.tell(false, "Could not reattach Ethernet's IP stack.".to_owned());
                }
                self.stage = UninstallStage::LoadingMachine;
            },
            (UninstallStage::LoadingMachine, InstallEvent::Machine(c)) => {
                self.cfg = c;
                self.stage = UninstallStage::ReadingAdapters;
            },
            (UninstallStage::ReadingAdapters, InstallEvent::Snapshot(s)) => {
                self.nics = s.nics;
                self.stage = UninstallStage::RestoringMetrics;
            },
            (UninstallStage::RestoringMetrics, InstallEvent::MetricsWritten(v)) => {
                self.restored = every_settled(&v);
                self.stage = UninstallStage::RestoringFirst;
            },
            (UninstallStage::RestoringFirst, InstallEvent::MetricsWritten(v)) =>
                self.see_first_restored(&v, now),
            (UninstallStage::ClosingJournal, InstallEvent::Tried(_)) => {
                self.stage = if self.cfg.wcm_backup.is_some() {
                    UninstallStage::RestoringPolicy
                } else {
                    UninstallStage::UnregisteringTasks
                };
            },
            (UninstallStage::RestoringPolicy, InstallEvent::PolicyChanged(c)) => self.see_policy(c),
            (UninstallStage::UnregisteringTasks, InstallEvent::Tried(r)) => self.see_unregistered(
                r,
            ),
            (UninstallStage::ClearingAutostart, InstallEvent::Tried(r)) => self.see_autostart(r),
            (UninstallStage::RemovingData, InstallEvent::Tried(_)) => {
                self.tell(true, "Removed LinkSwitch's data.".to_owned());
                self.part();
            },
            _ => {},
        }
    }
}

// --- asking for a switch -----------------------------------------------------------------

/// What an elevated copy that was asked for came to, in words for the user.
pub fn self_elevate(launched: Result<u32, ElevateError>) -> (r: Result<u32, String>)
    ensures
        match launched {
            Ok(code) => r == Ok::<u32, String>(code),
            Err(ElevateError::Declined) => r matches Err(m) && m@
                == "Administrator rights are needed, and the request was declined."@,
            Err(ElevateError::Failed(e)) => r == Err::<u32, String>(e),
        },
{
    match launched {
        Ok(code) => Ok(code),
        Err(ElevateError::Declined) => Err(
            "Administrator rights are needed, and the request was declined.".to_owned(),
        ),
        Err(ElevateError::Failed(e)) => Err(e),
    }
}

/// The arguments of an elevated copy that applies a mode.
pub open spec fn apply_arguments(mode: Mode) -> Seq<Seq<char>> {
    seq!["--apply"@, mode.name()]
}

/// How a request to apply a mode goes on after the scheduled task was tried.
#[derive(Debug)]
pub enum Request {
    /// The task was started.
    Done,
    /// The task is not to be had; start an elevated copy with these arguments, which prompts.
    Elevate(Vec<&'static str>),
}

/// Ask the worker to apply a mode, preferring the path without a prompt.
///
/// Normally this starts the registered task. When the tasks are missing it falls back to an
/// elevated copy: prompting is worse, but working is better than not working.
pub fn request_apply(mode: Mode, started: bool) -> (r: Request)
    ensures
        match r {
            Request::Done => started,
            Request::Elevate(args) => !started && args@.map_values(|a: &'static str| a@)
                == apply_arguments(mode),
        },
{
    if started {
        Request::Done
    } else {
        let mut args: Vec<&'static str> = Vec::new();
        args.push("--apply");
        args.push(mode.as_str());
        assert(args@.map_values(|a: &'static str| a@) =~= apply_arguments(mode));
        Request::Elevate(args)
    }
}

/// What the elevated copy came to; `task_error` says why the task could not be started.
pub fn elevated_apply(elevated: Result<u32, String>, task_error: &str) -> (r: Result<(), String>)
    ensures
        match elevated {
            Ok(code) => if code == exit::OK {
                r is Ok
            } else {
                r matches Err(m) && m@ == "The switch failed (exit code "@ + text::dec(code as nat)
                    + "). "@ + task_error@
            },
            Err(e) => r == Err::<(), String>(e),
        },
{
    match elevated {
        Ok(code) => {
            if code == exit::OK {
                Ok(())
            } else {
                let mut m = "The switch failed (exit code ".to_owned();
                text::push_dec(&mut m, code as u64);
                m.append("). ");
                m.append(task_error);
                Err(m)
            }
        },
        Err(e) => Err(e),
    }
}

// --- what holds of them ------------------------------------------------------------------

/// An installation keeps a choice of adapters that was made before, whatever is found now.
pub proof fn an_earlier_choice_is_kept(r: InstallView, nics: Seq<NicView>)
    requires
        r.stage is ReadingAdapters,
    ensures
        ({
            let after = install_step(r, InstallEventView::Snapshot(nics));
            &&& r.cfg.ethernet is Some ==> after.cfg.ethernet == r.cfg.ethernet
            &&& r.cfg.wifi is Some ==> after.cfg.wifi == r.cfg.wifi
        }),
{
}

/// What the policy was before LinkSwitch changed it is captured before the change is asked for, is
/// not overwritten by a second installation, and is what a removal puts back.
pub proof fn a_removal_undoes_the_policy_change(
    r: InstallView,
    p: PolicyState,
    registry: Option<u32>,
    removal: UninstallView,
    nics: Seq<NicView>,
    undone: Seq<FamilyOutcome>,
    first: Seq<FamilyOutcome>,
    saved: Option<Seq<char>>,
    now: u64,
)
    requires
        r.stage is ReadingPolicy,
        !p.is_group_policy,
        removal.stage is LoadingMachine,
    ensures
        ({
            let asked = install_step(r, InstallEventView::Policy(p));
            let ready = if asked.stage is ReadingRegistry {
                install_step(asked, InstallEventView::Registry(registry))
            } else {
                asked
            };
            let known = uninstall_step(removal, InstallEventView::Machine(ready.cfg), now);
            let found = uninstall_step(known, InstallEventView::Snapshot(nics), now);
            let back = uninstall_step(found, InstallEventView::MetricsWritten(undone), now);
            let closing = uninstall_step(back, InstallEventView::MetricsWritten(first), now);
            let closed = uninstall_step(closing, InstallEventView::Tried(saved), now);
            &&& install_asks(ready) == InstallActionView::ChangePolicy(RegistryChange::Write(0))
            &&& r.cfg.wcm_backup is Some ==> ready.cfg.wcm_backup == r.cfg.wcm_backup
                && uninstall_asks(closed) == InstallActionView::ChangePolicy(
                wcm::restoring(r.cfg.wcm_backup->0),
            )
            &&& r.cfg.wcm_backup is None ==> uninstall_asks(closed)
                == InstallActionView::ChangePolicy(wcm::restoring(wcm::backup_of(registry)))
                && wcm::registry_after(wcm::restoring(wcm::backup_of(registry))) == registry
        }),
{
    wcm::restore_undoes_any_change(registry);
}

/// One answer to a removal: what came back, and when.
pub struct Reply {
    pub event: InstallEventView,
    pub now: u64,
}

/// A removal after some answers.
pub open spec fn removal_after(start: UninstallView, replies: Seq<Reply>) -> UninstallView
    decreases replies.len(),
{
    if replies.len() == 0 {
        start
    } else {
        uninstall_step(
            removal_after(start, replies.drop_last()),
            replies.last().event,
            replies.last().now,
        )
    }
}

/// How far a removal has come.
pub open spec fn removal_place(stage: UninstallStage) -> int {
    match stage {
        UninstallStage::LoadingJournal => 0,
        UninstallStage::Rebinding => 1,
        UninstallStage::LoadingMachine => 2,
        UninstallStage::ReadingAdapters => 3,
        UninstallStage::RestoringMetrics => 4,
        UninstallStage::RestoringFirst => 5,
        UninstallStage::ClosingJournal => 6,
        UninstallStage::RestoringPolicy => 7,
        UninstallStage::UnregisteringTasks => 8,
        UninstallStage::ClearingAutostart => 9,
        UninstallStage::RemovingData => 10,
        UninstallStage::Finished => 11,
    }
}

/// The stages at which the machine is being put back.
pub open spec fn puts_back(stage: UninstallStage) -> bool {
    removal_place(stage) <= removal_place(UninstallStage::ClosingJournal)
}

/// Answer `k` was this, at this stage.
pub open spec fn removal_heard(
    start: UninstallView,
    replies: Seq<Reply>,
    k: int,
    stage: UninstallStage,
    event: InstallEventView,
) -> bool {
    &&& 0 <= k < replies.len()
    &&& removal_after(start, replies.take(k)).stage == stage
    &&& replies[k].event == event
}

/// After `k` answers a removal asked for this.
pub open spec fn removal_asked(
    start: UninstallView,
    replies: Seq<Reply>,
    k: int,
    action: InstallActionView,
) -> bool {
    0 <= k < replies.len() && uninstall_asks(removal_after(start, replies.take(k))) == action
}

/// At some moment a removal asked for this metric to be written.
pub open spec fn write_asked(start: UninstallView, replies: Seq<Reply>, w: MetricWrite) -> bool {
    exists|k: int, writes: Seq<MetricWrite>| #[trigger]
        removal_asked(start, replies, k, InstallActionView::WriteMetrics(writes))
            && writes.contains(w)
}

/// One step: on, by exactly one stage as long as the machine is being put back, or none. What was
/// heard is kept.
proof fn lemma_removal_step(r: UninstallView, e: InstallEventView, now: u64)
    ensures
        ({
            let next = uninstall_step(r, e, now);
            &&& next == r || removal_place(next.stage) > removal_place(r.stage)
            &&& removal_place(r.stage) < 6 ==> next == r || removal_place(next.stage)
                == removal_place(r.stage) + 1
            &&& r.stage !is LoadingJournal && r.stage !is RestoringFirst ==> next.journal
                == r.journal
            &&& r.stage !is LoadingMachine ==> next.cfg == r.cfg
            &&& r.stage !is ReadingAdapters ==> next.nics == r.nics
            &&& r.stage is LoadingJournal && next != r ==> e == InstallEventView::Journal(
                next.journal,
            )
            &&& r.stage is LoadingMachine && next != r ==> e == InstallEventView::Machine(next.cfg)
            &&& r.stage is ReadingAdapters && next != r ==> e == InstallEventView::Snapshot(
                next.nics,
            )
            &&& r.stage is RestoringFirst && next != r ==> next.journal == closed_journal(
                r.journal,
                r.rebound,
                now,
            )
        }),
{
}

/// A removal does not go back.
proof fn lemma_removal_goes_on(start: UninstallView, replies: Seq<Reply>, k: int)
    requires
        0 <= k <= replies.len(),
    ensures
        removal_place(removal_after(start, replies.take(k)).stage) <= removal_place(
            removal_after(start, replies).stage,
        ),
    decreases replies.len(),
{
    if k == replies.len() {
        assert(replies.take(k) =~= replies);
    } else {
        let before = replies.drop_last();
        assert(before.take(k) =~= replies.take(k));
        lemma_removal_goes_on(start, before, k);
        lemma_removal_step(
            removal_after(start, before),
            replies.last().event,
            replies.last().now,
        );
    }
}

/// Every stage that lies behind a removal was left at some answer.
proof fn lemma_stage_left(start: UninstallView, replies: Seq<Reply>, p: int) -> (k: int)
    requires
        start.stage is LoadingJournal,
        0 <= p <= 6,
        removal_place(removal_after(start, replies).stage) > p,
    ensures
        0 <= k < replies.len(),
        removal_place(removal_after(start, replies.take(k)).stage) == p,
        removal_place(removal_after(start, replies.take(k + 1)).stage) > p,
    decreases replies.len(),
{
    if replies.len() == 0 {
        0
    } else {
        let before = replies.drop_last();
        let last = replies.len() - 1;
        assert(replies.take(last) =~= before);
        assert(replies.take(last + 1) =~= replies);
        lemma_removal_step(
            removal_after(start, before),
            replies.last().event,
            replies.last().now,
        );
        if removal_place(removal_after(start, before).stage) > p {
            let k = lemma_stage_left(start, before, p);
            assert(before.take(k) =~= replies.take(k));
            assert(before.take(k + 1) =~= replies.take(k + 1));
            k
        } else {
            last
        }
    }
}

/// What was heard is what a removal goes by.
proof fn lemma_heard(
    start: UninstallView,
    replies: Seq<Reply>,
    k: int,
    stage: UninstallStage,
    event: InstallEventView,
)
    requires
        start.stage is LoadingJournal,
        removal_heard(start, replies, k, stage, event),
        (stage is LoadingJournal && event is Journal) || (stage is LoadingMachine
            && event is Machine) || (stage is ReadingAdapters && event is Snapshot),
    ensures
        ({
            let r = removal_after(start, replies);
            &&& removal_place(r.stage) > removal_place(stage)
            &&& event matches InstallEventView::Journal(j) ==> (removal_place(r.stage) <= 5
                ==> r.journal == j)
            &&& event matches InstallEventView::Machine(c) ==> r.cfg == c
            &&& event matches InstallEventView::Snapshot(nics) ==> r.nics == nics
        }),
    decreases replies.len(),
{
    let before = replies.drop_last();
    lemma_removal_step(removal_after(start, before), replies.last().event, replies.last().now);
    if k == replies.len() - 1 {
        assert(replies.take(k) =~= before);
    } else {
        assert(before.take(k) =~= replies.take(k));
        lemma_heard(start, before, k, stage, event);
    }
}

/// What was heard before a later stage is what counts there.
proof fn lemma_heard_at(
    start: UninstallView,
    replies: Seq<Reply>,
    k: int,
    stage: UninstallStage,
    event: InstallEventView,
    n: int,
)
    requires
        start.stage is LoadingJournal,
        removal_heard(start, replies, k, stage, event),
        0 <= n < replies.len(),
        removal_place(removal_after(start, replies.take(n)).stage) > removal_place(stage),
        (stage is LoadingJournal && event is Journal) || (stage is LoadingMachine
            && event is Machine) || (stage is ReadingAdapters && event is Snapshot),
    ensures
        ({
            let r = removal_after(start, replies.take(n));
            &&& event matches InstallEventView::Journal(j) ==> (removal_place(r.stage) <= 5
                ==> r.journal == j)
            &&& event matches InstallEventView::Machine(c) ==> r.cfg == c
            &&& event matches InstallEventView::Snapshot(nics) ==> r.nics == nics
        }),
{
    let first = replies.take(n);
    if k >= n {
        let longer = replies.take(k);
        lemma_removal_goes_on(start, longer, n);
        assert(longer.take(n) =~= first);
    }
    assert(first.take(k) =~= replies.take(k));
    assert(removal_heard(start, first, k, stage, event));
    lemma_heard(start, first, k, stage, event);
}

/// A removal that is done with putting the machine back has heard all it takes.
proof fn lemma_all_heard(start: UninstallView, replies: Seq<Reply>) -> (found: (
    int,
    JournalView,
    int,
    MachineView,
    int,
    Seq<NicView>,
))
    requires
        start.stage is LoadingJournal,
        !puts_back(removal_after(start, replies).stage),
    ensures
        removal_heard(
            start,
            replies,
            found.0,
            UninstallStage::LoadingJournal,
            InstallEventView::Journal(found.1),
        ),
        removal_heard(
            start,
            replies,
            found.2,
            UninstallStage::LoadingMachine,
            InstallEventView::Machine(found.3),
        ),
        removal_heard(
            start,
            replies,
            found.4,
            UninstallStage::ReadingAdapters,
            InstallEventView::Snapshot(found.5),
        ),
{
    let a = lemma_stage_left(start, replies, 0);
    let b = lemma_stage_left(start, replies, 2);
    let c = lemma_stage_left(start, replies, 3);
    lemma_answer(start, replies, a);
    lemma_answer(start, replies, b);
    lemma_answer(start, replies, c);
    (
        a,
        removal_after(start, replies.take(a + 1)).journal,
        b,
        removal_after(start, replies.take(b + 1)).cfg,
        c,
        removal_after(start, replies.take(c + 1)).nics,
    )
}

proof fn lemma_answer(start: UninstallView, replies: Seq<Reply>, k: int)
    requires
        0 <= k < replies.len(),
    ensures
        ({
            let was = removal_after(start, replies.take(k));
            let r = removal_after(start, replies.take(k + 1));
            &&& r == uninstall_step(was, replies[k].event, replies[k].now)
            &&& was.stage is LoadingJournal && r != was ==> replies[k].event
                == InstallEventView::Journal(r.journal)
            &&& was.stage is LoadingMachine && r != was ==> replies[k].event
                == InstallEventView::Machine(r.cfg)
            &&& was.stage is ReadingAdapters && r != was ==> replies[k].event
                == InstallEventView::Snapshot(r.nics)
        }),
{
    assert(replies.take(k + 1).drop_last() =~= replies.take(k));
    assert(replies.take(k + 1).last() == replies[k]);
    lemma_removal_step(
        removal_after(start, replies.take(k)),
        replies[k].event,
        replies[k].now,
    );
}

proof fn lemma_write_asked(
    start: UninstallView,
    replies: Seq<Reply>,
    k: int,
    backups: Seq<MetricBackup>,
    b: MetricBackup,
    cfg: MachineView,
    nics: Seq<NicView>,
)
    requires
        removal_asked(
            start,
            replies,
            k,
            InstallActionView::WriteMetrics(restoring_all(relocated_all(backups, cfg, nics))),
        ),
        backups.contains(b),
    ensures
        write_asked(start, replies, restoring(relocated(b, cfg, nics))),
{
    let writes = restoring_all(relocated_all(backups, cfg, nics));
    let i = choose|i: int| 0 <= i < backups.len() && backups[i] == b;
    assert(writes[i] == restoring(relocated(b, cfg, nics)));
    assert(writes.contains(restoring(relocated(b, cfg, nics))));
}

/// The machine is put back first: a removal that does anything else has read the journal, the
/// configuration and the adapters, and has asked for the bindings that the journal records, and for
/// every metric it records -- whether from the last change or from before the first -- to be
/// written exactly as recorded: automatic where it was automatic, else the very number. Each goes
/// to the interface it was recorded for; where that is not there any more but is one of the two
/// that are managed, to where that is found now.
pub proof fn the_machine_is_put_back_first(
    start: UninstallView,
    replies: Seq<Reply>,
    j: JournalView,
    c: MachineView,
    nics: Seq<NicView>,
    b: MetricBackup,
)
    requires
        start.stage is LoadingJournal,
        !puts_back(removal_after(start, replies).stage),
    ensures
        exists|k: int, j: JournalView| #[trigger]
            removal_heard(
                start,
                replies,
                k,
                UninstallStage::LoadingJournal,
                InstallEventView::Journal(j),
            ),
        exists|k: int, c: MachineView| #[trigger]
            removal_heard(
                start,
                replies,
                k,
                UninstallStage::LoadingMachine,
                InstallEventView::Machine(c),
            ),
        exists|k: int, nics: Seq<NicView>| #[trigger]
            removal_heard(
                start,
                replies,
                k,
                UninstallStage::ReadingAdapters,
                InstallEventView::Snapshot(nics),
            ),
        went_by(start, replies, j, c, nics) ==> exists|n: int| #[trigger]
            removal_asked(start, replies, n, InstallActionView::WriteBindings(j.bindings)),
        went_by(start, replies, j, c, nics) && (j.restore.contains(b) || j.touched.contains(b))
            ==> write_asked(
            start,
            replies,
            MetricWrite {
                luid: LuidKey(relocated(b, c, nics).luid),
                family: if b.family_v6 {
                    AF_INET6
                } else {
                    AF_INET
                },
                target: if b.automatic {
                    None
                } else {
                    Some(b.metric)
                },
            },
        ),
        is_present(b.luid, nics) ==> relocated(b, c, nics).luid == b.luid,
{
    lemma_all_heard(start, replies);
    if went_by(start, replies, j, c, nics) {
        let rebinding = lemma_stage_left(start, replies, 1);
        let restoring_last = lemma_stage_left(start, replies, 4);
        let restoring_first = lemma_stage_left(start, replies, 5);
        lemma_went_by(start, replies, j, c, nics, rebinding);
        lemma_went_by(start, replies, j, c, nics, restoring_last);
        lemma_went_by(start, replies, j, c, nics, restoring_first);
        assert(removal_asked(
            start,
            replies,
            rebinding,
            InstallActionView::WriteBindings(j.bindings),
        ));
        if j.restore.contains(b) {
            lemma_write_asked(start, replies, restoring_last, j.restore, b, c, nics);
        }
        if j.touched.contains(b) {
            lemma_write_asked(start, replies, restoring_first, j.touched, b, c, nics);
        }
    }
}

/// These are the journal, the configuration and the adapters that a removal was given.
pub open spec fn went_by(
    start: UninstallView,
    replies: Seq<Reply>,
    j: JournalView,
    c: MachineView,
    nics: Seq<NicView>,
) -> bool {
    &&& exists|k: int| #[trigger]
        removal_heard(
            start,
            replies,
            k,
            UninstallStage::LoadingJournal,
            InstallEventView::Journal(j),
        )
    &&& exists|k: int| #[trigger]
        removal_heard(
            start,
            replies,
            k,
            UninstallStage::LoadingMachine,
            InstallEventView::Machine(c),
        )
    &&& exists|k: int| #[trigger]
        removal_heard(
            start,
            replies,
            k,
            UninstallStage::ReadingAdapters,
            InstallEventView::Snapshot(nics),
        )
}

proof fn lemma_went_by(
    start: UninstallView,
    replies: Seq<Reply>,
    j: JournalView,
    c: MachineView,
    nics: Seq<NicView>,
    n: int,
)
    requires
        start.stage is LoadingJournal,
        went_by(start, replies, j, c, nics),
        0 <= n < replies.len(),
    ensures
        ({
            let r = removal_after(start, replies.take(n));
            &&& 1 <= removal_place(r.stage) <= 5 ==> r.journal == j
            &&& removal_place(r.stage) >= 3 ==> r.cfg == c
            &&& removal_place(r.stage) >= 4 ==> r.nics == nics
        }),
{
    let place = removal_place(removal_after(start, replies.take(n)).stage);
    if place >= 1 {
        let k = choose|k: int| #[trigger]
            removal_heard(
                start,
                replies,
                k,
                UninstallStage::LoadingJournal,
                InstallEventView::Journal(j),
            );
        lemma_heard_at(
            start,
            replies,
            k,
            UninstallStage::LoadingJournal,
            InstallEventView::Journal(j),
            n,
        );
    }
    if place >= 3 {
        let k = choose|k: int| #[trigger]
            removal_heard(
                start,
                replies,
                k,
                UninstallStage::LoadingMachine,
                InstallEventView::Machine(c),
            );
        lemma_heard_at(
            start,
            replies,
            k,
            UninstallStage::LoadingMachine,
            InstallEventView::Machine(c),
            n,
        );
    }
    if place >= 4 {
        let k = choose|k: int| #[trigger]
            removal_heard(
                start,
                replies,
                k,
                UninstallStage::ReadingAdapters,
                InstallEventView::Snapshot(nics),
            );
        lemma_heard_at(
            start,
            replies,
            k,
            UninstallStage::ReadingAdapters,
            InstallEventView::Snapshot(nics),
            n,
        );
    }
}

/// A managed adapter that got a new LUID is found again: where the record's own is gone, the value
/// goes to the adapter that the saved one resolves to among those of its kind.
pub proof fn a_moved_adapter_gets_its_metric_back(
    b: MetricBackup,
    cfg: MachineView,
    nics: Seq<NicView>,
)
    requires
        !is_present(b.luid, nics),
    ensures
        ({
            let r = relocated(b, cfg, nics);
            let eth = resolved(cfg.ethernet, Some(NicKind::Ethernet), nics);
            let wifi = resolved(cfg.wifi, Some(NicKind::Wifi), nics);
            let was_eth = cfg.ethernet is Some && (cfg.ethernet->0).luid == b.luid;
            let was_wifi = cfg.wifi is Some && (cfg.wifi->0).luid == b.luid;
            &&& r.family_v6 == b.family_v6 && r.metric == b.metric && r.automatic == b.automatic
            &&& was_eth && eth is Some ==> LuidKey(r.luid) == nics[eth->0].luid
            &&& was_wifi && !was_eth && wifi is Some ==> LuidKey(r.luid) == nics[wifi->0].luid
            &&& !was_eth && !was_wifi ==> r == b
        }),
{
}

/// What was there first has the last word: after the last change is undone, the very next thing a
/// removal asks for is that every metric be put back to what it was before the first change, and
/// after that it asks for no metric to be written again.
pub proof fn the_first_values_have_the_last_word(
    r: UninstallView,
    undone: Seq<FamilyOutcome>,
    now: u64,
    replies: Seq<Reply>,
)
    requires
        r.stage is RestoringMetrics,
    ensures
        ({
            let last = uninstall_step(r, InstallEventView::MetricsWritten(undone), now);
            &&& uninstall_asks(last) == InstallActionView::WriteMetrics(
                restoring_all(relocated_all(r.journal.touched, r.cfg, r.nics)),
            )
            &&& uninstall_asks(removal_after(last, replies)) is WriteMetrics ==> removal_after(
                last,
                replies,
            ).stage is RestoringFirst
        }),
{
    let last = uninstall_step(r, InstallEventView::MetricsWritten(undone), now);
    lemma_removal_goes_on(last, replies, 0);
    assert(replies.take(0) =~= Seq::empty());
}

/// A removal leaves nothing that looks like an interrupted change: one that is done with putting
/// the machine back has asked for a journal to be saved that is closed, with no metric to restore
/// and every first value still in it, and that a later recovery leaves alone. Bindings are in it
/// only where the journal was closed before, and then as it had them.
pub proof fn a_removal_leaves_nothing_torn(
    start: UninstallView,
    replies: Seq<Reply>,
    recovery: RecoverView,
    now: u64,
)
    requires
        start.stage is LoadingJournal,
        !puts_back(removal_after(start, replies).stage),
        recovery.stage is Loading,
    ensures
        exists|k: int, saved: JournalView, j: JournalView| #[trigger]
            left_closed(start, replies, k, saved, j) && recover_asks(
                recover_step(recovery, EventView::Journal(saved), now),
            ) is Nothing,
        !removal_after(start, replies).journal.torn(),
{
    let found = lemma_all_heard(start, replies);
    let j = found.1;
    let n = lemma_stage_left(start, replies, 5);
    let k = lemma_stage_left(start, replies, 6);
    let saved = removal_after(start, replies.take(k)).journal;
    lemma_heard_at(
        start,
        replies,
        found.0,
        UninstallStage::LoadingJournal,
        InstallEventView::Journal(j),
        n,
    );
    lemma_answer(start, replies, n);
    lemma_closed_stays(start, replies, n + 1, replies.len() as int);
    if k < n + 1 {
        lemma_removal_goes_on(start, replies.take(n), k);
        assert(replies.take(n).take(k) =~= replies.take(k));
    }
    lemma_closed_stays(start, replies, n + 1, k);
    the_first_value_stays(j.touched, j.restore);
    assert(replies.take(replies.len() as int) =~= replies);
    assert(left_closed(start, replies, k, saved, j));
}

/// Once the journal is closed, it stays as it is.
proof fn lemma_closed_stays(start: UninstallView, replies: Seq<Reply>, n: int, k: int)
    requires
        0 <= n <= k <= replies.len(),
        removal_place(removal_after(start, replies.take(n)).stage) >= 6,
    ensures
        removal_after(start, replies.take(k)).journal == removal_after(
            start,
            replies.take(n),
        ).journal,
        removal_place(removal_after(start, replies.take(k)).stage) >= 6,
    decreases k,
{
    if n < k {
        lemma_closed_stays(start, replies, n, k - 1);
        lemma_answer(start, replies, k - 1);
        lemma_removal_step(
            removal_after(start, replies.take(k - 1)),
            replies[k - 1].event,
            replies[k - 1].now,
        );
    }
}

/// After `k` answers a removal that had been given the journal `j` asked for `saved` to be saved.
pub open spec fn left_closed(
    start: UninstallView,
    replies: Seq<Reply>,
    k: int,
    saved: JournalView,
    j: JournalView,
) -> bool {
    &&& removal_asked(start, replies, k, InstallActionView::SaveJournal(saved))
    &&& exists|n: int| #[trigger]
        removal_heard(
            start,
            replies,
            n,
            UninstallStage::LoadingJournal,
            InstallEventView::Journal(j),
        )
    &&& !saved.in_flight
    &&& saved.restore.len() == 0
    &&& saved.bindings.len() == 0 || (!j.torn() && saved.bindings == j.bindings)
    &&& j.touched.is_prefix_of(saved.touched)
    &&& !saved.torn()
}

/// A removal removes data only where everything before went well.
pub proof fn data_is_removed_only_after_success(start: UninstallView, replies: Seq<Reply>)
    requires
        start.stage is LoadingJournal,
    ensures
        uninstall_asks(removal_after(start, replies)) is RemoveData ==> removal_after(
            start,
            replies,
        ).outcome.ok,
    decreases replies.len(),
{
    if replies.len() > 0 {
        data_is_removed_only_after_success(start, replies.drop_last());
    }
}

} // verus!
