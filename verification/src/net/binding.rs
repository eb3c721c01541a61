//! Binding and unbinding TCP/IP on an adapter -- the "Wi-Fi only" mechanism.
//!
//! Unbinding the two TCP/IP components removes the adapter's entire IP presence while leaving the
//! NIC enabled and the cable plugged in. It removes IP, not traffic: discovery protocols and
//! bridged virtual machines still reach the wire, which [`bridge_warning`] says.
use vstd::prelude::*;
use vstd::string::*;

pub use super::guid::parse_guid;
use super::guid::{guid_in, Guid};
use crate::config::text_view;
use crate::text;

verus! {

/// Which IP protocols are bound to an adapter.
#[derive(Debug, Clone, Copy, PartialEq, Eq, Structural)]
pub struct BindingState {
    pub v4: bool,
    pub v6: bool,
}

impl Default for BindingState {
    fn default() -> (r: BindingState)
        ensures
            r == (BindingState { v4: false, v6: false }),
    {
        BindingState { v4: false, v6: false }
    }
}

impl BindingState {
    pub fn any(self) -> (r: bool)
        ensures
            r == (self.v4 || self.v6),
    {
        self.v4 || self.v6
    }

    pub fn as_tuple(self) -> (r: (bool, bool))
        ensures
            r == (self.v4, self.v6),
    {
        (self.v4, self.v6)
    }
}

#[derive(Debug)]
pub enum BindError {
    /// Another program holds the machine-wide network-configuration lock.
    Locked { holder: Option<String> },
    /// The adapter is not one that can be configured.
    AdapterNotFound,
    /// A Hyper-V external virtual switch sits on this NIC.
    VSwitchActive,
    NotElevated,
    /// Anything else that Windows reported.
    Com(String),
}

/// A binding error as plain values.
pub enum BindErrorView {
    Locked { holder: Option<Seq<char>> },
    AdapterNotFound,
    VSwitchActive,
    NotElevated,
    Com(Seq<char>),
}

impl View for BindError {
    type V = BindErrorView;

    open spec fn view(&self) -> BindErrorView {
        match self {
            BindError::Locked { holder } => BindErrorView::Locked { holder: text_view(*holder) },
            BindError::AdapterNotFound => BindErrorView::AdapterNotFound,
            BindError::VSwitchActive => BindErrorView::VSwitchActive,
            BindError::NotElevated => BindErrorView::NotElevated,
            BindError::Com(e) => BindErrorView::Com(e@),
        }
    }
}

impl BindErrorView {
    /// What the user is told.
    ///
    /// Windows error text sometimes ends with a period and sometimes does not, so it is
    /// normalised.
    pub open spec fn message(self) -> Seq<char> {
        match self {
            BindErrorView::Locked { holder } => "Windows' network configuration is locked by "@ + (
            match holder {
                Some(h) => h,
                None => "another program"@,
            }) + ". Close it and try again."@,
            BindErrorView::AdapterNotFound => "This adapter cannot be configured by LinkSwitch."@,
            BindErrorView::VSwitchActive =>
                "A Hyper-V virtual switch is using this adapter, so its IP stack cannot be detached. Remove the external switch first."@,
            BindErrorView::NotElevated =>
                "Changing an adapter's protocol bindings needs administrator rights."@,
            BindErrorView::Com(e) => "Windows refused the change: "@ + text::strip_back(
                text::trim(e),
                |x: char| x == '.',
            ) + "."@,
        }
    }
}

impl BindError {
    pub fn user_message(&self) -> (r: String)
        ensures
            r@ == self@.message(),
    {
        match self {
            BindError::Locked { holder } => {
                let mut r = "Windows' network configuration is locked by ".to_owned();
                match holder {
                    Some(h) => r.append(h.as_str()),
                    None => r.append("another program"),
                }
                r.append(". Close it and try again.");
                r
            },
            BindError::AdapterNotFound =>
                "This adapter cannot be configured by LinkSwitch.".to_owned(),
            BindError::VSwitchActive =>
                "A Hyper-V virtual switch is using this adapter, so its IP stack cannot be detached. Remove the external switch first.".to_owned(),
            BindError::NotElevated =>
                "Changing an adapter's protocol bindings needs administrator rights.".to_owned(),
            BindError::Com(e) => {
                let t = text::trim_text(e.as_str());
                let t = text::strip_back_of(t.as_str(), '.');
                let mut r = "Windows refused the change: ".to_owned();
                r.append(t.as_str());
                r.append(".");
                r
            },
        }
    }
}

/// Every binding error is told as a sentence: the message ends in a period.
pub proof fn bind_messages_are_sentences(e: BindErrorView)
    ensures
        e.message().len() > 0,
        e.message().last() == '.',
{
    reveal_strlit(". Close it and try again.");
    reveal_strlit("This adapter cannot be configured by LinkSwitch.");
    reveal_strlit(
        "A Hyper-V virtual switch is using this adapter, so its IP stack cannot be detached. Remove the external switch first.",
    );
    reveal_strlit("Changing an adapter's protocol bindings needs administrator rights.");
    reveal_strlit(".");
}

// --- result codes ------------------------------------------------------------------------

pub const S_OK: u32 = 0;

pub const S_FALSE: u32 = 1;

pub const E_ACCESSDENIED: u32 = 0x8007_0005;

pub const NETCFG_E_NO_WRITE_LOCK: u32 = 0x8004_a024;

pub const NETCFG_E_ADAPTER_NOT_FOUND: u32 = 0x8004_a027;

pub const NETCFG_E_VMSWITCH_ACTIVE_OVER_ADAPTER: u32 = 0x8004_a02a;

/// A success code: the change is made, and wants a reboot to be fully in effect.
pub const NETCFG_S_REBOOT: u32 = 0x0004_a020;

/// A result code that reports a failure: its top bit is set.
pub open spec fn is_failure(code: u32) -> bool {
    code >= 0x8000_0000
}

/// A question answered with a result code: yes only for plain success. Other success codes say no
/// rather than report an error.
pub fn answer(code: u32) -> (r: Result<bool, u32>)
    ensures
        r == if is_failure(code) {
            Err::<bool, u32>(code)
        } else {
            Ok(code == S_OK)
        },
{
    if code >= 0x8000_0000 {
        Err(code)
    } else {
        Ok(code == S_OK)
    }
}

/// The error that a failure code stands for; `e` is what Windows says about it.
pub open spec fn error_of(code: u32, e: Seq<char>) -> BindErrorView {
    if code == NETCFG_E_ADAPTER_NOT_FOUND {
        BindErrorView::AdapterNotFound
    } else if code == NETCFG_E_NO_WRITE_LOCK {
        BindErrorView::Locked { holder: None }
    } else if code == NETCFG_E_VMSWITCH_ACTIVE_OVER_ADAPTER {
        BindErrorView::VSwitchActive
    } else if code == E_ACCESSDENIED {
        BindErrorView::NotElevated
    } else {
        BindErrorView::Com(e)
    }
}

pub fn map_err(code: u32, e: String) -> (r: BindError)
    ensures
        r@ == error_of(code, e@),
{
    if code == NETCFG_E_ADAPTER_NOT_FOUND {
        BindError::AdapterNotFound
    } else if code == NETCFG_E_NO_WRITE_LOCK {
        BindError::Locked { holder: None }
    } else if code == NETCFG_E_VMSWITCH_ACTIVE_OVER_ADAPTER {
        BindError::VSwitchActive
    } else if code == E_ACCESSDENIED {
        BindError::NotElevated
    } else {
        BindError::Com(e)
    }
}

/// The outcome of a binding change.
#[derive(Debug, Clone, Copy, PartialEq, Eq, Structural)]
pub struct BindOutcome {
    pub changed: bool,
    /// Windows wants a reboot before the change is fully in effect.
    pub needs_reboot: bool,
}

/// Which IP protocols are bound, from the two answers. A protocol that is not installed is not
/// bound.
pub fn read(v4: Option<bool>, v6: Option<bool>) -> (r: BindingState)
    ensures
        r == (BindingState { v4: v4 == Some(true), v6: v6 == Some(true) }),
{
    BindingState {
        v4: match v4 {
            Some(b) => b,
            None => false,
        },
        v6: match v6 {
            Some(b) => b,
            None => false,
        },
    }
}

// --- bridges -----------------------------------------------------------------------------

/// How many bridging components are asked about.
pub const BRIDGES: usize = 3;

/// Bridging components that would still put frames on the wire with TCP/IP unbound: the id of each
/// and what it is. A bridged virtual machine puts its own address on the wire, entirely beneath
/// the host's stack.
pub open spec fn bridge(i: int) -> (Seq<char>, Seq<char>) {
    if i == 0 {
        ("VMWARE_BRIDGE"@, "VMware bridged networking"@)
    } else if i == 1 {
        ("MS_L2BRIDGE"@, "the Windows bridge driver"@)
    } else {
        ("VMS_PP"@, "a Hyper-V virtual switch"@)
    }
}

pub fn bridge_component(i: usize) -> (r: (&'static str, &'static str))
    ensures
        (r.0@, r.1@) == bridge(i as int),
{
    if i == 0 {
        ("VMWARE_BRIDGE", "VMware bridged networking")
    } else if i == 1 {
        ("MS_L2BRIDGE", "the Windows bridge driver")
    } else {
        ("VMS_PP", "a Hyper-V virtual switch")
    }
}

/// What the first `n` bridging components are, those that are bound.
pub open spec fn bound_bridges(bound: Seq<bool>, n: int) -> Seq<Seq<char>>
    decreases n,
{
    if n <= 0 {
        Seq::empty()
    } else if bound[n - 1] {
        bound_bridges(bound, n - 1).push(bridge(n - 1).1)
    } else {
        bound_bridges(bound, n - 1)
    }
}

/// The texts of a list of labels.
pub open spec fn label_views(v: Seq<&'static str>) -> Seq<Seq<char>> {
    v.map_values(|s: &'static str| s@)
}

/// Which bridging components are bound to an adapter, from the answer for each.
pub fn bridges(bound: [bool; 3]) -> (r: Vec<&'static str>)
    ensures
        label_views(r@) == bound_bridges(bound@, 3),
{
    let mut found: Vec<&'static str> = Vec::new();
    let mut i: usize = 0;
    assert(label_views(found@) =~= bound_bridges(bound@, 0));
    while i < 3
        invariant
            i <= 3,
            bound@.len() == 3,
            label_views(found@) == bound_bridges(bound@, i as int),
        decreases 3 - i,
    {
        if bound[i] {
            let (_, label) = bridge_component(i);
            let ghost before = label_views(found@);
            found.push(label);
            assert(label_views(found@) =~= before.push(label@));
        }
        i = i + 1;
    }
    found
}

/// A list as it reads in a sentence: `A`, `A and B`, `A, B, and C`.
pub open spec fn listed(items: Seq<Seq<char>>) -> Seq<char> {
    if items.len() == 0 {
        Seq::empty()
    } else if items.len() == 1 {
        items[0]
    } else if items.len() == 2 {
        items[0] + " and "@ + items[1]
    } else {
        text::join(items.drop_last(), ", "@) + ", and "@ + items.last()
    }
}

/// The texts of a list of string slices.
pub open spec fn slice_views<'a>(v: Seq<&'a str>) -> Seq<Seq<char>> {
    v.map_values(|s: &'a str| s@)
}

pub fn join_list(items: &[&str]) -> (r: String)
    ensures
        r@ == listed(slice_views(items@)),
{
    let n: usize = items.len();
    if n == 0 {
        return String::new();
    }
    if n == 1 {
        return items[0].to_owned();
    }
    if n == 2 {
        let mut r = items[0].to_owned();
        r.append(" and ");
        r.append(items[1]);
        return r;
    }
    let mut rest: Vec<String> = Vec::new();
    let mut i: usize = 0;
    while i < n - 1
        invariant
            n == items@.len(),
            0 < n,
            i <= n - 1,
            text::views(rest@) == slice_views(items@).take(i as int),
        decreases n - i,
    {
        let t = items[i].to_owned();
        let ghost before = text::views(rest@);
        rest.push(t);
        i = i + 1;
        assert(text::views(rest@) =~= before.push(t@));
        assert(text::views(rest@) =~= slice_views(items@).take(i as int));
    }
    assert(text::views(rest@) =~= slice_views(items@).drop_last());
    let mut r = text::join_text(&rest, ", ");
    r.append(", and ");
    r.append(items[n - 1]);
    r
}

/// The sentence for some bridges, if there are any; the verb agrees with their number.
pub open spec fn warning_about(found: Seq<Seq<char>>) -> Option<Seq<char>> {
    if found.len() == 0 {
        None
    } else {
        Some(
            listed(found) + " still "@ + (if found.len() == 1 {
                "uses"@
            } else {
                "use"@
            }) + " this adapter directly, so the wire will not be silent."@,
        )
    }
}

/// A sentence for the UI when silencing this adapter would not actually silence the wire.
pub fn bridge_warning(found: &[&str]) -> (r: Option<String>)
    ensures
        text_view(r) == warning_about(slice_views(found@)),
{
    if found.len() == 0 {
        return None;
    }
    let mut r = join_list(found);
    r.append(" still ");
    if found.len() == 1 {
        r.append("uses");
    } else {
        r.append("use");
    }
    r.append(" this adapter directly, so the wire will not be silent.");
    Some(r)
}

// --- changing bindings -------------------------------------------------------------------

#[derive(Debug, Clone, Copy, PartialEq, Eq, Structural)]
pub enum Protocol {
    V4,
    V6,
}

impl Protocol {
    /// The id of the component that implements the protocol.
    pub fn component(self) -> (r: &'static str)
        ensures
            r@ == (match self {
                Protocol::V4 => "MS_TCPIP"@,
                Protocol::V6 => "MS_TCPIP6"@,
            }),
    {
        match self {
            Protocol::V4 => "MS_TCPIP",
            Protocol::V6 => "MS_TCPIP6",
        }
    }
}

/// What the run is waiting for.
#[derive(Debug, Clone, Copy, PartialEq, Eq, Structural)]
pub enum BindStage {
    Opening,
    Locking,
    Waiting,
    LockingAgain,
    Initializing,
    Finding(Protocol),
    FindingAdapter,
    Checking(Protocol),
    Changing(Protocol),
    Applying,
    Finished,
}

/// A change of the IP bindings of one adapter, step by step.
///
/// The write lock is taken before the configuration is initialised, because taking it afterwards
/// is refused. `want` is the exact target state: on restore it is what was captured before the
/// change, never a guess.
#[derive(Debug, Clone, Copy, PartialEq, Eq, Structural)]
pub struct BindRun {
    pub stage: BindStage,
    pub want: BindingState,
    pub has_v4: bool,
    pub has_v6: bool,
    pub changed: bool,
}

/// What has to be done outside before the run can go on.
#[derive(Debug, Clone, Copy, PartialEq, Eq, Structural)]
pub enum BindAction {
    /// Open the network configuration.
    Open,
    /// Wait up to five seconds for the write lock.
    Lock,
    /// Wait two seconds.
    Pause,
    /// Initialise the configuration.
    Initialize,
    /// Is the protocol installed?
    Find(Protocol),
    /// Find the adapter.
    FindAdapter,
    /// Is the protocol bound to the adapter?
    IsBound(Protocol),
    /// Bind the protocol to the adapter, or unbind it.
    Change(Protocol, bool),
    /// Commit the changes.
    Apply,
    /// Nothing: the run is over.
    Nothing,
}

/// What came back.
#[derive(Debug)]
pub enum BindEvent {
    /// It was done.
    Done,
    /// It failed with this code, and this is what Windows says about it.
    Failed { code: u32, text: String },
    /// The lock was answered with this code; `holder` is who holds it.
    Lock { code: u32, holder: Option<String>, text: String },
    /// Whether the protocol is installed.
    Present(bool),
    /// Whether the protocol is bound.
    Bound(bool),
    /// Committing was answered with this code.
    Applied { code: u32, text: String },
}

/// What came back, as plain values.
pub enum BindEventView {
    Done,
    Failed { code: u32, text: Seq<char> },
    Lock { code: u32, holder: Option<Seq<char>>, text: Seq<char> },
    Present(bool),
    Bound(bool),
    Applied { code: u32, text: Seq<char> },
}

impl View for BindEvent {
    type V = BindEventView;

    open spec fn view(&self) -> BindEventView {
        match self {
            BindEvent::Done => BindEventView::Done,
            BindEvent::Failed { code, text } => BindEventView::Failed { code: *code, text: text@ },
            BindEvent::Lock { code, holder, text } => BindEventView::Lock {
                code: *code,
                holder: text_view(*holder),
                text: text@,
            },
            BindEvent::Present(b) => BindEventView::Present(*b),
            BindEvent::Bound(b) => BindEventView::Bound(*b),
            BindEvent::Applied { code, text } => BindEventView::Applied {
                code: *code,
                text: text@,
            },
        }
    }
}

/// How a change of bindings ended.
pub type BindResultView = Result<BindOutcome, BindErrorView>;

/// The end of a run that may not be over yet, as plain values.
pub open spec fn end_view(r: Option<Result<BindOutcome, BindError>>) -> Option<BindResultView> {
    match r {
        None => None,
        Some(Ok(o)) => Some(Ok(o)),
        Some(Err(e)) => Some(Err(e@)),
    }
}

/// What a run does at each stage.
pub open spec fn bind_asks(s: BindRun) -> BindAction {
    match s.stage {
        BindStage::Opening => BindAction::Open,
        BindStage::Locking => BindAction::Lock,
        BindStage::Waiting => BindAction::Pause,
        BindStage::LockingAgain => BindAction::Lock,
        BindStage::Initializing => BindAction::Initialize,
        BindStage::Finding(p) => BindAction::Find(p),
        BindStage::FindingAdapter => BindAction::FindAdapter,
        BindStage::Checking(p) => BindAction::IsBound(p),
        BindStage::Changing(p) => BindAction::Change(
            p,
            match p {
                Protocol::V4 => s.want.v4,
                Protocol::V6 => s.want.v6,
            },
        ),
        BindStage::Applying => BindAction::Apply,
        BindStage::Finished => BindAction::Nothing,
    }
}

pub open spec fn bind_at(s: BindRun, stage: BindStage) -> (BindRun, Option<BindResultView>) {
    (BindRun { stage, ..s }, None)
}

pub open spec fn bind_end(s: BindRun, r: BindResultView) -> (BindRun, Option<BindResultView>) {
    (BindRun { stage: BindStage::Finished, ..s }, Some(r))
}

/// All protocols have been seen to: commit what was changed, or end where nothing was.
pub open spec fn bind_settle(s: BindRun) -> (BindRun, Option<BindResultView>) {
    if s.changed {
        bind_at(s, BindStage::Applying)
    } else {
        bind_end(s, Ok(BindOutcome { changed: false, needs_reboot: false }))
    }
}

/// Protocol `p` has been seen to: the next one, or the end.
pub open spec fn bind_after(s: BindRun, p: Protocol) -> (BindRun, Option<BindResultView>) {
    match p {
        Protocol::V4 => if s.has_v6 {
            bind_at(s, BindStage::Checking(Protocol::V6))
        } else {
            bind_settle(s)
        },
        Protocol::V6 => bind_settle(s),
    }
}

/// The next state of a run and, where it is over, how it ended. What a run is not waiting for
/// leaves it where it is.
pub open spec fn bind_step(s: BindRun, e: BindEventView) -> (BindRun, Option<BindResultView>) {
    match (s.stage, e) {
        (BindStage::Finished, _) => (s, None),
        (_, BindEventView::Failed { code, text }) => bind_end(s, Err(error_of(code, text))),
        (BindStage::Opening, BindEventView::Done) => bind_at(s, BindStage::Locking),
        (BindStage::Locking, BindEventView::Lock { code, holder, text }) => if code == S_OK {
            bind_at(s, BindStage::Initializing)
        } else if code == S_FALSE {
            // The wait elapsed: not acquired, although the code reports a success.
            bind_at(s, BindStage::Waiting)
        } else {
            bind_end(s, Err(error_of(code, text)))
        },
        (BindStage::Waiting, BindEventView::Done) => bind_at(s, BindStage::LockingAgain),
        (BindStage::LockingAgain, BindEventView::Lock { code, holder, text }) => if code == S_OK {
            bind_at(s, BindStage::Initializing)
        } else if code == S_FALSE {
            bind_end(s, Err(BindErrorView::Locked { holder }))
        } else {
            bind_end(s, Err(error_of(code, text)))
        },
        (BindStage::Initializing, BindEventView::Done) => bind_at(
            s,
            BindStage::Finding(Protocol::V4),
        ),
        (BindStage::Finding(Protocol::V4), BindEventView::Present(b)) => bind_at(
            BindRun { has_v4: b, ..s },
            BindStage::Finding(Protocol::V6),
        ),
        (BindStage::Finding(Protocol::V6), BindEventView::Present(b)) => if !s.has_v4 && s.want.v4 {
            // Refuse rather than report a success that did not happen.
            bind_end(
                BindRun { has_v6: b, ..s },
                Err(BindErrorView::Com("the IPv4 protocol is not installed on this machine"@)),
            )
        } else {
            bind_at(BindRun { has_v6: b, ..s }, BindStage::FindingAdapter)
        },
        (BindStage::FindingAdapter, BindEventView::Done) => if s.has_v4 {
            bind_at(s, BindStage::Checking(Protocol::V4))
        } else {
            bind_after(s, Protocol::V4)
        },
        (BindStage::Checking(p), BindEventView::Bound(b)) => if b == (match p {
            Protocol::V4 => s.want.v4,
            Protocol::V6 => s.want.v6,
        }) {
            bind_after(s, p)
        } else {
            bind_at(s, BindStage::Changing(p))
        },
        (BindStage::Changing(p), BindEventView::Done) => bind_after(
            BindRun { changed: true, ..s },
            p,
        ),
        (BindStage::Applying, BindEventView::Applied { code, text }) => if is_failure(code) {
            bind_end(s, Err(error_of(code, text)))
        } else {
            bind_end(s, Ok(BindOutcome { changed: true, needs_reboot: code == NETCFG_S_REBOOT }))
        },
        _ => (s, None),
    }
}

/// Bind or unbind TCP/IP on an adapter: the start of the run, or the error where the adapter's
/// GUID cannot be read.
pub fn set(adapter_guid: &str, want: BindingState) -> (r: Result<(BindRun, Guid), BindError>)
    ensures
        match guid_in(adapter_guid@) {
            Some(g) => r is Ok && r->Ok_0.1@ == g && r->Ok_0.0 == (BindRun {
                stage: BindStage::Opening,
                want,
                has_v4: false,
                has_v6: false,
                changed: false,
            }),
            None => r is Err && r->Err_0@ == BindErrorView::AdapterNotFound,
        },
{
    match parse_guid(adapter_guid) {
        Some(g) => Ok(
            (
                BindRun {
                    stage: BindStage::Opening,
                    want,
                    has_v4: false,
                    has_v6: false,
                    changed: false,
                },
                g,
            ),
        ),
        None => Err(BindError::AdapterNotFound),
    }
}

impl BindRun {
    /// What has to be done now.
    pub fn action(&self) -> (r: BindAction)
        ensures
            r == bind_asks(*self),
    {
        match self.stage {
            BindStage::Opening => BindAction::Open,
            BindStage::Locking => BindAction::Lock,
            BindStage::Waiting => BindAction::Pause,
            BindStage::LockingAgain => BindAction::Lock,
            BindStage::Initializing => BindAction::Initialize,
            BindStage::Finding(p) => BindAction::Find(p),
            BindStage::FindingAdapter => BindAction::FindAdapter,
            BindStage::Checking(p) => BindAction::IsBound(p),
            BindStage::Changing(Protocol::V4) => BindAction::Change(Protocol::V4, self.want.v4),
            BindStage::Changing(Protocol::V6) => BindAction::Change(Protocol::V6, self.want.v6),
            BindStage::Applying => BindAction::Apply,
            BindStage::Finished => BindAction::Nothing,
        }
    }

    fn end(&mut self, r: Result<BindOutcome, BindError>) -> (e: Option<
        Result<BindOutcome, BindError>,
    >)
        ensures
            (*final(self), end_view(e)) == bind_end(
                *old(self),
                (match r {
                    Ok(o) => Ok(o),
                    Err(e) => Err(e@),
                }),
            ),
    {
        self.stage = BindStage::Finished;
        Some(r)
    }

    fn settle(&mut self) -> (e: Option<Result<BindOutcome, BindError>>)
        ensures
            (*final(self), end_view(e)) == bind_settle(*old(self)),
    {
        if self.changed {
            self.stage = BindStage::Applying;
            None
        } else {
            self.end(Ok(BindOutcome { changed: false, needs_reboot: false }))
        }
    }

    fn after(&mut self, p: Protocol) -> (e: Option<Result<BindOutcome, BindError>>)
        ensures
            (*final(self), end_view(e)) == bind_after(*old(self), p),
    {
        match p {
            Protocol::V4 => {
                if self.has_v6 {
                    self.stage = BindStage::Checking(Protocol::V6);
                    None
                } else {
                    self.settle()
                }
            },
            Protocol::V6 => self.settle(),
        }
    }

    /// Go on with what came back. Where the run is over, this is how it ended.
    pub fn step(&mut self, event: BindEvent) -> (e: Option<Result<BindOutcome, BindError>>)
        ensures
            (*final(self), end_view(e)) == bind_step(*old(self), event@),
    {
        match (self.stage, event) {
            (BindStage::Finished, _) => None,
            (_, BindEvent::Failed { code, text }) => self.end(Err(map_err(code, text))),
            (BindStage::Opening, BindEvent::Done) => {
                self.stage = BindStage::Locking;
                None
            },
            (BindStage::Locking, BindEvent::Lock { code, text, .. }) => {
                if code == S_OK {
                    self.stage = BindStage::Initializing;
                    None
                } else if code == S_FALSE {
                    self.stage = BindStage::Waiting;
                    None
                } else {
                    self.end(Err(map_err(code, text)))
                }
            },
            (BindStage::Waiting, BindEvent::Done) => {
                self.stage = BindStage::LockingAgain;
                None
            },
            (BindStage::LockingAgain, BindEvent::Lock { code, holder, text }) => {
                if code == S_OK {
                    self.stage = BindStage::Initializing;
                    None
                } else if code == S_FALSE {
                    self.end(Err(BindError::Locked { holder }))
                } else {
                    self.end(Err(map_err(code, text)))
                }
            },
            (BindStage::Initializing, BindEvent::Done) => {
                self.stage = BindStage::Finding(Protocol::V4);
                None
            },
            (BindStage::Finding(Protocol::V4), BindEvent::Present(b)) => {
                self.has_v4 = b;
                self.stage = BindStage::Finding(Protocol::V6);
                None
            },
            (BindStage::Finding(Protocol::V6), BindEvent::Present(b)) => {
                self.has_v6 = b;
                if !self.has_v4 && self.want.v4 {
                    self.end(
                        Err(
                            BindError::Com(
                                "the IPv4 protocol is not installed on this machine".to_owned(),
                            ),
                        ),
                    )
                } else {
                    self.stage = BindStage::FindingAdapter;
                    None
                }
            },
            (BindStage::FindingAdapter, BindEvent::Done) => {
                if self.has_v4 {
                    self.stage = BindStage::Checking(Protocol::V4);
                    None
                } else {
                    self.after(Protocol::V4)
                }
            },
            (BindStage::Checking(p), BindEvent::Bound(b)) => {
                let want = match p {
                    Protocol::V4 => self.want.v4,
                    Protocol::V6 => self.want.v6,
                };
                if b == want {
                    self.after(p)
                } else {
                    self.stage = BindStage::Changing(p);
                    None
                }
            },
            (BindStage::Changing(p), BindEvent::Done) => {
                self.changed = true;
                self.after(p)
            },
            (BindStage::Applying, BindEvent::Applied { code, text }) => {
                if code >= 0x8000_0000 {
                    self.end(Err(map_err(code, text)))
                } else {
                    self.end(
                        Ok(BindOutcome { changed: true, needs_reboot: code == NETCFG_S_REBOOT }),
                    )
                }
            },
            _ => None,
        }
    }
}

// --- what a run achieves -----------------------------------------------------------------

/// The bindings an adapter really has after an action was answered with `e`; nothing where `e` is
/// no truthful answer to it.
pub open spec fn bindings_after(
    world: BindingState,
    action: BindAction,
    e: BindEventView,
) -> Option<BindingState> {
    match (action, e) {
        (BindAction::IsBound(Protocol::V4), BindEventView::Bound(b)) => if b == world.v4 {
            Some(world)
        } else {
            None
        },
        (BindAction::IsBound(Protocol::V6), BindEventView::Bound(b)) => if b == world.v6 {
            Some(world)
        } else {
            None
        },
        (BindAction::Change(Protocol::V4, b), BindEventView::Done) => Some(
            BindingState { v4: b, ..world },
        ),
        (BindAction::Change(Protocol::V6, b), BindEventView::Done) => Some(
            BindingState { v6: b, ..world },
        ),
        _ => Some(world),
    }
}

/// The protocols that a run has seen to are bound as wanted.
pub open spec fn seen_to(s: BindRun, world: BindingState) -> bool {
    let v4 = s.has_v4 ==> world.v4 == s.want.v4;
    let v6 = s.has_v6 ==> world.v6 == s.want.v6;
    match s.stage {
        BindStage::Checking(Protocol::V6) | BindStage::Changing(Protocol::V6) => v4,
        BindStage::Applying => v4 && v6,
        _ => true,
    }
}

/// As long as the answers are truthful, every protocol a run has passed is bound exactly as
/// wanted; and where it ends well, so are all that are installed, IPv4 included where it is
/// wanted.
pub proof fn a_run_reaches_its_target(s: BindRun, world: BindingState, e: BindEventView)
    requires
        seen_to(s, world),
        bindings_after(world, bind_asks(s), e) is Some,
        s.stage is Applying || s.stage is FindingAdapter || s.stage is Checking
            || s.stage is Changing ==> !(s.want.v4 && !s.has_v4),
    ensures
        ({
            let next = bindings_after(world, bind_asks(s), e)->0;
            let (t, end) = bind_step(s, e);
            &&& seen_to(t, next)
            &&& t.want == s.want
            &&& t.stage is Applying || t.stage is FindingAdapter || t.stage is Checking
                || t.stage is Changing ==> !(t.want.v4 && !t.has_v4)
            &&& end matches Some(Ok(_)) ==> {
                &&& t.has_v4 ==> next.v4 == s.want.v4
                &&& t.has_v6 ==> next.v6 == s.want.v6
                &&& s.want.v4 ==> t.has_v4
            }
        }),
{
}

/// The state after a number of events.
pub open spec fn bind_steps(s: BindRun, events: Seq<BindEventView>) -> BindRun
    decreases events.len(),
{
    if events.len() == 0 {
        s
    } else {
        bind_step(bind_steps(s, events.drop_last()), events.last()).0
    }
}

/// Nothing is initialised, changed or committed before the write lock was granted.
pub proof fn nothing_happens_without_the_lock(
    want: BindingState,
    events: Seq<BindEventView>,
)
    ensures
        ({
            let start = BindRun {
                stage: BindStage::Opening,
                want,
                has_v4: false,
                has_v6: false,
                changed: false,
            };
            let action = bind_asks(bind_steps(start, events));
            action is Initialize || action is Change || action is Apply ==> exists|i: int|
                0 <= i < events.len() && (#[trigger] events[i] matches BindEventView::Lock {
                    code,
                    ..
                } && code == S_OK)
        }),
{
    let start = BindRun {
        stage: BindStage::Opening,
        want,
        has_v4: false,
        has_v6: false,
        changed: false,
    };
    lemma_lock_first(start, events);
}

spec fn before_lock(stage: BindStage) -> bool {
    stage is Opening || stage is Locking || stage is Waiting || stage is LockingAgain
        || stage is Finished
}

proof fn lemma_lock_first(start: BindRun, events: Seq<BindEventView>)
    requires
        start.stage is Opening,
    ensures
        before_lock(bind_steps(start, events).stage) || exists|i: int|
            0 <= i < events.len() && (#[trigger] events[i] matches BindEventView::Lock { code, .. }
                && code == S_OK),
    decreases events.len(),
{
    if events.len() > 0 {
        let head = events.drop_last();
        lemma_lock_first(start, head);
        let s = bind_steps(start, head);
        if before_lock(s.stage) {
            if !before_lock(bind_step(s, events.last()).0.stage) {
                assert(events[events.len() - 1] == events.last());
            }
        } else {
            let i = choose|i: int|
                0 <= i < head.len() && (#[trigger] head[i] matches BindEventView::Lock { code, .. }
                    && code == S_OK);
            assert(events[i] == head[i]);
        }
    }
}

} // verus!
