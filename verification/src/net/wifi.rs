//! Wi-Fi status, and connecting on demand.
//!
//! With the connection manager's default policy Windows does not connect Wi-Fi by itself while
//! Ethernet is up, but it keeps networks that were connected deliberately. So the worker
//! associates Wi-Fi itself, and only then is any metric changed.
use vstd::prelude::*;
use vstd::string::*;

use crate::config::text_view;
use crate::encoding;
pub use crate::encoding::utf16_to_string;
use crate::text;

verus! {

/// Why Wi-Fi could not be brought up. Each variant is a different thing to tell the user.
#[derive(Debug, Clone, PartialEq, Eq)]
pub enum WifiError {
    /// The WLAN service could not be reached; with the error code.
    ServiceUnavailable(u32),
    /// No Wi-Fi adapter at all -- a desktop.
    NoAdapter,
    /// The adapter exists but is not ready: driver starting, or the device is disabled.
    NotReady,
    /// Airplane mode, or the physical Wi-Fi switch is off.
    RadioOff { hardware: bool },
    /// No saved Wi-Fi profile to connect to.
    NoProfile,
    /// Connecting was rejected outright.
    ConnectFailed { code: u32, profile: String },
    /// Association was requested but not completed in so many seconds.
    Timeout { profile: String, waited: u64 },
}

/// A Wi-Fi error as plain values.
pub enum WifiErrorView {
    ServiceUnavailable(u32),
    NoAdapter,
    NotReady,
    RadioOff { hardware: bool },
    NoProfile,
    ConnectFailed { code: u32, profile: Seq<char> },
    Timeout { profile: Seq<char>, waited: u64 },
}

impl View for WifiError {
    type V = WifiErrorView;

    open spec fn view(&self) -> WifiErrorView {
        match self {
            WifiError::ServiceUnavailable(c) => WifiErrorView::ServiceUnavailable(*c),
            WifiError::NoAdapter => WifiErrorView::NoAdapter,
            WifiError::NotReady => WifiErrorView::NotReady,
            WifiError::RadioOff { hardware } => WifiErrorView::RadioOff { hardware: *hardware },
            WifiError::NoProfile => WifiErrorView::NoProfile,
            WifiError::ConnectFailed { code, profile } => WifiErrorView::ConnectFailed {
                code: *code,
                profile: profile@,
            },
            WifiError::Timeout { profile, waited } => WifiErrorView::Timeout {
                profile: profile@,
                waited: *waited,
            },
        }
    }
}

impl WifiErrorView {
    /// A sentence to show the user, phrased as what to do about it.
    pub open spec fn message(self) -> Seq<char> {
        match self {
            WifiErrorView::ServiceUnavailable(c) =>
                "Windows' WLAN service is not responding (error "@ + text::dec(c as nat) + ")."@,
            WifiErrorView::NoAdapter => "No Wi-Fi adapter was found on this machine."@,
            WifiErrorView::NotReady =>
                "The Wi-Fi adapter is not ready. It may be disabled in Device Manager."@,
            WifiErrorView::RadioOff { hardware } => if hardware {
                "The Wi-Fi radio is switched off by a hardware switch on this machine."@
            } else {
                "Wi-Fi is turned off. Turn it on, or leave airplane mode, and try again."@
            },
            WifiErrorView::NoProfile =>
                "No saved Wi-Fi network. Connect to your network once in Windows, then LinkSwitch can reconnect it for you."@,
            WifiErrorView::ConnectFailed { code, profile } => "Windows refused to connect to \""@
                + profile + "\" (error "@ + text::dec(code as nat) + ")."@,
            WifiErrorView::Timeout { profile, waited } => "Wi-Fi did not finish connecting to \""@
                + profile + "\" within "@ + text::dec(waited as nat)
                + "s. It may be out of range, or the saved password may be wrong."@,
        }
    }
}

impl WifiError {
    /// A sentence to show the user, phrased as what to do about it.
    pub fn user_message(&self) -> (r: String)
        ensures
            r@ == self@.message(),
    {
        match self {
            WifiError::ServiceUnavailable(c) => {
                let mut r = "Windows' WLAN service is not responding (error ".to_owned();
                text::push_dec(&mut r, *c as u64);
                r.append(").");
                r
            },
            WifiError::NoAdapter => "No Wi-Fi adapter was found on this machine.".to_owned(),
            WifiError::NotReady =>
                "The Wi-Fi adapter is not ready. It may be disabled in Device Manager.".to_owned(),
            WifiError::RadioOff { hardware } => {
                if *hardware {
                    "The Wi-Fi radio is switched off by a hardware switch on this machine.".to_owned()
                } else {
                    "Wi-Fi is turned off. Turn it on, or leave airplane mode, and try again.".to_owned()
                }
            },
            WifiError::NoProfile =>
                "No saved Wi-Fi network. Connect to your network once in Windows, then LinkSwitch can reconnect it for you.".to_owned(),
            WifiError::ConnectFailed { code, profile } => {
                let mut r = "Windows refused to connect to \"".to_owned();
                r.append(profile.as_str());
                r.append("\" (error ");
                text::push_dec(&mut r, *code as u64);
                r.append(").");
                r
            },
            WifiError::Timeout { profile, waited } => {
                let mut r = "Wi-Fi did not finish connecting to \"".to_owned();
                r.append(profile.as_str());
                r.append("\" within ");
                text::push_dec(&mut r, *waited);
                r.append("s. It may be out of range, or the saved password may be wrong.");
                r
            },
        }
    }
}

/// Two errors of the same kind, whatever their details.
pub open spec fn same_kind(a: WifiErrorView, b: WifiErrorView) -> bool {
    match (a, b) {
        (WifiErrorView::ServiceUnavailable(_), WifiErrorView::ServiceUnavailable(_)) => true,
        (WifiErrorView::NoAdapter, WifiErrorView::NoAdapter) => true,
        (WifiErrorView::NotReady, WifiErrorView::NotReady) => true,
        (
            WifiErrorView::RadioOff { hardware: x },
            WifiErrorView::RadioOff { hardware: y },
        ) => x == y,
        (WifiErrorView::NoProfile, WifiErrorView::NoProfile) => true,
        (WifiErrorView::ConnectFailed { .. }, WifiErrorView::ConnectFailed { .. }) => true,
        (WifiErrorView::Timeout { .. }, WifiErrorView::Timeout { .. }) => true,
        _ => false,
    }
}

/// Errors of different kinds are told differently, and a radio switched off in hardware is told
/// differently from airplane mode.
pub proof fn wifi_messages_are_distinct(a: WifiErrorView, b: WifiErrorView)
    requires
        !same_kind(a, b),
    ensures
        a.message() != b.message(),
{
    reveal_strlit("Windows' WLAN service is not responding (error ");
    reveal_strlit("No Wi-Fi adapter was found on this machine.");
    reveal_strlit("The Wi-Fi adapter is not ready. It may be disabled in Device Manager.");
    reveal_strlit("The Wi-Fi radio is switched off by a hardware switch on this machine.");
    reveal_strlit("Wi-Fi is turned off. Turn it on, or leave airplane mode, and try again.");
    reveal_strlit(
        "No saved Wi-Fi network. Connect to your network once in Windows, then LinkSwitch can reconnect it for you.",
    );
    reveal_strlit("Windows refused to connect to \"");
    reveal_strlit("Wi-Fi did not finish connecting to \"");
    let m = a.message();
    let n = b.message();
    assert(m[0] == 'W' || m[0] == 'N' || m[0] == 'T');
    assert(m[0] != n[0] || m[1] != n[1] || m[3] != n[3] || m[6] != n[6] || m[7] != n[7] || m[10]
        != n[10]);
}

// --- status ------------------------------------------------------------------------------

pub const INTERFACE_NOT_READY: i32 = 0;

pub const INTERFACE_CONNECTED: i32 = 1;

pub const RADIO_STATE_OFF: i32 = 2;

/// The state of one physical radio of an adapter.
#[derive(Debug, Clone, Copy, PartialEq, Eq, Structural)]
pub struct PhyRadio {
    pub software: i32,
    pub hardware: i32,
}

/// The first Wi-Fi interface's state, from the code of the call that lists the interfaces and,
/// where there is a list, its length and the state of its first entry.
pub open spec fn first_state(rc: u32, list: Option<(u32, i32)>) -> Result<i32, WifiErrorView> {
    if rc != 0 || list is None {
        Err(WifiErrorView::ServiceUnavailable(rc))
    } else if (list->0).0 == 0 {
        Err(WifiErrorView::NoAdapter)
    } else {
        Ok((list->0).1)
    }
}

/// A result whose error is a Wi-Fi error, as plain values.
pub open spec fn state_view(r: Result<i32, WifiError>) -> Result<i32, WifiErrorView> {
    match r {
        Ok(s) => Ok(s),
        Err(e) => Err(e@),
    }
}

/// The first Wi-Fi interface's state.
pub fn first_interface(rc: u32, list: Option<(u32, i32)>) -> (r: Result<i32, WifiError>)
    ensures
        state_view(r) == first_state(rc, list),
{
    match list {
        Some((count, state)) => {
            if rc != 0 {
                Err(WifiError::ServiceUnavailable(rc))
            } else if count == 0 {
                Err(WifiError::NoAdapter)
            } else {
                Ok(state)
            }
        },
        None => Err(WifiError::ServiceUnavailable(rc)),
    }
}

/// Some radio is not switched off in software; an adapter that lists no radio counts as on.
pub open spec fn software_on(phys: Seq<PhyRadio>) -> bool {
    phys.len() == 0 || exists|i: int|
        0 <= i < phys.len() && (#[trigger] phys[i]).software != RADIO_STATE_OFF
}

/// Some radio is not switched off in hardware; an adapter that lists no radio counts as on.
pub open spec fn hardware_on(phys: Seq<PhyRadio>) -> bool {
    phys.len() == 0 || exists|i: int|
        0 <= i < phys.len() && (#[trigger] phys[i]).hardware != RADIO_STATE_OFF
}

/// Whether the radio is on in software and in hardware. It is on if any of its physical radios is:
/// an adapter for several bands reports several, and one that is disabled does not mean the radio
/// is off.
pub fn radio_state(phys: &[PhyRadio]) -> (r: (bool, bool))
    ensures
        r == (software_on(phys@), hardware_on(phys@)),
{
    if phys.len() == 0 {
        return (true, true);
    }
    let mut soft_off = true;
    let mut hard_off = true;
    let mut i: usize = 0;
    while i < phys.len()
        invariant
            i <= phys@.len(),
            soft_off <==> forall|k: int|
                0 <= k < i ==> (#[trigger] phys@[k]).software == RADIO_STATE_OFF,
            hard_off <==> forall|k: int|
                0 <= k < i ==> (#[trigger] phys@[k]).hardware == RADIO_STATE_OFF,
        decreases phys@.len() - i,
    {
        let p = phys[i];
        if p.software != RADIO_STATE_OFF {
            soft_off = false;
        }
        if p.hardware != RADIO_STATE_OFF {
            hard_off = false;
        }
        i = i + 1;
    }
    (!soft_off, !hard_off)
}

#[derive(Debug, Clone)]
pub struct WifiStatus {
    pub ssid: Option<String>,
    pub profile: Option<String>,
    /// 0-100, as Windows reports it.
    pub signal_quality: Option<u32>,
    pub connected: bool,
    pub radio_on: bool,
}

/// A Wi-Fi status as plain values.
#[verifier::ext_equal]
pub struct WifiStatusView {
    pub ssid: Option<Seq<char>>,
    pub profile: Option<Seq<char>>,
    pub signal_quality: Option<u32>,
    pub connected: bool,
    pub radio_on: bool,
}

impl View for WifiStatus {
    type V = WifiStatusView;

    open spec fn view(&self) -> WifiStatusView {
        WifiStatusView {
            ssid: text_view(self.ssid),
            profile: text_view(self.profile),
            signal_quality: self.signal_quality,
            connected: self.connected,
            radio_on: self.radio_on,
        }
    }
}

/// The current connection, as far as it is read here.
#[derive(Debug, Clone)]
pub struct Connection {
    /// The network name, meant to be UTF-8.
    pub ssid: Vec<u8>,
    pub signal_quality: u32,
    /// The profile name in UTF-16, up to the first NUL.
    pub profile: Vec<u16>,
}

/// The profile name of a connection.
pub open spec fn profile_of(c: Connection) -> Seq<char> {
    encoding::utf16_text(encoding::before_nul(c.profile@))
}

/// The Wi-Fi state, from the interface's state, the radio's where it could be read, and the
/// current connection where there is one.
pub open spec fn status_of(
    state: i32,
    radio: Option<(bool, bool)>,
    connection: Option<Connection>,
) -> WifiStatusView {
    let connected = state == INTERFACE_CONNECTED;
    let c = if connected {
        connection
    } else {
        None
    };
    WifiStatusView {
        ssid: match c {
            Some(c) => if c.ssid@.len() > 0 {
                Some(encoding::utf8_lossy(c.ssid@))
            } else {
                None
            },
            None => None,
        },
        profile: match c {
            Some(c) => if profile_of(c).len() > 0 {
                Some(profile_of(c))
            } else {
                None
            },
            None => None,
        },
        signal_quality: match c {
            Some(c) => Some(c.signal_quality),
            None => None,
        },
        connected,
        radio_on: match radio {
            Some(r) => r.0 && r.1,
            None => true,
        },
    }
}

/// Current Wi-Fi state.
pub fn status(state: i32, radio: Option<(bool, bool)>, connection: Option<Connection>) -> (r:
    WifiStatus)
    ensures
        r@ == status_of(state, radio, connection),
{
    let connected = state == INTERFACE_CONNECTED;
    let radio_on = match radio {
        Some(r) => r.0 && r.1,
        None => true,
    };
    let mut ssid: Option<String> = None;
    let mut profile: Option<String> = None;
    let mut signal_quality: Option<u32> = None;
    if connected {
        if let Some(c) = connection {
            if c.ssid.len() > 0 {
                ssid = Some(encoding::utf8_to_string(c.ssid.as_slice()));
            }
            signal_quality = Some(c.signal_quality);
            let p = encoding::utf16_to_string(c.profile.as_slice());
            if !p.as_str().is_empty() {
                profile = Some(p);
            }
        }
    }
    WifiStatus { ssid, profile, signal_quality, connected, radio_on }
}

/// The names of a list of profiles that have one, in order.
pub open spec fn named_profiles(list: Seq<Vec<u16>>) -> Seq<Seq<char>>
    decreases list.len(),
{
    if list.len() == 0 {
        Seq::empty()
    } else {
        let name = encoding::utf16_text(encoding::before_nul(list.last()@));
        if name.len() > 0 {
            named_profiles(list.drop_last()).push(name)
        } else {
            named_profiles(list.drop_last())
        }
    }
}

/// Saved Wi-Fi profiles, in Windows' own preference order.
pub fn profiles(list: &[Vec<u16>]) -> (r: Vec<String>)
    ensures
        text::views(r@) == named_profiles(list@),
{
    let mut out: Vec<String> = Vec::new();
    let mut i: usize = 0;
    assert(text::views(out@) =~= named_profiles(list@.take(0)));
    while i < list.len()
        invariant
            i <= list@.len(),
            text::views(out@) == named_profiles(list@.take(i as int)),
        decreases list@.len() - i,
    {
        assert(list@.take(i + 1).drop_last() =~= list@.take(i as int));
        assert(list@.take(i + 1).last() == list@[i as int]);
        let name = encoding::utf16_to_string(list[i].as_slice());
        if !name.as_str().is_empty() {
            let ghost before = text::views(out@);
            out.push(name);
            assert(text::views(out@) =~= before.push(name@));
        }
        i = i + 1;
    }
    assert(list@.take(i as int) =~= list@);
    out
}

/// The profile to connect to: the preferred one where it is among the saved ones, else the first.
pub open spec fn chosen_profile(preferred: Option<Seq<char>>, saved: Seq<Seq<char>>) -> Seq<char> {
    match preferred {
        Some(p) => if saved.contains(p) {
            p
        } else {
            saved[0]
        },
        None => saved[0],
    }
}

fn choose_profile(preferred: &Option<String>, saved: &Vec<String>) -> (r: String)
    requires
        saved@.len() > 0,
    ensures
        r@ == chosen_profile(text_view(*preferred), text::views(saved@)),
{
    let ghost views = text::views(saved@);
    if let Some(p) = preferred {
        let mut i: usize = 0;
        while i < saved.len()
            invariant
                i <= saved.len(),
                views == text::views(saved@),
                text_view(*preferred) == Some(p@),
                forall|k: int| 0 <= k < i ==> #[trigger] views[k] != p@,
            decreases saved.len() - i,
        {
            if text::same(saved[i].as_str(), p.as_str()) {
                assert(views[i as int] == p@);
                return p.clone();
            }
            i = i + 1;
        }
        assert(!views.contains(p@));
    }
    saved[0].clone()
}

// --- connecting --------------------------------------------------------------------------

/// What a connection attempt is waiting for.
#[derive(Debug, Clone, Copy, PartialEq, Eq, Structural)]
pub enum ConnectStage {
    Opening,
    Looking,
    ReadingProfile,
    ReadingRadio,
    ListingProfiles,
    Connecting,
    Timing,
    Pausing,
    Polling,
    Finished,
}

/// An attempt to have Wi-Fi associated, step by step.
#[derive(Debug)]
pub struct ConnectRun {
    pub stage: ConnectStage,
    /// The profile last seen connected.
    pub preferred: Option<String>,
    /// The profile being connected to, once it is chosen.
    pub profile: String,
    pub timeout_ms: u64,
}

/// A connection attempt as plain values.
#[verifier::ext_equal]
pub struct ConnectView {
    pub stage: ConnectStage,
    pub preferred: Option<Seq<char>>,
    pub profile: Seq<char>,
    pub timeout_ms: u64,
}

impl View for ConnectRun {
    type V = ConnectView;

    open spec fn view(&self) -> ConnectView {
        ConnectView {
            stage: self.stage,
            preferred: text_view(self.preferred),
            profile: self.profile@,
            timeout_ms: self.timeout_ms,
        }
    }
}

/// What has to be done outside before the attempt can go on.
#[derive(Debug, Clone, Copy, PartialEq, Eq, Structural)]
pub enum ConnectAction {
    /// Open the WLAN service.
    Open,
    /// List the interfaces.
    ListInterfaces,
    /// Read which profile is connected.
    ReadStatus,
    /// Read the state of the radio.
    ReadRadio,
    /// List the saved profiles.
    ListProfiles,
    /// Ask for a connection to the chosen profile. It is only queued when this returns.
    Connect,
    /// Read how long ago the connection was asked for.
    ReadClock,
    /// Wait 250 milliseconds.
    Pause,
    /// Nothing: the attempt is over.
    Nothing,
}

/// What came back.
#[derive(Debug)]
pub enum ConnectEvent {
    /// The service was opened, or refused with a code.
    Opened(u32),
    /// Listing the interfaces returned a code and, where there is a list, its length and the state
    /// of its first entry.
    Interfaces { rc: u32, list: Option<(u32, i32)> },
    /// The profile that is connected, if one could be read.
    Profile(Option<String>),
    /// Whether the radio is on in software and in hardware, if that could be read.
    Radio(Option<(bool, bool)>),
    /// The saved profiles.
    Profiles(Vec<String>),
    /// The request to connect returned a code.
    Connected(u32),
    /// Milliseconds since the connection was asked for.
    Clock(u64),
    /// The pause is over.
    Paused,
}

/// What came back, as plain values.
pub enum ConnectEventView {
    Opened(u32),
    Interfaces { rc: u32, list: Option<(u32, i32)> },
    Profile(Option<Seq<char>>),
    Radio(Option<(bool, bool)>),
    Profiles(Seq<Seq<char>>),
    Connected(u32),
    Clock(u64),
    Paused,
}

impl View for ConnectEvent {
    type V = ConnectEventView;

    open spec fn view(&self) -> ConnectEventView {
        match self {
            ConnectEvent::Opened(rc) => ConnectEventView::Opened(*rc),
            ConnectEvent::Interfaces { rc, list } => ConnectEventView::Interfaces {
                rc: *rc,
                list: *list,
            },
            ConnectEvent::Profile(p) => ConnectEventView::Profile(text_view(*p)),
            ConnectEvent::Radio(r) => ConnectEventView::Radio(*r),
            ConnectEvent::Profiles(v) => ConnectEventView::Profiles(text::views(v@)),
            ConnectEvent::Connected(rc) => ConnectEventView::Connected(*rc),
            ConnectEvent::Clock(ms) => ConnectEventView::Clock(*ms),
            ConnectEvent::Paused => ConnectEventView::Paused,
        }
    }
}

/// How an attempt ended: the profile that is connected, or why none is.
pub type ConnectResultView = Result<Seq<char>, WifiErrorView>;

/// The end of an attempt that may not be over yet, as plain values.
pub open spec fn connect_end_view(r: Option<Result<String, WifiError>>) -> Option<
    ConnectResultView,
> {
    match r {
        None => None,
        Some(Ok(p)) => Some(Ok(p@)),
        Some(Err(e)) => Some(Err(e@)),
    }
}

pub open spec fn connect_asks(stage: ConnectStage) -> ConnectAction {
    match stage {
        ConnectStage::Opening => ConnectAction::Open,
        ConnectStage::Looking => ConnectAction::ListInterfaces,
        ConnectStage::ReadingProfile => ConnectAction::ReadStatus,
        ConnectStage::ReadingRadio => ConnectAction::ReadRadio,
        ConnectStage::ListingProfiles => ConnectAction::ListProfiles,
        ConnectStage::Connecting => ConnectAction::Connect,
        ConnectStage::Timing => ConnectAction::ReadClock,
        ConnectStage::Pausing => ConnectAction::Pause,
        ConnectStage::Polling => ConnectAction::ListInterfaces,
        ConnectStage::Finished => ConnectAction::Nothing,
    }
}

pub open spec fn connect_at(s: ConnectView, stage: ConnectStage) -> (
    ConnectView,
    Option<ConnectResultView>,
) {
    (ConnectView { stage, ..s }, None)
}

pub open spec fn connect_end(s: ConnectView, r: ConnectResultView) -> (
    ConnectView,
    Option<ConnectResultView>,
) {
    (ConnectView { stage: ConnectStage::Finished, ..s }, Some(r))
}

/// The next state of an attempt and, where it is over, how it ended. What an attempt is not
/// waiting for leaves it where it is.
pub open spec fn connect_step(s: ConnectView, e: ConnectEventView) -> (
    ConnectView,
    Option<ConnectResultView>,
) {
    match (s.stage, e) {
        (ConnectStage::Opening, ConnectEventView::Opened(rc)) => if rc != 0 {
            connect_end(s, Err(WifiErrorView::ServiceUnavailable(rc)))
        } else {
            connect_at(s, ConnectStage::Looking)
        },
        (ConnectStage::Looking, ConnectEventView::Interfaces { rc, list }) => match first_state(
            rc,
            list,
        ) {
            Err(e) => connect_end(s, Err(e)),
            Ok(state) => if state == INTERFACE_NOT_READY {
                connect_end(s, Err(WifiErrorView::NotReady))
            } else if state == INTERFACE_CONNECTED {
                connect_at(s, ConnectStage::ReadingProfile)
            } else {
                connect_at(s, ConnectStage::ReadingRadio)
            },
        },
        (ConnectStage::ReadingProfile, ConnectEventView::Profile(p)) => connect_end(
            s,
            Ok(
                match p {
                    Some(p) => p,
                    None => Seq::empty(),
                },
            ),
        ),
        // A hardware switch or airplane mode is the most common reason, so the radio is looked at
        // before anything else is blamed.
        (ConnectStage::ReadingRadio, ConnectEventView::Radio(r)) => if r is Some && !(r->0).1 {
            connect_end(s, Err(WifiErrorView::RadioOff { hardware: true }))
        } else if r is Some && !(r->0).0 {
            connect_end(s, Err(WifiErrorView::RadioOff { hardware: false }))
        } else {
            connect_at(s, ConnectStage::ListingProfiles)
        },
        (ConnectStage::ListingProfiles, ConnectEventView::Profiles(saved)) => if saved.len() == 0 {
            connect_end(s, Err(WifiErrorView::NoProfile))
        } else {
            connect_at(
                ConnectView { profile: chosen_profile(s.preferred, saved), ..s },
                ConnectStage::Connecting,
            )
        },
        (ConnectStage::Connecting, ConnectEventView::Connected(rc)) => if rc != 0 {
            connect_end(s, Err(WifiErrorView::ConnectFailed { code: rc, profile: s.profile }))
        } else {
            connect_at(s, ConnectStage::Timing)
        },
        (ConnectStage::Timing, ConnectEventView::Clock(ms)) => if ms < s.timeout_ms {
            connect_at(s, ConnectStage::Pausing)
        } else {
            connect_end(
                s,
                Err(WifiErrorView::Timeout { profile: s.profile, waited: (ms / 1000) as u64 }),
            )
        },
        (ConnectStage::Pausing, ConnectEventView::Paused) => connect_at(s, ConnectStage::Polling),
        (ConnectStage::Polling, ConnectEventView::Interfaces { rc, list }) => if first_state(
            rc,
            list,
        ) == Ok::<i32, WifiErrorView>(INTERFACE_CONNECTED) {
            connect_end(s, Ok(s.profile))
        } else {
            connect_at(s, ConnectStage::Timing)
        },
        _ => (s, None),
    }
}

/// Ensure Wi-Fi is associated, connecting it if necessary: the start of the attempt.
///
/// `preferred` is the profile last seen connected, tried first so a laptop with a dozen saved
/// networks reconnects to the right one rather than to whatever Windows lists first.
pub fn ensure_connected(preferred: Option<String>, timeout_ms: u64) -> (r: ConnectRun)
    ensures
        r@ == (ConnectView {
            stage: ConnectStage::Opening,
            preferred: text_view(preferred),
            profile: Seq::empty(),
            timeout_ms,
        }),
{
    ConnectRun { stage: ConnectStage::Opening, preferred, profile: String::new(), timeout_ms }
}

impl ConnectRun {
    /// What has to be done now.
    pub fn action(&self) -> (r: ConnectAction)
        ensures
            r == connect_asks(self.stage),
    {
        match self.stage {
            ConnectStage::Opening => ConnectAction::Open,
            ConnectStage::Looking => ConnectAction::ListInterfaces,
            ConnectStage::ReadingProfile => ConnectAction::ReadStatus,
            ConnectStage::ReadingRadio => ConnectAction::ReadRadio,
            ConnectStage::ListingProfiles => ConnectAction::ListProfiles,
            ConnectStage::Connecting => ConnectAction::Connect,
            ConnectStage::Timing => ConnectAction::ReadClock,
            ConnectStage::Pausing => ConnectAction::Pause,
            ConnectStage::Polling => ConnectAction::ListInterfaces,
            ConnectStage::Finished => ConnectAction::Nothing,
        }
    }

    /// Go on with what came back. Where the attempt is over, this is how it ended.
    pub fn step(&mut self, event: ConnectEvent) -> (e: Option<Result<String, WifiError>>)
        ensures
            (final(self)@, connect_end_view(e)) == connect_step(old(self)@, event@),
    {
        match (self.stage, event) {
            (ConnectStage::Opening, ConnectEvent::Opened(rc)) => {
                if rc != 0 {
                    self.stage = ConnectStage::Finished;
                    Some(Err(WifiError::ServiceUnavailable(rc)))
                } else {
                    self.stage = ConnectStage::Looking;
                    None
                }
            },
            (ConnectStage::Looking, ConnectEvent::Interfaces { rc, list }) => {
                match first_interface(rc, list) {
                    Err(e) => {
                        self.stage = ConnectStage::Finished;
                        Some(Err(e))
                    },
                    Ok(state) => {
                        if state == INTERFACE_NOT_READY {
                            self.stage = ConnectStage::Finished;
                            Some(Err(WifiError::NotReady))
                        } else if state == INTERFACE_CONNECTED {
                            self.stage = ConnectStage::ReadingProfile;
                            None
                        } else {
                            self.stage = ConnectStage::ReadingRadio;
                            None
                        }
                    },
                }
            },
            (ConnectStage::ReadingProfile, ConnectEvent::Profile(p)) => {
                self.stage = ConnectStage::Finished;
                match p {
                    Some(p) => Some(Ok(p)),
                    None => Some(Ok(String::new())),
                }
            },
            (ConnectStage::ReadingRadio, ConnectEvent::Radio(r)) => {
                match r {
                    Some((_, false)) => {
                        self.stage = ConnectStage::Finished;
                        Some(Err(WifiError::RadioOff { hardware: true }))
                    },
                    Some((false, true)) => {
                        self.stage = ConnectStage::Finished;
                        Some(Err(WifiError::RadioOff { hardware: false }))
                    },
                    _ => {
                        self.stage = ConnectStage::ListingProfiles;
                        None
                    },
                }
            },
            (ConnectStage::ListingProfiles, ConnectEvent::Profiles(saved)) => {
                if saved.len() == 0 {
                    self.stage = ConnectStage::Finished;
                    Some(Err(WifiError::NoProfile))
                } else {
                    self.profile = choose_profile(&self.preferred, &saved);
                    self.stage = ConnectStage::Connecting;
                    None
                }
            },
            (ConnectStage::Connecting, ConnectEvent::Connected(rc)) => {
                if rc != 0 {
                    self.stage = ConnectStage::Finished;
                    Some(Err(WifiError::ConnectFailed { code: rc, profile: self.profile.clone() }))
                } else {
                    self.stage = ConnectStage::Timing;
                    None
                }
            },
            (ConnectStage::Timing, ConnectEvent::Clock(ms)) => {
                if ms < self.timeout_ms {
                    self.stage = ConnectStage::Pausing;
                    None
                } else {
                    self.stage = ConnectStage::Finished;
                    Some(Err(WifiError::Timeout { profile: self.profile.clone(), waited: ms / 1000 }))
                }
            },
            (ConnectStage::Pausing, ConnectEvent::Paused) => {
                self.stage = ConnectStage::Polling;
                None
            },
            (ConnectStage::Polling, ConnectEvent::Interfaces { rc, list }) => {
                match first_interface(rc, list) {
                    Ok(state) => {
                        if state == INTERFACE_CONNECTED {
                            self.stage = ConnectStage::Finished;
                            return Some(Ok(self.profile.clone()));
                        }
                    },
                    Err(_) => {},
                }
                self.stage = ConnectStage::Timing;
                None
            },
            _ => None,
        }
    }
}

/// The attempt succeeds only on an interface that Windows reports as connected: the last event but
/// the naming of the profile said so.
pub proof fn success_means_connected(s: ConnectView, e: ConnectEventView)
    requires
        connect_step(s, e).1 matches Some(Ok(_)),
    ensures
        s.stage is ReadingProfile || (e matches ConnectEventView::Interfaces { rc, list }
            && first_state(rc, list) == Ok::<i32, WifiErrorView>(INTERFACE_CONNECTED)),
{
}

/// The profile that is read out as connected is only asked for when the interface was reported as
/// connected.
pub proof fn profile_is_read_only_when_connected(s: ConnectView, e: ConnectEventView)
    requires
        !(s.stage is ReadingProfile),
        connect_step(s, e).0.stage is ReadingProfile,
    ensures
        e matches ConnectEventView::Interfaces { rc, list } && first_state(rc, list) == Ok::<
            i32,
            WifiErrorView,
        >(INTERFACE_CONNECTED),
{
}

/// A preferred profile that is still saved is the one connected to; otherwise the one Windows
/// prefers.
pub proof fn the_right_profile_is_chosen(preferred: Option<Seq<char>>, saved: Seq<Seq<char>>)
    requires
        saved.len() > 0,
    ensures
        saved.contains(chosen_profile(preferred, saved)),
        preferred is Some && saved.contains(preferred->0) ==> chosen_profile(preferred, saved)
            == preferred->0,
        preferred is None || !saved.contains(preferred->0) ==> chosen_profile(preferred, saved)
            == saved[0],
{
    assert(saved[0] == saved[0]);
}

} // verus!
