//! Persisted state: what to steer, what was changed, and how to put it back.
//!
//! The machine configuration and the journal are written by the elevated worker only: the
//! unelevated widget must not be able to write anything the worker later acts on.
//!
//! # The restore rule
//!
//! LinkSwitch never restores a value it did not capture, and never writes a "default" in place of
//! one. Everything that is changed is journalled with its prior value first, and restoring writes
//! that exact value back. A restore that "helpfully" put things back to Windows defaults would, on
//! a machine whose VPN has unbound IPv6, silently switch it back on. Same for metrics: Ethernet
//! that was pinned to 10 before LinkSwitch was installed gets 10 back, not "automatic".
use vstd::prelude::*;
use vstd::string::*;

use crate::net::adapters::{nic_views, Nic, NicKind, NicView};
use crate::net::luid::LuidKey;
use crate::net::metric::PARK_DEFAULT;
use crate::text;

verus! {

/// Bumped whenever a stored struct changes shape.
pub const SCHEMA: u32 = 2;

/// Which link should carry internet traffic.
#[derive(Debug, Clone, Copy, PartialEq, Eq, Structural)]
pub enum Mode {
    /// Ethernet wins; Wi-Fi is the standby.
    Ethernet,
    /// Wi-Fi wins. Ethernet stays enabled, link-up and reachable on its own subnet, so a NAS or
    /// printer on the wire keeps working.
    Wifi,
    /// Wi-Fi is the only IP link: Ethernet's IP stack is detached entirely.
    WifiOnly,
    /// Hand both interfaces back to Windows' automatic metrics.
    Auto,
}

impl Mode {
    /// The spelling of this mode on the command line and in stored files.
    pub open spec fn name(self) -> Seq<char> {
        match self {
            Mode::Ethernet => "ethernet"@,
            Mode::Wifi => "wifi"@,
            Mode::WifiOnly => "wifi-only"@,
            Mode::Auto => "auto"@,
        }
    }

    /// The name of the scheduled task that applies this mode.
    pub open spec fn task(self) -> Seq<char> {
        match self {
            Mode::Ethernet => "ApplyEthernet"@,
            Mode::Wifi => "ApplyWifi"@,
            Mode::WifiOnly => "ApplyWifiOnly"@,
            Mode::Auto => "ApplyAuto"@,
        }
    }

    /// The mode that a text names, white space around it and capitals aside.
    pub open spec fn named(s: Seq<char>) -> Option<Mode> {
        let t = text::lower(text::trim(s));
        if t == "ethernet"@ || t == "eth"@ || t == "wired"@ {
            Some(Mode::Ethernet)
        } else if t == "wifi"@ || t == "wi-fi"@ || t == "wireless"@ {
            Some(Mode::Wifi)
        } else if t == "wifi-only"@ || t == "wifionly"@ || t == "wifi_only"@ || t == "only"@ {
            Some(Mode::WifiOnly)
        } else if t == "auto"@ || t == "automatic"@ || t == "restore"@ {
            Some(Mode::Auto)
        } else {
            None
        }
    }

    pub fn parse(s: &str) -> (r: Option<Mode>)
        ensures
            r == Mode::named(s@),
    {
        let trimmed = text::trim_text(s);
        let t = text::lower_text(trimmed.as_str());
        let t = t.as_str();
        if text::same(t, "ethernet") || text::same(t, "eth") || text::same(t, "wired") {
            Some(Mode::Ethernet)
        } else if text::same(t, "wifi") || text::same(t, "wi-fi") || text::same(t, "wireless") {
            Some(Mode::Wifi)
        } else if text::same(t, "wifi-only") || text::same(t, "wifionly") || text::same(
            t,
            "wifi_only",
        ) || text::same(t, "only") {
            Some(Mode::WifiOnly)
        } else if text::same(t, "auto") || text::same(t, "automatic") || text::same(t, "restore") {
            Some(Mode::Auto)
        } else {
            None
        }
    }

    pub fn as_str(self) -> (s: &'static str)
        ensures
            s@ == self.name(),
    {
        match self {
            Mode::Ethernet => "ethernet",
            Mode::Wifi => "wifi",
            Mode::WifiOnly => "wifi-only",
            Mode::Auto => "auto",
        }
    }

    /// The scheduled-task name that applies this mode.
    pub fn task_name(self) -> (s: &'static str)
        ensures
            s@ == self.task(),
    {
        match self {
            Mode::Ethernet => "ApplyEthernet",
            Mode::Wifi => "ApplyWifi",
            Mode::WifiOnly => "ApplyWifiOnly",
            Mode::Auto => "ApplyAuto",
        }
    }
}

// --- what is stored ----------------------------------------------------------------------

/// A durable reference to an adapter.
///
/// The LUID is the primary key, but it is not eternal: reinstalling a driver or swapping a docking
/// station mints a new one. The descriptive fields let [`resolve`] recover silently.
#[derive(Debug, Clone)]
pub struct AdapterRef {
    pub luid: u64,
    pub name: String,
    pub description: String,
    /// Permanent MAC, lower-case hex, colon-separated. Survives driver reinstalls.
    pub mac: Option<String>,
}

#[verifier::ext_equal]
pub struct AdapterRefView {
    pub luid: u64,
    pub name: Seq<char>,
    pub description: Seq<char>,
    pub mac: Option<Seq<char>>,
}

/// A text that may be absent.
pub open spec fn text_view(s: Option<String>) -> Option<Seq<char>> {
    match s {
        Some(t) => Some(t@),
        None => None,
    }
}

impl View for AdapterRef {
    type V = AdapterRefView;

    open spec fn view(&self) -> AdapterRefView {
        AdapterRefView {
            luid: self.luid,
            name: self.name@,
            description: self.description@,
            mac: text_view(self.mac),
        }
    }
}

/// Prior state of the "minimize simultaneous connections" policy value.
#[derive(Debug, Clone, Copy, PartialEq, Eq, Structural)]
pub struct WcmBackup {
    /// Whether the registry value existed at all. Restoring must delete the value when it was
    /// absent: writing a 0 back would leave the policy explicitly disabled.
    pub present: bool,
    pub value: u32,
}

#[derive(Debug, Clone)]
pub struct MachineConfig {
    pub schema: u32,
    pub ethernet: Option<AdapterRef>,
    pub wifi: Option<AdapterRef>,
    /// Metric written to the losing interface, kept inside the range of
    /// [`crate::net::metric::park_value`] whatever the file says.
    pub park_metric: u32,
    pub wcm_backup: Option<WcmBackup>,
    /// Last Wi-Fi profile seen connected, the first choice when the worker has to associate Wi-Fi
    /// itself.
    pub wifi_profile_hint: Option<String>,
}

#[verifier::ext_equal]
pub struct MachineView {
    pub schema: u32,
    pub ethernet: Option<AdapterRefView>,
    pub wifi: Option<AdapterRefView>,
    pub park_metric: u32,
    pub wcm_backup: Option<WcmBackup>,
    pub wifi_profile_hint: Option<Seq<char>>,
}

pub open spec fn ref_view(r: Option<AdapterRef>) -> Option<AdapterRefView> {
    match r {
        Some(a) => Some(a@),
        None => None,
    }
}

impl View for MachineConfig {
    type V = MachineView;

    open spec fn view(&self) -> MachineView {
        MachineView {
            schema: self.schema,
            ethernet: ref_view(self.ethernet),
            wifi: ref_view(self.wifi),
            park_metric: self.park_metric,
            wcm_backup: self.wcm_backup,
            wifi_profile_hint: text_view(self.wifi_profile_hint),
        }
    }
}

impl Default for MachineConfig {
    fn default() -> (r: MachineConfig)
        ensures
            r@ == (MachineView {
                schema: SCHEMA,
                ethernet: None,
                wifi: None,
                park_metric: PARK_DEFAULT,
                wcm_backup: None,
                wifi_profile_hint: None,
            }),
    {
        MachineConfig {
            schema: SCHEMA,
            ethernet: None,
            wifi: None,
            park_metric: PARK_DEFAULT,
            wcm_backup: None,
            wifi_profile_hint: None,
        }
    }
}

/// One interface/family metric as it was before it was touched.
#[derive(Debug, Clone, Copy, PartialEq, Eq, Structural)]
pub struct MetricBackup {
    pub luid: u64,
    pub family_v6: bool,
    pub metric: u32,
    pub automatic: bool,
}

/// Which IP protocols were bound to an adapter before they were touched.
#[derive(Debug, Clone)]
pub struct BindingBackup {
    /// The adapter's GUID string.
    pub guid: String,
    pub v4: bool,
    pub v6: bool,
}

#[verifier::ext_equal]
pub struct BindingView {
    pub guid: Seq<char>,
    pub v4: bool,
    pub v6: bool,
}

impl View for BindingBackup {
    type V = BindingView;

    open spec fn view(&self) -> BindingView {
        BindingView { guid: self.guid@, v4: self.v4, v6: self.v6 }
    }
}

/// The bindings of a list, as plain values.
pub open spec fn binding_views(v: Seq<BindingBackup>) -> Seq<BindingView> {
    v.map_values(|b: BindingBackup| b@)
}

/// The crash-recovery journal.
///
/// Written before any change is made and closed only after the change is confirmed. If the worker
/// is killed mid-apply, this is what a later run uses to notice a torn state and put the machine
/// back.
#[derive(Debug, Clone)]
pub struct Journal {
    pub schema: u32,
    /// The mode being applied, or the last one successfully applied.
    pub mode: Mode,
    /// True between "about to change something" and "finished".
    pub in_flight: bool,
    pub started_unix: u64,
    pub finished_unix: Option<u64>,
    /// The metrics that the last change touched, as they were before it, so restore is exact.
    pub restore: Vec<MetricBackup>,
    /// Prior bindings of an adapter whose IP stack was detached.
    pub bindings: Vec<BindingBackup>,
    /// Every metric that was ever touched, as it was before the first time. Never pruned: this is
    /// what an uninstall puts back, however many changes lie in between.
    pub touched: Vec<MetricBackup>,
    pub last_error: Option<String>,
}

#[verifier::ext_equal]
pub struct JournalView {
    pub schema: u32,
    pub mode: Mode,
    pub in_flight: bool,
    pub started_unix: u64,
    pub finished_unix: Option<u64>,
    pub restore: Seq<MetricBackup>,
    pub bindings: Seq<BindingView>,
    pub touched: Seq<MetricBackup>,
    pub last_error: Option<Seq<char>>,
}

impl View for Journal {
    type V = JournalView;

    open spec fn view(&self) -> JournalView {
        JournalView {
            schema: self.schema,
            mode: self.mode,
            in_flight: self.in_flight,
            started_unix: self.started_unix,
            finished_unix: self.finished_unix,
            restore: self.restore@,
            bindings: binding_views(self.bindings@),
            touched: self.touched@,
            last_error: text_view(self.last_error),
        }
    }
}

impl Default for Journal {
    fn default() -> (r: Journal)
        ensures
            r@ == (JournalView {
                schema: SCHEMA,
                mode: Mode::Auto,
                in_flight: false,
                started_unix: 0,
                finished_unix: None,
                restore: Seq::empty(),
                bindings: Seq::empty(),
                touched: Seq::empty(),
                last_error: None,
            }),
    {
        let r = Journal {
            schema: SCHEMA,
            mode: Mode::Auto,
            in_flight: false,
            started_unix: 0,
            finished_unix: None,
            restore: Vec::new(),
            bindings: Vec::new(),
            touched: Vec::new(),
            last_error: None,
        };
        assert(r@.bindings =~= Seq::empty());
        r
    }
}

impl JournalView {
    /// A previous run died between changing something and confirming it. In flight with nothing
    /// recorded yet means nothing was changed.
    pub open spec fn torn(self) -> bool {
        self.in_flight && (self.restore.len() > 0 || self.bindings.len() > 0)
    }
}

impl Journal {
    /// A previous run died between changing something and confirming it.
    pub fn is_torn(&self) -> (r: bool)
        ensures
            r == self@.torn(),
    {
        self.in_flight && (self.restore.len() > 0 || self.bindings.len() > 0)
    }
}

impl AdapterRef {
    pub fn key(&self) -> (r: LuidKey)
        ensures
            r == LuidKey(self.luid),
    {
        LuidKey(self.luid)
    }
}

// --- finding an adapter again ------------------------------------------------------------

/// A MAC address: six pairs of lower-case hexadecimal digits with colons between them.
pub open spec fn mac_text(mac: [u8; 6]) -> Seq<char> {
    text::hex(mac@[0] as nat, 2) + ":"@ + text::hex(mac@[1] as nat, 2) + ":"@ + text::hex(
        mac@[2] as nat,
        2,
    ) + ":"@ + text::hex(mac@[3] as nat, 2) + ":"@ + text::hex(mac@[4] as nat, 2) + ":"@
        + text::hex(mac@[5] as nat, 2)
}

pub fn format_mac(mac: [u8; 6]) -> (r: String)
    ensures
        r@ == mac_text(mac),
{
    let mut r = String::new();
    text::push_hex(&mut r, mac[0] as u64, 2);
    assert(r@ =~= text::hex(mac@[0] as nat, 2));
    r.append(":");
    text::push_hex(&mut r, mac[1] as u64, 2);
    r.append(":");
    text::push_hex(&mut r, mac[2] as u64, 2);
    r.append(":");
    text::push_hex(&mut r, mac[3] as u64, 2);
    r.append(":");
    text::push_hex(&mut r, mac[4] as u64, 2);
    r.append(":");
    text::push_hex(&mut r, mac[5] as u64, 2);
    r
}

/// The MAC that identifies an adapter: the permanent one, or the current one where no permanent
/// one is known.
pub open spec fn identity(n: NicView) -> Option<Seq<char>> {
    match n.permanent_mac {
        Some(mac) => Some(mac_text(mac)),
        None => match n.mac {
            Some(mac) => Some(mac_text(mac)),
            None => None,
        },
    }
}

fn identity_mac(n: &Nic) -> (r: Option<String>)
    ensures
        text_view(r) == identity(n@),
{
    match n.permanent_mac {
        Some(mac) => Some(format_mac(mac)),
        None => match n.mac {
            Some(mac) => Some(format_mac(mac)),
            None => None,
        },
    }
}

impl AdapterRef {
    /// What is remembered of an adapter.
    pub open spec fn remembering(n: NicView) -> AdapterRefView {
        AdapterRefView {
            luid: n.luid.0,
            name: n.friendly_name,
            description: n.description,
            mac: identity(n),
        }
    }

    /// What is remembered of an adapter.
    pub fn from(n: &Nic) -> (r: AdapterRef)
        ensures
            r@ == AdapterRef::remembering(n@),
    {
        AdapterRef {
            luid: n.luid.0,
            name: n.friendly_name.clone(),
            description: n.description.clone(),
            mac: identity_mac(n),
        }
    }

    /// The name of the adapter, or its description where it has none.
    pub fn label(&self) -> (r: &str)
        ensures
            r@ == self@.label(),
    {
        if self.name.as_str().is_empty() {
            self.description.as_str()
        } else {
            self.name.as_str()
        }
    }
}

impl AdapterRefView {
    pub open spec fn label(self) -> Seq<char> {
        if self.name.len() == 0 {
            self.description
        } else {
            self.name
        }
    }
}

/// How a saved adapter can be found again, the surest way first.
#[derive(Debug, Clone, Copy, PartialEq, Eq, Structural)]
pub enum Trace {
    Luid,
    Mac,
    Name,
    Description,
}

/// The adapter `n` matches the saved one in this respect; a field that was saved empty matches
/// nothing.
pub open spec fn matches_by(saved: AdapterRefView, by: Trace, n: NicView) -> bool {
    match by {
        Trace::Luid => saved.luid != 0 && n.luid.0 == saved.luid,
        Trace::Mac => saved.mac is Some && identity(n) == saved.mac,
        Trace::Name => saved.name.len() > 0 && n.friendly_name == saved.name,
        Trace::Description => saved.description.len() > 0 && n.description == saved.description,
    }
}

/// The first adapter at or after `from`, of the kind where one is asked for, that matches the
/// saved one in this respect.
pub open spec fn first_match(
    saved: AdapterRefView,
    by: Trace,
    kind: Option<NicKind>,
    nics: Seq<NicView>,
    from: int,
) -> Option<int>
    decreases nics.len() - from,
{
    if from < 0 || from >= nics.len() {
        None
    } else if (kind is None || kind == Some(nics[from].kind)) && matches_by(
        saved,
        by,
        nics[from],
    ) {
        Some(from)
    } else {
        first_match(saved, by, kind, nics, from + 1)
    }
}

/// The adapter a saved one resolves to now: by its LUID, else by its permanent MAC, else by its
/// friendly name, else by its description.
pub open spec fn resolved(
    saved: Option<AdapterRefView>,
    kind: Option<NicKind>,
    nics: Seq<NicView>,
) -> Option<int> {
    match saved {
        None => None,
        Some(s) => {
            let luid = first_match(s, Trace::Luid, kind, nics, 0);
            let mac = first_match(s, Trace::Mac, kind, nics, 0);
            let name = first_match(s, Trace::Name, kind, nics, 0);
            if luid is Some {
                luid
            } else if mac is Some {
                mac
            } else if name is Some {
                name
            } else {
                first_match(s, Trace::Description, kind, nics, 0)
            }
        },
    }
}

fn fits(saved: &AdapterRef, by: Trace, n: &Nic) -> (r: bool)
    ensures
        r == matches_by(saved@, by, n@),
{
    match by {
        Trace::Luid => saved.luid != 0 && n.luid.0 == saved.luid,
        Trace::Mac => match (&saved.mac, identity_mac(n)) {
            (Some(a), Some(b)) => text::same(a.as_str(), b.as_str()),
            _ => false,
        },
        Trace::Name => !saved.name.as_str().is_empty() && text::same(
            n.friendly_name.as_str(),
            saved.name.as_str(),
        ),
        Trace::Description => !saved.description.as_str().is_empty() && text::same(
            n.description.as_str(),
            saved.description.as_str(),
        ),
    }
}

fn search(saved: &AdapterRef, by: Trace, kind: Option<NicKind>, nics: &[Nic]) -> (r: Option<usize>)
    ensures
        match r {
            Some(i) => first_match(saved@, by, kind, nic_views(nics@), 0) == Some(i as int) && i
                < nics@.len(),
            None => first_match(saved@, by, kind, nic_views(nics@), 0) is None,
        },
{
    let ghost all = nic_views(nics@);
    let mut i: usize = 0;
    while i < nics.len()
        invariant
            i <= nics@.len(),
            all == nic_views(nics@),
            first_match(saved@, by, kind, all, 0) == first_match(saved@, by, kind, all, i as int),
        decreases nics@.len() - i,
    {
        let n = &nics[i];
        assert(all[i as int] == n@);
        let right_kind = match kind {
            None => true,
            Some(k) => k == n.kind,
        };
        if right_kind && fits(saved, by, n) {
            return Some(i);
        }
        i = i + 1;
    }
    None
}

fn locate(saved: Option<&AdapterRef>, kind: Option<NicKind>, nics: &[Nic]) -> (r: Option<usize>)
    ensures
        match r {
            Some(i) => resolved(
                match saved {
                    Some(s) => Some(s@),
                    None => None,
                },
                kind,
                nic_views(nics@),
            ) == Some(i as int) && i < nics@.len(),
            None => resolved(
                match saved {
                    Some(s) => Some(s@),
                    None => None,
                },
                kind,
                nic_views(nics@),
            ) is None,
        },
{
    match saved {
        None => None,
        Some(s) => {
            let luid = search(s, Trace::Luid, kind, nics);
            if luid.is_some() {
                return luid;
            }
            let mac = search(s, Trace::Mac, kind, nics);
            if mac.is_some() {
                return mac;
            }
            let name = search(s, Trace::Name, kind, nics);
            if name.is_some() {
                return name;
            }
            search(s, Trace::Description, kind, nics)
        },
    }
}

/// A saved adapter that may be absent, as plain values.
pub open spec fn saved_view(saved: Option<&AdapterRef>) -> Option<AdapterRefView> {
    match saved {
        Some(s) => Some(s@),
        None => None,
    }
}

/// Re-resolve a saved adapter against what is present now.
///
/// A dock being plugged in or a driver being reinstalled changes the LUID, and that is a daily
/// event, so a LUID-only lookup would regularly tell the user their adapter had disappeared.
pub fn resolve<'a>(saved: Option<&AdapterRef>, nics: &'a [Nic]) -> (r: Option<&'a Nic>)
    ensures
        match resolved(saved_view(saved), None, nic_views(nics@)) {
            Some(i) => 0 <= i < nics@.len() && r == Some(&nics@[i]),
            None => r is None,
        },
{
    match locate(saved, None, nics) {
        Some(i) => Some(&nics[i]),
        None => None,
    }
}

/// [`resolve`] among the adapters of one kind only: a saved Ethernet adapter never comes back as a
/// Wi-Fi radio that happens to carry the same name.
pub fn resolve_kind<'a>(saved: Option<&AdapterRef>, kind: NicKind, nics: &'a [Nic]) -> (r: Option<
    &'a Nic,
>)
    ensures
        match resolved(saved_view(saved), Some(kind), nic_views(nics@)) {
            Some(i) => 0 <= i < nics@.len() && r == Some(&nics@[i]) && nics@[i].kind == kind,
            None => r is None,
        },
{
    match locate(saved, Some(kind), nics) {
        Some(i) => {
            proof {
                let s = saved_view(saved)->0;
                let all = nic_views(nics@);
                lemma_first_match(s, Trace::Luid, Some(kind), all, 0);
                lemma_first_match(s, Trace::Mac, Some(kind), all, 0);
                lemma_first_match(s, Trace::Name, Some(kind), all, 0);
                lemma_first_match(s, Trace::Description, Some(kind), all, 0);
                assert(all[i as int].kind == kind);
            }
            Some(&nics[i])
        },
        None => None,
    }
}

/// [`first_match`] finds a matching adapter with none before it, and nothing only when none
/// matches.
pub proof fn lemma_first_match(
    saved: AdapterRefView,
    by: Trace,
    kind: Option<NicKind>,
    nics: Seq<NicView>,
    from: int,
)
    requires
        0 <= from,
    ensures
        match first_match(saved, by, kind, nics, from) {
            Some(i) => {
                &&& from <= i < nics.len()
                &&& matches_by(saved, by, nics[i])
                &&& kind is Some ==> kind == Some(nics[i].kind)
                &&& forall|k: int|
                    from <= k < i && (kind is None || kind == Some((#[trigger] nics[k]).kind))
                        ==> !matches_by(saved, by, nics[k])
            },
            None => forall|k: int|
                from <= k < nics.len() && (kind is None || kind == Some(
                    (#[trigger] nics[k]).kind,
                )) ==> !matches_by(saved, by, nics[k]),
        },
    decreases nics.len() - from,
{
    if from < nics.len() && !((kind is None || kind == Some(nics[from].kind)) && matches_by(
        saved,
        by,
        nics[from],
    )) {
        lemma_first_match(saved, by, kind, nics, from + 1);
    }
}

/// An adapter that is remembered and still present under its LUID is found again, however its name
/// and description changed; with several under the LUID, the first.
pub proof fn a_present_luid_resolves(n: NicView, kind: Option<NicKind>, nics: Seq<NicView>, i: int)
    requires
        n.luid.0 != 0,
        0 <= i < nics.len(),
        nics[i].luid == n.luid,
        kind is Some ==> kind == Some(nics[i].kind),
    ensures
        ({
            let r = resolved(Some(AdapterRef::remembering(n)), kind, nics);
            r is Some && 0 <= r->0 <= i && nics[r->0].luid == n.luid
        }),
{
    let s = AdapterRef::remembering(n);
    lemma_first_match(s, Trace::Luid, kind, nics, 0);
    assert(matches_by(s, Trace::Luid, nics[i]));
}

/// An adapter whose LUID changed is found again by its permanent MAC, before any adapter that only
/// shares its name or description.
pub proof fn a_changed_luid_resolves_by_mac(n: NicView, nics: Seq<NicView>, i: int)
    requires
        identity(n) is Some,
        forall|k: int| 0 <= k < nics.len() ==> (#[trigger] nics[k]).luid != n.luid,
        0 <= i < nics.len(),
        identity(nics[i]) == identity(n),
    ensures
        ({
            let r = resolved(Some(AdapterRef::remembering(n)), None, nics);
            r is Some && 0 <= r->0 <= i && identity(nics[r->0]) == identity(n)
        }),
{
    let s = AdapterRef::remembering(n);
    lemma_first_match(s, Trace::Luid, None, nics, 0);
    lemma_first_match(s, Trace::Mac, None, nics, 0);
    assert(matches_by(s, Trace::Mac, nics[i]));
}

/// Every mode is recognised by its own name, whatever its case and whatever white space surrounds
/// it.
pub proof fn mode_names_parse_back(
    mode: Mode,
    before: Seq<char>,
    name: Seq<char>,
    after: Seq<char>,
)
    requires
        text::blank(before),
        text::blank(after),
        text::lower(name) == mode.name(),
    ensures
        Mode::named(before + name + after) == Some(mode),
{
    reveal_strlit("ethernet");
    reveal_strlit("eth");
    reveal_strlit("wired");
    reveal_strlit("wifi");
    reveal_strlit("wi-fi");
    reveal_strlit("wireless");
    reveal_strlit("wifi-only");
    reveal_strlit("wifionly");
    reveal_strlit("wifi_only");
    reveal_strlit("only");
    reveal_strlit("auto");
    let s = mode.name();
    assert(name.len() == s.len());
    assert(s[0] == text::lower_char(name[0]));
    assert(s.last() == text::lower_char(name.last()));
    text::lemma_trim_around(before, name, after);
    match mode {
        Mode::Ethernet => {},
        Mode::Wifi => {
            assert(s[0] == 'w' && s.len() == 4);
        },
        Mode::WifiOnly => {
            assert(s.len() == 9);
        },
        Mode::Auto => {
            assert(s[0] == 'a');
        },
    }
}

/// A mode's own name is read as that mode.
pub proof fn plain_mode_names_parse_back(mode: Mode)
    ensures
        Mode::named(mode.name()) == Some(mode),
{
    reveal_strlit("ethernet");
    reveal_strlit("wifi");
    reveal_strlit("wifi-only");
    reveal_strlit("auto");
    let s = mode.name();
    reveal_with_fuel(text::small_to, 10);
    assert(text::small_to(s, s.len()));
    text::lemma_lower_unchanged(s);
    mode_names_parse_back(mode, Seq::empty(), s, Seq::empty());
    assert(Seq::<char>::empty() + s + Seq::<char>::empty() =~= s);
}

/// Two different MAC addresses are never written the same way.
pub proof fn mac_text_identifies(a: [u8; 6], b: [u8; 6])
    requires
        mac_text(a) == mac_text(b),
    ensures
        a@ == b@,
{
    reveal_strlit(":");
    let t = mac_text(a);
    let u = mac_text(b);
    assert forall|i: int| 0 <= i < 6 implies a@[i] == b@[i] by {
        text::lemma_hex_two(a@[0]);
        text::lemma_hex_two(a@[1]);
        text::lemma_hex_two(a@[2]);
        text::lemma_hex_two(a@[3]);
        text::lemma_hex_two(a@[4]);
        text::lemma_hex_two(a@[5]);
        text::lemma_hex_two(b@[0]);
        text::lemma_hex_two(b@[1]);
        text::lemma_hex_two(b@[2]);
        text::lemma_hex_two(b@[3]);
        text::lemma_hex_two(b@[4]);
        text::lemma_hex_two(b@[5]);
        assert(i == 0 || i == 1 || i == 2 || i == 3 || i == 4 || i == 5);
        assert(t.subrange(3 * i, 3 * i + 2) =~= text::hex(a@[i] as nat, 2));
        assert(u.subrange(3 * i, 3 * i + 2) =~= text::hex(b@[i] as nat, 2));
        text::lemma_hex_byte(a@[i], b@[i]);
    }
    assert(a@ =~= b@);
}

// --- where things are stored -------------------------------------------------------------

/// A file or directory inside another, as Windows joins them: with a backslash between, unless the
/// first part ends in a separator or is a bare drive.
pub open spec fn joined(base: Seq<char>, leaf: Seq<char>) -> Seq<char> {
    if base.len() == 0 || base.last() == '\\' || base.last() == '/' || base.len() == 2 && base[1]
        == ':' {
        base + leaf
    } else {
        base + "\\"@ + leaf
    }
}

pub(crate) fn join_path(base: &str, leaf: &str) -> (r: String)
    ensures
        r@ == joined(base@, leaf@),
{
    let v = text::chars_of(base);
    let n: usize = v.len();
    let mut r = base.to_owned();
    if !(n == 0 || v[n - 1] == '\\' || v[n - 1] == '/' || (n == 2 && v[1] == ':')) {
        r.append("\\");
    }
    r.append(leaf);
    r
}

/// `%ProgramData%\LinkSwitch` -- machine-wide, admin-writable only. The argument is the value of
/// the variable, if it is set.
pub fn machine_dir(program_data: Option<&str>) -> (r: String)
    ensures
        r@ == joined(
            match program_data {
                Some(d) => d@,
                None => "C:\\ProgramData"@,
            },
            "LinkSwitch"@,
        ),
{
    let base = match program_data {
        Some(d) => d,
        None => "C:\\ProgramData",
    };
    join_path(base, "LinkSwitch")
}

/// `%LOCALAPPDATA%\LinkSwitch` -- per-user, writable by the unelevated widget. The arguments are
/// the values of `LOCALAPPDATA` and `APPDATA`, as far as they are set.
pub fn user_dir(local: Option<&str>, roaming: Option<&str>) -> (r: String)
    ensures
        r@ == joined(
            match local {
                Some(d) => d@,
                None => match roaming {
                    Some(d) => d@,
                    None => "."@,
                },
            },
            "LinkSwitch"@,
        ),
{
    let base = match local {
        Some(d) => d,
        None => match roaming {
            Some(d) => d,
            None => ".",
        },
    };
    join_path(base, "LinkSwitch")
}

pub fn config_path(machine_dir: &str) -> (r: String)
    ensures
        r@ == joined(machine_dir@, "config.json"@),
{
    join_path(machine_dir, "config.json")
}

pub fn journal_path(machine_dir: &str) -> (r: String)
    ensures
        r@ == joined(machine_dir@, "state.json"@),
{
    join_path(machine_dir, "state.json")
}

pub fn prefs_path(user_dir: &str) -> (r: String)
    ensures
        r@ == joined(user_dir@, "prefs.json"@),
{
    join_path(user_dir, "prefs.json")
}

pub fn worker_log_path(machine_dir: &str) -> (r: String)
    ensures
        r@ == joined(joined(machine_dir@, "logs"@), "worker.log"@),
{
    join_path(join_path(machine_dir, "logs").as_str(), "worker.log")
}

pub fn widget_log_path(user_dir: &str) -> (r: String)
    ensures
        r@ == joined(user_dir@, "widget.log"@),
{
    join_path(user_dir, "widget.log")
}

} // verus!
