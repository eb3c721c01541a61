//! The desktop widget: what it shows and what it does, without the drawing.
pub mod laws;
pub mod tray;
pub mod widget;

use vstd::prelude::*;
use vstd::string::*;

use crate::config::{
    ref_view, resolve, resolved, text_view, AdapterRef, AdapterRefView, MachineConfig, Mode,
};
use crate::net::adapters::{nic_views, Nic, NicKind, NicView};
use crate::net::binding::BindingState;
use crate::net::routes::{verdict_on, Verdict};
use crate::net::wcm::PolicyState;
use crate::net::wifi::WifiStatus;
use crate::net::{best_candidate, first_candidate, Snapshot};
use crate::status::luid_of;

verus! {

/// Result of a switch, delivered from the worker thread back to the widget.
#[derive(Debug)]
pub struct ApplyResult {
    pub mode: Mode,
    pub error: Option<String>,
}

/// Everything the widget draws from, read as one consistent unit.
#[derive(Debug)]
pub struct Board {
    pub snap: Snapshot,
    pub eth: Option<Nic>,
    pub wifi: Option<Nic>,
    pub verdict: Verdict,
    pub wifi_status: Option<WifiStatus>,
    pub policy: PolicyState,
    pub installed: bool,
    /// Ethernet is there, but has no IP stack.
    pub eth_ip_detached: bool,
    /// What still uses the wire in that case.
    pub bridge_note: Option<String>,
}

/// The adapter a row shows: the configured one, or the best candidate where none is configured or
/// the configured one is gone.
pub open spec fn shown(saved: Option<AdapterRefView>, kind: NicKind, nics: Seq<NicView>) -> Option<
    NicView,
> {
    match resolved(saved, None, nics) {
        Some(i) => Some(nics[i]),
        None => match best_candidate(nics, kind) {
            Some(i) => Some(nics[i]),
            None => None,
        },
    }
}

/// An adapter that may be absent, as plain values.
pub open spec fn owned_view(n: Option<Nic>) -> Option<NicView> {
    match n {
        Some(n) => Some(n@),
        None => None,
    }
}

fn find_shown(saved: &Option<AdapterRef>, kind: NicKind, snap: &Snapshot) -> (r: Option<Nic>)
    ensures
        owned_view(r) == shown(ref_view(*saved), kind, nic_views(snap.nics@)),
{
    let known = match saved {
        Some(s) => resolve(Some(s), snap.nics.as_slice()),
        None => None,
    };
    match known {
        Some(n) => Some(n.copied()),
        None => match first_candidate(&snap.nics, kind) {
            Some(n) => Some(n.copied()),
            None => None,
        },
    }
}

impl Board {
    /// What there is to show. The bindings of the Ethernet adapter are seen to afterwards.
    pub fn read(
        cfg: &MachineConfig,
        snap: Snapshot,
        wifi_status: Option<WifiStatus>,
        policy: PolicyState,
        installed: bool,
    ) -> (r: Board)
        ensures
            r.snap == snap,
            owned_view(r.eth) == shown(cfg@.ethernet, NicKind::Ethernet, nic_views(snap.nics@)),
            owned_view(r.wifi) == shown(cfg@.wifi, NicKind::Wifi, nic_views(snap.nics@)),
            r.verdict == verdict_on(
                snap.routes@,
                luid_of(owned_view(r.eth)),
                luid_of(owned_view(r.wifi)),
            ),
            r.wifi_status == wifi_status,
            r.policy == policy,
            r.installed == installed,
            !r.eth_ip_detached,
            r.bridge_note is None,
    {
        let eth = find_shown(&cfg.ethernet, NicKind::Ethernet, &snap);
        let wifi = find_shown(&cfg.wifi, NicKind::Wifi, &snap);
        let eth_luid = match &eth {
            Some(n) => Some(n.luid),
            None => None,
        };
        let wifi_luid = match &wifi {
            Some(n) => Some(n.luid),
            None => None,
        };
        let verdict = snap.verdict(eth_luid, wifi_luid);
        Board {
            snap,
            eth,
            wifi,
            verdict,
            wifi_status,
            policy,
            installed,
            eth_ip_detached: false,
            bridge_note: None,
        }
    }

    /// The IP bindings of the Ethernet adapter, if they could be read, and what else uses it.
    pub fn see_binding(&mut self, bound: Option<BindingState>, note: Option<String>)
        ensures
            final(self).eth_ip_detached == (bound matches Some(b) && !b.v4 && !b.v6),
            final(self).bridge_note == note,
            *final(self) == (Board {
                eth_ip_detached: final(self).eth_ip_detached,
                bridge_note: final(self).bridge_note,
                ..*old(self)
            }),
    {
        self.eth_ip_detached = match bound {
            Some(b) => !b.v4 && !b.v6,
            None => false,
        };
        self.bridge_note = note;
    }

    /// Which mode the machine is currently in, as far as the routing table shows it.
    pub open spec fn active(self) -> Option<Mode> {
        match self.verdict {
            Verdict::Ethernet { .. } => Some(Mode::Ethernet),
            Verdict::Wifi { .. } => Some(Mode::Wifi),
            _ => None,
        }
    }

    pub fn active_mode(&self) -> (r: Option<Mode>)
        ensures
            r == self.active(),
    {
        match self.verdict {
            Verdict::Ethernet { .. } => Some(Mode::Ethernet),
            Verdict::Wifi { .. } => Some(Mode::Wifi),
            _ => None,
        }
    }
}

/// How long a switch may take to report back, in milliseconds.
pub const PATIENCE_MS: u64 = 45_000;

/// The widget.
#[derive(Debug)]
pub struct App {
    pub cfg: MachineConfig,
    pub view: Board,
    /// A switch is in flight, since this time in milliseconds: buttons are disabled until it
    /// reports back.
    pub pending: Option<(Mode, u64)>,
    pub status: Option<String>,
    pub error: Option<String>,
    /// There is an icon in the notification area.
    pub tray: bool,
    pub visible: bool,
}

/// What the widget is doing, as plain values.
#[verifier::ext_equal]
pub struct Doing {
    pub pending: Option<(Mode, u64)>,
    pub status: Option<Seq<char>>,
    pub error: Option<Seq<char>>,
    pub visible: bool,
}

/// What is said while a switch is under way.
pub open spec fn request_words(mode: Mode) -> Seq<char> {
    match mode {
        Mode::Wifi => "Connecting Wi-Fi and switching..."@,
        Mode::WifiOnly => "Connecting Wi-Fi and detaching Ethernet..."@,
        Mode::Ethernet => "Switching to Ethernet..."@,
        Mode::Auto => "Restoring automatic metrics..."@,
    }
}

/// What is said of a switch that never reported back.
pub open spec fn silence_words(mode: Mode) -> Seq<char> {
    "The "@ + mode.name() + " switch did not report back. Check `linkswitch --status`."@
}

impl App {
    pub open spec fn doing(self) -> Doing {
        Doing {
            pending: self.pending,
            status: text_view(self.status),
            error: text_view(self.error),
            visible: self.visible,
        }
    }

    /// What a step leaves as it was.
    pub open spec fn same_otherwise(self, before: App) -> bool {
        self.cfg == before.cfg && self.view == before.view && self.tray == before.tray
    }

    pub fn new(cfg: MachineConfig, view: Board, tray: bool) -> (r: App)
        ensures
            r.cfg == cfg,
            r.view == view,
            r.tray == tray,
            r.doing() == (Doing { pending: None, status: None, error: None, visible: true }),
    {
        App { cfg, view, pending: None, status: None, error: None, tray, visible: true }
    }

    /// Ask for a switch. True if the worker has to be asked; one switch at a time.
    pub fn request(&mut self, mode: Mode, now: u64) -> (r: bool)
        ensures
            r == (old(self).pending is None),
            final(self).same_otherwise(*old(self)),
            final(self).doing() == if r {
                Doing {
                    pending: Some((mode, now)),
                    error: None,
                    status: Some(request_words(mode)),
                    ..old(self).doing()
                }
            } else {
                old(self).doing()
            },
    {
        if self.pending.is_some() {
            return false;
        }
        self.pending = Some((mode, now));
        self.error = None;
        self.status = Some(
            match mode {
                Mode::Wifi => "Connecting Wi-Fi and switching...".to_owned(),
                Mode::WifiOnly => "Connecting Wi-Fi and detaching Ethernet...".to_owned(),
                Mode::Ethernet => "Switching to Ethernet...".to_owned(),
                Mode::Auto => "Restoring automatic metrics...".to_owned(),
            },
        );
        true
    }

    /// A switch reported back. True if what is shown has to be read again: the change may not be
    /// visible in the routing table for a moment.
    pub fn finish(&mut self, result: ApplyResult) -> (r: bool)
        ensures
            r == (result.error is None),
            final(self).same_otherwise(*old(self)),
            final(self).doing() == (Doing {
                pending: None,
                status: None,
                error: if result.error is Some {
                    text_view(result.error)
                } else {
                    old(self).doing().error
                },
                ..old(self).doing()
            }),
    {
        self.pending = None;
        self.status = None;
        match result.error {
            Some(e) => {
                self.error = Some(e);
                false
            },
            None => true,
        }
    }

    /// A switch that never reports back must not disable the buttons forever. True if there is
    /// still one to wait for.
    pub fn check_pending(&mut self, now: u64) -> (r: bool)
        ensures
            final(self).same_otherwise(*old(self)),
            match old(self).pending {
                None => !r && final(self).doing() == old(self).doing(),
                Some((mode, started)) => {
                    &&& r == (now - started <= PATIENCE_MS)
                    &&& r ==> final(self).doing() == old(self).doing()
                    &&& !r ==> final(self).doing() == (Doing {
                        pending: None,
                        status: None,
                        error: Some(silence_words(mode)),
                        ..old(self).doing()
                    })
                },
            },
    {
        match self.pending {
            None => false,
            Some((mode, started)) => {
                if now > started && now - started > PATIENCE_MS {
                    self.pending = None;
                    self.status = None;
                    let mut e = "The ".to_owned();
                    e.append(mode.as_str());
                    e.append(" switch did not report back. Check `linkswitch --status`.");
                    self.error = Some(e);
                    false
                } else {
                    true
                }
            },
        }
    }

    /// Can the window be hidden and got back again?
    pub fn can_hide(&self) -> (r: bool)
        ensures
            r == self.tray,
    {
        self.tray
    }

    /// Hide the window, where it can be got back.
    pub fn put_away(&mut self) -> (r: bool)
        ensures
            r == old(self).tray,
            final(self).same_otherwise(*old(self)),
            final(self).doing() == (Doing {
                visible: old(self).visible && !r,
                ..old(self).doing()
            }),
    {
        if self.tray {
            self.visible = false;
            true
        } else {
            false
        }
    }

    /// A click in the notification area. True if the window is visible now, and needs focus and
    /// fresh data.
    pub fn on_tray(&mut self, action: tray::TrayAction) -> (r: bool)
        ensures
            r == !old(self).visible,
            final(self).same_otherwise(*old(self)),
            final(self).doing() == (Doing { visible: r, ..old(self).doing() }),
    {
        match action {
            tray::TrayAction::Toggle => {
                self.visible = !self.visible;
                self.visible
            },
        }
    }

    /// What the notification area says.
    pub fn tooltip(&self) -> (r: String)
        ensures
            r@ == tray::tooltip_words(
                self.view.verdict,
                match self.pending {
                    Some((m, _)) => Some(m),
                    None => None,
                },
            ),
    {
        let pending = match self.pending {
            Some((m, _)) => Some(m),
            None => None,
        };
        tray::tooltip_for(&self.view.verdict, pending)
    }
}

} // verus!
