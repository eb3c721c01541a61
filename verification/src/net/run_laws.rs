//! What holds of bringing Wi-Fi up, of changing bindings and of the connection policy, in terms of
//! what Windows answers.
use vstd::prelude::*;

use super::binding::{
    bind_asks, bind_step, bound_bridges, bridge, error_of, warning_about,
    BindAction, BindErrorView, BindEventView, BindOutcome, BindResultView, BindRun, BindStage,
    BindingState, Protocol,
};
use super::wcm::{
    backup_of, change_result, effective_policy, restoring, MinimizePolicy, RegistryChange,
};
use super::wifi::{
    connect_asks, connect_step, first_state, hardware_on, named_profiles, profile_of, software_on,
    status_of, ConnectEventView, ConnectStage, ConnectView, Connection, PhyRadio, WifiErrorView,
};
use crate::encoding;

verus! {

// --- bringing Wi-Fi up -------------------------------------------------------------------

/// Windows lists an interface, and reports it in this state.
pub open spec fn in_state(rc: u32, list: Option<(u32, i32)>, state: i32) -> bool {
    rc == 0 && list is Some && (list->0).0 > 0 && (list->0).1 == state
}

/// An attempt fails only for the reason it gives: the code that Windows returned, no interface, one
/// that is not ready, a radio that is off where it says, no saved profile, a refused request, or a
/// clock reading at or above the timeout.
pub proof fn an_attempt_fails_only_for_its_reason(s: ConnectView, e: ConnectEventView)
    ensures
        connect_step(s, e).1 matches Some(Err(error)) ==> match error {
            WifiErrorView::ServiceUnavailable(code) => {
                ||| e == ConnectEventView::Opened(code) && code != 0
                ||| e matches ConnectEventView::Interfaces { rc, list } && rc == code && (rc != 0
                    || list is None)
            },
            WifiErrorView::NoAdapter => e matches ConnectEventView::Interfaces { rc, list } && rc
                == 0 && list is Some && (list->0).0 == 0,
            WifiErrorView::NotReady => e matches ConnectEventView::Interfaces { rc, list }
                && in_state(rc, list, 0),
            WifiErrorView::RadioOff { hardware } => e matches ConnectEventView::Radio(r) && r is Some
                && if hardware {
                !(r->0).1
            } else {
                (r->0).1 && !(r->0).0
            },
            WifiErrorView::NoProfile => e matches ConnectEventView::Profiles(saved) && saved.len()
                == 0,
            WifiErrorView::ConnectFailed { code, profile } => e == ConnectEventView::Connected(code)
                && code != 0 && profile == s.profile,
            WifiErrorView::Timeout { profile, waited } => e matches ConnectEventView::Clock(ms) && ms
                >= s.timeout_ms && profile == s.profile && waited == ms / 1000,
        },
{
}

/// As long as the clock is below the timeout, an attempt goes on: it pauses, looks again, and ends
/// well where the interface is connected; where it is not, whatever else Windows says of it, the
/// attempt is back where it was and reads the clock again. At the timeout it gives up.
pub proof fn polling_goes_on_until_the_timeout(
    s: ConnectView,
    ms: u64,
    rc: u32,
    list: Option<(u32, i32)>,
)
    requires
        connect_asks(s.stage) is ReadClock,
    ensures
        ms >= s.timeout_ms ==> connect_step(s, ConnectEventView::Clock(ms)).1 == Some(
            Err::<Seq<char>, WifiErrorView>(
                WifiErrorView::Timeout { profile: s.profile, waited: (ms / 1000) as u64 },
            ),
        ),
        ms < s.timeout_ms ==> {
            let (timed, a) = connect_step(s, ConnectEventView::Clock(ms));
            let (paused, b) = connect_step(timed, ConnectEventView::Paused);
            let (polled, c) = connect_step(paused, ConnectEventView::Interfaces { rc, list });
            &&& a is None && connect_asks(timed.stage) is Pause
            &&& b is None && connect_asks(paused.stage) is ListInterfaces
            &&& in_state(rc, list, 1) ==> c == Some(Ok::<Seq<char>, WifiErrorView>(s.profile))
            &&& !in_state(rc, list, 1) ==> c is None && polled == s
        },
{
}

/// The way to the first clock reading: the service is opened, an interface that is not connected is
/// found, its radio is not off, the preferred profile is chosen where it is saved and else the
/// first, and Windows takes the request.
pub proof fn a_request_is_made_for_the_right_profile(
    preferred: Option<Seq<char>>,
    timeout_ms: u64,
    list: Option<(u32, i32)>,
    radio: Option<(bool, bool)>,
    saved: Seq<Seq<char>>,
)
    requires
        list is Some && (list->0).0 > 0 && (list->0).1 != 0 && (list->0).1 != 1,
        radio is Some ==> (radio->0).0 && (radio->0).1,
        saved.len() > 0,
    ensures
        ({
            let start = ConnectView {
                stage: ConnectStage::Opening,
                preferred,
                profile: Seq::empty(),
                timeout_ms,
            };
            let (opened, a) = connect_step(start, ConnectEventView::Opened(0));
            let (found, b) = connect_step(opened, ConnectEventView::Interfaces { rc: 0, list });
            let (on, c) = connect_step(found, ConnectEventView::Radio(radio));
            let (chosen, d) = connect_step(on, ConnectEventView::Profiles(saved));
            let (asked, f) = connect_step(chosen, ConnectEventView::Connected(0));
            &&& a is None && b is None && c is None && d is None && f is None
            &&& connect_asks(start.stage) is Open
            &&& connect_asks(opened.stage) is ListInterfaces
            &&& connect_asks(found.stage) is ReadRadio
            &&& connect_asks(on.stage) is ListProfiles
            &&& connect_asks(chosen.stage) is Connect
            &&& connect_asks(asked.stage) is ReadClock
            &&& asked.timeout_ms == timeout_ms
            &&& preferred is Some && saved.contains(preferred->0) ==> asked.profile == preferred->0
            &&& preferred is None || !saved.contains(preferred->0) ==> asked.profile == saved[0]
        }),
{
}

/// Wi-Fi that is connected already is left alone: the attempt reads which profile it is and ends
/// well.
pub proof fn a_connected_wifi_is_left_alone(
    s: ConnectView,
    list: Option<(u32, i32)>,
    p: Option<Seq<char>>,
)
    requires
        s.stage is Looking,
        in_state(0, list, 1),
    ensures
        ({
            let (seen, a) = connect_step(s, ConnectEventView::Interfaces { rc: 0, list });
            let (_, b) = connect_step(seen, ConnectEventView::Profile(p));
            &&& a is None && connect_asks(seen.stage) is ReadStatus
            &&& b == Some(
                Ok::<Seq<char>, WifiErrorView>(
                    match p {
                        Some(name) => name,
                        None => Seq::empty(),
                    },
                ),
            )
        }),
{
}

/// The state of the first interface is known exactly where the call went well and listed one.
pub proof fn a_state_needs_an_interface(rc: u32, list: Option<(u32, i32)>)
    ensures
        first_state(rc, list) is Ok <==> rc == 0 && list is Some && (list->0).0 > 0,
        first_state(rc, list) matches Ok(state) ==> in_state(rc, list, state),
        first_state(rc, list) == Err::<i32, WifiErrorView>(WifiErrorView::NoAdapter) <==> rc == 0
            && list is Some && (list->0).0 == 0,
{
}

/// A radio is off only where there is one and every one of them is.
pub proof fn a_radio_is_off_only_if_all_are(phys: Seq<PhyRadio>)
    ensures
        !software_on(phys) <==> phys.len() > 0 && forall|i: int|
            0 <= i < phys.len() ==> (#[trigger] phys[i]).software == 2,
        !hardware_on(phys) <==> phys.len() > 0 && forall|i: int|
            0 <= i < phys.len() ==> (#[trigger] phys[i]).hardware == 2,
{
}

/// What is shown of Wi-Fi: connected exactly where the interface is, a name, a profile and a signal
/// only then, and the signal as Windows reports it. The radio counts as on unless it is known to
/// be off in software or in hardware.
pub proof fn the_status_is_what_windows_reports(
    state: i32,
    radio: Option<(bool, bool)>,
    connection: Option<Connection>,
)
    ensures
        ({
            let s = status_of(state, radio, connection);
            &&& s.connected <==> state == 1
            &&& s.radio_on <==> !(radio is Some && (!(radio->0).0 || !(radio->0).1))
            &&& state != 1 || connection is None ==> s.ssid is None && s.profile is None
                && s.signal_quality is None
            &&& state == 1 && connection is Some ==> {
                let c = connection->0;
                &&& s.signal_quality == Some(c.signal_quality)
                &&& s.ssid == if c.ssid@.len() == 0 {
                    None
                } else {
                    Some(encoding::utf8_lossy(c.ssid@))
                }
                &&& profile_of(c).len() > 0 ==> s.profile == Some(profile_of(c))
                &&& profile_of(c).len() == 0 ==> s.profile is None
            }
        }),
{
}

/// The name that a profile's UTF-16 units spell.
pub open spec fn name_of(units: Vec<u16>) -> Seq<char> {
    encoding::utf16_text(encoding::before_nul(units@))
}

/// How many of the first `n` profiles have a name.
pub open spec fn with_name(list: Seq<Vec<u16>>, n: int) -> int
    decreases n,
{
    if n <= 0 {
        0
    } else {
        with_name(list, n - 1) + if name_of(list[n - 1]).len() > 0 {
            1int
        } else {
            0int
        }
    }
}

proof fn lemma_with_name(list: Seq<Vec<u16>>, n: int)
    requires
        0 <= n < list.len(),
    ensures
        with_name(list.drop_last(), n) == with_name(list, n),
        0 <= with_name(list, n) <= n,
    decreases n,
{
    if n > 0 {
        lemma_with_name(list, n - 1);
    }
}

proof fn lemma_as_many_names(list: Seq<Vec<u16>>)
    ensures
        named_profiles(list).len() == with_name(list, list.len() as int),
    decreases list.len(),
{
    if list.len() > 0 {
        lemma_as_many_names(list.drop_last());
        lemma_with_name(list, list.len() - 1);
    }
}

/// Every profile that has a name is listed, in Windows' order and each once.
pub proof fn every_named_profile_is_listed(list: Seq<Vec<u16>>, i: int)
    requires
        0 <= i < list.len(),
    ensures
        named_profiles(list).len() == with_name(list, list.len() as int),
        name_of(list[i]).len() > 0 ==> 0 <= with_name(list, i) < named_profiles(list).len()
            && named_profiles(list)[with_name(list, i)] == name_of(list[i]),
    decreases list.len(),
{
    let before = list.drop_last();
    let n = list.len() - 1;
    lemma_as_many_names(before);
    lemma_with_name(list, n);
    lemma_with_name(list, i);
    assert(list.last() == list[n]);
    if i < n {
        assert(before[i] == list[i]);
        every_named_profile_is_listed(before, i);
    }
}

// --- changing bindings -------------------------------------------------------------------

/// A machine to change bindings on: what is bound, which protocols are installed, and what it
/// answers to a commit.
pub struct Machine {
    pub bound: BindingState,
    pub has_v4: bool,
    pub has_v6: bool,
    pub commit: u32,
}

/// What a machine that refuses nothing answers.
pub open spec fn willing(m: Machine, action: BindAction) -> BindEventView {
    match action {
        BindAction::Lock => BindEventView::Lock { code: 0, holder: None, text: Seq::empty() },
        BindAction::Find(Protocol::V4) => BindEventView::Present(m.has_v4),
        BindAction::Find(Protocol::V6) => BindEventView::Present(m.has_v6),
        BindAction::IsBound(Protocol::V4) => BindEventView::Bound(m.bound.v4),
        BindAction::IsBound(Protocol::V6) => BindEventView::Bound(m.bound.v6),
        BindAction::Apply => BindEventView::Applied { code: m.commit, text: Seq::empty() },
        _ => BindEventView::Done,
    }
}

/// A machine after it did what it was asked.
pub open spec fn obeyed(m: Machine, action: BindAction) -> Machine {
    match action {
        BindAction::Change(Protocol::V4, b) => Machine {
            bound: BindingState { v4: b, ..m.bound },
            ..m
        },
        BindAction::Change(Protocol::V6, b) => Machine {
            bound: BindingState { v6: b, ..m.bound },
            ..m
        },
        _ => m,
    }
}

/// A run on a machine that refuses nothing, for at most `n` steps: how it ends, and what the
/// machine is like then.
pub open spec fn driven(s: BindRun, m: Machine, n: nat) -> (Option<BindResultView>, Machine)
    decreases n,
{
    if n == 0 {
        (None, m)
    } else {
        let (next, end) = bind_step(s, willing(m, bind_asks(s)));
        let after = obeyed(m, bind_asks(s));
        if end is Some {
            (end, after)
        } else {
            driven(next, after, (n - 1) as nat)
        }
    }
}

/// On a machine that refuses nothing, a change of bindings ends, and ends well: every protocol that
/// is installed is bound exactly as wanted, one that is not is left alone, and the outcome says
/// whether anything was changed and whether Windows wants a reboot. Only where IPv4 is wanted and
/// not installed is it refused, with nothing changed.
pub proof fn bindings_become_what_is_wanted(want: BindingState, m: Machine)
    requires
        m.commit < 0x8000_0000,
    ensures
        ({
            let start = BindRun {
                stage: BindStage::Opening,
                want,
                has_v4: false,
                has_v6: false,
                changed: false,
            };
            let (end, after) = driven(start, m, 12);
            let differs = (m.has_v4 && m.bound.v4 != want.v4) || (m.has_v6 && m.bound.v6
                != want.v6);
            &&& want.v4 && !m.has_v4 ==> end is Some && end->0 is Err && after.bound == m.bound
            &&& !(want.v4 && !m.has_v4) ==> {
                &&& end == Some(
                    Ok::<BindOutcome, BindErrorView>(
                        BindOutcome {
                            changed: differs,
                            needs_reboot: differs && m.commit == 0x0004_a020,
                        },
                    ),
                )
                &&& after.bound.v4 == if m.has_v4 {
                    want.v4
                } else {
                    m.bound.v4
                }
                &&& after.bound.v6 == if m.has_v6 {
                    want.v6
                } else {
                    m.bound.v6
                }
            }
        }),
{
    reveal_with_fuel(driven, 13);
}

/// A code that Windows returned is told for what it is: four have a meaning of their own, and of
/// every other one what Windows says about it is kept.
pub proof fn a_binding_code_keeps_its_meaning(code: u32, e: Seq<char>)
    ensures
        error_of(code, e) is AdapterNotFound <==> code == 0x8004_a027,
        error_of(code, e) is Locked <==> code == 0x8004_a024,
        error_of(code, e) is VSwitchActive <==> code == 0x8004_a02a,
        error_of(code, e) is NotElevated <==> code == 0x8007_0005,
        code != 0x8004_a027 && code != 0x8004_a024 && code != 0x8004_a02a && code != 0x8007_0005
            ==> error_of(code, e) == BindErrorView::Com(e),
{
}

/// A failure ends a run with what its code means, wherever the run is; a commit that fails does
/// too; and nothing but these, a lock that is not granted and a missing IPv4 ends it with an error.
pub proof fn a_run_fails_only_for_its_reason(s: BindRun, e: BindEventView)
    ensures
        s.stage !is Finished ==> (e matches BindEventView::Failed { code, text } ==> bind_step(
            s,
            e,
        ).1 == Some(Err::<BindOutcome, BindErrorView>(error_of(code, text)))),
        s.stage is Applying ==> (e matches BindEventView::Applied { code, text } ==> (bind_step(
            s,
            e,
        ).1 matches Some(Err(_)) <==> code >= 0x8000_0000)),
        bind_step(s, e).1 matches Some(Err(error)) ==> {
            match e {
                BindEventView::Failed { code, text } => error == error_of(code, text),
                BindEventView::Applied { code, text } => code >= 0x8000_0000 && error == error_of(
                    code,
                    text,
                ),
                BindEventView::Lock { code, holder, text } => code != 0 && (error == error_of(
                    code,
                    text,
                ) || (code == 1 && error == BindErrorView::Locked { holder })),
                BindEventView::Present(_) => s.want.v4 && !s.has_v4 && error is Com,
                _ => false,
            }
        },
{
}

/// A lock that another program holds is waited for once more, and then told with its holder.
pub proof fn a_held_lock_is_asked_for_twice(
    s: BindRun,
    holder: Option<Seq<char>>,
    text: Seq<char>,
    again: Option<Seq<char>>,
)
    requires
        s.stage is Locking,
    ensures
        ({
            let (waiting, a) = bind_step(s, BindEventView::Lock { code: 1, holder, text });
            let (back, b) = bind_step(waiting, BindEventView::Done);
            let (_, c) = bind_step(back, BindEventView::Lock { code: 1, holder: again, text });
            let (granted, d) = bind_step(back, BindEventView::Lock { code: 0, holder: again, text });
            &&& a is None && bind_asks(waiting) is Pause
            &&& b is None && bind_asks(back) is Lock
            &&& c == Some(
                Err::<BindOutcome, BindErrorView>(BindErrorView::Locked { holder: again }),
            )
            &&& d is None && bind_asks(granted) is Initialize
        }),
{
}

/// There is a warning exactly where something still bridges the adapter, and what is named are the
/// components that are bound, in their order.
pub proof fn every_bridge_is_named(bound: Seq<bool>)
    requires
        bound.len() == 3,
    ensures
        ({
            let found = bound_bridges(bound, 3);
            &&& warning_about(found) is Some <==> bound[0] || bound[1] || bound[2]
            &&& forall|i: int| 0 <= i < 3 && #[trigger] bound[i] ==> found.contains(bridge(i).1)
            &&& found.len() == (if bound[0] {
                1int
            } else {
                0int
            }) + (if bound[1] {
                1int
            } else {
                0int
            }) + (if bound[2] {
                1int
            } else {
                0int
            })
        }),
{
    reveal_with_fuel(bound_bridges, 4);
    let found = bound_bridges(bound, 3);
    assert forall|i: int| 0 <= i < 3 && #[trigger] bound[i] implies found.contains(
        bridge(i).1,
    ) by {
        let at: int = if i == 0 {
            0
        } else if i == 1 {
            if bound[0] {
                1
            } else {
                0
            }
        } else {
            found.len() - 1
        };
        assert(found[at] == bridge(i).1);
    }
}

// --- the connection policy ---------------------------------------------------------------

/// A registry value that is there decides, whatever the manager says; only without one does the
/// manager, and then the policy is off only where the manager says so. The four documented values
/// mean what they are documented to mean, and any other keeps its number.
pub proof fn a_registry_value_decides(registry: Option<u32>, manager: Option<(bool, bool)>)
    ensures
        ({
            let p = effective_policy(registry, manager);
            &&& p.value_present <==> registry is Some
            &&& p.is_group_policy <==> manager is Some && (manager->0).1
            &&& registry matches Some(v) ==> {
                &&& p.policy is Allow <==> v == 0
                &&& p.policy is Minimize <==> v == 1
                &&& p.policy is MinimizeCellular <==> v == 2
                &&& p.policy is PreventWifi <==> v == 3
                &&& v > 3 ==> p.policy == MinimizePolicy::Unknown(v)
            }
            &&& registry is None ==> {
                &&& p.policy is Allow <==> manager is Some && !(manager->0).0
                &&& p.policy is Minimize <==> !(manager is Some && !(manager->0).0)
            }
        }),
{
}

/// A change succeeded where Windows says so, and removing what is not there is no failure; every
/// other code is handed on.
pub proof fn a_change_fails_with_its_code(change: RegistryChange, rc: u32)
    ensures
        change_result(change, rc) is Ok <==> rc == 0 || (change is Delete && rc == 2),
        change_result(change, rc) matches Err(code) ==> code == rc,
{
}

/// What is captured says whether the value was there and what it was, and is put back by writing
/// that or by removing it.
pub proof fn a_backup_is_exact(registry: Option<u32>)
    ensures
        backup_of(registry).present <==> registry is Some,
        registry matches Some(v) ==> backup_of(registry).value == v && restoring(
            backup_of(registry),
        ) == RegistryChange::Write(v),
        registry is None ==> restoring(backup_of(registry)) is Delete,
{
}

} // verus!
