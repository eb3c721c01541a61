//! What a run and a recovery say of what they did.
use vstd::prelude::*;
use vstd::string::*;

use super::run::{
    asks, next, recover_asks, recover_step, ActionView, EventView, RecoverView, RunView,
};
use super::target;
use crate::config::{JournalView, Mode};
use crate::net::adapters::{NicKind, NicView};
use crate::net::binding::{BindErrorView, BindOutcome, BindingState};
use crate::net::err;
use crate::net::metric::FamilyOutcome;
use crate::net::routes::{best_is_unique, is_best, verdict_on, DefaultRoute};
use crate::net::wcm::PolicyState;
use crate::net::wifi::WifiErrorView;
use crate::text;

verus! {

// --- success -----------------------------------------------------------------------------

/// The report of a change that is in place says who carries the traffic: the link that was to win
/// where the best route is its own, and else a tunnel, which is named by its index. The metric at
/// which Ethernet is parked is told of a switch to Wi-Fi, and of no other.
pub proof fn a_report_tells_who_carries_the_traffic(
    r: RunView,
    nics: Seq<NicView>,
    routes: Seq<DefaultRoute>,
    i: int,
    now: u64,
)
    requires
        r.stage is Verifying,
        is_best(routes, i),
    ensures
        ({
            let end = next(r, EventView::Snapshot { nics, routes }, now).report;
            let won = if r.mode == Mode::Ethernet {
                routes[i].luid == r.eth.luid
            } else {
                routes[i].luid == r.wifi
            };
            let parked = r.mode == Mode::Wifi && r.park != 0;
            &&& end.ok && end.exit_code == 0 && end.mode == r.mode
            &&& won && r.mode == Mode::Wifi ==> end.message
                == "Traffic now goes over Wi-Fi. Ethernet stays connected."@
            &&& won && r.mode == Mode::Ethernet ==> end.message
                == "Traffic now goes over Ethernet."@
            &&& !won && r.mode == Mode::Wifi ==> end.message
                == "Ethernet is parked; your VPN tunnel now runs over Wi-Fi for new connections."@
            &&& !won && r.mode == Mode::Ethernet ==> end.message
                == "Applied. A VPN is still carrying all traffic."@
            &&& end.details.len() == (if parked {
                1int
            } else {
                0
            }) + (if won {
                0int
            } else {
                1
            })
            &&& parked ==> end.details[0] == "Ethernet parked at metric "@ + text::dec(
                r.park as nat,
            )
            &&& !won ==> end.details.last() == "A VPN or tunnel on interface "@ + text::dec(
                routes[i].if_index as nat,
            ) + " is carrying all traffic."@
        }),
{
    let k = choose|k: int| is_best(routes, k);
    best_is_unique(routes, i, k);
    let want = if r.mode == Mode::Ethernet {
        r.eth.luid
    } else {
        r.wifi
    };
    assert(verdict_on(routes, Some(want), None) is Ethernet <==> routes[i].luid == want);
}

/// Handing both links back reports what came of either, Ethernet first, and succeeds only if all
/// four metrics took the change or are not bound.
pub proof fn handing_back_reports_both(r: RunView, v: Seq<FamilyOutcome>, now: u64)
    requires
        r.stage is WritingMetrics,
        r.mode == Mode::Auto,
        v.len() == 4,
    ensures
        ({
            let end = next(r, EventView::MetricsWritten(v), now).report;
            let fine = |o: FamilyOutcome| o is Applied || o is FamilyAbsent;
            let all = fine(v[0]) && fine(v[1]) && fine(v[2]) && fine(v[3]);
            &&& end.ok == all && end.exit_code == if all {
                0u32
            } else {
                5
            }
            &&& all ==> end.message == "Both adapters are back on Windows' automatic metrics."@
            &&& !all ==> end.message == "Could not fully restore automatic metrics."@
            &&& end.details.len() == 2
            &&& end.details[0] == "IPv4: "@ + v[0].words() + " | IPv6: "@ + v[1].words()
            &&& end.details[1] == "IPv4: "@ + v[2].words() + " | IPv6: "@ + v[3].words()
        }),
{
}

/// A detachment that worked says what Ethernet is left with.
pub proof fn a_detachment_is_reported(r: RunView, o: BindOutcome, now: u64)
    requires
        r.stage is Detaching,
    ensures
        ({
            let end = next(r, EventView::BindingSet(Ok(o)), now).report;
            &&& end.ok && end.exit_code == 0 && end.mode == r.mode
            &&& end.message
                == "Ethernet's IP stack is detached. The cable is still plugged in and the adapter is still enabled."@
            &&& end.details == seq!["Ethernet has no IP address, routes or DNS servers."@]
        }),
{
}

// --- failure -----------------------------------------------------------------------------

/// A failure says why, and nothing else: what cannot be found, what is not connected, what the
/// policy forbids, or what the call that failed had to say.
pub proof fn a_refusal_says_why(
    r: RunView,
    nics: Seq<NicView>,
    p: PolicyState,
    w: WifiErrorView,
    b: BindErrorView,
    now: u64,
)
    ensures
        r.stage is ReadingAdapters && target(r.cfg.ethernet, NicKind::Ethernet, nics) is None
            ==> next(r, EventView::Snapshot { nics, routes: Seq::empty() }, now).report.message
            == "No Ethernet adapter is available on this machine."@,
        r.stage is ReadingAdapters && target(r.cfg.ethernet, NicKind::Ethernet, nics) is Some
            && target(r.cfg.wifi, NicKind::Wifi, nics) is None ==> next(
            r,
            EventView::Snapshot { nics, routes: Seq::empty() },
            now,
        ).report.message == "No Wi-Fi adapter is available on this machine."@,
        r.stage is SavingReattached && r.mode == Mode::Ethernet && !r.eth.media_connected ==> next(
            r,
            EventView::Done,
            now,
        ).report.message
            == "The Ethernet cable is not connected, so there is nothing to switch to."@,
        r.stage is ReadingPolicy && p.policy is PreventWifi ==> next(
            r,
            EventView::Policy(p),
            now,
        ).report.message
            == "Group Policy prevents Wi-Fi entirely while Ethernet is connected"@
            + ". LinkSwitch cannot switch to Wi-Fi on this machine."@,
        r.stage is ConnectingWifi ==> next(r, EventView::Wifi(Err(w)), now).report.message
            == w.message(),
        r.stage is ReadingRoutes ==> next(
            r,
            EventView::Snapshot { nics, routes: Seq::empty() },
            now,
        ).report.message
            == "Wi-Fi is connected but has no default route yet. Try again in a moment."@,
        r.stage is ReadingBinding ==> next(r, EventView::Binding(Err(b)), now).report.message
            == b.message(),
        r.stage is ReadingBinding ==> next(
            r,
            EventView::Binding(Ok(BindingState { v4: false, v6: false })),
            now,
        ).report.message == "Ethernet already has no IP stack attached."@,
{
}

/// A change that did not take is told of with what came of both families of Ethernet, in the report
/// and in the journal, and it is undone. One to Wi-Fi is dated in the journal then; one to Ethernet
/// stays without an end.
#[verifier::spinoff_prover]
#[verifier::rlimit(40)]
pub proof fn a_failed_write_says_why(
    r: RunView,
    v: Seq<FamilyOutcome>,
    back: Seq<FamilyOutcome>,
    at: u64,
    now: u64,
)
    requires
        r.stage is WritingMetrics,
        r.mode == Mode::Wifi || r.mode == Mode::Ethernet,
        v.len() == 4,
    ensures
        ({
            let failed = next(r, EventView::MetricsWritten(v), at);
            let undone = next(failed, EventView::MetricsWritten(back), now);
            let four = if r.mode == Mode::Wifi {
                v[2]
            } else {
                v[0]
            };
            let six = if r.mode == Mode::Wifi {
                v[3]
            } else {
                v[1]
            };
            let said = "IPv4: "@ + four.words() + " | IPv6: "@ + six.words();
            let took = (four is Applied || four is FamilyAbsent) && (six is Applied
                || six is FamilyAbsent);
            &&& !took && r.mode == Mode::Wifi ==> failed.report.message
                == "Could not change the Ethernet metric: "@ + said
            &&& !took && r.mode == Mode::Ethernet ==> failed.report.message
                == "Could not restore the Ethernet metric: "@ + said
            &&& !took ==> failed.journal.last_error == Some(said)
            &&& !took ==> !undone.journal.in_flight && undone.journal.restore.len() == 0
            &&& !took && r.mode == Mode::Wifi ==> undone.journal.finished_unix == Some(now)
            &&& !took && r.mode == Mode::Ethernet ==> undone.journal.finished_unix
                == r.journal.finished_unix
        }),
{
}

/// A detachment that failed says what the call had to say, puts the bindings back and then the
/// metrics, and is dated.
pub proof fn a_failed_detachment_says_why(
    r: RunView,
    e: BindErrorView,
    oks: Seq<bool>,
    back: Seq<FamilyOutcome>,
    at: u64,
    now: u64,
)
    requires
        r.stage is Detaching,
    ensures
        ({
            let failed = next(r, EventView::BindingSet(Err(e)), at);
            let rebound = next(failed, EventView::Bindings(oks), at);
            let undone = next(rebound, EventView::MetricsWritten(back), now);
            &&& failed.report.message == e.message() && !failed.report.ok
            &&& failed.journal.last_error == Some(e.message())
            &&& asks(failed) == ActionView::WriteBindings(r.journal.bindings)
            &&& asks(rebound) is WriteMetrics
            &&& undone.journal.finished_unix == Some(now)
            &&& undone.journal.bindings.len() == 0 && undone.journal.restore.len() == 0
        }),
{
}

/// A change that left the machine without a route says so, is undone, and is dated.
pub proof fn a_lost_route_is_told(
    r: RunView,
    nics: Seq<NicView>,
    back: Seq<FamilyOutcome>,
    at: u64,
    now: u64,
)
    requires
        r.stage is Verifying,
    ensures
        ({
            let failed = next(r, EventView::Snapshot { nics, routes: Seq::empty() }, at);
            let undone = next(failed, EventView::MetricsWritten(back), now);
            &&& failed.report.message
                == "The change left this machine with no network route, so it was undone."@
            &&& failed.journal.last_error == Some("no default route after the change; reverted"@)
            &&& asks(failed) is WriteMetrics
            &&& undone.journal.finished_unix == Some(now) && !undone.journal.in_flight
        }),
{
}

/// A failure carries no details, and it is that of the run's own mode; the exception is handing
/// both links back, which tells what came of either.
pub proof fn a_failure_has_no_details(r: RunView, e: EventView, now: u64)
    requires
        r.mode != Mode::Auto,
        r.report.ok,
    ensures
        ({
            let end = next(r, e, now).report;
            !end.ok ==> end.details.len() == 0 && end.mode == r.mode
        }),
{
}

// --- recovery ----------------------------------------------------------------------------

/// A recovery looks only at a change that is under way with something recorded, and says whether
/// everything could be put back: every binding set, every metric written or not bound.
pub proof fn a_recovery_says_whether_it_is_complete(
    start: RecoverView,
    j: JournalView,
    oks: Seq<bool>,
    outcomes: Seq<FamilyOutcome>,
    now: u64,
)
    requires
        start.stage is Loading,
    ensures
        ({
            let seen = recover_step(start, EventView::Journal(j), now);
            let rebound = recover_step(seen, EventView::Bindings(oks), now);
            let rewritten = recover_step(rebound, EventView::MetricsWritten(outcomes), now);
            let saved = recover_asks(rewritten)->SaveJournal_0;
            let whole = (forall|i: int| 0 <= i < oks.len() ==> #[trigger] oks[i]) && (forall|i: int|
                0 <= i < outcomes.len() ==> (#[trigger] outcomes[i] is Applied
                    || outcomes[i] is FamilyAbsent));
            &&& !j.in_flight || (j.restore.len() == 0 && j.bindings.len() == 0) ==> recover_asks(
                seen,
            ) is Nothing
            &&& j.in_flight && (j.restore.len() > 0 || j.bindings.len() > 0) ==> {
                &&& recover_asks(seen) == ActionView::WriteBindings(j.bindings)
                &&& recover_asks(rewritten) is SaveJournal
                &&& saved.restore.len() == 0 && saved.bindings.len() == 0 && !saved.in_flight
                &&& saved.mode == j.mode && saved.started_unix == j.started_unix
                &&& saved.finished_unix == Some(now)
                &&& whole ==> saved.last_error == Some("recovered from an interrupted apply"@)
                &&& !whole ==> saved.last_error == Some(
                    "recovery from an interrupted apply was incomplete"@,
                )
            }
        }),
{
}

// --- what went wrong, in words -----------------------------------------------------------

/// A Wi-Fi error names what it is about: the code, the network, how long was waited, and whether it
/// is a switch on the machine.
pub proof fn a_wifi_error_names_its_cause(code: u32, profile: Seq<char>, waited: u64)
    ensures
        text::contains(WifiErrorView::ServiceUnavailable(code).message(), text::dec(code as nat)),
        text::contains((WifiErrorView::ConnectFailed { code, profile }).message(), profile),
        text::contains(
            (WifiErrorView::ConnectFailed { code, profile }).message(),
            "\" (error "@ + text::dec(code as nat),
        ),
        text::contains((WifiErrorView::Timeout { profile, waited }).message(), profile),
        text::contains(
            (WifiErrorView::Timeout { profile, waited }).message(),
            "\" within "@ + text::dec(waited as nat),
        ),
        (WifiErrorView::RadioOff { hardware: true }).message()
            == "The Wi-Fi radio is switched off by a hardware switch on this machine."@,
        (WifiErrorView::RadioOff { hardware: false }).message()
            == "Wi-Fi is turned off. Turn it on, or leave airplane mode, and try again."@,
{
    let d = text::dec(code as nat);
    let service = WifiErrorView::ServiceUnavailable(code).message();
    text::lemma_itself(service);
    let a = "Windows' WLAN service is not responding (error "@;
    text::lemma_piece(a + d, ")."@, service);
    text::lemma_piece(a, d, service);
    let refused = (WifiErrorView::ConnectFailed { code, profile }).message();
    text::lemma_itself(refused);
    let b = "Windows refused to connect to \""@;
    text::lemma_piece(b + profile + "\" (error "@ + d, ")."@, refused);
    text::lemma_field(b + profile, "\" (error "@, d, refused);
    text::lemma_piece(b, profile, refused);
    let late = (WifiErrorView::Timeout { profile, waited }).message();
    text::lemma_itself(late);
    let c = "Wi-Fi did not finish connecting to \""@;
    let s = text::dec(waited as nat);
    let tail = "s. It may be out of range, or the saved password may be wrong."@;
    text::lemma_piece(c + profile + "\" within "@ + s, tail, late);
    text::lemma_field(c + profile, "\" within "@, s, late);
    text::lemma_piece(c, profile, late);
}

/// A binding error names who holds the lock, where that is known.
pub proof fn a_lock_names_its_holder(holder: Seq<char>)
    ensures
        (BindErrorView::Locked { holder: Some(holder) }).message()
            == "Windows' network configuration is locked by "@ + holder
            + ". Close it and try again."@,
        (BindErrorView::Locked { holder: None }).message() == (BindErrorView::Locked {
            holder: Some("another program"@),
        }).message(),
{
}

/// What came of a metric names what it was and what it is now; a failure names its code.
pub proof fn an_outcome_names_both_values(before: u32, after: u32, rc: u32)
    ensures
        (FamilyOutcome::Applied { before, before_auto: true, after, after_auto: false }).words()
            == "automatic ("@ + text::dec(before as nat) + ")"@ + " -> "@ + ("manual "@ + text::dec(
            after as nat,
        )),
        (FamilyOutcome::Applied { before, before_auto: false, after, after_auto: true }).words()
            == "manual "@ + text::dec(before as nat) + " -> "@ + ("automatic ("@ + text::dec(
            after as nat,
        ) + ")"@),
        text::contains(FamilyOutcome::Failed(rc).words(), " (Win32 "@ + text::dec(rc as nat)),
        err::meaning(0) == "ok"@,
        err::meaning(5)
            == "access denied - the process is not elevated (the scheduled task did not supply an elevated token)"@,
        err::meaning(2)
            == "adapter no longer present - it was unplugged, disabled, or its driver was replaced"@,
        err::meaning(1168) == "address family not bound on this adapter - nothing to do"@,
        rc != 0 && rc != 2 && rc != 5 && rc != 87 && rc != 1168 ==> err::meaning(rc)
            == "unexpected Win32 error"@,
{
    let said = FamilyOutcome::Failed(rc).words();
    text::lemma_itself(said);
    let a = err::meaning(rc);
    text::lemma_piece(a + " (Win32 "@ + text::dec(rc as nat), ")"@, said);
    text::lemma_field(a, " (Win32 "@, text::dec(rc as nat), said);
}

} // verus!
