//! What each mode does to the two links, when a run fails and when it goes through.
use vstd::prelude::*;

use super::laws::{after, every_answer_moves_a_run_on, is_start, moved, place, Answer};
use super::run::{asks, captured_both, next, ActionView, EventView, RunView, Stage};
use super::{restoring_all, target};
use crate::config::{AdapterRefView, JournalView, MachineView, MetricBackup, Mode};
use crate::laws::{likeness, the_best_match_is_found};
use crate::net::adapters::{is_ranking, NicKind, NicView, Tier};
use crate::net::best_candidate;
use crate::net::binding::{BindOutcome, BindingState};
use crate::net::laws::{best_of, the_best_candidate_is_picked};
use crate::net::luid::LuidKey;
use crate::net::metric::{parking, FamilyOutcome, MetricState, MetricWrite};
use crate::net::routes::{best_total, verdict_on, DefaultRoute};
use crate::net::wcm::PolicyState;

verus! {

// --- what is pinned ----------------------------------------------------------------------

/// The write is of this interface and family, to this target.
pub open spec fn writes(w: MetricWrite, luid: LuidKey, family: u16, goal: Option<u32>) -> bool {
    w.luid == luid && w.family == family && w.target == goal
}

/// The four writes steer Ethernet to one target and Wi-Fi to another, in both families: each of the
/// four metrics is written exactly once.
pub open spec fn steers_both(
    w: Seq<MetricWrite>,
    eth: LuidKey,
    eth_goal: Option<u32>,
    wifi: LuidKey,
    wifi_goal: Option<u32>,
) -> bool {
    &&& w.len() == 4
    &&& exists|i: int| 0 <= i < 4 && writes(#[trigger] w[i], eth, 2, eth_goal)
    &&& exists|i: int| 0 <= i < 4 && writes(#[trigger] w[i], eth, 23, eth_goal)
    &&& exists|i: int| 0 <= i < 4 && writes(#[trigger] w[i], wifi, 2, wifi_goal)
    &&& exists|i: int| 0 <= i < 4 && writes(#[trigger] w[i], wifi, 23, wifi_goal)
}

/// What a mode does to the metrics when it makes its change. Switching to Wi-Fi pins both families
/// of Ethernet, at the park metric, and hands Wi-Fi back to automatic. Switching to Ethernet, like
/// handing both back, makes all four automatic. Wi-Fi only makes Wi-Fi automatic and writes nothing
/// of Ethernet.
pub proof fn each_mode_steers_its_way(r: RunView)
    requires
        r.stage is WritingMetrics,
    ensures
        asks(r) is WriteMetrics,
        r.mode == Mode::Wifi ==> steers_both(
            asks(r)->WriteMetrics_0,
            r.eth.luid,
            Some(r.park),
            r.wifi,
            None,
        ),
        r.mode == Mode::Ethernet || r.mode == Mode::Auto ==> steers_both(
            asks(r)->WriteMetrics_0,
            r.eth.luid,
            None,
            r.wifi,
            None,
        ),
        r.mode == Mode::WifiOnly ==> {
            let w = asks(r)->WriteMetrics_0;
            &&& w.len() == 2
            &&& writes(w[0], r.wifi, 2, None)
            &&& writes(w[1], r.wifi, 23, None)
        },
{
    let w = asks(r)->WriteMetrics_0;
    match r.mode {
        Mode::Wifi => {
            assert(writes(w[2], r.eth.luid, 2, Some(r.park)));
            assert(writes(w[3], r.eth.luid, 23, Some(r.park)));
            assert(writes(w[0], r.wifi, 2, None));
            assert(writes(w[1], r.wifi, 23, None));
        },
        Mode::WifiOnly => {},
        Mode::Ethernet | Mode::Auto => {
            assert(writes(w[0], r.eth.luid, 2, None));
            assert(writes(w[1], r.eth.luid, 23, None));
            assert(writes(w[2], r.wifi, 2, None));
            assert(writes(w[3], r.wifi, 23, None));
        },
    }
}

/// Whatever a run goes through, the only metrics it ever pins -- other than to put back what it
/// found -- are Ethernet's when switching to Wi-Fi, and Wi-Fi's when switching to Ethernet; and it
/// writes metrics of no third interface.
pub proof fn nothing_else_is_pinned(start: RunView, answers: Seq<Answer>, i: int)
    requires
        is_start(start),
        asks(after(start, answers)) is WriteMetrics,
        0 <= i < (asks(after(start, answers))->WriteMetrics_0).len(),
    ensures
        ({
            let r = after(start, answers);
            let writes = asks(r)->WriteMetrics_0;
            let w = writes[i];
            ||| writes == restoring_all(r.backups) && !r.report.ok && r.stage is RestoringMetrics
            ||| {
                &&& w.luid == r.eth.luid || w.luid == r.wifi
                &&& w.family == 2 || w.family == 23
                &&& w.target is Some ==> w.target == Some(r.park)
                &&& w.target is Some ==> (start.mode == Mode::Wifi && w.luid == r.eth.luid) || (
                start.mode == Mode::Ethernet && w.luid == r.wifi)
            }
        }),
{
    super::laws::a_run_stays_sound(start, answers);
}

/// At answer `k` the routes came back that the park metric was worked out from.
pub open spec fn measured_at(start: RunView, answers: Seq<Answer>, k: int, r: RunView) -> bool {
    &&& 0 <= k < answers.len()
    &&& after(start, answers.take(k)).stage is ReadingRoutes
    &&& answers[k].event matches EventView::Snapshot { routes, .. } && best_total(routes, r.wifi)
        is Some && r.park == parking(r.cfg.park_metric, best_total(routes, r.wifi))
}

#[verifier::spinoff_prover]
#[verifier::rlimit(60)]
proof fn lemma_measured_before(r: RunView, a: Answer)
    requires
        super::laws::sound(r),
        r.mode == Mode::Wifi,
        place(r.stage) < place(Stage::ReadingMetrics),
        place(Stage::ReadingMetrics) <= place(moved(r, a).stage) < place(Stage::ClosingJournal),
    ensures
        r.stage is ReadingRoutes,
        moved(r, a).stage is ReadingMetrics,
        a.event matches EventView::Snapshot { routes, .. } && best_total(routes, r.wifi) is Some
            && moved(r, a).park == parking(r.cfg.park_metric, best_total(routes, r.wifi)),
        moved(r, a).wifi == r.wifi,
        moved(r, a).cfg == r.cfg,
{
    reveal(moved);
    crate::net::metric::park_is_in_range(
        r.cfg.park_metric,
        match a.event {
            EventView::Snapshot { routes, .. } => best_total(routes, r.wifi),
            _ => None,
        },
    );
}

#[verifier::spinoff_prover]
#[verifier::rlimit(60)]
proof fn lemma_measured_after(r: RunView, a: Answer)
    requires
        r.mode == Mode::Wifi,
        place(Stage::ReadingMetrics) <= place(r.stage) < place(Stage::ClosingJournal),
        r.stage !is CheckingEthernet,
        place(moved(r, a).stage) < place(Stage::ClosingJournal),
    ensures
        moved(r, a).park == r.park,
        moved(r, a).wifi == r.wifi,
        moved(r, a).cfg == r.cfg,
{
    reveal(moved);
}

/// The metric that Ethernet is parked at is worked out from what Wi-Fi was last seen to cost, and
/// is above it unless nothing can be.
pub proof fn ethernet_is_parked_by_what_wifi_costs(start: RunView, answers: Seq<Answer>)
    requires
        is_start(start),
        start.mode == Mode::Wifi,
        place(Stage::ReadingMetrics) <= place(after(start, answers).stage) < place(
            Stage::ClosingJournal,
        ),
    ensures
        exists|k: int| #[trigger] measured_at(start, answers, k, after(start, answers)),
    decreases answers.len(),
{
    let r = after(start, answers);
    if answers.len() > 0 {
        let before = answers.drop_last();
        let was = after(start, before);
        let last = answers.len() - 1;
        assert(answers.take(last) =~= before);
        super::laws::a_run_stays_sound(start, before);
        every_answer_moves_a_run_on(was, answers.last());
        if place(was.stage) < place(Stage::ReadingMetrics) {
            lemma_measured_before(was, answers.last());
            assert(measured_at(start, answers, last, r));
        } else {
            lemma_measured_after(was, answers.last());
            ethernet_is_parked_by_what_wifi_costs(start, before);
            let k = choose|k: int| #[trigger] measured_at(start, before, k, was);
            assert(before.take(k) =~= answers.take(k));
            assert(measured_at(start, answers, k, r));
        }
    }
}

// --- why a run fails ---------------------------------------------------------------------

/// Both families of an interface took the write, or are not bound.
pub open spec fn took(a: FamilyOutcome, b: FamilyOutcome) -> bool {
    (a is Applied || a is FamilyAbsent) && (b is Applied || b is FamilyAbsent)
}

/// A link to manage is missing, or the cable is, where Ethernet is wanted.
pub open spec fn lacks_a_link(r: RunView, e: EventView) -> bool {
    ||| r.stage is ReadingAdapters && (e matches EventView::Snapshot { nics, .. } && (target(
        r.cfg.ethernet,
        NicKind::Ethernet,
        nics,
    ) is None || target(r.cfg.wifi, NicKind::Wifi, nics) is None))
    ||| r.mode == Mode::Ethernet && !r.eth.media_connected && ((r.stage is LoadingJournal && (
    e matches EventView::Journal(j) && j.bindings.len() == 0)) || (r.stage is SavingReattached
        && e is Done))
}

/// Wi-Fi could not be brought up, or has no default route.
pub open spec fn lacks_wifi(r: RunView, e: EventView) -> bool {
    ||| r.stage is ConnectingWifi && (e matches EventView::Wifi(w) && w is Err)
    ||| r.stage is ReadingRoutes && (e matches EventView::Snapshot { routes, .. } && forall|i: int|
        0 <= i < routes.len() ==> (#[trigger] routes[i]).luid != r.wifi)
}

/// An IP stack could not be detached or reattached, could not be looked at, or is not there.
pub open spec fn lacks_a_binding(r: RunView, e: EventView) -> bool {
    ||| r.stage is Reattaching && (e matches EventView::Bindings(oks) && exists|i: int|
        0 <= i < oks.len() && !(#[trigger] oks[i]))
    ||| r.stage is ReadingBinding && (e matches EventView::Binding(Err(_)))
    ||| r.stage is ReadingBinding && (e matches EventView::Binding(Ok(b)) && !b.v4 && !b.v6)
    ||| r.stage is Detaching && (e matches EventView::BindingSet(o) && o is Err)
}

/// The metrics that had to be written were not: Ethernet's for a switch, both for handing back.
pub open spec fn lacks_a_write(r: RunView, e: EventView) -> bool {
    r.stage is WritingMetrics && r.mode != Mode::WifiOnly && (e matches EventView::MetricsWritten(v)
        && v.len() == 4 && match r.mode {
        Mode::Wifi => !took(v[2], v[3]),
        Mode::Ethernet => !took(v[0], v[1]),
        _ => !took(v[0], v[1]) || !took(v[2], v[3]),
    })
}

/// Everything that had to be done is done.
pub open spec fn is_done(r: RunView, e: EventView) -> bool {
    ||| r.stage is Verifying && (e matches EventView::Snapshot { routes, .. } && routes.len() > 0)
    ||| r.stage is Detaching && (e matches EventView::BindingSet(o) && o is Ok)
    ||| r.stage is WritingMetrics && r.mode == Mode::Auto && (e matches EventView::MetricsWritten(v)
        && v.len() == 4 && took(v[0], v[1]) && took(v[2], v[3]))
}

/// A run that has not come to a result yet does so exactly for a reason: each code of its report
/// comes with what it stands for, and whenever that happens, the code comes. Nothing else ends it.
#[verifier::spinoff_prover]
#[verifier::rlimit(90)]
pub proof fn a_result_has_its_reason(r: RunView, e: EventView, now: u64)
    requires
        r.report.exit_code == 2,
        place(r.stage) < place(Stage::RestoringMetrics),
        r.stage !is RestoringBindings,
    ensures
        next(r, e, now).report.exit_code == 3 <==> lacks_a_link(r, e),
        next(r, e, now).report.exit_code == 4 <==> lacks_wifi(r, e),
        next(r, e, now).report.exit_code == 5 <==> lacks_a_write(r, e),
        next(r, e, now).report.exit_code == 6 <==> r.stage is Verifying && (e matches
            EventView::Snapshot { routes, .. } && routes.len() == 0),
        next(r, e, now).report.exit_code == 7 <==> r.stage is ReadingPolicy && (e matches
            EventView::Policy(p) && p.policy is PreventWifi),
        next(r, e, now).report.exit_code == 8 <==> lacks_a_binding(r, e),
        next(r, e, now).report.exit_code == 0 <==> is_done(r, e),
        next(r, e, now).stage is Finished ==> next(r, e, now).report.exit_code != 2,
        next(r, e, now).report.mode == r.mode || next(r, e, now).report == r.report,
{
    crate::net::laws::a_best_total_is_the_least(
        match e {
            EventView::Snapshot { routes, .. } => routes,
            _ => Seq::empty(),
        },
        r.wifi,
    );
}

/// A result stays what it is while things are put back and the journal is closed.
#[verifier::spinoff_prover]
#[verifier::rlimit(60)]
pub proof fn a_result_stays(r: RunView, e: EventView, now: u64)
    requires
        place(r.stage) >= place(Stage::RestoringMetrics) || r.stage is RestoringBindings,
    ensures
        next(r, e, now).report.exit_code == r.report.exit_code,
        next(r, e, now).report.ok == r.report.ok,
        next(r, e, now).report.message == r.report.message,
        next(r, e, now).report.mode == r.report.mode,
{
}

// --- how a run goes through --------------------------------------------------------------

/// The four metrics of two interfaces.
pub open spec fn asks_for_all_four(a: ActionView, eth: LuidKey, wifi: LuidKey) -> bool {
    &&& a is ReadMetrics
    &&& (a->ReadMetrics_0).len() == 4
    &&& (a->ReadMetrics_0)[0].luid == eth && (a->ReadMetrics_0)[0].family == 2
    &&& (a->ReadMetrics_0)[1].luid == eth && (a->ReadMetrics_0)[1].family == 23
    &&& (a->ReadMetrics_0)[2].luid == wifi && (a->ReadMetrics_0)[2].family == 2
    &&& (a->ReadMetrics_0)[3].luid == wifi && (a->ReadMetrics_0)[3].family == 23
}

/// A run begins by undoing what an interrupted one left, reading the configuration, finding the two
/// adapters it manages, and reading the previous journal.
#[verifier::spinoff_prover]
#[verifier::rlimit(60)]
pub proof fn a_run_finds_its_links(
    r: RunView,
    c: MachineView,
    nics: Seq<NicView>,
    routes: Seq<DefaultRoute>,
    now: u64,
)
    requires
        r.stage is Recovering,
        target(c.ethernet, NicKind::Ethernet, nics) is Some,
        target(c.wifi, NicKind::Wifi, nics) is Some,
    ensures
        ({
            let recovered = next(r, EventView::Done, now);
            let known = next(recovered, EventView::Machine(c), now);
            let found = next(known, EventView::Snapshot { nics, routes }, now);
            let e = nics[target(c.ethernet, NicKind::Ethernet, nics)->0];
            let w = nics[target(c.wifi, NicKind::Wifi, nics)->0];
            &&& asks(r) is Recover
            &&& asks(recovered) is LoadMachine
            &&& asks(known) is ReadSnapshot
            &&& asks(found) is LoadJournal
            &&& found.mode == r.mode && found.cfg == c
            &&& found.eth.luid == e.luid && found.eth.guid == e.adapter_name
            &&& found.eth.media_connected == e.media_connected
            &&& found.wifi == w.luid
        }),
{
}

/// With the previous journal at hand, a run reattaches what it records as detached -- unless it is
/// to detach -- and saves that it did; and then the Wi-Fi modes look at the policy, and the others
/// at the metrics.
#[verifier::spinoff_prover]
#[verifier::rlimit(60)]
pub proof fn a_run_reattaches_and_begins(r: RunView, j: JournalView, oks: Seq<bool>, now: u64)
    requires
        r.stage is LoadingJournal,
        r.mode == Mode::Ethernet ==> r.eth.media_connected,
        forall|i: int| 0 <= i < oks.len() ==> #[trigger] oks[i],
    ensures
        ({
            let read = next(r, EventView::Journal(j), now);
            let bound = next(read, EventView::Bindings(oks), now);
            let saved = next(bound, EventView::Done, now);
            let detached = r.mode != Mode::WifiOnly && j.bindings.len() > 0;
            let begun = if detached {
                saved
            } else {
                read
            };
            &&& detached ==> asks(read) == ActionView::WriteBindings(j.bindings)
            &&& detached ==> asks(bound) is SaveJournal && (asks(bound)->SaveJournal_0).bindings.len()
                == 0 && (asks(bound)->SaveJournal_0).restore == j.restore && (
            asks(bound)->SaveJournal_0).touched == j.touched && (
            asks(bound)->SaveJournal_0).in_flight == j.in_flight
            &&& r.mode == Mode::Wifi || r.mode == Mode::WifiOnly ==> asks(begun) is ReadPolicy
            &&& r.mode == Mode::Ethernet || r.mode == Mode::Auto ==> asks_for_all_four(
                asks(begun),
                r.eth.luid,
                r.wifi,
            )
            &&& begun.eth == r.eth && begun.wifi == r.wifi && begun.mode == r.mode && begun.cfg
                == r.cfg
        }),
{
}

/// A Wi-Fi mode whose policy allows it brings Wi-Fi up with the remembered profile, checks that it
/// has a route, and then looks at the metrics; Wi-Fi only looks at Ethernet's bindings before that.
#[verifier::spinoff_prover]
#[verifier::rlimit(60)]
pub proof fn wifi_is_brought_up(
    r: RunView,
    p: PolicyState,
    profile: Seq<char>,
    nics: Seq<NicView>,
    routes: Seq<DefaultRoute>,
    b: BindingState,
    now: u64,
)
    requires
        r.stage is ReadingPolicy,
        r.mode == Mode::Wifi || r.mode == Mode::WifiOnly,
        !(p.policy is PreventWifi),
        exists|i: int| 0 <= i < routes.len() && (#[trigger] routes[i]).luid == r.wifi,
        b.v4 || b.v6,
    ensures
        ({
            let allowed = next(r, EventView::Policy(p), now);
            let up = next(allowed, EventView::Wifi(Ok(profile)), now);
            let routed = next(up, EventView::Snapshot { nics, routes }, now);
            let looked = next(routed, EventView::Binding(Ok(b)), now);
            let ready = if r.mode == Mode::WifiOnly {
                looked
            } else {
                routed
            };
            &&& asks(allowed) == ActionView::ConnectWifi(r.cfg.wifi_profile_hint)
            &&& asks(up) is ReadSnapshot
            &&& r.mode == Mode::WifiOnly ==> asks(routed) == ActionView::ReadBinding(r.eth.guid)
            &&& r.mode == Mode::WifiOnly ==> ready.bound == b
            &&& asks_for_all_four(asks(ready), r.eth.luid, r.wifi)
            &&& ready.profile == profile && ready.eth == r.eth && ready.wifi == r.wifi
            &&& ready.mode == r.mode
        }),
{
    crate::net::laws::a_best_total_is_the_least(routes, r.wifi);
}

/// What a journal records when it is opened: that a change is under way since now, what the four
/// metrics are, and for Wi-Fi only what is bound to Ethernet.
pub open spec fn opens(j: JournalView, r: RunView, m: Seq<Option<MetricState>>, now: u64) -> bool {
    &&& j.in_flight && j.mode == r.mode && j.started_unix == now && j.finished_unix is None
    &&& j.restore == captured_both(r.eth.luid, r.wifi, m)
    &&& r.mode == Mode::WifiOnly ==> j.bindings.len() == 1 && j.bindings[0].guid == r.eth.guid
        && j.bindings[0].v4 == r.bound.v4 && j.bindings[0].v6 == r.bound.v6
    &&& r.mode != Mode::WifiOnly ==> j.bindings.len() == 0
}

/// A change is recorded, saved and only then made.
#[verifier::spinoff_prover]
#[verifier::rlimit(60)]
pub proof fn a_change_is_recorded_and_made(r: RunView, m: Seq<Option<MetricState>>, now: u64)
    requires
        r.stage is ReadingMetrics,
        m.len() == 4,
    ensures
        ({
            let open = next(r, EventView::MetricsRead(m), now);
            let making = next(open, EventView::Done, now);
            &&& asks(open) is SaveJournal && opens(asks(open)->SaveJournal_0, r, m, now)
            &&& asks(making) is WriteMetrics && making.stage is WritingMetrics
            &&& making.mode == r.mode && making.eth == r.eth && making.wifi == r.wifi
            &&& making.park == r.park && making.bound == r.bound && making.profile == r.profile
            &&& making.backups == captured_both(r.eth.luid, r.wifi, m)
        }),
{
}

/// A switch to Wi-Fi whose Ethernet took the park metric waits for the routing table, looks at it,
/// and where there is any route closes the journal, which keeps what it captured, and reports
/// success.
#[verifier::spinoff_prover]
#[verifier::rlimit(60)]
pub proof fn a_switch_to_wifi_goes_through(
    r: RunView,
    v: Seq<FamilyOutcome>,
    nics: Seq<NicView>,
    routes: Seq<DefaultRoute>,
    now: u64,
)
    requires
        r.stage is WritingMetrics,
        r.mode == Mode::Wifi,
        v.len() == 4,
        took(v[2], v[3]),
        routes.len() > 0,
    ensures
        ({
            let written = next(r, EventView::MetricsWritten(v), now);
            let settled = next(written, EventView::Done, now);
            let closing = next(settled, EventView::Snapshot { nics, routes }, now);
            &&& asks(written) == ActionView::Pause(400)
            &&& asks(settled) is ReadSnapshot
            &&& closes(closing, r.backups, now)
        }),
{
}

/// The run reports success and asks for a journal to be saved that is closed now and keeps what was
/// captured.
pub open spec fn closes(r: RunView, kept: Seq<MetricBackup>, now: u64) -> bool {
    &&& r.report.ok && r.report.exit_code == 0 && r.report.mode == r.mode
    &&& asks(r) is SaveJournal
    &&& !(asks(r)->SaveJournal_0).in_flight
    &&& (asks(r)->SaveJournal_0).finished_unix == Some(now)
    &&& (asks(r)->SaveJournal_0).restore == kept
}

/// A switch to Ethernet that took looks whether Ethernet has the traffic now. If it has, or has no
/// route at all, that is all; if it has a route but not the traffic, Wi-Fi is parked above what
/// Ethernet costs. Then it goes on like a switch to Wi-Fi.
#[verifier::spinoff_prover]
#[verifier::rlimit(60)]
pub proof fn a_switch_to_ethernet_goes_through(
    r: RunView,
    v: Seq<FamilyOutcome>,
    nics: Seq<NicView>,
    seen: Seq<DefaultRoute>,
    parked: Seq<FamilyOutcome>,
    routes: Seq<DefaultRoute>,
    now: u64,
)
    requires
        r.stage is WritingMetrics,
        r.mode == Mode::Ethernet,
        v.len() == 4,
        took(v[0], v[1]),
        routes.len() > 0,
    ensures
        ({
            let written = next(r, EventView::MetricsWritten(v), now);
            let checked = next(written, EventView::Snapshot { nics, routes: seen }, now);
            let behind = !(verdict_on(seen, Some(r.eth.luid), Some(r.wifi)) is Ethernet)
                && exists|i: int| 0 <= i < seen.len() && (#[trigger] seen[i]).luid == r.eth.luid;
            let held = if behind {
                next(checked, EventView::MetricsWritten(parked), now)
            } else {
                checked
            };
            let settled = next(held, EventView::Done, now);
            let closing = next(settled, EventView::Snapshot { nics, routes }, now);
            &&& asks(written) is ReadSnapshot
            &&& behind ==> asks(checked) is WriteMetrics && {
                let w = asks(checked)->WriteMetrics_0;
                let above = parking(r.cfg.park_metric, best_total(seen, r.eth.luid)) as u32;
                &&& w.len() == 2
                &&& writes(w[0], r.wifi, 2, Some(above))
                &&& writes(w[1], r.wifi, 23, Some(above))
            }
            &&& asks(held) == ActionView::Pause(400)
            &&& asks(settled) is ReadSnapshot
            &&& closes(closing, r.backups, now)
        }),
{
    crate::net::laws::a_best_total_is_the_least(seen, r.eth.luid);
}

/// Handing both adapters back that took closes the journal with nothing left to restore.
#[verifier::spinoff_prover]
#[verifier::rlimit(60)]
pub proof fn handing_back_goes_through(r: RunView, v: Seq<FamilyOutcome>, now: u64)
    requires
        r.stage is WritingMetrics,
        r.mode == Mode::Auto,
        v.len() == 4,
        took(v[0], v[1]),
        took(v[2], v[3]),
    ensures
        closes(next(r, EventView::MetricsWritten(v), now), Seq::empty(), now),
{
}

/// Wi-Fi only detaches Ethernet's IPv4 and IPv6, whatever came of the metrics, closes the journal,
/// which keeps what was bound, and looks for what still uses the wire.
#[verifier::spinoff_prover]
#[verifier::rlimit(60)]
pub proof fn a_detachment_goes_through(
    r: RunView,
    v: Seq<FamilyOutcome>,
    o: BindOutcome,
    warning: Option<Seq<char>>,
    now: u64,
)
    requires
        r.stage is WritingMetrics,
        r.mode == Mode::WifiOnly,
        v.len() == 2,
    ensures
        ({
            let written = next(r, EventView::MetricsWritten(v), now);
            let detached = next(written, EventView::BindingSet(Ok(o)), now);
            &&& asks(written) is SetBinding
            &&& asks(written)->SetBinding_0 == r.eth.guid
            &&& !(asks(written)->SetBinding_1).v4 && !(asks(written)->SetBinding_1).v6
            &&& closes(detached, r.journal.restore, now)
            &&& (asks(detached)->SaveJournal_0).bindings == r.journal.bindings
            &&& detached.needs_reboot == o.needs_reboot
        }),
{
}

/// What is still to be said after a detachment: the bridges that use the wire, and a reboot where
/// Windows wants one, added to what was said.
#[verifier::spinoff_prover]
pub proof fn a_detachment_tells_what_is_left(r: RunView, warning: Option<Seq<char>>, now: u64)
    requires
        r.stage is LookingForBridges,
    ensures
        ({
            let end = next(r, EventView::Bridges(warning), now);
            &&& asks(r) == ActionView::FindBridges(r.eth.guid)
            &&& asks(end) is Nothing
            &&& end.report.details.len() == r.report.details.len() + (if warning is Some {
                1int
            } else {
                0int
            }) + (if r.needs_reboot {
                1int
            } else {
                0int
            })
            &&& warning matches Some(w) ==> end.report.details[r.report.details.len() as int] == w
            &&& r.report.details.is_prefix_of(end.report.details)
        }),
{
}

/// A profile that was connected is remembered: a run that went well compares it with the saved one
/// and saves it where it differs, with nothing else of the configuration changed. A run that
/// failed, or that connected nothing, does not.
#[verifier::spinoff_prover]
#[verifier::rlimit(60)]
pub proof fn a_connected_profile_is_remembered(r: RunView, c: MachineView, now: u64)
    requires
        r.stage is ClosingJournal,
    ensures
        ({
            let closed = next(r, EventView::Done, now);
            let compared = next(closed, EventView::Machine(c), now);
            &&& !r.report.ok ==> asks(closed) is Nothing
            &&& r.report.ok && r.profile.len() > 0 ==> {
                &&& asks(closed) is LoadMachine
                &&& c.wifi_profile_hint != Some(r.profile) ==> asks(compared)
                    == ActionView::SaveMachine(
                    MachineView { wifi_profile_hint: Some(r.profile), ..c },
                )
                &&& c.wifi_profile_hint == Some(r.profile) ==> !(asks(compared) is SaveMachine)
            }
            &&& r.report.ok && r.profile.len() == 0 && r.mode != Mode::WifiOnly ==> asks(
                closed,
            ) is Nothing
            &&& r.report.ok && r.profile.len() == 0 && r.mode == Mode::WifiOnly ==> asks(
                closed,
            ) is FindBridges
        }),
{
}

/// A failed change is undone in order: the metrics as they were captured -- after the bindings, if
/// it was a detachment that failed -- and then the journal is closed with nothing left to restore
/// and with what went wrong.
#[verifier::spinoff_prover]
#[verifier::rlimit(60)]
pub proof fn a_failure_is_undone(
    r: RunView,
    oks: Seq<bool>,
    v: Seq<FamilyOutcome>,
    now: u64,
)
    requires
        r.stage is RestoringBindings || r.stage is RestoringMetrics,
    ensures
        ({
            let back = if r.stage is RestoringBindings {
                next(r, EventView::Bindings(oks), now)
            } else {
                r
            };
            let closing = next(back, EventView::MetricsWritten(v), now);
            &&& r.stage is RestoringBindings ==> asks(r) == ActionView::WriteBindings(
                r.journal.bindings,
            )
            &&& asks(back) is WriteMetrics
            &&& (asks(back)->WriteMetrics_0).len() == r.backups.len()
            &&& forall|i: int|
                0 <= i < r.backups.len() ==> is_put_back(
                    #[trigger] (asks(back)->WriteMetrics_0)[i],
                    r.backups[i],
                )
            &&& asks(closing) is SaveJournal
            &&& !(asks(closing)->SaveJournal_0).in_flight
            &&& (asks(closing)->SaveJournal_0).restore.len() == 0
            &&& (asks(closing)->SaveJournal_0).bindings.len() == 0
            &&& (asks(closing)->SaveJournal_0).last_error == r.journal.last_error
            &&& (asks(closing)->SaveJournal_0).touched == r.journal.touched
        }),
{
}

/// The write puts a metric back to what was recorded of it.
pub open spec fn is_put_back(w: MetricWrite, b: MetricBackup) -> bool {
    &&& w.luid.0 == b.luid
    &&& b.family_v6 ==> w.family == 23
    &&& !b.family_v6 ==> w.family == 2
    &&& b.automatic ==> w.target is None
    &&& !b.automatic ==> w.target == Some(b.metric)
}

/// Every captured metric is put back by one write, in order and exactly as it was.
pub proof fn every_backup_is_put_back(backups: Seq<MetricBackup>, i: int)
    requires
        0 <= i < backups.len(),
    ensures
        restoring_all(backups).len() == backups.len(),
        is_put_back(restoring_all(backups)[i], backups[i]),
{
}

// --- which adapters ----------------------------------------------------------------------

/// This is the adapter to manage as one kind: the one of that kind that matches the configured one
/// best, or the best candidate where none does or none is configured. Where it is none, no adapter
/// of that kind matches or is a candidate.
pub open spec fn is_managed(
    saved: Option<AdapterRefView>,
    kind: NicKind,
    nics: Seq<NicView>,
    found: Option<int>,
) -> bool {
    let known = saved is Some && exists|j: int|
        0 <= j < nics.len() && likeness(saved->0, Some(kind), #[trigger] nics[j]) > 0;
    match found {
        Some(i) => {
            &&& 0 <= i < nics.len() && nics[i].kind == kind
            &&& known ==> likeness(saved->0, Some(kind), nics[i]) > 0 && forall|j: int|
                0 <= j < nics.len() ==> likeness(saved->0, Some(kind), #[trigger] nics[j])
                    <= likeness(saved->0, Some(kind), nics[i])
            &&& !known ==> best_of(nics, kind, i)
        },
        None => !known && forall|j: int|
            0 <= j < nics.len() && (#[trigger] nics[j]).kind == kind ==> nics[j].tier
                == Tier::Rejected,
    }
}

/// A switch works on the adapter of either kind that is configured, wherever it is found again, and
/// else on the best candidate.
pub proof fn the_managed_adapter_is_found(
    saved: Option<AdapterRefView>,
    kind: NicKind,
    nics: Seq<NicView>,
    order: Seq<int>,
)
    requires
        is_ranking(nics, kind, order),
    ensures
        is_managed(saved, kind, nics, target(saved, kind, nics)),
{
    the_best_candidate_is_picked(nics, kind, order);
    if let Some(a) = saved {
        the_best_match_is_found(a, Some(kind), nics);
    }
    if let Some(i) = best_candidate(nics, kind) {
        assert(best_of(nics, kind, i));
    }
}

} // verus!
