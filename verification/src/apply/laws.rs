//! What holds of every run, whatever the machine answers.
use vstd::prelude::*;

use super::exit;
use super::run::{
    asks, captured_both, first_values, keys_for, keys_of, next, recover_asks, recover_step, started,
    with_routes, writes_for, ActionView, EventView, MetricKey, RecoverView, RunView, Stage,
};
use super::{
    captured_one, first_kept, has_metric, restoring, restoring_all, the_first_value_stays,
};
use crate::config::{BindingView, JournalView, MetricBackup, Mode};
use crate::net::binding::BindOutcome;
use crate::net::metric::{
    park_is_in_range, park_loses_against_rival, FamilyOutcome, MetricState, MetricWrite, AF_INET6,
    PARK_MAX,
};
use crate::net::routes::{best_total, DefaultRoute};
use crate::net::LuidKey;

verus! {

/// One answer to a run: what came back, and when.
pub struct Answer {
    pub event: EventView,
    pub now: u64,
}

/// A run after one answer.
#[verifier::opaque]
pub open spec fn moved(r: RunView, a: Answer) -> RunView {
    next(r, a.event, a.now)
}

/// A run after some answers.
pub open spec fn after(start: RunView, answers: Seq<Answer>) -> RunView
    decreases answers.len(),
{
    if answers.len() == 0 {
        start
    } else {
        moved(after(start, answers.drop_last()), answers.last())
    }
}

/// A run that was just started, with administrator rights or without.
pub open spec fn is_start(r: RunView) -> bool {
    &&& exists|elevated: bool| (r.stage, r.report) == #[trigger] started(r.mode, elevated)
    &&& r.profile.len() == 0
    &&& r.park == 0
}

/// How far a run has come.
pub open spec fn place(stage: Stage) -> int {
    match stage {
        Stage::Recovering => 0,
        Stage::LoadingMachine => 1,
        Stage::ReadingAdapters => 2,
        Stage::LoadingJournal => 3,
        Stage::Reattaching => 4,
        Stage::SavingReattached => 5,
        Stage::ReadingPolicy => 6,
        Stage::ConnectingWifi => 7,
        Stage::ReadingRoutes => 8,
        Stage::ReadingBinding => 9,
        Stage::ReadingMetrics => 10,
        Stage::OpeningJournal => 11,
        Stage::WritingMetrics => 12,
        Stage::Detaching => 13,
        Stage::RestoringBindings => 14,
        Stage::CheckingEthernet => 15,
        Stage::ParkingWifi => 16,
        Stage::Settling => 17,
        Stage::Verifying => 18,
        Stage::RestoringMetrics => 19,
        Stage::ClosingJournal => 20,
        Stage::LoadingHint => 21,
        Stage::SavingHint => 22,
        Stage::LookingForBridges => 23,
        Stage::Finished => 24,
    }
}

/// An answer of the kind that was asked for.
pub open spec fn answers_to(a: ActionView, e: EventView) -> bool {
    match a {
        ActionView::Recover => e is Done,
        ActionView::LoadMachine => e is Machine,
        ActionView::SaveMachine(_) => e is Done,
        ActionView::LoadJournal => e is Journal,
        ActionView::SaveJournal(_) => e is Done,
        ActionView::ReadSnapshot => e is Snapshot,
        ActionView::ReadPolicy => e is Policy,
        ActionView::ConnectWifi(_) => e is Wifi,
        ActionView::ReadBinding(_) => e is Binding,
        ActionView::SetBinding(_, _) => e is BindingSet,
        ActionView::WriteBindings(_) => e is Bindings,
        ActionView::ReadMetrics(keys) => e matches EventView::MetricsRead(m) && m.len()
            == keys.len(),
        ActionView::WriteMetrics(writes) => e matches EventView::MetricsWritten(v) && v.len()
            == writes.len(),
        ActionView::Pause(_) => e is Done,
        ActionView::FindBridges(_) => e is Bridges,
        ActionView::Nothing => false,
    }
}

#[verifier::spinoff_prover]
#[verifier::rlimit(60)]
proof fn lemma_moves_first(r: RunView, a: Answer)
    requires
        place(r.stage) <= place(Stage::SavingReattached),
    ensures
        answers_to(asks(r), a.event) ==> place(moved(r, a).stage) > place(r.stage),
        moved(r, a) == r || place(moved(r, a).stage) > place(r.stage),
{
    reveal(moved);
}

#[verifier::spinoff_prover]
#[verifier::rlimit(60)]
proof fn lemma_moves_wifi(r: RunView, a: Answer)
    requires
        place(Stage::SavingReattached) < place(r.stage) <= place(Stage::ReadingRoutes),
    ensures
        answers_to(asks(r), a.event) ==> place(moved(r, a).stage) > place(r.stage),
        moved(r, a) == r || place(moved(r, a).stage) > place(r.stage),
{
    reveal(moved);
}

#[verifier::spinoff_prover]
#[verifier::rlimit(60)]
proof fn lemma_moves_before(r: RunView, a: Answer)
    requires
        place(Stage::ReadingRoutes) < place(r.stage) <= place(Stage::OpeningJournal),
    ensures
        answers_to(asks(r), a.event) ==> place(moved(r, a).stage) > place(r.stage),
        moved(r, a) == r || place(moved(r, a).stage) > place(r.stage),
{
    reveal(moved);
}

#[verifier::spinoff_prover]
#[verifier::rlimit(60)]
proof fn lemma_moves_change(r: RunView, a: Answer)
    requires
        place(Stage::OpeningJournal) < place(r.stage) <= place(Stage::ParkingWifi),
    ensures
        answers_to(asks(r), a.event) ==> place(moved(r, a).stage) > place(r.stage),
        moved(r, a) == r || place(moved(r, a).stage) > place(r.stage),
{
    reveal(moved);
}

#[verifier::spinoff_prover]
#[verifier::rlimit(60)]
proof fn lemma_moves_after(r: RunView, a: Answer)
    requires
        place(r.stage) > place(Stage::ParkingWifi),
    ensures
        answers_to(asks(r), a.event) ==> place(moved(r, a).stage) > place(r.stage),
        moved(r, a) == r || place(moved(r, a).stage) > place(r.stage),
{
    reveal(moved);
}

/// Every run ends: an answer of the kind that was asked for moves it on, nothing moves it back,
/// and there are only so many places.
pub proof fn every_answer_moves_a_run_on(r: RunView, a: Answer)
    ensures
        answers_to(asks(r), a.event) ==> place(moved(r, a).stage) > place(r.stage),
        moved(r, a) == r || place(moved(r, a).stage) > place(r.stage),
        asks(r) is Nothing <==> r.stage is Finished,
        0 <= place(r.stage) <= place(Stage::Finished),
{
    if place(r.stage) <= place(Stage::SavingReattached) {
        lemma_moves_first(r, a);
    } else if place(r.stage) <= place(Stage::ReadingRoutes) {
        lemma_moves_wifi(r, a);
    } else if place(r.stage) <= place(Stage::OpeningJournal) {
        lemma_moves_before(r, a);
    } else if place(r.stage) <= place(Stage::ParkingWifi) {
        lemma_moves_change(r, a);
    } else {
        lemma_moves_after(r, a);
    }
}

/// Something of the machine is changed on behalf of the mode, or a metric is changed back. Setting
/// bindings that a journal records is not counted here.
pub open spec fn changes(a: ActionView) -> bool {
    a is WriteMetrics || a is SetBinding
}

/// The stages at which a journal is open.
pub open spec fn is_open(stage: Stage) -> bool {
    place(Stage::OpeningJournal) <= place(stage) < place(Stage::ClosingJournal)
}

/// The journal of a run that is under way: in flight, with everything that was captured.
pub open spec fn records(j: JournalView, r: RunView) -> bool {
    &&& j.in_flight
    &&& j.mode == r.mode
    &&& j.restore == r.backups
    &&& j.bindings == if r.mode == Mode::WifiOnly {
        seq![BindingView { guid: r.eth.guid, v4: r.bound.v4, v6: r.bound.v6 }]
    } else {
        Seq::empty()
    }
}

/// What holds of a run at every stage.
pub open spec fn sound(r: RunView) -> bool {
    &&& is_open(r.stage) ==> records(r.journal, r)
    &&& place(r.stage) >= place(Stage::ClosingJournal) && r.stage != Stage::Finished
        ==> !r.journal.in_flight
    &&& r.report.ok <==> r.report.exit_code == exit::OK
    &&& r.report.mode == r.mode
    &&& place(r.stage) < place(Stage::ClosingJournal) ==> !r.report.ok
    &&& r.stage is LoadingHint || r.stage is SavingHint || r.stage is LookingForBridges
        ==> r.report.ok
    &&& r.stage is Detaching || r.stage is RestoringBindings || r.stage is LookingForBridges
        ==> r.mode == Mode::WifiOnly
    &&& r.stage is ReadingBinding ==> r.mode == Mode::WifiOnly
    &&& r.stage is CheckingEthernet || r.stage is ParkingWifi ==> r.mode == Mode::Ethernet
    &&& r.stage is Settling || r.stage is Verifying ==> r.mode == Mode::Wifi || r.mode
        == Mode::Ethernet
    &&& place(Stage::ReadingPolicy) <= place(r.stage) <= place(Stage::ReadingRoutes) ==> r.mode
        == Mode::Wifi || r.mode == Mode::WifiOnly
    &&& r.stage is RestoringMetrics ==> r.mode != Mode::Auto && if r.mode == Mode::WifiOnly {
        r.report.exit_code == exit::BINDING_FAILED
    } else {
        r.report.exit_code == exit::WRITE_FAILED || r.report.exit_code == exit::VERIFY_FAILED
    }
    &&& r.stage is RestoringBindings ==> r.report.exit_code == exit::BINDING_FAILED
    &&& exit::reported(r.report.exit_code)
}

/// What came back is what the four metrics are, and that is what is captured.
pub open spec fn captures(r: RunView, e: EventView, then: RunView) -> bool {
    &&& e matches EventView::MetricsRead(m) && m.len() == 4 && then.backups == captured_both(
        r.eth.luid,
        r.wifi,
        m,
    )
    &&& then.eth == r.eth
    &&& then.wifi == r.wifi
}

// The steps by groups of stages.

#[verifier::spinoff_prover]
#[verifier::rlimit(60)]
proof fn lemma_sound_first(r: RunView, a: Answer)
    requires
        sound(r),
        place(r.stage) <= place(Stage::SavingReattached),
    ensures
        sound(moved(r, a)),
        moved(r, a).mode == r.mode,
        place(moved(r, a).stage) <= place(Stage::ReadingMetrics) || moved(r, a).stage is Finished,
{
    reveal(moved);
}

#[verifier::spinoff_prover]
#[verifier::rlimit(60)]
proof fn lemma_sound_wifi(r: RunView, a: Answer)
    requires
        sound(r),
        place(Stage::SavingReattached) < place(r.stage) < place(Stage::ReadingMetrics),
    ensures
        sound(moved(r, a)),
        moved(r, a).mode == r.mode,
        place(moved(r, a).stage) <= place(Stage::ReadingMetrics) || moved(r, a).stage is Finished,
{
    reveal(moved);
}

proof fn lemma_sound_before(r: RunView, a: Answer)
    requires
        sound(r),
        place(r.stage) < place(Stage::ReadingMetrics),
    ensures
        sound(moved(r, a)),
        moved(r, a).mode == r.mode,
        place(moved(r, a).stage) <= place(Stage::ReadingMetrics) || moved(r, a).stage is Finished,
{
    if place(r.stage) <= place(Stage::SavingReattached) {
        lemma_sound_first(r, a);
    } else {
        lemma_sound_wifi(r, a);
    }
}

#[verifier::spinoff_prover]
#[verifier::rlimit(60)]
proof fn lemma_sound_capture(r: RunView, a: Answer)
    requires
        sound(r),
        r.stage is ReadingMetrics || r.stage is OpeningJournal,
    ensures
        sound(moved(r, a)),
        moved(r, a).mode == r.mode,
        moved(r, a) == r || (moved(r, a).stage is OpeningJournal && r.stage is ReadingMetrics
            && captures(r, a.event, moved(r, a))) || (
        moved(r, a).stage is WritingMetrics && r.stage is OpeningJournal && a.event is Done
            && moved(r, a) == (RunView { stage: Stage::WritingMetrics, ..r })),
{
    reveal(moved);
}

#[verifier::spinoff_prover]
#[verifier::rlimit(60)]
proof fn lemma_sound_change(r: RunView, a: Answer)
    requires
        sound(r),
        place(Stage::WritingMetrics) <= place(r.stage) < place(Stage::ClosingJournal),
    ensures
        sound(moved(r, a)),
        moved(r, a).mode == r.mode,
        moved(r, a).backups == r.backups,
        moved(r, a).eth == r.eth,
        moved(r, a).wifi == r.wifi,
        moved(r, a).bound == r.bound,
        moved(r, a) == r || place(moved(r, a).stage) > place(r.stage),
        place(moved(r, a).stage) <= place(Stage::ClosingJournal),
{
    reveal(moved);
}

#[verifier::spinoff_prover]
#[verifier::rlimit(60)]
proof fn lemma_sound_end(r: RunView, a: Answer)
    requires
        sound(r),
        place(r.stage) >= place(Stage::ClosingJournal),
    ensures
        sound(moved(r, a)),
        moved(r, a).mode == r.mode,
        moved(r, a).report.exit_code == r.report.exit_code,
        moved(r, a) == r || place(moved(r, a).stage) > place(r.stage),
{
    reveal(moved);
}

proof fn lemma_sound_step(r: RunView, a: Answer)
    requires
        sound(r),
    ensures
        sound(moved(r, a)),
        moved(r, a).mode == r.mode,
{
    if place(r.stage) < place(Stage::ReadingMetrics) {
        lemma_sound_before(r, a);
    } else if place(r.stage) < place(Stage::WritingMetrics) {
        lemma_sound_capture(r, a);
    } else if place(r.stage) < place(Stage::ClosingJournal) {
        lemma_sound_change(r, a);
    } else {
        lemma_sound_end(r, a);
    }
}

/// Whatever the machine answers, a run stays sound: while a journal is open it is in flight and
/// holds everything that was captured, once it is closed it is not in flight any more, and the
/// report says it went well exactly where the exit code does.
pub proof fn a_run_stays_sound(start: RunView, answers: Seq<Answer>)
    requires
        is_start(start),
    ensures
        sound(after(start, answers)),
        after(start, answers).mode == start.mode,
    decreases answers.len(),
{
    if answers.len() > 0 {
        a_run_stays_sound(start, answers.drop_last());
        lemma_sound_step(after(start, answers.drop_last()), answers.last());
    }
}

/// A report is about the mode that was asked for, says that it went well exactly where its code
/// does, and never carries a code without a meaning: success, or one of the named failures.
pub proof fn a_report_has_a_known_code(start: RunView, answers: Seq<Answer>)
    requires
        is_start(start),
    ensures
        after(start, answers).report.mode == start.mode,
        after(start, answers).report.ok <==> after(start, answers).report.exit_code == exit::OK,
        exit::reported(after(start, answers).report.exit_code),
        after(start, answers).report.exit_code == 0 || 2 <= after(
            start,
            answers,
        ).report.exit_code <= 8,
{
    a_run_stays_sound(start, answers);
}

/// At answer `k` the journal was saved, in flight and with everything that `r` has captured.
pub open spec fn saved_at(start: RunView, answers: Seq<Answer>, k: int, r: RunView) -> bool {
    &&& 0 <= k < answers.len()
    &&& answers[k].event is Done
    &&& asks(after(start, answers.take(k))) matches ActionView::SaveJournal(j) && records(j, r)
}

/// At answer `k` the metrics of both interfaces came back, and they are what `r` has captured.
pub open spec fn captured_at(start: RunView, answers: Seq<Answer>, k: int, r: RunView) -> bool {
    &&& 0 <= k < answers.len()
    &&& asks(after(start, answers.take(k))) == ActionView::ReadMetrics(keys_for(r))
    &&& answers[k].event matches EventView::MetricsRead(m) && m.len() == 4 && r.backups
        == captured_both(r.eth.luid, r.wifi, m)
}

/// What is captured was read.
proof fn lemma_captured_before(start: RunView, answers: Seq<Answer>)
    requires
        is_start(start),
        place(Stage::OpeningJournal) <= place(after(start, answers).stage),
        place(after(start, answers).stage) < place(Stage::ClosingJournal),
    ensures
        exists|k: int| #[trigger] captured_at(start, answers, k, after(start, answers)),
    decreases answers.len(),
{
    let r = after(start, answers);
    if answers.len() > 0 {
        let before = answers.drop_last();
        let was = after(start, before);
        let last = answers.len() - 1;
        assert(answers.take(last) =~= before);
        a_run_stays_sound(start, before);
        if place(was.stage) < place(Stage::ReadingMetrics) {
            lemma_sound_before(was, answers.last());
        } else if place(was.stage) < place(Stage::WritingMetrics) {
            lemma_sound_capture(was, answers.last());
        } else if place(was.stage) < place(Stage::ClosingJournal) {
            lemma_sound_change(was, answers.last());
        } else {
            lemma_sound_end(was, answers.last());
        }
        if was.stage is ReadingMetrics {
            assert(captured_at(start, answers, last, r));
        } else {
            lemma_captured_before(start, before);
            let k = choose|k: int| #[trigger] captured_at(start, before, k, was);
            assert(before.take(k) =~= answers.take(k));
            assert(captured_at(start, answers, k, r));
        }
    }
}

/// What is changed was first captured, and then saved.
proof fn lemma_captured_then_saved(start: RunView, answers: Seq<Answer>) -> (found: (int, int))
    requires
        is_start(start),
        place(Stage::OpeningJournal) < place(after(start, answers).stage),
        place(after(start, answers).stage) < place(Stage::ClosingJournal),
    ensures
        captured_at(start, answers, found.0, after(start, answers)),
        saved_at(start, answers, found.1, after(start, answers)),
        found.0 < found.1,
    decreases answers.len(),
{
    let r = after(start, answers);
    if answers.len() == 0 {
        (0, 0)
    } else {
        let before = answers.drop_last();
        let was = after(start, before);
        let last = answers.len() - 1;
        assert(answers.take(last) =~= before);
        a_run_stays_sound(start, before);
        if place(was.stage) < place(Stage::ReadingMetrics) {
            lemma_sound_before(was, answers.last());
            (0, 0)
        } else if place(was.stage) < place(Stage::WritingMetrics) {
            lemma_sound_capture(was, answers.last());
            lemma_captured_before(start, before);
            let k = choose|k: int| #[trigger] captured_at(start, before, k, was);
            assert(before.take(k) =~= answers.take(k));
            assert(captured_at(start, answers, k, r));
            assert(saved_at(start, answers, last, r));
            (k, last)
        } else if place(was.stage) < place(Stage::ClosingJournal) {
            lemma_sound_change(was, answers.last());
            let (k, n) = lemma_captured_then_saved(start, before);
            assert(before.take(k) =~= answers.take(k));
            assert(before.take(n) =~= answers.take(n));
            assert(captured_at(start, answers, k, r));
            assert(saved_at(start, answers, n, r));
            (k, n)
        } else {
            lemma_sound_end(was, answers.last());
            (0, 0)
        }
    }
}

/// The metric that is written.
pub open spec fn key_of(w: MetricWrite) -> MetricKey {
    MetricKey { luid: w.luid, family: w.family }
}

/// The record of a metric as it was.
pub open spec fn backup_of(key: MetricKey, was: MetricState) -> MetricBackup {
    MetricBackup {
        luid: key.luid.0,
        family_v6: key.family == AF_INET6,
        metric: was.metric,
        automatic: was.automatic,
    }
}

/// At answer `k` a metric came back that had been asked for, or word that it could not be read.
pub open spec fn read_at(
    start: RunView,
    answers: Seq<Answer>,
    k: int,
    key: MetricKey,
    was: Option<MetricState>,
) -> bool {
    &&& 0 <= k < answers.len()
    &&& asks(after(start, answers.take(k))) matches ActionView::ReadMetrics(keys)
        && answers[k].event matches EventView::MetricsRead(m) && keys.len() == m.len() && exists|
        q: int,
    |
        0 <= q < keys.len() && #[trigger] keys[q] == key && m[q] == was
}

/// At answer `k` a journal was saved, in flight and with this record among those to restore.
pub open spec fn recorded_at(
    start: RunView,
    answers: Seq<Answer>,
    k: int,
    b: MetricBackup,
) -> bool {
    &&& 0 <= k < answers.len()
    &&& answers[k].event is Done
    &&& asks(after(start, answers.take(k))) matches ActionView::SaveJournal(j) && j.in_flight
        && j.restore.contains(b)
}

/// A metric was read at answer `k`, and what it was stands in a journal that was saved at the later
/// answer `n`, unless it could not be read.
pub open spec fn journalled_at(
    start: RunView,
    answers: Seq<Answer>,
    k: int,
    n: int,
    key: MetricKey,
    was: Option<MetricState>,
) -> bool {
    &&& k < n
    &&& read_at(start, answers, k, key, was)
    &&& was matches Some(s) ==> recorded_at(start, answers, n, backup_of(key, s))
}

/// A metric was read, and what it was stands in a journal that was saved after that.
pub open spec fn journalled(start: RunView, answers: Seq<Answer>, key: MetricKey) -> bool {
    exists|k: int, n: int, was: Option<MetricState>| #[trigger]
        journalled_at(start, answers, k, n, key, was)
}

/// Every metric that could be read has its record, and every record is of a metric that was read.
proof fn lemma_captured_both(eth: LuidKey, wifi: LuidKey, m: Seq<Option<MetricState>>)
    requires
        m.len() == 4,
    ensures
        forall|q: int|
            0 <= q < 4 && (#[trigger] m[q]) is Some ==> captured_both(eth, wifi, m).contains(
                backup_of((keys_of(eth) + keys_of(wifi))[q], m[q]->0),
            ),
        forall|i: int|
            0 <= i < captured_both(eth, wifi, m).len() ==> exists|q: int|
                #![trigger m[q]]
                0 <= q < 4 && m[q] is Some && (#[trigger] captured_both(eth, wifi, m)[i])
                    == backup_of((keys_of(eth) + keys_of(wifi))[q], m[q]->0),
{
    let keys = keys_of(eth) + keys_of(wifi);
    let e4 = captured_one(eth, false, m[0]);
    let e6 = captured_one(eth, true, m[1]);
    let w4 = captured_one(wifi, false, m[2]);
    let w6 = captured_one(wifi, true, m[3]);
    let all = captured_both(eth, wifi, m);
    assert(all =~= e4 + e6 + w4 + w6);
    assert forall|q: int| 0 <= q < 4 && (#[trigger] m[q]) is Some implies all.contains(
        backup_of(keys[q], m[q]->0),
    ) by {
        let at: int = if q == 0 {
            0
        } else if q == 1 {
            e4.len() as int
        } else if q == 2 {
            (e4.len() + e6.len()) as int
        } else {
            (e4.len() + e6.len() + w4.len()) as int
        };
        assert(all[at] == backup_of(keys[q], m[q]->0));
    }
    assert forall|i: int| 0 <= i < all.len() implies exists|q: int|
        #![trigger m[q]]
        0 <= q < 4 && m[q] is Some && (#[trigger] all[i]) == backup_of(keys[q], m[q]->0) by {
        let q: int = if i < e4.len() {
            0
        } else if i < e4.len() + e6.len() {
            1
        } else if i < e4.len() + e6.len() + w4.len() {
            2
        } else {
            3
        };
        assert(m[q] is Some);
        assert(all[i] == backup_of(keys[q], m[q]->0));
    }
}

/// What a run writes are metrics it has captured.
proof fn lemma_writes_are_keyed(r: RunView, w: Seq<MetricWrite>, m: Seq<Option<MetricState>>, i: int)
    requires
        asks(r) == ActionView::WriteMetrics(w),
        m.len() == 4,
        r.backups == captured_both(r.eth.luid, r.wifi, m),
        0 <= i < w.len(),
    ensures
        exists|q: int| 0 <= q < 4 && #[trigger] keys_for(r)[q] == key_of(w[i]),
{
    let keys = keys_for(r);
    if r.stage is RestoringMetrics {
        lemma_captured_both(r.eth.luid, r.wifi, m);
        assert(w[i] == restoring(r.backups[i]));
        let q = choose|q: int|
            #![trigger m[q]]
            0 <= q < 4 && m[q] is Some && r.backups[i] == backup_of(keys[q], m[q]->0);
        assert(keys[q] == key_of(w[i]));
    } else {
        assert(keys[0] == keys_of(r.eth.luid)[0]);
        assert(keys[1] == keys_of(r.eth.luid)[1]);
        assert(keys[2] == keys_of(r.wifi)[0]);
        assert(keys[3] == keys_of(r.wifi)[1]);
        assert(keys[0] == key_of(w[i]) || keys[1] == key_of(w[i]) || keys[2] == key_of(w[i])
            || keys[3] == key_of(w[i]));
    }
}

/// Nothing is changed before the journal holds what it was. Whenever a run asks for a metric to be
/// written or an adapter to be detached, it has had a journal saved that is in flight and holds
/// everything it captured; and every metric it asks to be written was read, and stands in such a
/// journal as it was, unless it could not be read. Having a journal saved means having asked for
/// it and gone on after that was tried.
pub proof fn the_journal_comes_first(start: RunView, answers: Seq<Answer>)
    requires
        is_start(start),
        changes(asks(after(start, answers))),
    ensures
        exists|k: int| #[trigger] saved_at(start, answers, k, after(start, answers)),
        asks(after(start, answers)) matches ActionView::WriteMetrics(w) ==> forall|i: int|
            0 <= i < w.len() ==> journalled(start, answers, key_of(#[trigger] w[i])),
{
    let r = after(start, answers);
    let (k, n) = lemma_captured_then_saved(start, answers);
    if let ActionView::WriteMetrics(w) = asks(r) {
        let m = answers[k].event->MetricsRead_0;
        lemma_captured_both(r.eth.luid, r.wifi, m);
        assert forall|i: int| 0 <= i < w.len() implies journalled(
            start,
            answers,
            key_of(#[trigger] w[i]),
        ) by {
            lemma_writes_are_keyed(r, w, m, i);
            let q = choose|q: int| 0 <= q < 4 && #[trigger] keys_for(r)[q] == key_of(w[i]);
            let was = m[q];
            assert(read_at(start, answers, k, key_of(w[i]), was));
            if was is Some {
                assert(r.backups.contains(backup_of(key_of(w[i]), was->0)));
                assert(recorded_at(start, answers, n, backup_of(key_of(w[i]), was->0)));
            }
            assert(journalled_at(start, answers, k, n, key_of(w[i]), was));
        }
    }
}

/// At some moment of a run something of the machine was to be changed on its behalf.
pub open spec fn touched(start: RunView, answers: Seq<Answer>) -> bool {
    exists|k: int|
        0 <= k <= answers.len() && changes(asks(#[trigger] after(start, answers.take(k))))
}

proof fn lemma_untouched(start: RunView, answers: Seq<Answer>)
    requires
        is_start(start),
        !touched(start, answers.drop_last()),
        answers.len() > 0,
        !changes(asks(after(start, answers))),
    ensures
        !touched(start, answers),
{
    assert forall|k: int| 0 <= k <= answers.len() implies !changes(
        asks(#[trigger] after(start, answers.take(k))),
    ) by {
        if k == answers.len() {
            assert(answers.take(k) =~= answers);
        } else {
            assert(answers.take(k) =~= answers.drop_last().take(k));
        }
    }
}

/// The codes of a run that was refused before anything was changed.
pub open spec fn is_refusal(code: u32) -> bool {
    code == exit::NOT_ELEVATED || code == exit::NOT_CONFIGURED || code == exit::WIFI_UNAVAILABLE
        || code == exit::BLOCKED_BY_POLICY
}

proof fn lemma_refusal(start: RunView, answers: Seq<Answer>)
    requires
        is_start(start),
    ensures
        ({
            let r = after(start, answers);
            &&& place(r.stage) <= place(Stage::OpeningJournal) ==> !touched(start, answers)
            &&& r.stage is Finished && is_refusal(r.report.exit_code) ==> !touched(start, answers)
            &&& place(Stage::ClosingJournal) <= place(r.stage) < place(Stage::Finished)
                ==> !is_refusal(r.report.exit_code)
        }),
    decreases answers.len(),
{
    let r = after(start, answers);
    if answers.len() == 0 {
        assert forall|k: int| 0 <= k <= answers.len() implies !changes(
            asks(#[trigger] after(start, answers.take(k))),
        ) by {
            assert(answers.take(k) =~= answers);
        }
    } else {
        let before = answers.drop_last();
        let was = after(start, before);
        lemma_refusal(start, before);
        a_run_stays_sound(start, before);
        lemma_refusal_step(was, answers.last());
        if !touched(start, before) && !changes(asks(r)) {
            lemma_untouched(start, answers);
        }
    }
}

proof fn lemma_refusal_step(r: RunView, a: Answer)
    requires
        sound(r),
    ensures
        place(moved(r, a).stage) < place(Stage::WritingMetrics) ==> place(r.stage) < place(
            Stage::WritingMetrics,
        ),
        place(r.stage) < place(Stage::WritingMetrics) ==> place(moved(r, a).stage) <= place(
            Stage::WritingMetrics,
        ) || moved(r, a).stage is Finished,
        place(Stage::WritingMetrics) <= place(r.stage) < place(Stage::ClosingJournal) && place(
            moved(r, a).stage,
        ) >= place(Stage::ClosingJournal) ==> moved(r, a).stage is ClosingJournal && !is_refusal(
            moved(r, a).report.exit_code,
        ),
        place(r.stage) >= place(Stage::ClosingJournal) ==> moved(r, a).report.exit_code
            == r.report.exit_code && place(moved(r, a).stage) >= place(r.stage),
{
    if place(r.stage) < place(Stage::ReadingMetrics) {
        lemma_sound_before(r, a);
    } else if place(r.stage) < place(Stage::WritingMetrics) {
        lemma_sound_capture(r, a);
    } else if place(r.stage) < place(Stage::ClosingJournal) {
        lemma_sound_change(r, a);
        if moved(r, a).stage is ClosingJournal {
            lemma_codes(r, a);
        }
    } else {
        lemma_sound_end(r, a);
    }
}

#[verifier::spinoff_prover]
#[verifier::rlimit(60)]
proof fn lemma_codes(r: RunView, a: Answer)
    requires
        sound(r),
        place(Stage::WritingMetrics) <= place(r.stage) < place(Stage::ClosingJournal),
        moved(r, a).stage is ClosingJournal,
    ensures
        !is_refusal(moved(r, a).report.exit_code),
{
    reveal(moved);
}

/// Answer `k` was a journal with these bindings, left by an earlier run.
pub open spec fn left_at(answers: Seq<Answer>, k: int, bindings: Seq<BindingView>) -> bool {
    &&& 0 <= k < answers.len()
    &&& answers[k].event matches EventView::Journal(j) && j.bindings == bindings
}

#[verifier::spinoff_prover]
#[verifier::rlimit(60)]
proof fn lemma_reattaching_step(r: RunView, a: Answer)
    requires
        place(r.stage) <= place(Stage::Reattaching),
        moved(r, a).stage is Reattaching,
    ensures
        r.stage is Reattaching ==> moved(r, a) == r,
        r.stage !is Reattaching ==> a.event == EventView::Journal(moved(r, a).journal),
{
    every_answer_moves_a_run_on(r, a);
    reveal(moved);
}

/// What is reattached stands in the journal that was read.
proof fn lemma_reattaches_what_was_left(start: RunView, answers: Seq<Answer>)
    requires
        is_start(start),
        after(start, answers).stage is Reattaching,
    ensures
        exists|k: int| #[trigger] left_at(answers, k, after(start, answers).journal.bindings),
    decreases answers.len(),
{
    if answers.len() > 0 {
        let before = answers.drop_last();
        let was = after(start, before);
        let r = after(start, answers);
        every_answer_moves_a_run_on(was, answers.last());
        lemma_reattaching_step(was, answers.last());
        if was.stage is Reattaching {
            lemma_reattaches_what_was_left(start, before);
            let k = choose|k: int| #[trigger] left_at(before, k, was.journal.bindings);
            assert(left_at(answers, k, r.journal.bindings));
        } else {
            assert(left_at(answers, answers.len() - 1, r.journal.bindings));
        }
    }
}

/// Between the opening of the journal and its closing something was to be changed.
proof fn lemma_touched_while_open(start: RunView, answers: Seq<Answer>)
    requires
        is_start(start),
        place(Stage::OpeningJournal) < place(after(start, answers).stage),
        place(after(start, answers).stage) < place(Stage::ClosingJournal),
    ensures
        touched(start, answers),
    decreases answers.len(),
{
    if answers.len() > 0 {
        let before = answers.drop_last();
        let was = after(start, before);
        a_run_stays_sound(start, before);
        every_answer_moves_a_run_on(was, answers.last());
        lemma_refusal_step(was, answers.last());
        if place(was.stage) <= place(Stage::OpeningJournal) {
            assert(answers.take(answers.len() as int) =~= answers);
            assert(changes(asks(after(start, answers.take(answers.len() as int)))));
        } else {
            lemma_touched_while_open(start, before);
            lemma_touched_later(start, answers, answers.len() - 1);
        }
    }
}

/// What was touched stays touched.
proof fn lemma_touched_later(start: RunView, answers: Seq<Answer>, n: int)
    requires
        0 <= n <= answers.len(),
        touched(start, answers.take(n)),
    ensures
        touched(start, answers),
{
    let first = answers.take(n);
    let k = choose|k: int|
        0 <= k <= first.len() && changes(asks(#[trigger] after(start, first.take(k))));
    assert(first.take(k) =~= answers.take(k));
    assert(changes(asks(after(start, answers.take(k)))));
}

/// After `k` answers a run asks for these bindings to be set.
pub open spec fn asks_for_bindings(
    start: RunView,
    answers: Seq<Answer>,
    k: int,
    bindings: Seq<BindingView>,
) -> bool {
    asks(after(start, answers.take(k))) == ActionView::WriteBindings(bindings)
}

/// A run that could not get its way before the change -- no rights, an adapter missing, Wi-Fi not
/// to be had, a policy in the way -- has changed nothing of its own: the only bindings it asked
/// for are those that the journal of an earlier run holds.
pub proof fn a_refused_run_changes_nothing(start: RunView, answers: Seq<Answer>)
    requires
        is_start(start),
        after(start, answers).stage is Finished,
        is_refusal(after(start, answers).report.exit_code),
    ensures
        !touched(start, answers),
        forall|k: int, bindings: Seq<BindingView>|
            0 <= k <= answers.len() && #[trigger] asks_for_bindings(start, answers, k, bindings)
                ==> exists|i: int| #[trigger] left_at(answers, i, bindings) && i < k,
{
    lemma_refusal(start, answers);
    assert forall|k: int, bindings: Seq<BindingView>|
        0 <= k <= answers.len() && #[trigger] asks_for_bindings(
            start,
            answers,
            k,
            bindings,
        ) implies exists|i: int| #[trigger] left_at(answers, i, bindings) && i < k by {
        let first = answers.take(k);
        if after(start, first).stage is RestoringBindings {
            lemma_touched_while_open(start, first);
            lemma_touched_later(start, answers, k);
        } else {
            lemma_reattaches_what_was_left(start, first);
            let i = choose|i: int| #[trigger] left_at(first, i, bindings);
            assert(left_at(answers, i, bindings));
        }
    }
}

/// Answer `k` acknowledged a journal of this run with these bindings.
pub open spec fn kept_at(
    start: RunView,
    answers: Seq<Answer>,
    k: int,
    bindings: Seq<BindingView>,
) -> bool {
    &&& 0 <= k < answers.len()
    &&& answers[k].event is Done
    &&& asks(after(start, answers.take(k))) matches ActionView::SaveJournal(j) && j.bindings
        == bindings
}

/// Bindings are only ever set to what a journal holds: one that an earlier run left behind, or the
/// one that this run has saved.
pub proof fn bindings_are_only_put_back(
    start: RunView,
    answers: Seq<Answer>,
    bindings: Seq<BindingView>,
)
    requires
        is_start(start),
        asks(after(start, answers)) == ActionView::WriteBindings(bindings),
    ensures
        exists|k: int|
            #![trigger answers[k]]
            left_at(answers, k, bindings) || kept_at(start, answers, k, bindings),
{
    let r = after(start, answers);
    if r.stage is Reattaching {
        lemma_reattaches_what_was_left(start, answers);
    } else {
        a_run_stays_sound(start, answers);
        let (_, k) = lemma_captured_then_saved(start, answers);
        assert(kept_at(start, answers, k, bindings));
    }
}

// --- Wi-Fi first -------------------------------------------------------------------------

/// What came back shows a default route over one interface.
pub open spec fn shows_route(e: EventView, luid: LuidKey) -> bool {
    e matches EventView::Snapshot { routes, .. } && best_total(routes, luid) is Some
}

/// At answer `k` Wi-Fi, already associated, was seen to have a default route.
pub open spec fn routed_at(start: RunView, answers: Seq<Answer>, k: int, r: RunView) -> bool {
    &&& 0 <= k < answers.len()
    &&& after(start, answers.take(k)).stage is ReadingRoutes
    &&& shows_route(answers[k].event, r.wifi)
}

/// At answer `k` Wi-Fi was reported to be associated.
pub open spec fn associated_at(start: RunView, answers: Seq<Answer>, k: int, r: RunView) -> bool {
    &&& 0 <= k < answers.len()
    &&& asks(after(start, answers.take(k))) is ConnectWifi
    &&& answers[k].event == EventView::Wifi(Ok(r.profile))
}

/// A mode that takes the traffic away from Ethernet.
pub open spec fn leaves_ethernet(mode: Mode) -> bool {
    mode == Mode::Wifi || mode == Mode::WifiOnly
}

#[verifier::spinoff_prover]
#[verifier::rlimit(60)]
proof fn lemma_wifi_step_before(r: RunView, a: Answer)
    requires
        sound(r),
        leaves_ethernet(r.mode),
        place(r.stage) <= place(Stage::ReadingRoutes),
    ensures
        place(moved(r, a).stage) < place(Stage::ReadingRoutes) || moved(r, a).stage is Finished
            || moved(r, a) == r || (r.stage is ConnectingWifi && moved(
            r,
            a,
        ).stage is ReadingRoutes && a.event == EventView::Wifi(Ok(moved(r, a).profile))) || (
        r.stage is ReadingRoutes && shows_route(a.event, r.wifi) && moved(r, a).wifi == r.wifi && moved(
            r,
            a,
        ).profile == r.profile),
{
    reveal(moved);
}

#[verifier::spinoff_prover]
#[verifier::rlimit(60)]
proof fn lemma_wifi_step_middle(r: RunView, a: Answer)
    requires
        place(Stage::ReadingRoutes) < place(r.stage) <= place(Stage::WritingMetrics),
    ensures
        moved(r, a).wifi == r.wifi && moved(r, a).profile == r.profile,
        place(moved(r, a).stage) >= place(r.stage),
{
    reveal(moved);
}

#[verifier::spinoff_prover]
#[verifier::rlimit(60)]
proof fn lemma_wifi_step_late(r: RunView, a: Answer)
    requires
        place(Stage::WritingMetrics) < place(r.stage),
    ensures
        moved(r, a).wifi == r.wifi && moved(r, a).profile == r.profile,
        place(moved(r, a).stage) >= place(r.stage),
{
    reveal(moved);
}

proof fn lemma_associated(start: RunView, answers: Seq<Answer>)
    requires
        is_start(start),
        leaves_ethernet(start.mode),
        place(Stage::ReadingRoutes) <= place(after(start, answers).stage) < place(Stage::Finished),
    ensures
        exists|k: int| #[trigger] associated_at(start, answers, k, after(start, answers)),
        place(Stage::ReadingRoutes) < place(after(start, answers).stage) ==> exists|k: int|
            #[trigger] routed_at(start, answers, k, after(start, answers)),
    decreases answers.len(),
{
    let r = after(start, answers);
    if answers.len() > 0 {
        let before = answers.drop_last();
        let was = after(start, before);
        let last = answers.len() - 1;
        assert(answers.take(last) =~= before);
        a_run_stays_sound(start, before);
        if place(was.stage) <= place(Stage::ReadingRoutes) {
            lemma_wifi_step_before(was, answers.last());
        } else if place(was.stage) <= place(Stage::WritingMetrics) {
            lemma_wifi_step_middle(was, answers.last());
        } else {
            lemma_wifi_step_late(was, answers.last());
        }
        if place(was.stage) >= place(Stage::ReadingRoutes) {
            lemma_associated(start, before);
            let k = choose|k: int| #[trigger] associated_at(start, before, k, was);
            assert(before.take(k) =~= answers.take(k));
            assert(associated_at(start, answers, k, r));
            if place(was.stage) > place(Stage::ReadingRoutes) {
                let k = choose|k: int| #[trigger] routed_at(start, before, k, was);
                assert(before.take(k) =~= answers.take(k));
                assert(routed_at(start, answers, k, r));
            } else if place(r.stage) > place(Stage::ReadingRoutes) {
                assert(routed_at(start, answers, last, r));
            }
        } else {
            assert(associated_at(start, answers, last, r));
        }
    }
}

/// Ethernet is given up only for a Wi-Fi that works: before either Wi-Fi mode writes a metric or
/// detaches Ethernet, Wi-Fi was reported to be associated, and was then seen to have a default
/// route.
pub proof fn wifi_is_up_before_ethernet_is_left(start: RunView, answers: Seq<Answer>)
    requires
        is_start(start),
        leaves_ethernet(start.mode),
        changes(asks(after(start, answers))),
    ensures
        exists|k: int| #[trigger] associated_at(start, answers, k, after(start, answers)),
        exists|k: int| #[trigger] routed_at(start, answers, k, after(start, answers)),
{
    lemma_associated(start, answers);
}

/// The metric Ethernet is parked at is above what Wi-Fi costs, unless Wi-Fi costs as much as any
/// metric can.
pub proof fn ethernet_is_parked_above_wifi(r: RunView, routes: Seq<DefaultRoute>)
    requires
        r.mode == Mode::Wifi,
        best_total(routes, r.wifi) matches Some(total) && total < PARK_MAX,
    ensures
        with_routes(r, routes).stage is ReadingMetrics,
        with_routes(r, routes).park > best_total(routes, r.wifi)->0,
{
    let total = best_total(routes, r.wifi)->0;
    park_is_in_range(r.cfg.park_metric, Some(total));
    park_loses_against_rival(r.cfg.park_metric, total);
}

// --- putting things back -----------------------------------------------------------------

/// At moment `k` everything that `r` captured was to be written back.
pub open spec fn put_back_at(start: RunView, answers: Seq<Answer>, k: int, r: RunView) -> bool {
    &&& 0 <= k < answers.len()
    &&& asks(after(start, answers.take(k))) == ActionView::WriteMetrics(restoring_all(r.backups))
}

/// At moment `k` the bindings that `r` found were to be set again.
pub open spec fn rebound_at(start: RunView, answers: Seq<Answer>, k: int, r: RunView) -> bool {
    &&& 0 <= k < answers.len()
    &&& asks(after(start, answers.take(k))) == ActionView::WriteBindings(
        seq![BindingView { guid: r.eth.guid, v4: r.bound.v4, v6: r.bound.v6 }],
    )
}

/// What ends a change.
pub open spec fn ends(r: RunView) -> bool {
    place(r.stage) >= place(Stage::ClosingJournal)
}

#[verifier::spinoff_prover]
#[verifier::rlimit(60)]
proof fn lemma_failed_step(r: RunView, a: Answer)
    requires
        sound(r),
        place(Stage::WritingMetrics) <= place(r.stage) < place(Stage::ClosingJournal),
    ensures
        moved(r, a).backups == r.backups,
        moved(r, a).eth == r.eth,
        moved(r, a).bound == r.bound,
        ends(moved(r, a)) && !moved(r, a).report.ok && r.mode != Mode::Auto
            ==> r.stage is RestoringMetrics,
        r.mode == Mode::WifiOnly && moved(r, a).stage is RestoringMetrics ==> moved(r, a) == r
            || r.stage is RestoringBindings,
{
    reveal(moved);
}

#[verifier::spinoff_prover]
#[verifier::rlimit(60)]
proof fn lemma_end_step(r: RunView, a: Answer)
    requires
        place(Stage::ClosingJournal) <= place(r.stage),
    ensures
        moved(r, a).backups == r.backups,
        moved(r, a).eth == r.eth,
        moved(r, a).bound == r.bound,
        moved(r, a).report.ok == r.report.ok,
        moved(r, a).report.exit_code == r.report.exit_code,
        ends(moved(r, a)),
{
    reveal(moved);
}

#[verifier::spinoff_prover]
#[verifier::rlimit(60)]
proof fn lemma_early_codes(r: RunView, a: Answer)
    requires
        sound(r),
        place(r.stage) < place(Stage::WritingMetrics),
        moved(r, a).stage is Finished,
    ensures
        moved(r, a).report.exit_code != exit::WRITE_FAILED,
        moved(r, a).report.exit_code != exit::VERIFY_FAILED,
{
    if place(r.stage) >= place(Stage::ReadingMetrics) {
        lemma_sound_capture(r, a);
    } else {
        reveal(moved);
    }
}

/// A change that failed is put back: where a metric could not be written, or the machine was left
/// without a route, every metric that was captured was to be written back as it was. Handing both
/// adapters back to Windows has nothing to put back.
pub proof fn a_failed_change_is_put_back(start: RunView, answers: Seq<Answer>)
    requires
        is_start(start),
        start.mode != Mode::Auto,
        ends(after(start, answers)),
        ({
            let code = after(start, answers).report.exit_code;
            code == exit::WRITE_FAILED || code == exit::VERIFY_FAILED
        }),
    ensures
        exists|k: int| #[trigger] put_back_at(start, answers, k, after(start, answers)),
    decreases answers.len(),
{
    let r = after(start, answers);
    if answers.len() > 0 {
        let before = answers.drop_last();
        let was = after(start, before);
        let last = answers.len() - 1;
        assert(answers.take(last) =~= before);
        a_run_stays_sound(start, before);
        a_run_stays_sound(start, answers);
        if place(was.stage) < place(Stage::WritingMetrics) {
            lemma_refusal_step(was, answers.last());
            lemma_early_codes(was, answers.last());
        } else if place(was.stage) < place(Stage::ClosingJournal) {
            lemma_failed_step(was, answers.last());
            assert(put_back_at(start, answers, last, r));
        } else {
            lemma_end_step(was, answers.last());
            a_failed_change_is_put_back(start, before);
            let k = choose|k: int| #[trigger] put_back_at(start, before, k, was);
            assert(before.take(k) =~= answers.take(k));
            assert(put_back_at(start, answers, k, r));
        }
    }
}

/// Before the metrics are put back after a failed detachment, the bindings are.
proof fn lemma_rebound_first(start: RunView, answers: Seq<Answer>)
    requires
        is_start(start),
        start.mode == Mode::WifiOnly,
        after(start, answers).stage is RestoringMetrics,
    ensures
        exists|k: int| #[trigger] rebound_at(start, answers, k, after(start, answers)),
    decreases answers.len(),
{
    let r = after(start, answers);
    if answers.len() > 0 {
        let before = answers.drop_last();
        let was = after(start, before);
        let last = answers.len() - 1;
        assert(answers.take(last) =~= before);
        a_run_stays_sound(start, before);
        lemma_refusal_step(was, answers.last());
        lemma_failed_step(was, answers.last());
        if was.stage is RestoringBindings {
            assert(rebound_at(start, answers, last, r));
        } else {
            lemma_rebound_first(start, before);
            let k = choose|k: int| #[trigger] rebound_at(start, before, k, was);
            assert(before.take(k) =~= answers.take(k));
            assert(rebound_at(start, answers, k, r));
        }
    }
}

/// The bindings that `r` found were to be set again at moment `k`, and the metrics that it captured
/// at moment `n` after that.
pub open spec fn reattached_at(
    start: RunView,
    answers: Seq<Answer>,
    k: int,
    n: int,
    r: RunView,
) -> bool {
    k < n && rebound_at(start, answers, k, r) && put_back_at(start, answers, n, r)
}

/// A detachment that failed is put back: the bindings that were found were to be set again, and
/// after them the metrics that were captured, Wi-Fi's included.
pub proof fn a_failed_detachment_is_put_back(start: RunView, answers: Seq<Answer>)
    requires
        is_start(start),
        start.mode == Mode::WifiOnly,
        ends(after(start, answers)),
        !after(start, answers).report.ok,
        touched(start, answers),
    ensures
        exists|k: int, n: int| #[trigger]
            reattached_at(start, answers, k, n, after(start, answers)),
    decreases answers.len(),
{
    let r = after(start, answers);
    lemma_refusal(start, answers);
    if answers.len() > 0 {
        let before = answers.drop_last();
        let was = after(start, before);
        let last = answers.len() - 1;
        assert(answers.take(last) =~= before);
        a_run_stays_sound(start, before);
        a_run_stays_sound(start, answers);
        lemma_refusal(start, before);
        if place(was.stage) < place(Stage::WritingMetrics) {
            lemma_refusal_step(was, answers.last());
            lemma_untouched(start, answers);
        } else if place(was.stage) < place(Stage::ClosingJournal) {
            lemma_failed_step(was, answers.last());
            lemma_rebound_first(start, before);
            let k = choose|k: int| #[trigger] rebound_at(start, before, k, was);
            assert(before.take(k) =~= answers.take(k));
            assert(rebound_at(start, answers, k, r));
            assert(put_back_at(start, answers, last, r));
            assert(reattached_at(start, answers, k, last, r));
        } else {
            lemma_end_step(was, answers.last());
            if !touched(start, before) {
                lemma_ended_untouched(r);
                lemma_untouched(start, answers);
            }
            a_failed_detachment_is_put_back(start, before);
            let (k, n) = choose|k: int, n: int| #[trigger]
                reattached_at(start, before, k, n, was);
            assert(before.take(k) =~= answers.take(k));
            assert(before.take(n) =~= answers.take(n));
            assert(reattached_at(start, answers, k, n, r));
        }
    }
}

proof fn lemma_ended_untouched(r: RunView)
    requires
        ends(r),
    ensures
        !changes(asks(r)),
{
}

/// At answer `k` a journal was saved that is not in flight.
pub open spec fn closed_at(start: RunView, answers: Seq<Answer>, k: int) -> bool {
    &&& 0 <= k < answers.len()
    &&& answers[k].event is Done
    &&& asks(after(start, answers.take(k))) matches ActionView::SaveJournal(j) && !j.in_flight
    &&& forall|i: int|
        k <= i <= answers.len() ==> !changes(asks(#[trigger] after(start, answers.take(i))))
}

#[verifier::spinoff_prover]
#[verifier::rlimit(60)]
proof fn lemma_closing_step(r: RunView, a: Answer)
    requires
        place(Stage::WritingMetrics) <= place(r.stage) <= place(Stage::ClosingJournal),
    ensures
        place(moved(r, a).stage) <= place(Stage::ClosingJournal) || (r.stage is ClosingJournal
            && a.event is Done),
{
    reveal(moved);
}

/// A run that changed something and is over has had its journal closed, and has changed nothing
/// since: nothing it leaves behind looks like an interrupted run.
pub proof fn a_finished_run_has_closed_its_journal(start: RunView, answers: Seq<Answer>)
    requires
        is_start(start),
        place(after(start, answers).stage) > place(Stage::ClosingJournal),
        touched(start, answers),
    ensures
        exists|k: int| #[trigger] closed_at(start, answers, k),
    decreases answers.len(),
{
    let r = after(start, answers);
    lemma_refusal(start, answers);
    lemma_ended_untouched(r);
    assert(answers.take(answers.len() as int) =~= answers);
    if answers.len() > 0 {
        let before = answers.drop_last();
        let was = after(start, before);
        let last = answers.len() - 1;
        assert(answers.take(last) =~= before);
        a_run_stays_sound(start, before);
        lemma_refusal(start, before);
        if place(was.stage) < place(Stage::WritingMetrics) {
            lemma_refusal_step(was, answers.last());
            lemma_untouched(start, answers);
        } else if place(was.stage) <= place(Stage::ClosingJournal) {
            lemma_closing_step(was, answers.last());
            assert(closed_at(start, answers, last));
        } else {
            if !touched(start, before) {
                lemma_untouched(start, answers);
            }
            a_finished_run_has_closed_its_journal(start, before);
            let k = choose|k: int| #[trigger] closed_at(start, before, k);
            assert(before.take(k) =~= answers.take(k));
            assert forall|i: int| k <= i <= answers.len() implies !changes(
                asks(#[trigger] after(start, answers.take(i))),
            ) by {
                if i < answers.len() {
                    assert(before.take(i) =~= answers.take(i));
                    assert(!changes(asks(after(start, before.take(i)))));
                }
            }
            assert(closed_at(start, answers, k));
        }
    }
}

/// Leaving "Wi-Fi only" undoes exactly what it did: the journal of a detachment that went well
/// keeps the bindings that were found, and the first thing that a later run in another mode does
/// with a journal is to set what it records, neither more nor less.
pub proof fn leaving_wifi_only_rebinds_what_was_bound(
    r: RunView,
    outcome: BindOutcome,
    now: u64,
    later: RunView,
    then: u64,
)
    requires
        sound(r),
        r.stage is Detaching,
        later.stage is LoadingJournal,
        later.mode != Mode::WifiOnly,
    ensures
        ({
            let done = next(r, EventView::BindingSet(Ok(outcome)), now);
            let left = next(later, EventView::Journal(done.journal), then);
            &&& asks(done) == ActionView::SaveJournal(done.journal)
            &&& !done.journal.torn()
            &&& asks(left) == ActionView::WriteBindings(
                seq![BindingView { guid: r.eth.guid, v4: r.bound.v4, v6: r.bound.v6 }],
            )
        }),
{
}

// --- what was there first ----------------------------------------------------------------

/// Answer `k` was the journal that an earlier run left.
pub open spec fn loaded_at(
    start: RunView,
    answers: Seq<Answer>,
    k: int,
    j: JournalView,
) -> bool {
    &&& 0 <= k < answers.len()
    &&& after(start, answers.take(k)).stage is LoadingJournal
    &&& answers[k].event == EventView::Journal(j)
}

/// What a run knows of the first values, once it has read the journal `j`: what that says, and from
/// the moment its own metrics are captured, these as well.
pub open spec fn knows_first(r: RunView, j: JournalView) -> bool {
    if place(r.stage) < place(Stage::OpeningJournal) {
        r.journal.touched == j.touched && r.journal.restore == j.restore
    } else {
        r.journal.touched == first_values(j, r.backups)
    }
}

#[verifier::spinoff_prover]
#[verifier::rlimit(60)]
proof fn lemma_first_step_early(r: RunView, a: Answer)
    requires
        place(r.stage) < place(Stage::OpeningJournal),
        place(Stage::LoadingJournal) < place(moved(r, a).stage),
        moved(r, a).stage !is Finished,
    ensures
        place(r.stage) >= place(Stage::LoadingJournal),
        r.stage is LoadingJournal ==> a.event == EventView::Journal(moved(r, a).journal) && place(
            moved(r, a).stage,
        ) < place(Stage::OpeningJournal),
        r.stage !is LoadingJournal && place(moved(r, a).stage) < place(Stage::OpeningJournal)
            ==> moved(r, a).journal.touched == r.journal.touched && moved(r, a).journal.restore
            == r.journal.restore,
        place(moved(r, a).stage) >= place(Stage::OpeningJournal) ==> moved(r, a).journal.touched
            == first_values(r.journal, moved(r, a).backups),
{
    reveal(moved);
}

#[verifier::spinoff_prover]
#[verifier::rlimit(60)]
proof fn lemma_first_step_late(r: RunView, a: Answer)
    requires
        place(r.stage) >= place(Stage::OpeningJournal),
    ensures
        moved(r, a).journal.touched == r.journal.touched,
        moved(r, a).backups == r.backups,
        place(moved(r, a).stage) >= place(r.stage),
{
    reveal(moved);
}

proof fn lemma_knows_first(start: RunView, answers: Seq<Answer>) -> (found: (int, JournalView))
    requires
        is_start(start),
        place(Stage::LoadingJournal) < place(after(start, answers).stage) < place(Stage::Finished),
    ensures
        loaded_at(start, answers, found.0, found.1),
        knows_first(after(start, answers), found.1),
    decreases answers.len(),
{
    let r = after(start, answers);
    if answers.len() == 0 {
        (0, r.journal)
    } else {
        let before = answers.drop_last();
        let was = after(start, before);
        let last = answers.len() - 1;
        assert(answers.take(last) =~= before);
        every_answer_moves_a_run_on(was, answers.last());
        if place(was.stage) < place(Stage::OpeningJournal) {
            lemma_first_step_early(was, answers.last());
        } else {
            lemma_first_step_late(was, answers.last());
        }
        if was.stage is LoadingJournal {
            assert(loaded_at(start, answers, last, r.journal));
            (last, r.journal)
        } else {
            let (k, j) = lemma_knows_first(start, before);
            assert(before.take(k) =~= answers.take(k));
            assert(loaded_at(start, answers, k, j));
            (k, j)
        }
    }
}

/// A journal goes on from another: every first value is still there, in its place; and everything
/// that the other was to restore, or that has been captured since, has one.
pub open spec fn goes_on_from(
    saved: JournalView,
    j: JournalView,
    captured: Seq<MetricBackup>,
) -> bool {
    &&& j.touched.is_prefix_of(saved.touched)
    &&& forall|i: int|
        0 <= i < j.restore.len() ==> has_metric(saved.touched, #[trigger] j.restore[i])
    &&& forall|i: int|
        0 <= i < captured.len() ==> has_metric(saved.touched, #[trigger] captured[i])
}

/// What a metric was before LinkSwitch first changed it is never lost: every journal that a run
/// saves goes on from the one it found, with a first value for everything the run captured. Only
/// the journal of a reattachment, which comes before the capture, has just what was found.
pub proof fn first_values_are_never_lost(
    start: RunView,
    answers: Seq<Answer>,
    saved: JournalView,
)
    requires
        is_start(start),
        asks(after(start, answers)) == ActionView::SaveJournal(saved),
    ensures
        exists|k: int, j: JournalView| #[trigger]
            loaded_at(start, answers, k, j) && if after(start, answers).stage is SavingReattached {
                saved.touched == j.touched
            } else {
                goes_on_from(saved, j, after(start, answers).backups)
            },
{
    let r = after(start, answers);
    let (k, j) = lemma_knows_first(start, answers);
    if r.stage !is SavingReattached {
        a_run_stays_sound(start, answers);
        let known = first_kept(j.touched, j.restore);
        let all = first_kept(known, r.backups);
        the_first_value_stays(j.touched, j.restore);
        the_first_value_stays(known, r.backups);
        assert forall|i: int| 0 <= i < j.restore.len() implies has_metric(
            all,
            #[trigger] j.restore[i],
        ) by {
            let at = choose|at: int|
                0 <= at < known.len() && super::same_metric(#[trigger] known[at], j.restore[i]);
            assert(super::same_metric(all[at], j.restore[i]));
        }
        assert(goes_on_from(saved, j, r.backups));
    }
}

// --- success -----------------------------------------------------------------------------

/// At answer `k`, after the change, the machine was seen to have a default route.
pub open spec fn verified_at(start: RunView, answers: Seq<Answer>, k: int) -> bool {
    &&& 0 <= k < answers.len()
    &&& after(start, answers.take(k)).stage is Verifying
    &&& shows_any_route(answers[k].event)
}

/// What came back shows a default route.
pub open spec fn shows_any_route(e: EventView) -> bool {
    e matches EventView::Snapshot { routes, .. } && routes.len() > 0
}

#[verifier::spinoff_prover]
#[verifier::rlimit(60)]
proof fn lemma_success_step(r: RunView, a: Answer)
    requires
        sound(r),
        place(Stage::WritingMetrics) <= place(r.stage) < place(Stage::ClosingJournal),
        r.mode == Mode::Wifi || r.mode == Mode::Ethernet,
        ends(moved(r, a)),
        moved(r, a).report.ok,
    ensures
        r.stage is Verifying,
        shows_any_route(a.event),
{
    reveal(moved);
}

/// A switch that is reported to have gone well left the machine with a route: after the change,
/// the routing table was read again and was not empty.
pub proof fn success_means_a_route(start: RunView, answers: Seq<Answer>)
    requires
        is_start(start),
        start.mode == Mode::Wifi || start.mode == Mode::Ethernet,
        ends(after(start, answers)),
        after(start, answers).report.ok,
    ensures
        exists|k: int| #[trigger] verified_at(start, answers, k),
    decreases answers.len(),
{
    if answers.len() > 0 {
        let before = answers.drop_last();
        let was = after(start, before);
        let last = answers.len() - 1;
        assert(answers.take(last) =~= before);
        a_run_stays_sound(start, before);
        if place(was.stage) < place(Stage::WritingMetrics) {
            lemma_refusal_step(was, answers.last());
            lemma_early_report(was, answers.last());
        } else if place(was.stage) < place(Stage::ClosingJournal) {
            lemma_success_step(was, answers.last());
            assert(verified_at(start, answers, last));
        } else {
            lemma_end_step(was, answers.last());
            success_means_a_route(start, before);
            let k = choose|k: int| #[trigger] verified_at(start, before, k);
            assert(before.take(k) =~= answers.take(k));
            assert(verified_at(start, answers, k));
        }
    }
}

#[verifier::spinoff_prover]
#[verifier::rlimit(60)]
proof fn lemma_early_report(r: RunView, a: Answer)
    requires
        sound(r),
        place(r.stage) < place(Stage::WritingMetrics),
    ensures
        !moved(r, a).report.ok,
{
    if place(r.stage) >= place(Stage::ReadingMetrics) {
        lemma_sound_capture(r, a);
    } else {
        reveal(moved);
    }
}

/// Handing both adapters back pins nothing: all four metrics go back to automatic.
pub proof fn auto_pins_nothing(r: RunView)
    requires
        r.mode == Mode::Auto,
    ensures
        writes_for(r).len() == 4,
        forall|i: int| 0 <= i < 4 ==> (#[trigger] writes_for(r)[i]).target is None,
        forall|i: int|
            0 <= i < 4 ==> (#[trigger] writes_for(r)[i]).luid == keys_for(r)[i].luid
                && writes_for(r)[i].family == keys_for(r)[i].family,
{
}

// --- recovery ----------------------------------------------------------------------------

/// A recovery after some answers.
pub open spec fn recovered(start: RecoverView, answers: Seq<Answer>) -> RecoverView
    decreases answers.len(),
{
    if answers.len() == 0 {
        start
    } else {
        recover_step(
            recovered(start, answers.drop_last()),
            answers.last().event,
            answers.last().now,
        )
    }
}

/// A recovery puts back exactly what the journal of the interrupted run recorded, bindings first,
/// and saves a journal that is not torn and still knows every first value. A journal that is not
/// torn is left alone.
pub proof fn recovery_puts_back_what_was_recorded(
    start: RecoverView,
    j: JournalView,
    oks: Seq<bool>,
    outcomes: Seq<FamilyOutcome>,
    now: u64,
)
    requires
        start.stage is Loading,
    ensures
        ({
            let seen = recover_step(start, EventView::Journal(j), now);
            let rebound = recover_step(seen, EventView::Bindings(oks), now);
            let rewritten = recover_step(rebound, EventView::MetricsWritten(outcomes), now);
            let saved = recover_step(rewritten, EventView::Done, now);
            &&& !j.torn() ==> recover_asks(seen) is Nothing
            &&& j.torn() ==> {
                &&& recover_asks(seen) == ActionView::WriteBindings(j.bindings)
                &&& recover_asks(rebound) == ActionView::WriteMetrics(restoring_all(j.restore))
                &&& recover_asks(rewritten) == ActionView::SaveJournal(rewritten.journal)
                &&& !rewritten.journal.torn()
                &&& rewritten.journal.touched == j.touched
                &&& recover_asks(saved) is Nothing
            }
        }),
{
}

/// Whatever the machine answers, a recovery that is over leaves no torn journal.
pub proof fn recovery_leaves_nothing_torn(start: RecoverView, answers: Seq<Answer>)
    requires
        start.stage is Loading,
    ensures
        recovered(start, answers).stage is Saving || recovered(start, answers).stage is Finished
            ==> !recovered(start, answers).journal.torn(),
    decreases answers.len(),
{
    if answers.len() > 0 {
        recovery_leaves_nothing_torn(start, answers.drop_last());
    }
}

} // verus!
