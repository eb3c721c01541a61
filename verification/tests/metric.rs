use linkswitch::net::err::ERROR_ACCESS_DENIED;
use linkswitch::net::metric::{
    find, park_value, read, row_for, steer, written, FamilyOutcome, IfaceMetric, SetStep,
    SteerOutcome, AF_INET, AF_INET6, PARK_MAX, PARK_MIN,
};
use linkswitch::net::LuidKey;

#[test]
fn park_value_clamps_into_range() {
    assert_eq!(park_value(0, None), PARK_MIN);
    assert_eq!(park_value(50_000, None), PARK_MAX);
    assert_eq!(park_value(9000, None), 9000);
}

#[test]
fn park_value_beats_a_high_rival() {
    // A rival total of 9000 must not be "parked" against with 9000 -- ties are unspecified.
    assert!(park_value(9000, Some(9000)) > 9000 - 1);
    assert_eq!(park_value(9000, Some(9000)), 9100.min(PARK_MAX));
    assert_eq!(park_value(500, Some(5000)), 5100);
}

#[test]
fn park_value_leaves_a_comfortable_default_alone() {
    // Ordinary case: Wi-Fi at total 30, configured park 9000 -- no adjustment needed.
    assert_eq!(park_value(9000, Some(30)), 9000);
}

#[test]
fn family_absent_is_success_but_not_a_change() {
    assert!(FamilyOutcome::FamilyAbsent.is_ok());
    assert!(!FamilyOutcome::FamilyAbsent.changed());
}

#[test]
fn a_present_but_failed_family_is_not_success() {
    assert!(!FamilyOutcome::Failed(ERROR_ACCESS_DENIED).is_ok());
    assert!(!FamilyOutcome::AdapterGone.is_ok());
}

#[test]
fn steer_outcome_requires_both_legs() {
    let applied = FamilyOutcome::Applied {
        before: 5,
        before_auto: true,
        after: 9000,
        after_auto: false,
    };
    assert!(SteerOutcome {
        v4: applied,
        v6: FamilyOutcome::FamilyAbsent
    }
    .is_ok());
    // v6 bound and failing must sink the whole flip: Windows prefers IPv6.
    assert!(!SteerOutcome {
        v4: applied,
        v6: FamilyOutcome::Failed(ERROR_ACCESS_DENIED)
    }
    .is_ok());
}

#[test]
fn applied_detects_no_op_writes() {
    let same = FamilyOutcome::Applied {
        before: 9000,
        before_auto: false,
        after: 9000,
        after_auto: false,
    };
    assert!(same.is_ok());
    assert!(!same.changed());
}

#[test]
fn a_write_keeps_the_row_and_clears_what_must_be_clear() {
    let mut row = row_for(LuidKey(7), AF_INET);
    row.metric = 25;
    row.site_prefix_length = 64;
    assert_eq!(read(Ok(row)).map(|s| (s.metric, s.automatic)), Ok((25, false)));
    match linkswitch::net::metric::set(Ok(row), Some(9000)) {
        SetStep::Write(w) => {
            assert_eq!((w.luid, w.family, w.metric, w.automatic), (LuidKey(7), AF_INET, 9000, false));
            assert_eq!(w.site_prefix_length, 0);
        }
        other => panic!("{other:?}"),
    }
    assert!(matches!(linkswitch::net::metric::set(Ok(row), None), SetStep::Write(w) if w.automatic));
    assert_eq!(linkswitch::net::metric::set(Err(1168), None), SetStep::Done(FamilyOutcome::FamilyAbsent));
    assert_eq!(linkswitch::net::metric::set(Err(2), None), SetStep::Done(FamilyOutcome::AdapterGone));
    assert_eq!(linkswitch::net::metric::set(Err(5), None), SetStep::Done(FamilyOutcome::Failed(5)));
    assert_eq!(written(row, Some(9000), 5), FamilyOutcome::Failed(5));
    assert_eq!(
        written(row, Some(9000), 0),
        FamilyOutcome::Applied { before: 25, before_auto: false, after: 9000, after_auto: false }
    );
}

#[test]
fn steering_writes_both_families() {
    let w = steer(LuidKey(3), Some(9000));
    assert_eq!(w.iter().map(|w| w.family).collect::<Vec<u16>>(), vec![AF_INET, AF_INET6]);
    assert!(w.iter().all(|w| w.luid == LuidKey(3) && w.target == Some(9000)));
}

#[test]
fn a_snapshot_is_searched_by_interface_and_family() {
    let row = |luid, family, metric| IfaceMetric {
        luid: LuidKey(luid),
        if_index: 1,
        family,
        metric,
        automatic: true,
        connected: true,
        default_routes_disabled: false,
    };
    let snap = [row(1, AF_INET6, 10), row(1, AF_INET, 20), row(1, AF_INET, 30)];
    assert_eq!(find(&snap, LuidKey(1), AF_INET).map(|m| m.metric), Some(20));
    assert!(find(&snap, LuidKey(2), AF_INET).is_none());
}

#[test]
fn outcomes_are_described() {
    let o = SteerOutcome {
        v4: FamilyOutcome::Applied { before: 5, before_auto: true, after: 9000, after_auto: false },
        v6: FamilyOutcome::FamilyAbsent,
    };
    let text = o.describe();
    assert!(text.starts_with("IPv4: automatic (5) "), "got {text}");
    assert!(text.contains("9000") && text.contains(" | IPv6: "), "got {text}");
}
