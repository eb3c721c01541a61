use linkswitch::apply::{exit, restore_backups, ApplyReport};
use linkswitch::config::{MetricBackup, Mode};

#[test]
fn exit_codes_are_distinct() {
    let codes = [
        exit::OK,
        exit::GENERIC,
        exit::NOT_ELEVATED,
        exit::NOT_CONFIGURED,
        exit::WIFI_UNAVAILABLE,
        exit::WRITE_FAILED,
        exit::VERIFY_FAILED,
        exit::BLOCKED_BY_POLICY,
    ];
    let mut sorted = codes.to_vec();
    sorted.sort_unstable();
    sorted.dedup();
    assert_eq!(sorted.len(), codes.len(), "exit codes must not collide");
}

#[test]
fn a_failure_report_is_never_marked_ok() {
    let r = ApplyReport::fail(Mode::Wifi, exit::WIFI_UNAVAILABLE, "nope".to_string());
    assert!(!r.ok);
    assert_ne!(r.exit_code, exit::OK);
}

#[test]
fn a_backup_of_an_automatic_metric_restores_to_automatic_not_to_its_number() {
    // Under automatic, Get reports the stack-computed value (5, 30, ...). Writing that back
    // would pin it as a manual metric that stops tracking link speed, so `automatic` must
    // drive the restore rather than the recorded number.
    let b = MetricBackup {
        luid: 1,
        family_v6: false,
        metric: 5,
        automatic: true,
    };
    let target = restore_backups(&vec![b])[0].target;
    assert_eq!(target, None);

    let manual = MetricBackup {
        automatic: false,
        ..b
    };
    let target = restore_backups(&vec![manual])[0].target;
    assert_eq!(target, Some(5), "a user's manual metric must come back exactly");
}
