use linkswitch::config::WcmBackup;
use linkswitch::net::wcm::{
    backup, changed, effective, restore, set_allow, MinimizePolicy, RegistryChange,
};

#[test]
fn documented_values_map_to_variants() {
    assert_eq!(MinimizePolicy::from_value(0), MinimizePolicy::Allow);
    assert_eq!(MinimizePolicy::from_value(1), MinimizePolicy::Minimize);
    assert_eq!(MinimizePolicy::from_value(2), MinimizePolicy::MinimizeCellular);
    assert_eq!(MinimizePolicy::from_value(3), MinimizePolicy::PreventWifi);
    assert_eq!(MinimizePolicy::from_value(7), MinimizePolicy::Unknown(7));
}

#[test]
fn only_value_three_blocks_a_manual_connection() {
    // This is the distinction that decides whether LinkSwitch can work at all: under the
    // default (1) we can still associate Wi-Fi ourselves, which is the whole strategy.
    assert!(MinimizePolicy::Allow.permits_manual_wifi());
    assert!(MinimizePolicy::Minimize.permits_manual_wifi());
    assert!(MinimizePolicy::MinimizeCellular.permits_manual_wifi());
    assert!(!MinimizePolicy::PreventWifi.permits_manual_wifi());
}

#[test]
fn the_windows_default_blocks_automatic_reconnection() {
    // Why the worker must connect Wi-Fi itself rather than wait for Windows to do it.
    assert!(!MinimizePolicy::Minimize.permits_auto_wifi());
    assert!(MinimizePolicy::Allow.permits_auto_wifi());
}

#[test]
fn every_policy_has_an_explanation() {
    for p in [
        MinimizePolicy::Allow,
        MinimizePolicy::Minimize,
        MinimizePolicy::MinimizeCellular,
        MinimizePolicy::PreventWifi,
        MinimizePolicy::Unknown(9),
    ] {
        assert!(!p.describe().is_empty());
    }
}

#[test]
fn backup_of_an_absent_value_restores_by_deleting() {
    // Recording `present: false` is what stops restore writing an explicit 0 and leaving the
    // machine in a state Windows never put it in.
    let b = WcmBackup {
        present: false,
        value: 0,
    };
    assert!(!b.present);
    assert_eq!(restore(b), RegistryChange::Delete);
}

/// Asserts only on internal consistency, over what a machine can report.
#[test]
fn effective_policy_is_self_consistent_on_this_machine() {
    for s in [
        effective(None, None),
        effective(None, Some((true, false))),
        effective(None, Some((false, true))),
        effective(Some(2), None),
    ] {
        if !s.value_present {
            // With no registry value the enum can only be inferred from WCM's BOOL, so it must
            // be one of the two states that BOOL can express.
            assert!(
                matches!(s.policy, MinimizePolicy::Allow | MinimizePolicy::Minimize),
                "inferred policy must come from the boolean, got {:?}",
                s.policy
            );
        }
        assert!(!s.policy.describe().is_empty());
    }
}

#[test]
fn a_registry_value_outranks_the_manager() {
    let s = effective(Some(3), Some((false, true)));
    assert_eq!(s.policy, MinimizePolicy::PreventWifi);
    assert!(s.is_group_policy && s.value_present);
    assert_eq!(effective(None, Some((false, false))).policy, MinimizePolicy::Allow);
    assert_eq!(effective(None, None).policy, MinimizePolicy::Minimize);
}

#[test]
fn restoring_undoes_allowing() {
    assert_eq!(set_allow(), RegistryChange::Write(0));
    assert_eq!(restore(backup(None)), RegistryChange::Delete);
    assert_eq!(restore(backup(Some(2))), RegistryChange::Write(2));
    assert_eq!(changed(RegistryChange::Delete, 2), Ok(()));
    assert_eq!(changed(RegistryChange::Write(0), 2), Err(2));
    assert_eq!(changed(RegistryChange::Write(0), 0), Ok(()));
}

#[test]
fn policies_have_their_names() {
    assert_eq!(MinimizePolicy::Unknown(9).debug_text(), "Unknown(9)");
    assert_eq!(MinimizePolicy::MinimizeCellular.debug_text(), "MinimizeCellular");
}
