use linkswitch::single_instance::{acquire, show_requested, Claim};

#[test]
fn a_second_launch_gives_way() {
    assert_eq!(acquire(Some(false)), Claim::Own);
    assert_eq!(acquire(Some(true)), Claim::GiveWay);
    assert_eq!(acquire(None), Claim::RunUnarbitrated);
}

#[test]
fn only_a_signal_asks_for_the_window() {
    assert!(show_requested(Some(true)));
    assert!(!show_requested(Some(false)));
    assert!(!show_requested(None));
}
