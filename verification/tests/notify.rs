use linkswitch::net::notify::{mark_stale, register, take_dirty, ChangeFlag};

#[test]
fn dirty_starts_set_so_the_first_frame_reads_state() {
    let mut flag = ChangeFlag::new();
    assert!(take_dirty(&mut flag));
    mark_stale(&mut flag);
    assert!(take_dirty(&mut flag));
    assert!(!take_dirty(&mut flag), "the flag must clear when taken");
}

#[test]
fn marking_stale_survives_a_take() {
    let mut flag = ChangeFlag::new();
    mark_stale(&mut flag);
    assert!(take_dirty(&mut flag));
    mark_stale(&mut flag);
    assert!(take_dirty(&mut flag));
}

#[test]
fn one_notification_is_enough() {
    assert!(register(0, 5, 5));
    assert!(register(5, 5, 0));
    assert!(!register(5, 87, 5));
}
