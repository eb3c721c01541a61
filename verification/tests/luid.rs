use linkswitch::net::luid::{luid_from_u64, luid_u64, LuidKey};

#[test]
fn luid_round_trips_through_u64() {
    for v in [0u64, 1, 0x0000_0000_0000_1234, u64::MAX, 0xDEAD_BEEF_CAFE_F00D] {
        let native = luid_from_u64(v);
        assert_eq!(luid_u64(native), v);
        assert_eq!(native, LuidKey(v));
        assert_eq!(luid_u64(LuidKey(v)), v);
    }
}

#[test]
fn zero_luid_is_recognised() {
    assert!(LuidKey(0).is_zero());
    assert!(!LuidKey(1).is_zero());
}
