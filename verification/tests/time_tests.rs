use dodjtime::time::Time;

#[test]
fn from_bits_round_trips_parts() {
    // Low 24 bits are the ticks, the rest the overflow count, in place.
    let t = Time::from_bits(0x0000_0abc_0012_3456);
    assert_eq!(t.ticks(), 0x0012_3456);
    assert_eq!(t.overflows(), 0x0000_0abc_0000_0000);
    assert_eq!((t.ticks() as u64) | t.overflows(), t.bits());
}

#[test]
fn parts_round_trip_at_extremes() {
    for bits in [0u64, 1, 0x00ff_ffff, 0x0100_0000, u64::MAX, 0xdead_beef_cafe_f00d] {
        let t = Time::from_bits(bits);
        assert_eq!((t.ticks() as u64) | t.overflows(), bits);
        assert!(t.ticks() < 0x0100_0000);
        assert_eq!(t.overflows() % 0x0100_0000, 0);
    }
}

#[test]
fn set_ticks_keeps_overflows() {
    let mut t = Time::from_bits(0x0000_0001_00ab_cdef);
    t.set_ticks(0x42);
    assert_eq!(t.bits(), 0x0000_0001_0000_0042);
    assert_eq!(t.overflows(), 0x0000_0001_0000_0000);
}

#[test]
fn increment_overflows_adds_one_epoch() {
    let mut t = Time::from_bits(0x00ab_cdef);
    t.increment_overflows();
    assert_eq!(t.bits(), 0x0100_0000 + 0x00ab_cdef);
    assert_eq!(t.ticks(), 0x00ab_cdef);
}

#[test]
fn add_and_sub_are_exact() {
    let a = Time::from_bits(1_000_000);
    let b = Time::from_bits(234);
    assert_eq!(a.add(b).bits(), 1_000_234);
    assert_eq!(a.sub(b).bits(), 999_766);
}

#[test]
fn duration_conversions() {
    // One second is 32,768 ticks.
    let one_s = Time::from_duration(1, 0);
    assert_eq!(one_s.bits(), 0x8000);
    // One tick is 30,517 ns (rounded down).
    let one_tick = Time::from_duration(0, 30_517);
    assert_eq!(one_tick.bits(), 1);
    // Just under a tick rounds down to zero.
    let sub_tick = Time::from_duration(0, 30_516);
    assert_eq!(sub_tick.bits(), 0);
    // And back again.
    assert_eq!(one_s.to_duration(), (1, 0));
    assert_eq!(Time::from_bits(0x8000 + 1).to_duration(), (1, 30_517));
}
