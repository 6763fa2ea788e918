use reveal_engine::flake::{
    compose_flake, epoch_timestamp, flake_from_clock, FlakeError, FlakeGenerator, DEFAULT_EPOCH,
};
use reveal_engine::idmap::Id;

#[test]
fn flake_is_made_of_timestamp_node_and_sequence() {
    assert_eq!(compose_flake(0, 0, 0), 0);
    assert_eq!(compose_flake(1, 0, 0), 1 << 22);
    assert_eq!(compose_flake(0, 1, 0), 1 << 12);
    assert_eq!(compose_flake(0, 0, 4095), 4095);
    assert_eq!(compose_flake(0, 0, 4096), 0);
    assert_eq!(compose_flake(5, 1, 7), (5 << 22) | (1 << 12) | 7);
}

#[test]
fn timestamp_counts_milliseconds_since_the_epoch() {
    assert_eq!(epoch_timestamp(DEFAULT_EPOCH, 0), Ok(0));
    assert_eq!(epoch_timestamp(DEFAULT_EPOCH + 2, 345_999_999), Ok(2345));
    assert_eq!(epoch_timestamp(DEFAULT_EPOCH, 999_999), Ok(0));
    assert_eq!(epoch_timestamp(DEFAULT_EPOCH, 1_000_000), Ok(1));
}

#[test]
fn clock_before_the_epoch_is_an_error() {
    assert_eq!(epoch_timestamp(DEFAULT_EPOCH - 1, 0), Err(FlakeError::ClockBeforeEpoch));
    assert_eq!(epoch_timestamp(0, 0), Err(FlakeError::ClockBeforeEpoch));
    assert_eq!(flake_from_clock(DEFAULT_EPOCH - 1, 5, 3), Err(FlakeError::ClockBeforeEpoch));
}

#[test]
fn flake_from_clock_puts_the_parts_together() {
    assert_eq!(
        flake_from_clock(DEFAULT_EPOCH + 1, 500_000_000, 9),
        Ok((1500 << 22) | (1 << 12) | 9)
    );
}

#[test]
fn timestamp_wraps_for_a_clock_far_in_the_future() {
    let secs = u64::MAX;
    let expected = (secs - DEFAULT_EPOCH).wrapping_mul(1000).wrapping_add(7);
    assert_eq!(epoch_timestamp(secs, 7_000_000), Ok(expected));
}

#[test]
fn sequence_runs_from_0_to_4095_and_starts_again() {
    let mut generator = FlakeGenerator::new();
    assert!(!generator.is_pause_due());
    for expected in 0..4096u64 {
        assert_eq!(generator.next_seq(), expected);
    }
    assert!(generator.is_pause_due());
    assert_eq!(generator.next_seq(), 0);
    assert_eq!(generator.next_seq(), 1);
    generator.acknowledge_pause();
    assert!(!generator.is_pause_due());
    assert_eq!(generator.next_seq(), 2);
}

#[test]
fn new_flake_carries_node_and_sequence() {
    let mut generator = FlakeGenerator::new();
    let first = generator.new_flake().unwrap();
    let second = generator.new_flake().unwrap();
    assert_eq!(first & 0xFFF, 0);
    assert_eq!(second & 0xFFF, 1);
    assert_eq!((first >> 12) & 0x3FF, 1);
    assert_eq!((second >> 12) & 0x3FF, 1);
    assert!(second >> 22 >= first >> 22);
    assert!(first >> 22 > 0);
    assert_ne!(first, second);
}

#[test]
fn new_ids_differ() {
    let mut generator = FlakeGenerator::new();
    let a: Id<u8> = Id::new(&mut generator).unwrap();
    let b: Id<u8> = Id::new(&mut generator).unwrap();
    assert_ne!(a, b);
    assert_eq!(a, Id::from_raw(a.raw()));
    let copy = a;
    assert_eq!(copy.raw(), a.raw());
}
