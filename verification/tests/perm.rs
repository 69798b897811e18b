use terrain_core::perm::PermTable;
use terrain_core::rng::XorShift64;

#[test]
fn xorshift_first_draw_from_one() {
    // 1 -> 1 ^ (1 << 13) = 0x2001; 0x2001 ^ (0x2001 >> 7) = 0x2041;
    // 0x2041 ^ (0x2041 << 17) = 0x4082_2041
    let mut rng = XorShift64::new(1, 0);
    assert_eq!(rng.next_u64(), 0x4082_2041);
}

#[test]
fn xorshift_zero_state_stays_zero() {
    let mut rng = XorShift64::new(0xCAFE, 0xCAFE);
    assert_eq!(rng.next_u64(), 0);
    assert_eq!(rng.next_byte(), 0);
}

#[test]
fn xorshift_byte_is_low_byte_of_state() {
    let mut a = XorShift64::new(1234, 0xDEADBEEFCAFEBABE);
    let mut b = XorShift64::new(1234, 0xDEADBEEFCAFEBABE);
    for _ in 0..100 {
        let word = a.next_u64();
        assert_eq!(b.next_byte(), (word & 0xFF) as u8);
    }
}

#[test]
fn table_is_permutation_written_twice() {
    for seed in [0u64, 1, 7, 1234, 9999, u64::MAX] {
        let table = PermTable::new(seed, 0xDEADBEEFCAFEBABE);
        let mut seen = [0usize; 256];
        for i in 0..256 {
            seen[table.get(i) as usize] += 1;
            assert_eq!(table.get(i), table.get(i + 256));
        }
        assert!(seen.iter().all(|&n| n == 1));
    }
}

#[test]
fn table_for_zero_stream_is_rotation() {
    // With seed == salt the stream is stuck at zero, every partner is 0, and
    // the shuffle swaps position i with position 0 for i = 255 down to 1.
    let table = PermTable::new(42, 42);
    assert_eq!(table.get(0), 1);
    assert_eq!(table.get(1), 2);
    assert_eq!(table.get(254), 255);
    assert_eq!(table.get(255), 0);
}

#[test]
fn table_depends_on_salt() {
    let a = PermTable::new(5, 0xDEADBEEFCAFEBABE);
    let b = PermTable::new(5, 0xAABBCCDDEEFF1122);
    assert!((0..256).any(|i| a.get(i) != b.get(i)));
}

#[test]
fn table_is_reproducible() {
    let a = PermTable::new(2025, 0x123456789ABCDEF0);
    let b = PermTable::new(2025, 0x123456789ABCDEF0);
    for i in 0..512 {
        assert_eq!(a.get(i), b.get(i));
    }
}
