use swap_lsh::sequence::generate_sequence;

#[test]
fn one_increment_lands_in_the_first_slot() {
    let r = generate_sequence(1);
    assert_eq!(r[0], 1);
    assert!(r[1..].iter().all(|&v| v == 0));
}

#[test]
fn five_increments_follow_the_window_walk() {
    // The window grows by one slot per sweep: the walk visits slot 0,
    // slots 0..=1, then slots 0..=2, spending five increments.
    let r = generate_sequence(5);
    assert_eq!(r[0], 3);
    assert_eq!(r[1], 2);
    assert_eq!(r[2], 0);
    assert!(r[3..].iter().all(|&v| v == 0));
}

#[test]
fn increments_are_conserved_for_small_runs() {
    for n in [1u32, 2, 10, 100, 1000] {
        let r = generate_sequence(n);
        let total: u64 = r.iter().map(|&v| v as u64).sum();
        assert_eq!(total, n as u64);
        assert!(r.iter().all(|&v| v <= n));
    }
}

#[test]
fn the_ramp_decreases_from_front_to_back() {
    let r = generate_sequence(10_000);
    assert!(r[0] >= r[100]);
    assert!(r[100] >= r[256]);
}
