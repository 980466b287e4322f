use ris_jobs::rng::{Rng, Seed};

const FIXED_SEED: [u8; 16] = [
    198, 237, 209, 128, 44, 192, 237, 30, 31, 198, 222, 241, 131, 161, 105, 206,
];

#[test]
fn next_u_matches_the_reference_stream() {
    let mut rng = Rng::new(Seed(FIXED_SEED));
    let expected = [
        1358900400u32,
        1006870003,
        3180067694,
        3477618905,
        3145983227,
        1774255138,
    ];
    for value in expected {
        assert_eq!(rng.next_u(), value);
    }
}

#[test]
fn next_b_takes_the_low_bit() {
    let mut rng = Rng::new(Seed(FIXED_SEED));
    let expected = [false, true, false, true, true, false];
    for value in expected {
        assert_eq!(rng.next_b(), value);
    }
}

#[test]
fn same_seed_reproduces_the_stream() {
    let mut a = Rng::new(Seed(FIXED_SEED));
    let mut b = Rng::new(Seed(FIXED_SEED));
    for _ in 0..32 {
        assert_eq!(a.next_u(), b.next_u());
    }
}

#[test]
fn range_i_scales_the_draw() {
    let mut rng = Rng::new(Seed(FIXED_SEED));
    assert_eq!(rng.range_i(0, 100), 99);
    let mut rng = Rng::new(Seed(FIXED_SEED));
    assert_eq!(rng.range_i(10, 20), 19);
    let mut rng = Rng::new(Seed(FIXED_SEED));
    assert_eq!(rng.range_i(-50, 50), 49);
}

#[test]
fn range_i_stays_in_range() {
    let mut rng = Rng::new(Seed(FIXED_SEED));
    for _ in 0..200 {
        let drawn = rng.range_i(-7, 9);
        assert!((-7..9).contains(&drawn));
    }
}

#[test]
fn range_i_degenerate_ranges() {
    let mut rng = Rng::new(Seed(FIXED_SEED));
    assert_eq!(rng.range_i(4, 4), 4);
    assert_eq!(rng.range_i(9, 2), i32::MIN);
    // Neither degenerate call consumed a draw.
    assert_eq!(rng.next_u(), 1358900400);
}

#[test]
fn seed_keeps_its_bytes() {
    let rng = Rng::new(Seed(FIXED_SEED));
    assert_eq!(rng.seed().0, FIXED_SEED);
}

#[test]
fn from_millis_encodes_little_endian() {
    let seed = Seed::from_millis(1234567890123);
    assert_eq!(
        seed.0,
        [203, 4, 251, 113, 31, 1, 0, 0, 0, 0, 0, 0, 0, 0, 0, 0]
    );
}

#[test]
fn seed_from_clock_succeeds() {
    assert!(Seed::new().is_ok());
}
