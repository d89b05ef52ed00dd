use dodge_shoot::rng::Rng;

#[test]
fn first_words_from_seed_one() {
    let mut rng = Rng::new(1);
    assert_eq!(rng.next_u32(), 270369);
    assert_eq!(rng.next_u32(), 67634689);
    assert_eq!(rng.next_u32(), 2647435461);
    assert_eq!(rng.next_u32(), 307599695);
    assert_eq!(rng.next_u32(), 2398689233);
    assert_eq!(rng.state, 2398689233);
}

#[test]
fn first_words_from_boot_seed() {
    let mut rng = Rng::new(12345);
    assert_eq!(rng.next_u32(), 3336926330);
    assert_eq!(rng.next_u32(), 1697253807);
    assert_eq!(rng.next_u32(), 2816511904);
}

#[test]
fn step_from_all_ones() {
    let mut rng = Rng::new(u32::MAX);
    assert_eq!(rng.next_u32(), 253983);
}

#[test]
fn zero_seed_is_seed_one() {
    let mut zero = Rng::new(0);
    let mut one = Rng::new(1);
    assert_eq!(zero.state, 1);
    assert_eq!(zero, one);
    for _ in 0..1000 {
        assert_eq!(zero.next_u32(), one.next_u32());
    }
}

#[test]
fn same_seed_same_sequence() {
    let mut a = Rng::new(0xdead_beef);
    let mut b = Rng::new(0xdead_beef);
    for _ in 0..1000 {
        assert_eq!(a.next_u32(), b.next_u32());
    }
    let mut c = Rng::new(0xdead_beef);
    let mut d = Rng::new(0xdead_bef0);
    let differ = (0..16).any(|_| c.next_u32() != d.next_u32());
    assert!(differ);
}

#[test]
fn state_never_reaches_zero() {
    let mut rng = Rng::new(7);
    for _ in 0..100_000 {
        assert_ne!(rng.next_u32(), 0);
    }
}

#[test]
fn range_is_word_modulo_max() {
    let mut rng = Rng::new(12345);
    assert_eq!(rng.range(228), 182);
    assert_eq!(rng.range(100), 7);
    let mut plain = Rng::new(99);
    let mut ranged = Rng::new(99);
    for max in 1..200 {
        let word = plain.next_u32();
        assert_eq!(ranged.range(max), (word % max as u32) as i32);
        assert_eq!(plain.state, ranged.state);
    }
}

#[test]
fn range_stays_below_max() {
    let mut rng = Rng::new(2024);
    for max in [1, 2, 3, 5, 6, 7, 8, 10, 12, 100, 228, 230, i32::MAX] {
        for _ in 0..500 {
            let r = rng.range(max);
            assert!(0 <= r && r < max);
        }
    }
}

#[test]
fn range_of_one_is_zero() {
    let mut rng = Rng::new(5);
    for _ in 0..50 {
        assert_eq!(rng.range(1), 0);
    }
}
