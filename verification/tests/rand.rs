use freedpi::rand::conn::{splitmix64, RESEED_INTERVAL};
use freedpi::rand::split::top_up;
use freedpi::rand::{
    fill_random_bytes, gen_split_mask, lemire_debias, mask_to_positions, random_bytes,
    random_delay_us, random_grease, random_identification, random_padding_size, random_range,
    random_source_port, random_split_positions, random_split_size, random_ttl_offset, random_u32,
    random_u64, PerConnRng, Xoshiro256, GREASE_VALUES,
};

/// The generator in the state (1, 2, 3, 4), `n` draws later.
fn after(n: usize) -> Xoshiro256 {
    let mut rng = Xoshiro256 { s0: 1, s1: 2, s2: 3, s3: 4 };
    for _ in 0..n {
        rng.draw();
    }
    rng
}

#[test]
fn test_random_u64_nonzero() {
    let mut rng = Xoshiro256::new();
    let val = random_u64(&mut rng);
    let _ = val;
}

#[test]
fn test_random_range() {
    let mut rng = Xoshiro256::new();
    for _ in 0..1000 {
        let val = random_range(&mut rng, 5, 10);
        assert!(val >= 5 && val <= 10);
    }
}

#[test]
fn test_random_ttl_offset() {
    let mut rng = Xoshiro256::new();
    for _ in 0..50 {
        let ttl = random_ttl_offset(&mut rng);
        assert!(ttl >= 1 && ttl <= 5);
    }
}

#[test]
fn test_random_bytes_filled() {
    let mut rng = Xoshiro256::new();
    let bytes = random_bytes(&mut rng, 32);
    assert_eq!(bytes.len(), 32);
    assert!(bytes.iter().any(|&b| b != 0));
}

#[test]
fn test_fill_random_bytes() {
    let mut rng = Xoshiro256::new();
    let mut buf = [0u8; 100];
    fill_random_bytes(&mut rng, &mut buf);
    assert!(buf.iter().any(|&b| b != 0));
}

#[test]
fn test_perconnrng_basic() {
    let mut rng = PerConnRng::new(12345);
    let a = rng.next_u64();
    let b = rng.next_u64();
    assert_ne!(a, b);
}

#[test]
fn test_perconnrng_next_range() {
    let mut rng = PerConnRng::new(42);
    for _ in 0..100 {
        let val = rng.next_range(1, 10);
        assert!(val >= 1 && val <= 10);
    }
}

#[test]
fn test_perconnrng_fill_bytes() {
    let mut rng = PerConnRng::new(99);
    let mut buf = [0u8; 64];
    rng.fill_bytes(&mut buf);
    assert!(buf.iter().any(|&b| b != 0));
}

#[test]
fn test_perconnrng_grease() {
    let mut rng = PerConnRng::new(7);
    for _ in 0..50 {
        let g = rng.pick_grease();
        assert!(GREASE_VALUES.contains(&g));
    }
}

#[test]
fn test_perconnrng_reseed() {
    let mut rng = PerConnRng::new(12345);
    let mut last = rng.next_u64();
    for _ in 0..RESEED_INTERVAL {
        last = rng.next_u64();
    }
    let after_reseed = rng.next_u64();
    assert_ne!(last, after_reseed);
}

#[test]
fn test_cross_thread_independence() {
    let mut rng1 = Xoshiro256::new();
    let mut rng2 = Xoshiro256::new();
    let mut v1 = Vec::new();
    let mut v2 = Vec::new();
    for _ in 0..10 {
        v1.push(random_u64(&mut rng1));
        v2.push(random_u64(&mut rng2));
    }
    let matches = v1.iter().zip(v2.iter()).filter(|(a, b)| a == b).count();
    assert!(
        matches < v1.len() / 2,
        "Cross-thread sequences too similar: {}/{} matches",
        matches,
        v1.len()
    );
}

#[test]
fn test_random_grease() {
    let mut rng = Xoshiro256::new();
    for _ in 0..50 {
        let g = random_grease(&mut rng);
        assert!(GREASE_VALUES.contains(&g));
    }
}

#[test]
fn xoshiro_gives_its_known_sequence() {
    let mut rng = after(0);
    let expected: [u64; 10] = [
        41943041,
        58720359,
        3588806011781223,
        3591011842654386,
        9228616714210784205,
        9973669472204895162,
        14011001112246962877,
        12406186145184390807,
        15849039046786891736,
        10450023813501588000,
    ];
    for x in expected {
        assert_eq!(random_u64(&mut rng), x);
    }
}

#[test]
fn draws_become_what_is_asked_for() {
    assert_eq!(random_u32(&mut after(4)), 2148704769);
    assert_eq!(random_range(&mut after(8), 5, 10), 10);
    assert_eq!(random_range(&mut after(10), 5, 10), 7);
    assert_eq!(random_ttl_offset(&mut after(6)), 4);
    assert_eq!(random_split_size(&mut after(4)), 51);
    assert_eq!(random_delay_us(&mut after(5)), 5406);
    assert_eq!(random_padding_size(&mut after(8)), 443);
    assert_eq!(random_identification(&mut after(3)), 49665);
    assert_eq!(random_source_port(&mut after(11)), 59511);
    assert_eq!(random_grease(&mut after(6)), 0x7A7A);
    assert_eq!(gen_split_mask(&mut after(1)), 58720359);
}

#[test]
fn an_interval_of_one_number_takes_no_draw() {
    let mut rng = after(4);
    assert_eq!(random_range(&mut rng, 9, 9), 9);
    assert_eq!(random_range(&mut rng, 9, 3), 9);
    assert_eq!(random_u64(&mut rng), 9228616714210784205);
}

#[test]
fn scaling_covers_the_range_evenly() {
    assert_eq!(lemire_debias(0, 6), 0);
    assert_eq!(lemire_debias(u64::MAX, 6), 5);
    assert_eq!(lemire_debias(1 << 63, 6), 3);
    assert_eq!(lemire_debias(12345, 0), 0);
    assert_eq!(lemire_debias(u64::MAX, u64::MAX), u64::MAX - 1);
}

#[test]
fn bytes_are_the_little_endian_bytes_of_the_draws() {
    let mut rng = after(0);
    assert_eq!(
        random_bytes(&mut rng, 11),
        vec![1, 0, 128, 2, 0, 0, 0, 0, 103, 0, 128]
    );
    // Two draws were used, whatever was left of the second.
    assert_eq!(random_u64(&mut rng), 3588806011781223);
    assert_eq!(random_bytes(&mut rng, 0), Vec::<u8>::new());
    assert_eq!(random_u64(&mut rng), 3591011842654386);
}

#[test]
fn an_unseeded_generator_takes_a_seed() {
    let mut rng = Xoshiro256::new();
    assert_eq!((rng.s0, rng.s1, rng.s2, rng.s3), (0, 0, 0, 0));
    rng.seed_if_needed();
    assert!((rng.s0, rng.s1, rng.s2, rng.s3) != (0, 0, 0, 0));
}

#[test]
fn a_seed_of_zeros_is_replaced() {
    let rng = Xoshiro256::from_entropy(&[0u8; 32]);
    assert_eq!((rng.s0, rng.s1, rng.s2, rng.s3), (0xDEADBEEFCAFEBABE, 0, 0, 0));
    let mut entropy = [0u8; 32];
    entropy[8] = 2;
    entropy[31] = 1;
    let rng = Xoshiro256::from_entropy(&entropy);
    assert_eq!((rng.s0, rng.s1, rng.s2, rng.s3), (0, 2, 0, 1 << 56));
}

#[test]
fn mask_positions_are_its_set_bits() {
    assert_eq!(mask_to_positions(0, 7), Vec::<usize>::new());
    assert_eq!(mask_to_positions(0b1011, 7), vec![7, 8, 10]);
    assert_eq!(mask_to_positions(1 << 63 | 1, 100), vec![100, 163]);
    assert_eq!(mask_to_positions(u64::MAX, 0), (0..64).collect::<Vec<usize>>());
    // Bits that are not set do not matter at the end of the address space.
    assert_eq!(mask_to_positions(1, usize::MAX), vec![usize::MAX]);
}

#[test]
fn split_positions_come_from_the_mask_and_then_from_draws() {
    assert_eq!(
        random_split_positions(&mut after(0), 100, 40, 2),
        vec![100, 123, 125]
    );
    assert_eq!(
        random_split_positions(&mut after(0), 100, 40, 5),
        vec![100, 120, 121, 123, 125]
    );
    assert_eq!(
        random_split_positions(&mut after(0), 100, 20, 5),
        vec![100, 110, 113, 115, 117]
    );
    // No more positions than bytes.
    assert_eq!(random_split_positions(&mut after(0), 10, 3, 3), vec![10, 11, 12]);
    assert_eq!(random_split_positions(&mut after(0), 10, 3, 50), vec![10, 11, 12]);
    assert_eq!(random_split_positions(&mut after(0), 10, 0, 5), Vec::<usize>::new());
}

#[test]
fn positions_are_taken_in_order_once_the_picks_are_used_up() {
    let mut rng = after(0);
    let mut positions = vec![21, 23];
    top_up(&mut rng, &mut positions, 20, 8, 5, 0);
    assert_eq!(positions, vec![20, 21, 22, 23, 24]);
    assert_eq!(random_u64(&mut rng), 41943041);
}

#[test]
fn splitmix_gives_its_known_values() {
    assert_eq!(splitmix64(0), 0xE220A8397B1DCDAF);
}

#[test]
fn connection_generator_gives_its_sequence() {
    let mut rng = PerConnRng::from_entropy(12345, 1, 2);
    let expected: [u64; 6] = [
        0xe2fd00e6a7531882,
        0x65052c2907f04f21,
        0x743ab0db7774d62d,
        0xc57dc66959dc9b53,
        0xd6858f4f49712059,
        0x527c4c4673da34a8,
    ];
    for x in expected {
        assert_eq!(rng.next_u64(), x);
    }
}

#[test]
fn connection_draws_become_what_is_asked_for() {
    let fresh = PerConnRng::from_entropy(12345, 1, 2);
    let mut rng = fresh.clone();
    assert_eq!(rng.next_u32(), 3808231654);
    assert_eq!(rng.next_unbiased(7), 2);
    assert_eq!(rng.next_unbiased(0), 0);
    assert_eq!(rng.next_range(1, 10), 5);
    assert_eq!(rng.next_range(4, 4), 4);
    assert_eq!(rng.next_range(8, 2), 8);
    assert_eq!(rng.next_range(1, 10), 8);
    assert_eq!(rng.pick_grease(), 0xFAFA);

    // The interval of all numbers takes a draw as it is.
    let mut rng = fresh.clone();
    assert_eq!(rng.next_range(0, u64::MAX), 0xe2fd00e6a7531882);
    assert_eq!(rng.next_range(1, u64::MAX), 0x65052c2907f04f21);
    assert_eq!(rng.next_range(u64::MAX, 0), u64::MAX);

    let mut rng = fresh.clone();
    assert_eq!(rng.generate_grease_set(), (0x6A6A, 0x9A9A, 0xBABA, 0x9A9A));

    let mut rng = fresh.clone();
    let mut buf = [0u8; 10];
    rng.fill_bytes(&mut buf);
    assert_eq!(buf, [130, 24, 83, 167, 230, 0, 253, 226, 33, 79]);
    assert_eq!(rng.next_u64(), 0x743ab0db7774d62d);
}

#[test]
fn a_connection_generator_shows_only_its_counter() {
    let mut rng = PerConnRng::from_entropy(1, 2, 3);
    assert_eq!(rng.debug_string(), "PerConnRng { counter: 0 }");
    for _ in 0..120 {
        rng.next_u64();
    }
    assert_eq!(rng.debug_string(), "PerConnRng { counter: 120 }");
}

#[test]
fn reseeding_mixes_fresh_words_in() {
    let a = PerConnRng::from_entropy(5, 6, 7);
    let mut b = a.clone();
    b.reseed_with(0, 0);
    assert_eq!(a.clone().next_u64(), b.clone().next_u64());
    b.reseed_with(1, 0);
    assert_ne!(a.clone().next_u64(), b.next_u64());
}

#[test]
fn reseeds_come_from_outside() {
    let mut a = PerConnRng::from_entropy(5, 6, 7);
    let mut b = a.clone();
    for _ in 0..RESEED_INTERVAL - 1 {
        assert_eq!(a.next_u64(), b.next_u64());
    }
    assert_ne!(a.next_u64(), b.next_u64());
}

#[test]
fn grease_values_have_their_shape() {
    for g in GREASE_VALUES {
        assert_eq!(g & 0x0F0F, 0x0A0A);
        assert_eq!(g >> 8, g & 0xFF);
    }
}

#[test]
fn a_seeded_generator_stays_seeded() {
    let mut rng = Xoshiro256 { s0: 0, s1: 0, s2: 0, s3: 1 };
    for _ in 0..10000 {
        rng.draw();
        assert!((rng.s0, rng.s1, rng.s2, rng.s3) != (0, 0, 0, 0));
    }
}

#[test]
fn a_connection_generator_never_dries_up() {
    for id in 0..100 {
        let mut rng = PerConnRng::from_entropy(id, id, 0);
        let draws: Vec<u64> = (0..4).map(|_| rng.next_u64()).collect();
        assert!(draws.iter().any(|&x| x != 0));
    }
    // Words that cancel the state out are replaced.
    let seed = splitmix64(0);
    let mut rng = PerConnRng::from_entropy(0, 0, 0);
    rng.reseed_with(seed, 0);
    assert_eq!(rng.next_u64(), 0xDEADBEEFCAFEF00Du64.wrapping_mul(0x517CC1B727220A95));
}
