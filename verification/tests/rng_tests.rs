use vectorcade::{GameRng, GameRngExt, Xorshift64};

#[test]
fn deterministic() {
    let mut rng1 = Xorshift64::new(42);
    let mut rng2 = Xorshift64::new(42);

    for _ in 0..100 {
        assert_eq!(rng1.next_u64(), rng2.next_u64());
    }
}

#[test]
fn range_i32_bounds() {
    let mut rng = Xorshift64::new(456);
    for _ in 0..1000 {
        let v = rng.range_i32(0, 10);
        assert!(v >= 0 && v < 10);
    }
}

#[test]
fn pick_index_works() {
    let mut rng = Xorshift64::new(789);
    for _ in 0..100 {
        let idx = rng.pick_index(5).unwrap();
        assert!(idx < 5);
    }
    assert!(rng.pick_index(0).is_none());
}

#[test]
fn pick_ext_works() {
    let mut rng = Xorshift64::new(789);
    let items = [1, 2, 3, 4, 5];
    for _ in 0..100 {
        let picked = rng.pick(&items).unwrap();
        assert!(items.contains(picked));
    }
}

#[test]
fn zero_seed_is_replaced() {
    let mut z = Xorshift64::new(0);
    let mut r = Xorshift64::new(0xDEAD_BEEF_CAFE_BABE);
    for _ in 0..10 {
        assert_eq!(z.next_u64(), r.next_u64());
    }
}

#[test]
fn next_u32_is_low_word_of_step() {
    let mut a = Xorshift64::new(7);
    let mut b = Xorshift64::new(7);
    assert_eq!(a.next_u64() as u32, b.next_u32());
}

#[test]
fn next_unit_bits_below_mantissa_range() {
    let mut rng = Xorshift64::new(2024);
    for _ in 0..1000 {
        assert!(rng.next_unit_bits() < 0x0080_0000);
    }
}

#[test]
fn range_i32_inverted_range_degrades_to_lo() {
    let mut rng = Xorshift64::new(5);
    assert_eq!(rng.range_i32(5, -5), 5);
    assert_eq!(rng.range_i32(3, 3), 3);
}

#[test]
fn pick_empty_slice_is_none() {
    let mut rng = Xorshift64::new(5);
    let items: [u8; 0] = [];
    assert!(rng.pick(&items).is_none());
}

#[test]
fn default_matches_default_seed() {
    let mut a = Xorshift64::default();
    let mut b = Xorshift64::default_seed();
    assert_eq!(a.next_u64(), b.next_u64());
}

#[test]
fn derived_draws_follow_the_fixed_formulas() {
    // Observe the raw draw with a twin generator, then check that each
    // derived draw applies its documented formula to it.
    let mut probe = Xorshift64::new(1234);
    let u = probe.next_u32();

    let mut r1 = Xorshift64::new(1234);
    assert_eq!(r1.range_i32(10, 20), 10 + (u % 10) as i32);

    let mut r2 = Xorshift64::new(1234);
    assert_eq!(r2.pick_index(7), Some(u as usize % 7));

    let mut r3 = Xorshift64::new(1234);
    assert_eq!(r3.next_unit_bits(), u >> 9);
}

#[test]
fn draw_formula_helpers_are_exact() {
    assert_eq!(
        vectorcade::rng::combine_draws(0xAABB_CCDD, 0x1122_3344),
        0xAABB_CCDD_1122_3344
    );
    assert_eq!(vectorcade::rng::bucket_i32(103, -5, 5), -2);
    assert_eq!(vectorcade::rng::index_for(103, 7), 5);
    assert_eq!(vectorcade::rng::unit_bits_of(0xFFFF_FFFF), 0x007F_FFFF);
    assert_eq!(vectorcade::rng::unit_bits_of(0x0000_01FF), 0);
}

struct CountingRng {
    n: u32,
}

impl GameRng for CountingRng {
    fn next_u32(&mut self) -> u32 {
        self.n += 1;
        self.n
    }
}

#[test]
fn default_next_u64_concatenates_two_draws() {
    let mut rng = CountingRng { n: 0 };
    assert_eq!(rng.next_u64(), (1u64 << 32) | 2);
    assert_eq!(rng.next_u64(), (3u64 << 32) | 4);
}

#[test]
fn degenerate_inputs_consume_no_draw() {
    let mut a = Xorshift64::new(99);
    let mut b = Xorshift64::new(99);
    assert_eq!(a.range_i32(5, -5), 5);
    assert_eq!(a.pick_index(0), None);
    let empty: [u8; 0] = [];
    assert!(a.pick(&empty).is_none());
    // Still in lockstep: none of the calls above drew from the stream.
    assert_eq!(a.next_u64(), b.next_u64());
}
