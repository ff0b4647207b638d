use roco_battle::single;
use roco_battle::single::Single;
use roco_battle::stats::{lifesteal_heal, part_of_hp};
use roco_battle::team::{train_hp, train_stat};

fn to_f32(x: Single) -> f32 {
    ((x.mantissa as f64) * 2f64.powi(x.exponent)) as f32
}

struct Lcg(u64);

impl Lcg {
    fn next(&mut self) -> u64 {
        self.0 = self.0.wrapping_mul(6364136223846793005).wrapping_add(1442695040888963407);
        self.0 >> 16
    }

    /// A positive integer of random size.
    fn positive(&mut self) -> i32 {
        let bits = 1 + (self.next() % 31) as u32;
        (self.next() % (1u64 << bits)).max(1).min(i32::MAX as u64) as i32
    }
}

#[test]
fn integers_round_to_the_nearest_single() {
    let mut r = Lcg(1);
    for n in [0, 1, 2, 16777215, 16777216, 16777217, 16777218, 16777219, i32::MAX, i32::MAX - 64] {
        assert_eq!(to_f32(single::whole(n)), n as f32);
    }
    for _ in 0..20000 {
        let n = r.positive();
        assert_eq!(to_f32(single::whole(n)), n as f32);
    }
}

#[test]
fn decimals_are_the_nearest_singles() {
    let table: [(u64, u64, f32); 16] = [
        (17, 10, 1.7), (141, 2, 70.5), (11, 10, 1.1), (21, 2, 10.5), (9, 10, 0.9), (8, 10, 0.8),
        (6, 10, 0.6), (15, 10, 1.5), (10, 10, 1.0), (3, 100, 0.03), (2, 100, 0.02), (6, 100, 0.06),
        (5, 100, 0.05), (2, 10, 0.2), (25, 100, 0.25), (300, 100, 3.0),
    ];
    for (n, d, f) in table {
        assert_eq!(to_f32(single::decimal(n, d)), f);
    }
}

#[test]
fn products_quotients_and_sums_round_to_the_nearest_single() {
    let mut r = Lcg(2);
    for _ in 0..20000 {
        let (a, b) = (r.positive(), r.positive());
        let (x, y) = (single::whole(a), single::whole(b));
        let (fx, fy) = (a as f32, b as f32);
        assert_eq!(to_f32(single::product(x, y)), fx * fy);
        assert_eq!(to_f32(single::quotient(x, y)), fx / fy);
        assert_eq!(to_f32(single::sum(x, y)), fx + fy);
    }
    let z = single::whole(0);
    assert_eq!(to_f32(single::product(z, single::whole(7))), 0.0);
    assert_eq!(to_f32(single::quotient(z, single::whole(7))), 0.0);
}

#[test]
fn integer_parts_saturate() {
    let mut r = Lcg(3);
    for _ in 0..20000 {
        let (a, b, c) = (r.positive(), r.positive(), r.positive());
        let x = single::quotient(single::product(single::whole(a), single::whole(b)), single::whole(c));
        let f = (a as f32) * (b as f32) / (c as f32);
        assert_eq!(single::floor(x), f.floor() as i32);
        assert_eq!(single::round(x), f.round() as i32);
        assert_eq!(to_f32(single::raise_to_one(x)), f.max(1.0));
        assert_eq!(to_f32(single::lower_to_one(x)), f.min(1.0));
    }
    let half = single::decimal(1, 2);
    assert_eq!(single::floor(half), 0);
    assert_eq!(single::round(half), 1);
    let big = single::product(single::whole(i32::MAX), single::whole(2));
    assert_eq!(single::floor(big), i32::MAX);
    assert_eq!(single::round(big), i32::MAX);
}

fn hp_in_floats(base: i32) -> i32 {
    let hp = (base as f32 * 1.7 + 70.5).floor() as i32;
    (hp as f32 * 1.0).floor() as i32 + 100
}

fn stat_in_floats(base: i32) -> i32 {
    let stat = (base as f32 * 1.1 + 10.5).floor() as i32;
    (stat as f32 * 1.0).floor() as i32 + 50
}

#[test]
fn stats_grow_from_base_values() {
    assert_eq!(train_hp(100, 0), Ok(340));
    assert_eq!(train_stat(100, 0), Ok(170));
    for base in 1..4000 {
        assert_eq!(train_hp(base, 0), Ok(hp_in_floats(base)));
        assert_eq!(train_stat(base, 0), Ok(stat_in_floats(base)));
    }
    let mut r = Lcg(4);
    for _ in 0..5000 {
        let base = r.positive() / 4 + 1;
        assert_eq!(train_hp(base, 0), Ok(hp_in_floats(base)));
        assert_eq!(train_stat(base, 0), Ok(stat_in_floats(base)));
    }
    assert!(train_hp(i32::MAX, 0).is_err());
    assert!(train_stat(i32::MAX, 0).is_err());
    // the least base value is one
    assert_eq!(train_hp(-7, 0), Ok(hp_in_floats(1)));
    assert_eq!(train_stat(0, 28), Ok(stat_in_floats(1) + 28));
}

#[test]
fn parts_of_health_are_cut_to_integers() {
    for hp in 1..3000 {
        assert_eq!(part_of_hp(hp, 6), (hp as f32 * 0.06).floor() as i32);
        assert_eq!(part_of_hp(hp, 5), (hp as f32 * 0.05).floor() as i32);
        assert_eq!(part_of_hp(hp, 3), (hp as f32 * 0.03).floor() as i32);
        assert_eq!(part_of_hp(hp, 2), (hp as f32 * 0.02).floor() as i32);
    }
}

#[test]
fn lifesteal_is_capped_at_the_damage() {
    for times in 1..8 {
        let mut share = 0.2 * times as f32;
        if share > 1.0 {
            share = 1.0;
        }
        for dmg in 0..500 {
            assert_eq!(lifesteal_heal(dmg, times), (dmg as f32 * share).round() as i32);
        }
    }
}
