use perfect_chef::flavor::{palate_value_from_roll, token_count, Flavor};
use perfect_chef::taste::{Preference, Taste};

fn flavor(sweet: i64, sour: i64, salty: i64, savory: i64, spicy: i64) -> Flavor {
    Flavor {
        sweet,
        sour,
        salty,
        bitter: 0,
        savory,
        spicy,
        cool: 0,
        dry: 0,
    }
}

#[test]
fn add_is_pointwise_with_zero_default() {
    let a = flavor(1000, 0, 2000, 0, 333);
    let b = flavor(0, 500, 1000, 3000, 0);
    let s = a.add(b);
    assert_eq!(s.sweet, 1000);
    assert_eq!(s.sour, 500);
    assert_eq!(s.salty, 3000);
    assert_eq!(s.bitter, 0);
    assert_eq!(s.savory, 3000);
    assert_eq!(s.spicy, 333);
    assert_eq!(s.cool, 0);
    assert_eq!(s.dry, 0);
}

#[test]
fn add_is_commutative() {
    let a = flavor(1000, -1000, 2000, 0, 333);
    let b = flavor(7, 500, -1000, 3000, 0);
    assert_eq!(a.add(b), b.add(a));
}

#[test]
fn add_is_associative() {
    let a = flavor(1000, -1000, 2000, 0, 333);
    let b = flavor(7, 500, -1000, 3000, 0);
    let c = flavor(-5, 11, 13, -17, 19);
    assert_eq!(a.add(b).add(c), a.add(b.add(c)));
}

#[test]
fn default_flavor_is_zero() {
    let z = Flavor::default();
    for i in 0..8u32 {
        assert_eq!(z.get(Taste::from_u32(i)), 0);
    }
}

#[test]
fn palate_roll_mapping_is_exact() {
    assert_eq!(palate_value_from_roll(0), 0);
    assert_eq!(palate_value_from_roll(9), 0);
    assert_eq!(palate_value_from_roll(10), -1000);
    assert_eq!(palate_value_from_roll(19), -1000);
    assert_eq!(palate_value_from_roll(20), 2000);
    assert_eq!(palate_value_from_roll(39), 2000);
    assert_eq!(palate_value_from_roll(40), 1000);
    assert_eq!(palate_value_from_roll(99), 1000);
}

#[test]
fn generated_palates_use_the_four_values() {
    for _ in 0..200 {
        let p = Flavor::gen();
        for i in 0..8u32 {
            let v = p.get(Taste::from_u32(i));
            assert!(v == 0 || v == -1000 || v == 1000 || v == 2000, "bad sample {}", v);
        }
    }
}

#[test]
fn generated_palates_follow_the_documented_skew() {
    let mut zero = 0u64;
    let mut dislike = 0u64;
    let mut like = 0u64;
    let mut normal = 0u64;
    let rounds = 20_000u64;
    for _ in 0..rounds {
        let p = Flavor::gen();
        for i in 0..8u32 {
            match p.get(Taste::from_u32(i)) {
                0 => zero += 1,
                -1000 => dislike += 1,
                2000 => like += 1,
                1000 => normal += 1,
                v => panic!("bad sample {}", v),
            }
        }
    }
    let total = (rounds * 8) as f64;
    let frac = |n: u64| n as f64 / total;
    assert!((frac(zero) - 0.10).abs() < 0.02, "zero {}", frac(zero));
    assert!((frac(dislike) - 0.10).abs() < 0.02, "dislike {}", frac(dislike));
    assert!((frac(like) - 0.20).abs() < 0.02, "like {}", frac(like));
    assert!((frac(normal) - 0.60).abs() < 0.02, "normal {}", frac(normal));
}

#[test]
fn token_counts_take_the_integer_part() {
    assert_eq!(token_count(333), 0);
    assert_eq!(token_count(999), 0);
    assert_eq!(token_count(1000), 1);
    assert_eq!(token_count(2500), 2);
    assert_eq!(token_count(3000), 3);
    assert_eq!(token_count(0), 0);
    assert_eq!(token_count(-1000), 0);
}

#[test]
fn preference_boundaries() {
    assert_eq!(Preference::from_milli(-1), Preference::Dislike);
    assert_eq!(Preference::from_milli(0), Preference::Resist);
    assert_eq!(Preference::from_milli(1), Preference::Normal);
    assert_eq!(Preference::from_milli(1000), Preference::Normal);
    assert_eq!(Preference::from_milli(1001), Preference::Like);
    assert_eq!(Preference::from_milli(2000), Preference::Like);
}

#[test]
fn taste_round_trip_and_names() {
    let names = ["Sweet", "Sour", "Salty", "Bitter", "Savory", "Spicy", "Cool", "Dry"];
    for i in 0..8u32 {
        let t = Taste::from_u32(i);
        assert_eq!(t.as_str(), names[i as usize]);
    }
    assert_eq!(Taste::from_u32(4), Taste::Savory);
}
