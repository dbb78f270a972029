use aim_trainer::movement::dyn_clamp_pos;
use aim_trainer::scalar::{bits_of_key, depth_key, distance_key, is_number, key_of_bits, LARGEST_SIZE};

fn key(v: f32) -> i64 {
    key_of_bits(v.to_bits())
}

fn unkey(k: i64) -> f32 {
    f32::from_bits(bits_of_key(k))
}

fn samples() -> Vec<f32> {
    vec![
        f32::NEG_INFINITY,
        f32::MIN,
        -1.0e10,
        -4.0,
        -1.5,
        -1.0,
        -0.1,
        -f32::MIN_POSITIVE,
        -1.0e-45,
        0.0,
        1.0e-45,
        f32::MIN_POSITIVE,
        0.1,
        0.5,
        1.0,
        1.0000001,
        3.25,
        4.0,
        1.0e10,
        f32::MAX,
        f32::INFINITY,
    ]
}

#[test]
fn keys_of_some_patterns() {
    assert_eq!(key_of_bits(0), 0);
    assert_eq!(key_of_bits(0x8000_0000), 0);
    assert_eq!(key_of_bits(1), 1);
    assert_eq!(key_of_bits(0x8000_0001), -1);
    assert_eq!(key_of_bits(0x3f80_0000), 0x3f80_0000);
    assert_eq!(key_of_bits(0xbf80_0000), -0x3f80_0000);
    assert_eq!(key_of_bits(0xffff_ffff), -0x7fff_ffff);
    assert_eq!(key(1.0), 0x3f80_0000);
    assert_eq!(key(-1.0), -0x3f80_0000);
}

#[test]
fn patterns_of_some_keys() {
    assert_eq!(bits_of_key(0), 0);
    assert_eq!(bits_of_key(1), 1);
    assert_eq!(bits_of_key(-1), 0x8000_0001);
    assert_eq!(bits_of_key(0x7fff_ffff), 0x7fff_ffff);
    assert_eq!(bits_of_key(-0x7fff_ffff), 0xffff_ffff);
    assert_eq!(bits_of_key(-0x3f80_0000), (-1.0f32).to_bits());
}

#[test]
fn keys_order_as_the_numbers_do() {
    let list = samples();
    for a in list.iter() {
        for b in list.iter() {
            assert_eq!(a < b, key(*a) < key(*b));
            assert_eq!(a == b, key(*a) == key(*b));
        }
    }
    assert_eq!(key(-0.0), key(0.0));
}

#[test]
fn keys_turn_their_sign_with_the_number() {
    for v in samples() {
        assert_eq!(key(-v), -key(v));
    }
}

#[test]
fn keys_give_the_number_back() {
    for v in samples() {
        assert_eq!(unkey(key(v)), v);
        assert_eq!(unkey(key(v)).to_bits(), v.to_bits());
    }
    assert_eq!(unkey(key(-0.0)).to_bits(), 0);
}

#[test]
fn what_is_no_number() {
    assert_eq!(LARGEST_SIZE, f32::INFINITY.to_bits());
    assert!(is_number(f32::INFINITY.to_bits()));
    assert!(is_number(f32::NEG_INFINITY.to_bits()));
    assert!(is_number(0));
    assert!(!is_number(f32::NAN.to_bits()));
    assert!(!is_number(0x7f80_0001));
    assert!(!is_number(0xffff_ffff));
}

#[test]
fn distance_and_depth_keys() {
    assert_eq!(distance_key((0.25f32).to_bits()), key(0.25));
    assert_eq!(distance_key((-0.25f32).to_bits()), key(-0.25));
    assert!(distance_key((-0.0f32).to_bits()) >= 0);
    assert_eq!(distance_key(f32::NAN.to_bits()), -1);
    assert_eq!(depth_key((7.5f32).to_bits()), key(7.5));
    assert_eq!(depth_key(f32::NAN.to_bits()), i64::MAX);
    assert!(depth_key(f32::INFINITY.to_bits()) < i64::MAX);
}

#[test]
fn clamping_keys_is_clamping_numbers() {
    let model = |pos: f32, vel: f32, n1: f32, n2: f32| -> (f32, f32) {
        if n1 < n2 && (pos < n1 || pos > n2) {
            (pos.clamp(n1, n2), vel * -1.0)
        } else if n2 < n1 && (pos < n2 || pos > n1) {
            (pos.clamp(n2, n1), vel * -1.0)
        } else if n2 == n1 {
            (n1, vel)
        } else {
            (pos, vel)
        }
    };
    let values = [-9.5f32, -4.0, -0.25, 0.0, 0.25, 4.0, 9.5];
    for pos in values.iter() {
        for vel in values.iter() {
            for n1 in values.iter() {
                for n2 in values.iter() {
                    let (p, v) = dyn_clamp_pos(key(*pos), key(*vel), key(*n1), key(*n2));
                    assert_eq!((unkey(p), unkey(v)), model(*pos, *vel, *n1, *n2));
                }
            }
        }
    }
}
