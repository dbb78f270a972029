use aim_trainer::movement::{clamp_to_bounds, dyn_clamp_pos, new_direction, start_velocity, Vec3d};

#[test]
fn dyn_clamp_pos_inside_changes_nothing() {
    assert_eq!(dyn_clamp_pos(5, 3, 0, 10), (5, 3));
    assert_eq!(dyn_clamp_pos(5, -3, 10, 0), (5, -3));
    assert_eq!(dyn_clamp_pos(0, 3, 0, 10), (0, 3));
    assert_eq!(dyn_clamp_pos(10, 3, 0, 10), (10, 3));
}

#[test]
fn dyn_clamp_pos_outside_snaps_and_turns_round() {
    assert_eq!(dyn_clamp_pos(-1, 3, 0, 10), (0, -3));
    assert_eq!(dyn_clamp_pos(11, 3, 0, 10), (10, -3));
    assert_eq!(dyn_clamp_pos(11, -3, 0, 10), (10, 3));
    assert_eq!(dyn_clamp_pos(i64::MIN, 0, -4, 4), (-4, 0));
}

#[test]
fn dyn_clamp_pos_takes_bounds_in_either_order() {
    assert_eq!(dyn_clamp_pos(-1, 3, 10, 0), (0, -3));
    assert_eq!(dyn_clamp_pos(11, 3, 10, 0), (10, -3));
    assert_eq!(dyn_clamp_pos(4000, 2000, 4000, -4000), (4000, 2000));
    assert_eq!(dyn_clamp_pos(4001, 2000, 4000, -4000), (4000, -2000));
}

#[test]
fn dyn_clamp_pos_equal_bounds_pin_the_position() {
    assert_eq!(dyn_clamp_pos(7, 3, 4, 4), (4, 3));
    assert_eq!(dyn_clamp_pos(-7, -3, 4, 4), (4, -3));
    assert_eq!(dyn_clamp_pos(4, 0, 4, 4), (4, 0));
}

#[test]
fn dyn_clamp_pos_result_lies_within_the_bounds_for_all_small_inputs() {
    for pos in -6i64..=6 {
        for vel in -2i64..=2 {
            for a in -3i64..=3 {
                for b in -3i64..=3 {
                    let (p, v) = dyn_clamp_pos(pos, vel, a, b);
                    let lo = a.min(b);
                    let hi = a.max(b);
                    if a != b {
                        assert!(lo <= p && p <= hi);
                        if pos < lo || pos > hi {
                            assert_eq!(v, -vel);
                        } else {
                            assert_eq!((p, v), (pos, vel));
                        }
                    } else {
                        assert_eq!((p, v), (a, vel));
                    }
                }
            }
        }
    }
}

#[test]
fn clamp_to_bounds_works_axis_by_axis() {
    let pos = Vec3d { x: 7, y: 0, z: -9 };
    let vel = Vec3d { x: 1, y: 2, z: -3 };
    let a = Vec3d { x: 4, y: -2, z: 3 };
    let b = Vec3d { x: -4, y: -2, z: -3 };
    let (p, v) = clamp_to_bounds(pos, vel, a, b);
    assert_eq!(p, Vec3d { x: 4, y: -2, z: -3 });
    assert_eq!(v, Vec3d { x: -1, y: 2, z: 3 });
}

#[test]
fn new_direction_reverses_to_the_bound_on_the_other_side() {
    assert_eq!(new_direction(5, true, 5, 2, 9), -2);
    assert_eq!(new_direction(-5, true, -5, 2, 9), 2);
    assert_eq!(new_direction(0, true, 0, 2, 9), 2);
}

#[test]
fn new_direction_grows_and_clamps() {
    assert_eq!(new_direction(5, false, 6, 2, 9), 6);
    assert_eq!(new_direction(5, false, 10, 2, 9), 9);
    assert_eq!(new_direction(-5, false, -10, 2, 9), -9);
    assert_eq!(new_direction(-5, false, -6, 2, 9), -6);
    assert_eq!(new_direction(0, false, 0, 2, 0), 0);
    assert_eq!(new_direction(3, false, 4, 2, 0), 0);
}

#[test]
fn new_direction_walk_stays_within_the_bounds() {
    let min = 2000i64;
    let max = 3000i64;
    let mut velo = 2000i64;
    let mut seed = 12345u64;
    for _ in 0..10_000 {
        seed = seed.wrapping_mul(6364136223846793005).wrapping_add(1442695040888963407);
        let reverse = (seed >> 33) % 10 == 0;
        let grown = velo + velo / 100;
        velo = new_direction(velo, reverse, grown, min, max);
        assert!(-max <= velo && velo <= max);
    }
}

#[test]
fn new_direction_walk_recovers_from_a_start_outside_the_bounds() {
    let velo = new_direction(50_000, false, 50_500, 2000, 3000);
    assert_eq!(velo, 3000);
    let velo = new_direction(-50_000, false, -50_500, 2000, 3000);
    assert_eq!(velo, -3000);
}

#[test]
fn start_velocity_is_the_slowest_speed_either_way() {
    let min = Vec3d { x: 2000, y: 1000, z: 0 };
    assert_eq!(start_velocity(min, false, false, false), min);
    assert_eq!(start_velocity(min, true, false, true), Vec3d { x: -2000, y: 1000, z: 0 });
    assert_eq!(start_velocity(min, true, true, true), Vec3d { x: -2000, y: -1000, z: 0 });
}

#[test]
fn new_direction_on_keys_is_new_direction_on_numbers() {
    let key = |v: f32| aim_trainer::scalar::key_of_bits(v.to_bits());
    let unkey = |k: i64| f32::from_bits(aim_trainer::scalar::bits_of_key(k));
    let model = |velo: f32, reverse: bool, min: f32, max: f32| -> f32 {
        if velo > 0.0 {
            if reverse {
                -min
            } else {
                (velo + velo / 100.0).clamp(-max, max)
            }
        } else if reverse {
            min
        } else {
            (velo + velo / 100.0).clamp(-max, max)
        }
    };
    let speeds = [-5.5f32, -3.0, -2.0, -0.2, 0.0, 0.2, 2.0, 2.97, 3.0, 5.5];
    for velo in speeds.iter() {
        for reverse in [false, true] {
            for (min, max) in [(2.0f32, 3.0f32), (0.0, 0.0), (0.2, 0.5), (3.0, 5.0)] {
                let grown = velo + velo / 100.0;
                let got = new_direction(key(*velo), reverse, key(grown), key(min), key(max));
                assert_eq!(unkey(got), model(*velo, reverse, min, max));
            }
        }
    }
}
