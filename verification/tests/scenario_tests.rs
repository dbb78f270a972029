use aim_trainer::movement::Vec3d;
use aim_trainer::scenario::{
    dyn_clicking, evasive_switching, get_scenarios, load_all_scenarios, precise_tracking,
    reactive_tracking, speed_switching, static_clicking, AimingType, RoomType, Scenario, TargetShape,
    TargetType,
};
use aim_trainer::session::Gun;

fn names(list: &Vec<Scenario>) -> Vec<&str> {
    list.iter().map(|s| s.name.as_str()).collect()
}

fn at(x: i64, y: i64, z: i64) -> Vec3d {
    Vec3d { x, y, z }
}

#[test]
fn static_clicking_scenarios() {
    let list = static_clicking(5);
    assert_eq!(
        names(&list),
        vec![
            "Jumbo Tile Frenzy",
            "Jumbo Tile Frenzy Flat",
            "Mini Tile Frenzy",
            "1 Wall 6 Targets TE",
            "1 Wall 6 Targets small",
            "1 Wall 6 Targets extra small",
            "Wide Wall 6 Targets small",
            "Pure Horizontal Click",
            "Pure Vertical Click",
        ]
    );
    assert!(list.iter().all(|s| s.aiming_type == AimingType::StaticClicking));
    assert!(list.iter().all(|s| s.gun == Gun::pistol(5)));
    assert!(list.iter().all(|s| s.t_settings.movement.is_none()));
}

#[test]
fn the_other_categories() {
    assert_eq!(
        names(&dyn_clicking(0)),
        vec![
            "1 Wall 5 Targets Pasu",
            "1 Wall 5 Targets Pasu Small",
            "Floating Heads",
            "Floating Heads Small"
        ]
    );
    assert_eq!(
        names(&reactive_tracking(0)),
        vec!["Air Invincible", "Close Strafes Invincible", "Raw Control Invincible"]
    );
    assert_eq!(names(&precise_tracking(0)), vec!["Smooth Strafes 90 Invincible"]);
    assert_eq!(names(&speed_switching(0)), vec!["Wide Wall 6 Targets small TS"]);
    assert_eq!(names(&evasive_switching(0)), vec!["Control TS"]);
}

#[test]
fn jumbo_tile_frenzy_in_full() {
    let s = Scenario::jumbo_tf(77);
    assert_eq!(s.name, "Jumbo Tile Frenzy");
    assert_eq!(s.aiming_type, AimingType::StaticClicking);
    assert_eq!(s.duration_secs, 30);
    assert_eq!(s.player_spawn, at(0, 1000, -4000));
    assert_eq!(s.gun, Gun { automatic: false, fire_rate_ms: 50, last_shot: 77 });
    assert!(!s.allow_movement);
    assert_eq!(s.room_type, RoomType::Cube);
    assert_eq!(s.room_radius, 5000);
    assert_eq!(s.t_settings.shape, TargetShape::Block);
    assert_eq!(s.t_settings.spawn, (at(4000, 4000, 4000), at(-4000, -4000, 4000)));
    assert_eq!(s.t_settings.count, 3);
    assert_eq!(s.t_settings.rad, 900);
    assert_eq!(s.t_settings.hp, 1);
    assert!(s.t_settings.movement.is_none());
}

#[test]
fn smooth_strafes_in_full() {
    let s = Scenario::smooth_strafes_invincible(1);
    assert_eq!(s.name, "Smooth Strafes 90 Invincible");
    assert_eq!(s.aiming_type, AimingType::PreciseTracking);
    assert_eq!(s.duration_secs, 60);
    assert_eq!(s.player_spawn, at(0, -3000, 0));
    assert_eq!(s.gun, Gun { automatic: true, fire_rate_ms: 10, last_shot: 1 });
    assert!(s.allow_movement);
    assert_eq!((s.room_type, s.room_radius), (RoomType::Cube, 10000));
    assert_eq!(s.t_settings.shape, TargetShape::Bean);
    assert_eq!(s.t_settings.spawn, (at(0, 0, 9000), at(0, 0, 9000)));
    assert_eq!((s.t_settings.count, s.t_settings.rad, s.t_settings.hp), (1, 400, 99999));
    let m = s.t_settings.movement.unwrap();
    assert_eq!(m.mv_bounds, (at(9000, -4000, 9000), at(-9000, -4000, 9000)));
    assert_eq!((m.player_dist_r, m.frequency, m.p_change_dir), (7000, 20, 2000));
    assert_eq!(m.vel_bounds, (at(4000, 0, 4000), at(6000, 0, 6000)));
}

#[test]
fn floating_heads_move_slowly() {
    let s = Scenario::floating_heads_small(0);
    assert_eq!(s.t_settings.rad, 30);
    let m = s.t_settings.movement.unwrap();
    assert_eq!((m.frequency, m.p_change_dir), (100, 500));
    assert_eq!(m.vel_bounds, (at(600, 100, 0), at(800, 100, 0)));
    let s = Scenario::control_ts(0);
    assert_eq!((s.room_type, s.room_radius, s.t_settings.hp), (RoomType::Cone, 10000, 40));
    let m = s.t_settings.movement.unwrap();
    assert_eq!(m.vel_bounds, (at(2000, 1000, 200), at(2000, 1000, 500)));
    let s = Scenario::air_invincible(0);
    assert_eq!((s.room_type, s.room_radius), (RoomType::Octagon, 5000));
}

#[test]
fn all_scenarios_category_by_category() {
    let all = load_all_scenarios(3);
    assert_eq!(all.len(), 19);
    let mut expect: Vec<String> = Vec::new();
    for list in [
        static_clicking(3),
        dyn_clicking(3),
        reactive_tracking(3),
        precise_tracking(3),
        speed_switching(3),
        evasive_switching(3),
    ] {
        expect.extend(list.into_iter().map(|s| s.name));
    }
    let got: Vec<String> = all.iter().map(|s| s.name.clone()).collect();
    assert_eq!(got, expect);
    assert_eq!(all[18].name, "Control TS");
    assert_eq!(all[9].aiming_type, AimingType::DynamicClicking);
}

#[test]
fn every_scenario_can_be_played() {
    for s in load_all_scenarios(0).iter() {
        assert!(s.duration_secs > 0);
        assert!(s.room_radius > 0);
        assert!(s.t_settings.count >= 1 && s.t_settings.hp >= 1 && s.t_settings.rad > 0);
        if s.room_type == RoomType::Cube {
            let p = s.player_spawn;
            assert!(p.x.abs() < s.room_radius && p.y.abs() < s.room_radius && p.z.abs() < s.room_radius);
        }
        if let Some(m) = s.t_settings.movement {
            assert!(m.frequency > 0 && m.p_change_dir >= 0 && m.p_change_dir <= 100_000);
            assert!(0 <= m.vel_bounds.0.x && m.vel_bounds.0.x <= m.vel_bounds.1.x);
            assert!(0 <= m.vel_bounds.0.y && m.vel_bounds.0.y <= m.vel_bounds.1.y);
            assert!(0 <= m.vel_bounds.0.z && m.vel_bounds.0.z <= m.vel_bounds.1.z);
        }
    }
}

#[test]
fn scenarios_by_menu_entry() {
    assert_eq!(get_scenarios(0, 0).len(), 19);
    assert_eq!(get_scenarios(7, 0).len(), 19);
    let counts: Vec<usize> = (1..=6).map(|i| get_scenarios(i, 0).len()).collect();
    assert_eq!(counts, vec![9, 4, 3, 1, 1, 1]);
    assert!(get_scenarios(3, 0).iter().all(|s| s.aiming_type == AimingType::ReactiveTracking));
    assert_eq!(names(&get_scenarios(5, 0)), vec!["Wide Wall 6 Targets small TS"]);
}

#[test]
fn target_types_under_their_other_names() {
    assert_eq!(TargetType::Square.shape(), TargetShape::Block);
    assert_eq!(TargetType::Sphere.shape(), TargetShape::Sphere);
    assert_eq!(TargetType::Rectangle.shape(), TargetShape::Square);
}
