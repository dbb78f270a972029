//! The scenarios that can be played, and what they are made of.
//!
//! Lengths, speeds and times are whole thousandths: of a unit of length, of a unit
//! of length per second, of a second. Chances are thousandths of a percent.

use vstd::prelude::*;
use vstd::string::*;
use crate::mesh::{cube_room_faces, inside_cube, lemma_cube_room_seen_from_inside, turn};
use crate::movement::{lemma_walk_bounded, walked, Vec3d};
use crate::session::{laser_at, pistol_at, Gun};

verus! {

/// The skill that a scenario trains.
#[derive(Clone, Copy, Debug, PartialEq, Eq, Structural)]
pub enum AimingType {
    StaticClicking,
    DynamicClicking,
    ReactiveTracking,
    PreciseTracking,
    SpeedSwitching,
    EvasiveSwitching,
}

/// The shape of the room round the player.
#[derive(Clone, Copy, Debug, PartialEq, Eq, Structural)]
pub enum RoomType {
    Cube,
    Wall,
    Cone,
    Octagon,
}

/// The shape of a target.
#[derive(Clone, Copy, Debug, PartialEq, Eq, Structural)]
pub enum TargetShape {
    Block,
    Sphere,
    Square,
    Bean,
}

/// The shape of a target that stays where it appears: a block (`Square`), a ball,
/// or a flat square (`Rectangle`).
#[derive(Clone, Copy, Debug, PartialEq, Eq, Structural)]
pub enum TargetType {
    Square,
    Sphere,
    Rectangle,
}

impl TargetType {
    /// The same shape among those of `TargetShape`.
    pub fn shape(self) -> (shape: TargetShape)
        ensures
            shape == (match self {
                TargetType::Square => TargetShape::Block,
                TargetType::Sphere => TargetShape::Sphere,
                TargetType::Rectangle => TargetShape::Square,
            }),
    {
        match self {
            TargetType::Square => TargetShape::Block,
            TargetType::Sphere => TargetShape::Sphere,
            TargetType::Rectangle => TargetShape::Square,
        }
    }
}

/// The category that the number `choice` of the menu stands for; `None` for zero
/// and for every number above six, which stand for all scenarios.
pub open spec fn category_of(choice: int) -> Option<AimingType> {
    if choice == 1 {
        Some(AimingType::StaticClicking)
    } else if choice == 2 {
        Some(AimingType::DynamicClicking)
    } else if choice == 3 {
        Some(AimingType::ReactiveTracking)
    } else if choice == 4 {
        Some(AimingType::PreciseTracking)
    } else if choice == 5 {
        Some(AimingType::SpeedSwitching)
    } else if choice == 6 {
        Some(AimingType::EvasiveSwitching)
    } else {
        None
    }
}

impl AimingType {
    /// The category chosen in the menu, if one was.
    pub fn from_choice(choice: usize) -> (category: Option<AimingType>)
        ensures
            category == category_of(choice as int),
    {
        match choice {
            1 => Some(AimingType::StaticClicking),
            2 => Some(AimingType::DynamicClicking),
            3 => Some(AimingType::ReactiveTracking),
            4 => Some(AimingType::PreciseTracking),
            5 => Some(AimingType::SpeedSwitching),
            6 => Some(AimingType::EvasiveSwitching),
            _ => None,
        }
    }
}

/// How the targets of a scenario move.
#[derive(Clone, Copy, Debug)]
pub struct MovingTarget {
    /// Two corners of the box that a target stays in.
    pub mv_bounds: (Vec3d, Vec3d),
    /// How close a target comes to the player.
    pub player_dist_r: i64,
    /// The time after which a target picks a new velocity.
    pub frequency: i64,
    /// The chance that a target turns round when it does.
    pub p_change_dir: i64,
    /// The slowest and the fastest speed on each axis.
    pub vel_bounds: (Vec3d, Vec3d),
}

/// The targets of a scenario.
#[derive(Clone, Copy, Debug)]
pub struct TargetSettings {
    pub shape: TargetShape,
    /// Two corners of the box in which targets appear.
    pub spawn: (Vec3d, Vec3d),
    /// How many targets are kept in play.
    pub count: usize,
    pub rad: i64,
    pub hp: i32,
    pub movement: Option<MovingTarget>,
}

/// One scenario.
#[derive(Debug)]
pub struct Scenario {
    pub name: String,
    pub aiming_type: AimingType,
    /// How long a run lasts, in whole seconds.
    pub duration_secs: u64,
    pub player_spawn: Vec3d,
    pub gun: Gun,
    /// Whether the player may walk.
    pub allow_movement: bool,
    pub room_type: RoomType,
    pub room_radius: i64,
    pub t_settings: TargetSettings,
}

/// The point with the given coordinates.
pub open spec fn at(x: int, y: int, z: int) -> Vec3d {
    Vec3d { x: x as i64, y: y as i64, z: z as i64 }
}

fn point(x: i64, y: i64, z: i64) -> (p: Vec3d)
    ensures
        p == at(x as int, y as int, z as int),
{
    Vec3d { x, y, z }
}

impl MovingTarget {
    /// Whether the profile makes sense: it resamples after some time, turns
    /// round with a chance between never and always, and on each axis its
    /// slowest speed is not negative and not above its fastest.
    pub open spec fn is_sound(&self) -> bool {
        &&& self.frequency > 0
        &&& 0 <= self.p_change_dir <= 100_000
        &&& 0 <= self.player_dist_r
        &&& 0 <= self.vel_bounds.0.x <= self.vel_bounds.1.x
        &&& 0 <= self.vel_bounds.0.y <= self.vel_bounds.1.y
        &&& 0 <= self.vel_bounds.0.z <= self.vel_bounds.1.z
    }
}

impl Scenario {
    /// Whether the scenario can be played: it lasts some time, keeps at least
    /// one target of some size and at least one hit point in play, moves its
    /// targets sensibly if at all, and, where its room is a cube, starts the
    /// player inside it.
    pub open spec fn is_sound(&self) -> bool {
        &&& self.duration_secs > 0
        &&& self.room_radius > 0
        &&& self.t_settings.count >= 1
        &&& self.t_settings.hp >= 1
        &&& self.t_settings.rad > 0
        &&& (self.room_type == RoomType::Cube ==> inside_cube(
            self.room_radius as int,
            self.player_spawn.x as int,
            self.player_spawn.y as int,
            self.player_spawn.z as int,
        ))
        &&& (match self.t_settings.movement {
            Some(m) => m.is_sound(),
            None => true,
        })
    }
}

/// Whether every scenario of the list trains `skill`.
pub open spec fn all_train(list: Seq<Scenario>, skill: AimingType) -> bool {
    forall|i: int| 0 <= i < list.len() ==> (#[trigger] list[i]).aiming_type == skill
}

/// Whether every scenario of the list can be played.
pub open spec fn all_sound(list: Seq<Scenario>) -> bool {
    forall|i: int| 0 <= i < list.len() ==> (#[trigger] list[i]).is_sound()
}

/// Whether every scenario of the list is listed under entry `choice` of the list
/// of categories.
pub open spec fn all_listed(list: Seq<Scenario>, choice: int) -> bool {
    forall|i: int|
        0 <= i < list.len() ==> (match category_of(choice) {
            Some(category) => (#[trigger] list[i]).aiming_type == category,
            None => true,
        })
}

/// A player who starts a sound scenario in a cube room sees every wall of it.
pub proof fn lemma_room_seen_at_start(s: Scenario, k: int)
    requires
        s.is_sound(),
        s.room_type == RoomType::Cube,
        0 <= k < cube_room_faces().len(),
    ensures
        turn(
            cube_room_faces()[k],
            s.room_radius as int,
            s.player_spawn.x as int,
            s.player_spawn.y as int,
            s.player_spawn.z as int,
        ) < 0,
{
    lemma_cube_room_seen_from_inside(
        s.room_radius as int,
        s.player_spawn.x as int,
        s.player_spawn.y as int,
        s.player_spawn.z as int,
        k,
    );
}

/// The targets of a sound profile never get faster on the first axis than the
/// profile's fastest speed, however often they pick a new velocity; and so on
/// the other two axes.
pub proof fn lemma_profile_keeps_speed(m: MovingTarget, velo: int, cycles: Seq<(bool, int)>)
    requires
        m.is_sound(),
        cycles.len() > 0,
    ensures
        -m.vel_bounds.1.x <= walked(velo, cycles, m.vel_bounds.0.x as int, m.vel_bounds.1.x as int)
            <= m.vel_bounds.1.x,
        -m.vel_bounds.1.y <= walked(velo, cycles, m.vel_bounds.0.y as int, m.vel_bounds.1.y as int)
            <= m.vel_bounds.1.y,
        -m.vel_bounds.1.z <= walked(velo, cycles, m.vel_bounds.0.z as int, m.vel_bounds.1.z as int)
            <= m.vel_bounds.1.z,
{
    lemma_walk_bounded(velo, cycles, m.vel_bounds.0.x as int, m.vel_bounds.1.x as int);
    lemma_walk_bounded(velo, cycles, m.vel_bounds.0.y as int, m.vel_bounds.1.y as int);
    lemma_walk_bounded(velo, cycles, m.vel_bounds.0.z as int, m.vel_bounds.1.z as int);
}

impl Scenario {
    /// Three big blocks on the wall in front.
    pub fn jumbo_tf(now_ms: u64) -> (s: Scenario)
        ensures
            s.name@ == "Jumbo Tile Frenzy"@,
            s.aiming_type == AimingType::StaticClicking,
            s.duration_secs == 30,
            s.player_spawn == at(0, 1000, -4000),
            s.gun == pistol_at(now_ms),
            s.allow_movement == false,
            s.room_type == RoomType::Cube,
            s.room_radius == 5000,
            s.t_settings == (TargetSettings {
                shape: TargetShape::Block,
                spawn: (at(4000, 4000, 4000), at(-4000, -4000, 4000)),
                count: 3,
                rad: 900,
                hp: 1,
                movement: None,
            }),
            s.is_sound(),
    {
        Scenario {
            name: String::from_str("Jumbo Tile Frenzy"),
            aiming_type: AimingType::StaticClicking,
            duration_secs: 30,
            player_spawn: point(0, 1000, -4000),
            gun: Gun::pistol(now_ms),
            allow_movement: false,
            room_type: RoomType::Cube,
            room_radius: 5000,
            t_settings: TargetSettings {
                shape: TargetShape::Block,
                spawn: (point(4000, 4000, 4000), point(-4000, -4000, 4000)),
                count: 3,
                rad: 900,
                hp: 1,
                movement: None,
            },
        }
    }

    /// Three big flat tiles on the wall in front.
    pub fn jumbo_flat(now_ms: u64) -> (s: Scenario)
        ensures
            s.name@ == "Jumbo Tile Frenzy Flat"@,
            s.aiming_type == AimingType::StaticClicking,
            s.duration_secs == 30,
            s.player_spawn == at(0, 1000, -4000),
            s.gun == pistol_at(now_ms),
            s.allow_movement == false,
            s.room_type == RoomType::Cube,
            s.room_radius == 5000,
            s.t_settings == (TargetSettings {
                shape: TargetShape::Square,
                spawn: (at(4000, 4000, 4000), at(-4000, -4000, 4000)),
                count: 3,
                rad: 900,
                hp: 1,
                movement: None,
            }),
            s.is_sound(),
    {
        Scenario {
            name: String::from_str("Jumbo Tile Frenzy Flat"),
            aiming_type: AimingType::StaticClicking,
            duration_secs: 30,
            player_spawn: point(0, 1000, -4000),
            gun: Gun::pistol(now_ms),
            allow_movement: false,
            room_type: RoomType::Cube,
            room_radius: 5000,
            t_settings: TargetSettings {
                shape: TargetShape::Square,
                spawn: (point(4000, 4000, 4000), point(-4000, -4000, 4000)),
                count: 3,
                rad: 900,
                hp: 1,
                movement: None,
            },
        }
    }

    /// Three small flat tiles close together.
    pub fn mini_tf(now_ms: u64) -> (s: Scenario)
        ensures
            s.name@ == "Mini Tile Frenzy"@,
            s.aiming_type == AimingType::StaticClicking,
            s.duration_secs == 30,
            s.player_spawn == at(0, 1000, -4000),
            s.gun == pistol_at(now_ms),
            s.allow_movement == false,
            s.room_type == RoomType::Cube,
            s.room_radius == 5000,
            s.t_settings == (TargetSettings {
                shape: TargetShape::Square,
                spawn: (at(400, 400, 4000), at(-400, -400, 4000)),
                count: 3,
                rad: 100,
                hp: 1,
                movement: None,
            }),
            s.is_sound(),
    {
        Scenario {
            name: String::from_str("Mini Tile Frenzy"),
            aiming_type: AimingType::StaticClicking,
            duration_secs: 30,
            player_spawn: point(0, 1000, -4000),
            gun: Gun::pistol(now_ms),
            allow_movement: false,
            room_type: RoomType::Cube,
            room_radius: 5000,
            t_settings: TargetSettings {
                shape: TargetShape::Square,
                spawn: (point(400, 400, 4000), point(-400, -400, 4000)),
                count: 3,
                rad: 100,
                hp: 1,
                movement: None,
            },
        }
    }

    /// Six balls on the wall in front.
    pub fn w_6t_te(now_ms: u64) -> (s: Scenario)
        ensures
            s.name@ == "1 Wall 6 Targets TE"@,
            s.aiming_type == AimingType::StaticClicking,
            s.duration_secs == 60,
            s.player_spawn == at(0, 1000, -4000),
            s.gun == pistol_at(now_ms),
            s.allow_movement == false,
            s.room_type == RoomType::Cube,
            s.room_radius == 5000,
            s.t_settings == (TargetSettings {
                shape: TargetShape::Sphere,
                spawn: (at(4000, 4000, 4000), at(-4000, -4000, 4000)),
                count: 6,
                rad: 250,
                hp: 1,
                movement: None,
            }),
            s.is_sound(),
    {
        Scenario {
            name: String::from_str("1 Wall 6 Targets TE"),
            aiming_type: AimingType::StaticClicking,
            duration_secs: 60,
            player_spawn: point(0, 1000, -4000),
            gun: Gun::pistol(now_ms),
            allow_movement: false,
            room_type: RoomType::Cube,
            room_radius: 5000,
            t_settings: TargetSettings {
                shape: TargetShape::Sphere,
                spawn: (point(4000, 4000, 4000), point(-4000, -4000, 4000)),
                count: 6,
                rad: 250,
                hp: 1,
                movement: None,
            },
        }
    }

    /// Six small balls on the wall in front.
    pub fn w_6t_small(now_ms: u64) -> (s: Scenario)
        ensures
            s.name@ == "1 Wall 6 Targets small"@,
            s.aiming_type == AimingType::StaticClicking,
            s.duration_secs == 60,
            s.player_spawn == at(0, 1000, -4000),
            s.gun == pistol_at(now_ms),
            s.allow_movement == false,
            s.room_type == RoomType::Cube,
            s.room_radius == 5000,
            s.t_settings == (TargetSettings {
                shape: TargetShape::Sphere,
                spawn: (at(4000, 4000, 4000), at(-4000, -4000, 4000)),
                count: 6,
                rad: 100,
                hp: 1,
                movement: None,
            }),
            s.is_sound(),
    {
        Scenario {
            name: String::from_str("1 Wall 6 Targets small"),
            aiming_type: AimingType::StaticClicking,
            duration_secs: 60,
            player_spawn: point(0, 1000, -4000),
            gun: Gun::pistol(now_ms),
            allow_movement: false,
            room_type: RoomType::Cube,
            room_radius: 5000,
            t_settings: TargetSettings {
                shape: TargetShape::Sphere,
                spawn: (point(4000, 4000, 4000), point(-4000, -4000, 4000)),
                count: 6,
                rad: 100,
                hp: 1,
                movement: None,
            },
        }
    }

    /// Six very small balls on the wall in front.
    pub fn w_6t_extrasmall(now_ms: u64) -> (s: Scenario)
        ensures
            s.name@ == "1 Wall 6 Targets extra small"@,
            s.aiming_type == AimingType::StaticClicking,
            s.duration_secs == 60,
            s.player_spawn == at(0, 1000, -4000),
            s.gun == pistol_at(now_ms),
            s.allow_movement == false,
            s.room_type == RoomType::Cube,
            s.room_radius == 5000,
            s.t_settings == (TargetSettings {
                shape: TargetShape::Sphere,
                spawn: (at(4000, 4000, 4000), at(-4000, -4000, 4000)),
                count: 6,
                rad: 50,
                hp: 1,
                movement: None,
            }),
            s.is_sound(),
    {
        Scenario {
            name: String::from_str("1 Wall 6 Targets extra small"),
            aiming_type: AimingType::StaticClicking,
            duration_secs: 60,
            player_spawn: point(0, 1000, -4000),
            gun: Gun::pistol(now_ms),
            allow_movement: false,
            room_type: RoomType::Cube,
            room_radius: 5000,
            t_settings: TargetSettings {
                shape: TargetShape::Sphere,
                spawn: (point(4000, 4000, 4000), point(-4000, -4000, 4000)),
                count: 6,
                rad: 50,
                hp: 1,
                movement: None,
            },
        }
    }

    /// Six small balls on a wide wall.
    pub fn ww_6t_small(now_ms: u64) -> (s: Scenario)
        ensures
            s.name@ == "Wide Wall 6 Targets small"@,
            s.aiming_type == AimingType::StaticClicking,
            s.duration_secs == 60,
            s.player_spawn == at(0, 1000, 0),
            s.gun == pistol_at(now_ms),
            s.allow_movement == false,
            s.room_type == RoomType::Cone,
            s.room_radius == 20000,
            s.t_settings == (TargetSettings {
                shape: TargetShape::Sphere,
                spawn: (at(8000, 3000, 9000), at(-8000, -3000, 9000)),
                count: 6,
                rad: 200,
                hp: 1,
                movement: None,
            }),
            s.is_sound(),
    {
        Scenario {
            name: String::from_str("Wide Wall 6 Targets small"),
            aiming_type: AimingType::StaticClicking,
            duration_secs: 60,
            player_spawn: point(0, 1000, 0),
            gun: Gun::pistol(now_ms),
            allow_movement: false,
            room_type: RoomType::Cone,
            room_radius: 20000,
            t_settings: TargetSettings {
                shape: TargetShape::Sphere,
                spawn: (point(8000, 3000, 9000), point(-8000, -3000, 9000)),
                count: 6,
                rad: 200,
                hp: 1,
                movement: None,
            },
        }
    }

    /// Three blocks side by side.
    pub fn pure_horizontal_click(now_ms: u64) -> (s: Scenario)
        ensures
            s.name@ == "Pure Horizontal Click"@,
            s.aiming_type == AimingType::StaticClicking,
            s.duration_secs == 999,
            s.player_spawn == at(0, 1000, -4000),
            s.gun == pistol_at(now_ms),
            s.allow_movement == true,
            s.room_type == RoomType::Cube,
            s.room_radius == 5000,
            s.t_settings == (TargetSettings {
                shape: TargetShape::Block,
                spawn: (at(5000, 0, 4000), at(-5000, 0, 4000)),
                count: 3,
                rad: 500,
                hp: 1,
                movement: None,
            }),
            s.is_sound(),
    {
        Scenario {
            name: String::from_str("Pure Horizontal Click"),
            aiming_type: AimingType::StaticClicking,
            duration_secs: 999,
            player_spawn: point(0, 1000, -4000),
            gun: Gun::pistol(now_ms),
            allow_movement: true,
            room_type: RoomType::Cube,
            room_radius: 5000,
            t_settings: TargetSettings {
                shape: TargetShape::Block,
                spawn: (point(5000, 0, 4000), point(-5000, 0, 4000)),
                count: 3,
                rad: 500,
                hp: 1,
                movement: None,
            },
        }
    }

    /// Three blocks one above the other.
    pub fn pure_vertical_click(now_ms: u64) -> (s: Scenario)
        ensures
            s.name@ == "Pure Vertical Click"@,
            s.aiming_type == AimingType::StaticClicking,
            s.duration_secs == 999,
            s.player_spawn == at(0, 1000, -4000),
            s.gun == pistol_at(now_ms),
            s.allow_movement == true,
            s.room_type == RoomType::Cube,
            s.room_radius == 5000,
            s.t_settings == (TargetSettings {
                shape: TargetShape::Block,
                spawn: (at(0, 5000, 4000), at(0, -5000, 4000)),
                count: 3,
                rad: 500,
                hp: 1,
                movement: None,
            }),
            s.is_sound(),
    {
        Scenario {
            name: String::from_str("Pure Vertical Click"),
            aiming_type: AimingType::StaticClicking,
            duration_secs: 999,
            player_spawn: point(0, 1000, -4000),
            gun: Gun::pistol(now_ms),
            allow_movement: true,
            room_type: RoomType::Cube,
            room_radius: 5000,
            t_settings: TargetSettings {
                shape: TargetShape::Block,
                spawn: (point(0, 5000, 4000), point(0, -5000, 4000)),
                count: 3,
                rad: 500,
                hp: 1,
                movement: None,
            },
        }
    }

    /// Five balls that wander over the wall in front.
    pub fn w_5t_pasu(now_ms: u64) -> (s: Scenario)
        ensures
            s.name@ == "1 Wall 5 Targets Pasu"@,
            s.aiming_type == AimingType::DynamicClicking,
            s.duration_secs == 90,
            s.player_spawn == at(0, 1000, -4000),
            s.gun == pistol_at(now_ms),
            s.allow_movement == false,
            s.room_type == RoomType::Cube,
            s.room_radius == 5000,
            s.t_settings == (TargetSettings {
                shape: TargetShape::Sphere,
                spawn: (at(4000, 4000, 4000), at(-4000, -4000, 4000)),
                count: 5,
                rad: 250,
                hp: 1,
                movement: Some(
                MovingTarget {
                    mv_bounds: (at(4000, 4000, 4000), at(-4000, -4000, 4000)),
                    player_dist_r: 1000,
                    frequency: 300,
                    p_change_dir: 10000,
                    vel_bounds: (at(2000, 2000, 0), at(3000, 3000, 0)),
                },
            ),
            }),
            s.is_sound(),
    {
        Scenario {
            name: String::from_str("1 Wall 5 Targets Pasu"),
            aiming_type: AimingType::DynamicClicking,
            duration_secs: 90,
            player_spawn: point(0, 1000, -4000),
            gun: Gun::pistol(now_ms),
            allow_movement: false,
            room_type: RoomType::Cube,
            room_radius: 5000,
            t_settings: TargetSettings {
                shape: TargetShape::Sphere,
                spawn: (point(4000, 4000, 4000), point(-4000, -4000, 4000)),
                count: 5,
                rad: 250,
                hp: 1,
                movement: Some(
                MovingTarget {
                    mv_bounds: (point(4000, 4000, 4000), point(-4000, -4000, 4000)),
                    player_dist_r: 1000,
                    frequency: 300,
                    p_change_dir: 10000,
                    vel_bounds: (point(2000, 2000, 0), point(3000, 3000, 0)),
                },
            ),
            },
        }
    }

    /// Five small balls that wander over the wall in front.
    pub fn w_5t_pasu_small(now_ms: u64) -> (s: Scenario)
        ensures
            s.name@ == "1 Wall 5 Targets Pasu Small"@,
            s.aiming_type == AimingType::DynamicClicking,
            s.duration_secs == 90,
            s.player_spawn == at(0, 1000, -4000),
            s.gun == pistol_at(now_ms),
            s.allow_movement == false,
            s.room_type == RoomType::Cube,
            s.room_radius == 5000,
            s.t_settings == (TargetSettings {
                shape: TargetShape::Sphere,
                spawn: (at(4000, 4000, 4000), at(-4000, -4000, 4000)),
                count: 5,
                rad: 100,
                hp: 1,
                movement: Some(
                MovingTarget {
                    mv_bounds: (at(4000, 4000, 4000), at(-4000, -4000, 4000)),
                    player_dist_r: 1000,
                    frequency: 300,
                    p_change_dir: 10000,
                    vel_bounds: (at(2000, 2000, 0), at(3000, 3000, 0)),
                },
            ),
            }),
            s.is_sound(),
    {
        Scenario {
            name: String::from_str("1 Wall 5 Targets Pasu Small"),
            aiming_type: AimingType::DynamicClicking,
            duration_secs: 90,
            player_spawn: point(0, 1000, -4000),
            gun: Gun::pistol(now_ms),
            allow_movement: false,
            room_type: RoomType::Cube,
            room_radius: 5000,
            t_settings: TargetSettings {
                shape: TargetShape::Sphere,
                spawn: (point(4000, 4000, 4000), point(-4000, -4000, 4000)),
                count: 5,
                rad: 100,
                hp: 1,
                movement: Some(
                MovingTarget {
                    mv_bounds: (point(4000, 4000, 4000), point(-4000, -4000, 4000)),
                    player_dist_r: 1000,
                    frequency: 300,
                    p_change_dir: 10000,
                    vel_bounds: (point(2000, 2000, 0), point(3000, 3000, 0)),
                },
            ),
            },
        }
    }

    /// Five very small balls that drift at head height.
    pub fn floating_heads(now_ms: u64) -> (s: Scenario)
        ensures
            s.name@ == "Floating Heads"@,
            s.aiming_type == AimingType::DynamicClicking,
            s.duration_secs == 60,
            s.player_spawn == at(0, 1000, 0),
            s.gun == pistol_at(now_ms),
            s.allow_movement == false,
            s.room_type == RoomType::Cube,
            s.room_radius == 7000,
            s.t_settings == (TargetSettings {
                shape: TargetShape::Sphere,
                spawn: (at(6000, 1000, 6000), at(-6000, -1000, 4000)),
                count: 5,
                rad: 50,
                hp: 1,
                movement: Some(
                MovingTarget {
                    mv_bounds: (at(4000, 1000, 4000), at(-4000, -1000, 3000)),
                    player_dist_r: 1000,
                    frequency: 100,
                    p_change_dir: 500,
                    vel_bounds: (at(800, 200, 100), at(1000, 200, 100)),
                },
            ),
            }),
            s.is_sound(),
    {
        Scenario {
            name: String::from_str("Floating Heads"),
            aiming_type: AimingType::DynamicClicking,
            duration_secs: 60,
            player_spawn: point(0, 1000, 0),
            gun: Gun::pistol(now_ms),
            allow_movement: false,
            room_type: RoomType::Cube,
            room_radius: 7000,
            t_settings: TargetSettings {
                shape: TargetShape::Sphere,
                spawn: (point(6000, 1000, 6000), point(-6000, -1000, 4000)),
                count: 5,
                rad: 50,
                hp: 1,
                movement: Some(
                MovingTarget {
                    mv_bounds: (point(4000, 1000, 4000), point(-4000, -1000, 3000)),
                    player_dist_r: 1000,
                    frequency: 100,
                    p_change_dir: 500,
                    vel_bounds: (point(800, 200, 100), point(1000, 200, 100)),
                },
            ),
            },
        }
    }

    /// Five tiny balls that drift at head height.
    pub fn floating_heads_small(now_ms: u64) -> (s: Scenario)
        ensures
            s.name@ == "Floating Heads Small"@,
            s.aiming_type == AimingType::DynamicClicking,
            s.duration_secs == 60,
            s.player_spawn == at(0, 1000, 0),
            s.gun == pistol_at(now_ms),
            s.allow_movement == false,
            s.room_type == RoomType::Cube,
            s.room_radius == 7000,
            s.t_settings == (TargetSettings {
                shape: TargetShape::Sphere,
                spawn: (at(6000, 1000, 6000), at(-6000, -1000, 4000)),
                count: 5,
                rad: 30,
                hp: 1,
                movement: Some(
                MovingTarget {
                    mv_bounds: (at(4000, 1000, 4000), at(-4000, -1000, 3000)),
                    player_dist_r: 1000,
                    frequency: 100,
                    p_change_dir: 500,
                    vel_bounds: (at(600, 100, 0), at(800, 100, 0)),
                },
            ),
            }),
            s.is_sound(),
    {
        Scenario {
            name: String::from_str("Floating Heads Small"),
            aiming_type: AimingType::DynamicClicking,
            duration_secs: 60,
            player_spawn: point(0, 1000, 0),
            gun: Gun::pistol(now_ms),
            allow_movement: false,
            room_type: RoomType::Cube,
            room_radius: 7000,
            t_settings: TargetSettings {
                shape: TargetShape::Sphere,
                spawn: (point(6000, 1000, 6000), point(-6000, -1000, 4000)),
                count: 5,
                rad: 30,
                hp: 1,
                movement: Some(
                MovingTarget {
                    mv_bounds: (point(4000, 1000, 4000), point(-4000, -1000, 3000)),
                    player_dist_r: 1000,
                    frequency: 100,
                    p_change_dir: 500,
                    vel_bounds: (point(600, 100, 0), point(800, 100, 0)),
                },
            ),
            },
        }
    }

    /// One ball that cannot be destroyed, flying through the room.
    pub fn air_invincible(now_ms: u64) -> (s: Scenario)
        ensures
            s.name@ == "Air Invincible"@,
            s.aiming_type == AimingType::ReactiveTracking,
            s.duration_secs == 60,
            s.player_spawn == at(0, -4000, 0),
            s.gun == laser_at(now_ms),
            s.allow_movement == false,
            s.room_type == RoomType::Octagon,
            s.room_radius == 5000,
            s.t_settings == (TargetSettings {
                shape: TargetShape::Sphere,
                spawn: (at(0, 0, 5000), at(0, 0, 5000)),
                count: 1,
                rad: 800,
                hp: 99999,
                movement: Some(
                MovingTarget {
                    mv_bounds: (at(4000, 0, 4000), at(-4000, -4000, -4000)),
                    player_dist_r: 1000,
                    frequency: 200,
                    p_change_dir: 12000,
                    vel_bounds: (at(3000, 3000, 3000), at(5000, 5000, 5000)),
                },
            ),
            }),
            s.is_sound(),
    {
        Scenario {
            name: String::from_str("Air Invincible"),
            aiming_type: AimingType::ReactiveTracking,
            duration_secs: 60,
            player_spawn: point(0, -4000, 0),
            gun: Gun::laser(now_ms),
            allow_movement: false,
            room_type: RoomType::Octagon,
            room_radius: 5000,
            t_settings: TargetSettings {
                shape: TargetShape::Sphere,
                spawn: (point(0, 0, 5000), point(0, 0, 5000)),
                count: 1,
                rad: 800,
                hp: 99999,
                movement: Some(
                MovingTarget {
                    mv_bounds: (point(4000, 0, 4000), point(-4000, -4000, -4000)),
                    player_dist_r: 1000,
                    frequency: 200,
                    p_change_dir: 12000,
                    vel_bounds: (point(3000, 3000, 3000), point(5000, 5000, 5000)),
                },
            ),
            },
        }
    }

    /// One bean that cannot be destroyed, strafing close by.
    pub fn close_strafes_invincible(now_ms: u64) -> (s: Scenario)
        ensures
            s.name@ == "Close Strafes Invincible"@,
            s.aiming_type == AimingType::ReactiveTracking,
            s.duration_secs == 60,
            s.player_spawn == at(0, -1500, 0),
            s.gun == laser_at(now_ms),
            s.allow_movement == true,
            s.room_type == RoomType::Octagon,
            s.room_radius == 4000,
            s.t_settings == (TargetSettings {
                shape: TargetShape::Bean,
                spawn: (at(0, 0, 5000), at(0, 0, 5000)),
                count: 1,
                rad: 800,
                hp: 99999,
                movement: Some(
                MovingTarget {
                    mv_bounds: (at(3000, -2000, 3000), at(-3000, -2000, -3000)),
                    player_dist_r: 1000,
                    frequency: 200,
                    p_change_dir: 20000,
                    vel_bounds: (at(3000, 0, 3000), at(5000, 0, 5000)),
                },
            ),
            }),
            s.is_sound(),
    {
        Scenario {
            name: String::from_str("Close Strafes Invincible"),
            aiming_type: AimingType::ReactiveTracking,
            duration_secs: 60,
            player_spawn: point(0, -1500, 0),
            gun: Gun::laser(now_ms),
            allow_movement: true,
            room_type: RoomType::Octagon,
            room_radius: 4000,
            t_settings: TargetSettings {
                shape: TargetShape::Bean,
                spawn: (point(0, 0, 5000), point(0, 0, 5000)),
                count: 1,
                rad: 800,
                hp: 99999,
                movement: Some(
                MovingTarget {
                    mv_bounds: (point(3000, -2000, 3000), point(-3000, -2000, -3000)),
                    player_dist_r: 1000,
                    frequency: 200,
                    p_change_dir: 20000,
                    vel_bounds: (point(3000, 0, 3000), point(5000, 0, 5000)),
                },
            ),
            },
        }
    }

    /// One ball that cannot be destroyed, changing course often.
    pub fn raw_control_invincible(now_ms: u64) -> (s: Scenario)
        ensures
            s.name@ == "Raw Control Invincible"@,
            s.aiming_type == AimingType::ReactiveTracking,
            s.duration_secs == 60,
            s.player_spawn == at(0, 0, -3000),
            s.gun == laser_at(now_ms),
            s.allow_movement == false,
            s.room_type == RoomType::Cube,
            s.room_radius == 5000,
            s.t_settings == (TargetSettings {
                shape: TargetShape::Sphere,
                spawn: (at(0, 0, 5000), at(0, 0, 5000)),
                count: 1,
                rad: 300,
                hp: 99999,
                movement: Some(
                MovingTarget {
                    mv_bounds: (at(4000, 3000, 4000), at(-4000, -3000, 0)),
                    player_dist_r: 3000,
                    frequency: 500,
                    p_change_dir: 20000,
                    vel_bounds: (at(2000, 2000, 2000), at(3000, 3000, 3000)),
                },
            ),
            }),
            s.is_sound(),
    {
        Scenario {
            name: String::from_str("Raw Control Invincible"),
            aiming_type: AimingType::ReactiveTracking,
            duration_secs: 60,
            player_spawn: point(0, 0, -3000),
            gun: Gun::laser(now_ms),
            allow_movement: false,
            room_type: RoomType::Cube,
            room_radius: 5000,
            t_settings: TargetSettings {
                shape: TargetShape::Sphere,
                spawn: (point(0, 0, 5000), point(0, 0, 5000)),
                count: 1,
                rad: 300,
                hp: 99999,
                movement: Some(
                MovingTarget {
                    mv_bounds: (point(4000, 3000, 4000), point(-4000, -3000, 0)),
                    player_dist_r: 3000,
                    frequency: 500,
                    p_change_dir: 20000,
                    vel_bounds: (point(2000, 2000, 2000), point(3000, 3000, 3000)),
                },
            ),
            },
        }
    }

    /// One bean that cannot be destroyed, strafing far off.
    pub fn smooth_strafes_invincible(now_ms: u64) -> (s: Scenario)
        ensures
            s.name@ == "Smooth Strafes 90 Invincible"@,
            s.aiming_type == AimingType::PreciseTracking,
            s.duration_secs == 60,
            s.player_spawn == at(0, -3000, 0),
            s.gun == laser_at(now_ms),
            s.allow_movement == true,
            s.room_type == RoomType::Cube,
            s.room_radius == 10000,
            s.t_settings == (TargetSettings {
                shape: TargetShape::Bean,
                spawn: (at(0, 0, 9000), at(0, 0, 9000)),
                count: 1,
                rad: 400,
                hp: 99999,
                movement: Some(
                MovingTarget {
                    mv_bounds: (at(9000, -4000, 9000), at(-9000, -4000, 9000)),
                    player_dist_r: 7000,
                    frequency: 20,
                    p_change_dir: 2000,
                    vel_bounds: (at(4000, 0, 4000), at(6000, 0, 6000)),
                },
            ),
            }),
            s.is_sound(),
    {
        Scenario {
            name: String::from_str("Smooth Strafes 90 Invincible"),
            aiming_type: AimingType::PreciseTracking,
            duration_secs: 60,
            player_spawn: point(0, -3000, 0),
            gun: Gun::laser(now_ms),
            allow_movement: true,
            room_type: RoomType::Cube,
            room_radius: 10000,
            t_settings: TargetSettings {
                shape: TargetShape::Bean,
                spawn: (point(0, 0, 9000), point(0, 0, 9000)),
                count: 1,
                rad: 400,
                hp: 99999,
                movement: Some(
                MovingTarget {
                    mv_bounds: (point(9000, -4000, 9000), point(-9000, -4000, 9000)),
                    player_dist_r: 7000,
                    frequency: 20,
                    p_change_dir: 2000,
                    vel_bounds: (point(4000, 0, 4000), point(6000, 0, 6000)),
                },
            ),
            },
        }
    }

    /// Six small balls on a wide wall, five hits each.
    pub fn ww_6t_small_ts(now_ms: u64) -> (s: Scenario)
        ensures
            s.name@ == "Wide Wall 6 Targets small TS"@,
            s.aiming_type == AimingType::SpeedSwitching,
            s.duration_secs == 60,
            s.player_spawn == at(0, 1000, -2000),
            s.gun == laser_at(now_ms),
            s.allow_movement == false,
            s.room_type == RoomType::Cone,
            s.room_radius == 20000,
            s.t_settings == (TargetSettings {
                shape: TargetShape::Sphere,
                spawn: (at(8000, 3000, 9000), at(-8000, -3000, 9000)),
                count: 6,
                rad: 200,
                hp: 5,
                movement: None,
            }),
            s.is_sound(),
    {
        Scenario {
            name: String::from_str("Wide Wall 6 Targets small TS"),
            aiming_type: AimingType::SpeedSwitching,
            duration_secs: 60,
            player_spawn: point(0, 1000, -2000),
            gun: Gun::laser(now_ms),
            allow_movement: false,
            room_type: RoomType::Cone,
            room_radius: 20000,
            t_settings: TargetSettings {
                shape: TargetShape::Sphere,
                spawn: (point(8000, 3000, 9000), point(-8000, -3000, 9000)),
                count: 6,
                rad: 200,
                hp: 5,
                movement: None,
            },
        }
    }

    /// Three balls of forty hits each that dodge about.
    pub fn control_ts(now_ms: u64) -> (s: Scenario)
        ensures
            s.name@ == "Control TS"@,
            s.aiming_type == AimingType::EvasiveSwitching,
            s.duration_secs == 60,
            s.player_spawn == at(0, -5000, -2000),
            s.gun == laser_at(now_ms),
            s.allow_movement == false,
            s.room_type == RoomType::Cone,
            s.room_radius == 10000,
            s.t_settings == (TargetSettings {
                shape: TargetShape::Sphere,
                spawn: (at(6000, -3000, 9000), at(-6000, -5000, 7000)),
                count: 3,
                rad: 300,
                hp: 40,
                movement: Some(
                MovingTarget {
                    mv_bounds: (at(6000, -3000, 9000), at(-6000, -5000, 7000)),
                    player_dist_r: 1000,
                    frequency: 300,
                    p_change_dir: 10000,
                    vel_bounds: (at(2000, 1000, 200), at(2000, 1000, 500)),
                },
            ),
            }),
            s.is_sound(),
    {
        Scenario {
            name: String::from_str("Control TS"),
            aiming_type: AimingType::EvasiveSwitching,
            duration_secs: 60,
            player_spawn: point(0, -5000, -2000),
            gun: Gun::laser(now_ms),
            allow_movement: false,
            room_type: RoomType::Cone,
            room_radius: 10000,
            t_settings: TargetSettings {
                shape: TargetShape::Sphere,
                spawn: (point(6000, -3000, 9000), point(-6000, -5000, 7000)),
                count: 3,
                rad: 300,
                hp: 40,
                movement: Some(
                MovingTarget {
                    mv_bounds: (point(6000, -3000, 9000), point(-6000, -5000, 7000)),
                    player_dist_r: 1000,
                    frequency: 300,
                    p_change_dir: 10000,
                    vel_bounds: (point(2000, 1000, 200), point(2000, 1000, 500)),
                },
            ),
            },
        }
    }

}

/// The scenarios that train clicking on targets that stand still.
pub fn static_clicking(now_ms: u64) -> (list: Vec<Scenario>)
    ensures
        list@.len() == 9,
        all_train(list@, AimingType::StaticClicking),
        all_sound(list@),
        list@[0].name@ == "Jumbo Tile Frenzy"@,
        list@[1].name@ == "Jumbo Tile Frenzy Flat"@,
        list@[2].name@ == "Mini Tile Frenzy"@,
        list@[3].name@ == "1 Wall 6 Targets TE"@,
        list@[4].name@ == "1 Wall 6 Targets small"@,
        list@[5].name@ == "1 Wall 6 Targets extra small"@,
        list@[6].name@ == "Wide Wall 6 Targets small"@,
        list@[7].name@ == "Pure Horizontal Click"@,
        list@[8].name@ == "Pure Vertical Click"@,
{
    let mut list: Vec<Scenario> = Vec::new();
    list.push(Scenario::jumbo_tf(now_ms));
    list.push(Scenario::jumbo_flat(now_ms));
    list.push(Scenario::mini_tf(now_ms));
    list.push(Scenario::w_6t_te(now_ms));
    list.push(Scenario::w_6t_small(now_ms));
    list.push(Scenario::w_6t_extrasmall(now_ms));
    list.push(Scenario::ww_6t_small(now_ms));
    list.push(Scenario::pure_horizontal_click(now_ms));
    list.push(Scenario::pure_vertical_click(now_ms));
    list
}

/// The scenarios that train clicking on targets that move.
pub fn dyn_clicking(now_ms: u64) -> (list: Vec<Scenario>)
    ensures
        list@.len() == 4,
        all_train(list@, AimingType::DynamicClicking),
        all_sound(list@),
        list@[0].name@ == "1 Wall 5 Targets Pasu"@,
        list@[1].name@ == "1 Wall 5 Targets Pasu Small"@,
        list@[2].name@ == "Floating Heads"@,
        list@[3].name@ == "Floating Heads Small"@,
{
    let mut list: Vec<Scenario> = Vec::new();
    list.push(Scenario::w_5t_pasu(now_ms));
    list.push(Scenario::w_5t_pasu_small(now_ms));
    list.push(Scenario::floating_heads(now_ms));
    list.push(Scenario::floating_heads_small(now_ms));
    list
}

/// The scenarios that train following a target that changes course.
pub fn reactive_tracking(now_ms: u64) -> (list: Vec<Scenario>)
    ensures
        list@.len() == 3,
        all_train(list@, AimingType::ReactiveTracking),
        all_sound(list@),
        list@[0].name@ == "Air Invincible"@,
        list@[1].name@ == "Close Strafes Invincible"@,
        list@[2].name@ == "Raw Control Invincible"@,
{
    let mut list: Vec<Scenario> = Vec::new();
    list.push(Scenario::air_invincible(now_ms));
    list.push(Scenario::close_strafes_invincible(now_ms));
    list.push(Scenario::raw_control_invincible(now_ms));
    list
}

/// The scenarios that train following a target smoothly.
pub fn precise_tracking(now_ms: u64) -> (list: Vec<Scenario>)
    ensures
        list@.len() == 1,
        all_train(list@, AimingType::PreciseTracking),
        all_sound(list@),
        list@[0].name@ == "Smooth Strafes 90 Invincible"@,
{
    let mut list: Vec<Scenario> = Vec::new();
    list.push(Scenario::smooth_strafes_invincible(now_ms));
    list
}

/// The scenarios that train switching from target to target fast.
pub fn speed_switching(now_ms: u64) -> (list: Vec<Scenario>)
    ensures
        list@.len() == 1,
        all_train(list@, AimingType::SpeedSwitching),
        all_sound(list@),
        list@[0].name@ == "Wide Wall 6 Targets small TS"@,
{
    let mut list: Vec<Scenario> = Vec::new();
    list.push(Scenario::ww_6t_small_ts(now_ms));
    list
}

/// The scenarios that train switching between targets that dodge.
pub fn evasive_switching(now_ms: u64) -> (list: Vec<Scenario>)
    ensures
        list@.len() == 1,
        all_train(list@, AimingType::EvasiveSwitching),
        all_sound(list@),
        list@[0].name@ == "Control TS"@,
{
    let mut list: Vec<Scenario> = Vec::new();
    list.push(Scenario::control_ts(now_ms));
    list
}

/// The skill that entry `i` of the list of all scenarios trains.
pub open spec fn skill_at(i: int) -> AimingType {
    if i < 9 {
        AimingType::StaticClicking
    } else if i < 13 {
        AimingType::DynamicClicking
    } else if i < 16 {
        AimingType::ReactiveTracking
    } else if i < 17 {
        AimingType::PreciseTracking
    } else if i < 18 {
        AimingType::SpeedSwitching
    } else {
        AimingType::EvasiveSwitching
    }
}

/// All scenarios, category by category.
pub fn load_all_scenarios(now_ms: u64) -> (list: Vec<Scenario>)
    ensures
        list@.len() == 19,
        all_sound(list@),
        forall|i: int| 0 <= i < 19 ==> (#[trigger] list@[i]).aiming_type == skill_at(i),
        list@[0].name@ == "Jumbo Tile Frenzy"@,
        list@[1].name@ == "Jumbo Tile Frenzy Flat"@,
        list@[2].name@ == "Mini Tile Frenzy"@,
        list@[3].name@ == "1 Wall 6 Targets TE"@,
        list@[4].name@ == "1 Wall 6 Targets small"@,
        list@[5].name@ == "1 Wall 6 Targets extra small"@,
        list@[6].name@ == "Wide Wall 6 Targets small"@,
        list@[7].name@ == "Pure Horizontal Click"@,
        list@[8].name@ == "Pure Vertical Click"@,
        list@[9].name@ == "1 Wall 5 Targets Pasu"@,
        list@[10].name@ == "1 Wall 5 Targets Pasu Small"@,
        list@[11].name@ == "Floating Heads"@,
        list@[12].name@ == "Floating Heads Small"@,
        list@[13].name@ == "Air Invincible"@,
        list@[14].name@ == "Close Strafes Invincible"@,
        list@[15].name@ == "Raw Control Invincible"@,
        list@[16].name@ == "Smooth Strafes 90 Invincible"@,
        list@[17].name@ == "Wide Wall 6 Targets small TS"@,
        list@[18].name@ == "Control TS"@,
{
    let mut list: Vec<Scenario> = Vec::new();
    let mut part = static_clicking(now_ms);
    list.append(&mut part);
    let mut part = dyn_clicking(now_ms);
    list.append(&mut part);
    let mut part = reactive_tracking(now_ms);
    list.append(&mut part);
    let mut part = precise_tracking(now_ms);
    list.append(&mut part);
    let mut part = speed_switching(now_ms);
    list.append(&mut part);
    let mut part = evasive_switching(now_ms);
    list.append(&mut part);
    list
}

/// The number of scenarios listed under entry `choice` of the list of categories.
pub open spec fn listed_count(choice: int) -> int {
    match category_of(choice) {
        Some(AimingType::StaticClicking) => 9,
        Some(AimingType::DynamicClicking) => 4,
        Some(AimingType::ReactiveTracking) => 3,
        Some(AimingType::PreciseTracking) => 1,
        Some(AimingType::SpeedSwitching) => 1,
        Some(AimingType::EvasiveSwitching) => 1,
        None => 19,
    }
}

/// The scenarios listed under entry `choice` of the list of categories: those of
/// one category, or all of them.
pub fn get_scenarios(choice: usize, now_ms: u64) -> (list: Vec<Scenario>)
    ensures
        list@.len() == listed_count(choice as int),
        all_listed(list@, choice as int),
        all_sound(list@),
{
    match AimingType::from_choice(choice) {
        Some(AimingType::StaticClicking) => static_clicking(now_ms),
        Some(AimingType::DynamicClicking) => dyn_clicking(now_ms),
        Some(AimingType::ReactiveTracking) => reactive_tracking(now_ms),
        Some(AimingType::PreciseTracking) => precise_tracking(now_ms),
        Some(AimingType::SpeedSwitching) => speed_switching(now_ms),
        Some(AimingType::EvasiveSwitching) => evasive_switching(now_ms),
        None => load_all_scenarios(now_ms),
    }
}

} // verus!
