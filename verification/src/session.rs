//! The state of one training run: the gun, the score, and the pool of targets.
//!
//! The loop that draws the frames lives with the caller. Once per frame it tells
//! this module what happened (the trigger, the hits, the clock) and is told what
//! to do next. Clock readings are whole milliseconds of a steady clock.

use vstd::prelude::*;

verus! {

/// The weapon of a scenario.
#[derive(Clone, Copy, Debug, PartialEq, Eq, Structural)]
pub struct Gun {
    /// Whether the gun keeps firing while the trigger is held.
    pub automatic: bool,
    /// The shortest time between two shots of an automatic gun.
    pub fire_rate_ms: u64,
    /// When the gun last fired.
    pub last_shot: u64,
}

/// The pistol as it is handed out at `now_ms`: one shot for each pull.
pub open spec fn pistol_at(now_ms: u64) -> Gun {
    Gun { automatic: false, fire_rate_ms: 50, last_shot: now_ms }
}

/// The laser as it is handed out at `now_ms`: a shot every ten milliseconds while
/// the trigger is held.
pub open spec fn laser_at(now_ms: u64) -> Gun {
    Gun { automatic: true, fire_rate_ms: 10, last_shot: now_ms }
}

impl Gun {
    /// A gun that fires once for each pull of the trigger.
    pub fn pistol(now_ms: u64) -> (g: Gun)
        ensures
            g == pistol_at(now_ms),
    {
        Gun { automatic: false, fire_rate_ms: 50, last_shot: now_ms }
    }

    /// A gun that fires for as long as the trigger is held.
    pub fn laser(now_ms: u64) -> (g: Gun)
        ensures
            g == laser_at(now_ms),
    {
        Gun { automatic: true, fire_rate_ms: 10, last_shot: now_ms }
    }

    /// Whether the time since the last shot is at least the gun's fire rate. A
    /// clock reading before the last shot counts as no time passed.
    pub open spec fn is_ready(&self, now_ms: u64) -> bool {
        if now_ms >= self.last_shot {
            now_ms - self.last_shot >= self.fire_rate_ms
        } else {
            self.fire_rate_ms == 0
        }
    }

    /// Whether the gun fires in a frame in which the trigger is held (`pressed`)
    /// or was pulled just now (`just_pressed`): a gun that is not automatic fires
    /// on each pull, an automatic one while held and ready.
    pub open spec fn fires(&self, pressed: bool, just_pressed: bool, now_ms: u64) -> bool {
        (!self.automatic && just_pressed) || (self.automatic && pressed && self.is_ready(now_ms))
    }

    /// Whether enough time has passed since the last shot.
    pub fn can_shoot(&self, now_ms: u64) -> (ready: bool)
        ensures
            ready == self.is_ready(now_ms),
    {
        if now_ms >= self.last_shot {
            now_ms - self.last_shot >= self.fire_rate_ms
        } else {
            self.fire_rate_ms == 0
        }
    }

    /// Notes that the gun fired at `now_ms`.
    pub fn shoot(&mut self, now_ms: u64)
        ensures
            *final(self) == (Gun { last_shot: now_ms, ..*old(self) }),
    {
        self.last_shot = now_ms;
    }

    /// Decides whether the gun fires in this frame and, if it does, notes the shot.
    pub fn pull_trigger(&mut self, pressed: bool, just_pressed: bool, now_ms: u64) -> (fired: bool)
        ensures
            fired == old(self).fires(pressed, just_pressed, now_ms),
            fired ==> *final(self) == (Gun { last_shot: now_ms, ..*old(self) }),
            !fired ==> *final(self) == *old(self),
    {
        if (!self.automatic && just_pressed) || (self.automatic && pressed && self.can_shoot(
            now_ms,
        )) {
            self.shoot(now_ms);
            true
        } else {
            false
        }
    }
}

/// The score of a run.
#[derive(Clone, Copy, Debug, PartialEq, Eq, Structural)]
pub struct Statistic {
    pub hits: i32,
    pub shots: i32,
    /// When the run began.
    pub scenario_starttime: u64,
    /// When the run ended; until then, when it began.
    pub scenario_endtime: u64,
    /// Whether the run has ended.
    pub scenario_ended: bool,
}

/// What the clock means for a run.
#[derive(Clone, Copy, Debug, PartialEq, Eq, Structural)]
pub enum RunClock {
    /// The run goes on for so many milliseconds more.
    Left(u64),
    /// The run has just used up its time and is to be ended.
    TimeUp,
    /// The run was ended before.
    Over,
}

impl Statistic {
    /// The score of a run that begins at `now_ms`.
    pub fn new(now_ms: u64) -> (s: Statistic)
        ensures
            s == (Statistic {
                hits: 0,
                shots: 0,
                scenario_starttime: now_ms,
                scenario_endtime: now_ms,
                scenario_ended: false,
            }),
    {
        Statistic {
            hits: 0,
            shots: 0,
            scenario_starttime: now_ms,
            scenario_endtime: now_ms,
            scenario_ended: false,
        }
    }

    /// What the clock means for the run at `now_ms`, for a run that lasts
    /// `duration_secs` seconds. A run whose time is just used up goes on; one
    /// that has run longer is to be ended. A clock reading before the beginning
    /// of the run counts as the beginning, and more time left than the result
    /// can hold as the most it can hold.
    pub open spec fn clock_at(&self, now_ms: u64, duration_secs: u64) -> RunClock {
        let elapsed = if now_ms >= self.scenario_starttime {
            now_ms - self.scenario_starttime
        } else {
            0
        };
        if self.scenario_ended {
            RunClock::Over
        } else if elapsed > duration_secs * 1000 {
            RunClock::TimeUp
        } else if duration_secs * 1000 - elapsed > u64::MAX {
            RunClock::Left(u64::MAX)
        } else {
            RunClock::Left((duration_secs * 1000 - elapsed) as u64)
        }
    }

    /// Reads the clock of the run.
    pub fn read_clock(&self, now_ms: u64, duration_secs: u64) -> (clock: RunClock)
        ensures
            clock == self.clock_at(now_ms, duration_secs),
    {
        let elapsed: u128 = if now_ms >= self.scenario_starttime {
            (now_ms - self.scenario_starttime) as u128
        } else {
            0
        };
        let duration: u128 = (duration_secs as u128) * 1000;
        if self.scenario_ended {
            RunClock::Over
        } else if elapsed > duration {
            RunClock::TimeUp
        } else if duration - elapsed > u64::MAX as u128 {
            RunClock::Left(u64::MAX)
        } else {
            RunClock::Left((duration - elapsed) as u64)
        }
    }

    /// Counts a shot that hit.
    pub fn add_hit(&mut self)
        requires
            old(self).hits < i32::MAX,
            old(self).shots < i32::MAX,
        ensures
            *final(self) == (Statistic {
                hits: (old(self).hits + 1) as i32,
                shots: (old(self).shots + 1) as i32,
                ..*old(self)
            }),
    {
        self.hits += 1;
        self.shots += 1;
    }

    /// Counts a shot that missed.
    pub fn add_shot(&mut self)
        requires
            old(self).shots < i32::MAX,
        ensures
            *final(self) == (Statistic { shots: (old(self).shots + 1) as i32, ..*old(self) }),
    {
        self.shots += 1;
    }

    /// The score after a frame in which the gun did or did not fire and a target
    /// was or was not hit: a shot that hit counts as a hit and a shot, a shot
    /// that missed as a shot, and a frame without a shot as nothing.
    pub open spec fn after_frame(self, gun_shot: bool, hit_target: bool) -> Statistic {
        if gun_shot && hit_target {
            Statistic { hits: (self.hits + 1) as i32, shots: (self.shots + 1) as i32, ..self }
        } else if gun_shot {
            Statistic { shots: (self.shots + 1) as i32, ..self }
        } else {
            self
        }
    }

    /// Counts what happened in one frame.
    pub fn record(&mut self, gun_shot: bool, hit_target: bool)
        requires
            gun_shot ==> old(self).shots < i32::MAX,
            gun_shot && hit_target ==> old(self).hits < i32::MAX,
        ensures
            *final(self) == old(self).after_frame(gun_shot, hit_target),
    {
        if gun_shot && hit_target {
            self.add_hit();
        } else if gun_shot {
            self.add_shot();
        }
    }

    /// Notes that the run ended at `now_ms`.
    pub fn end_scenario(&mut self, now_ms: u64)
        ensures
            *final(self) == (Statistic {
                scenario_endtime: now_ms,
                scenario_ended: true,
                ..*old(self)
            }),
    {
        self.scenario_endtime = now_ms;
        self.scenario_ended = true;
    }

    /// The whole seconds from the beginning of the run to its end; of a count
    /// too large for the result, its low 32 bits.
    pub fn scenario_playtime(&self) -> (secs: i32)
        requires
            self.scenario_starttime <= self.scenario_endtime,
        ensures
            secs == (((self.scenario_endtime - self.scenario_starttime) as u64) / 1000) as i32,
            (self.scenario_endtime - self.scenario_starttime) / 1000 <= i32::MAX ==> secs == (
            self.scenario_endtime - self.scenario_starttime) / 1000,
    {
        let whole: u64 = (self.scenario_endtime - self.scenario_starttime) / 1000;
        #[verifier::truncate]
        (whole as i32)
    }
}

/// The frames per second over a run of `playtime` seconds; zero for a run of less
/// than a second.
pub fn average_fps(total_frame_count: u32, playtime: i32) -> (fps: u32)
    ensures
        playtime < 1 ==> fps == 0,
        playtime >= 1 ==> fps == total_frame_count as int / playtime as int,
{
    if playtime < 1 {
        0
    } else {
        total_frame_count / (playtime as u32)
    }
}

/// A target: its hit points, and whatever else the caller keeps of it.
#[derive(Debug)]
pub struct Target<T> {
    pub hp: i32,
    pub body: T,
}

/// The targets in play, and how many there should be.
#[derive(Debug)]
pub struct TargetVec<T> {
    pub vec: Vec<Target<T>>,
    /// The number of targets that the scenario keeps in play.
    pub count: usize,
    /// The hit points of a fresh target.
    pub hp: i32,
}

/// The targets of `targets` that still have hit points, in their order.
pub open spec fn alive<T>(targets: Seq<Target<T>>) -> Seq<Target<T>>
    decreases targets.len(),
{
    if targets.len() == 0 {
        targets
    } else if targets.last().hp > 0 {
        alive(targets.drop_last()).push(targets.last())
    } else {
        alive(targets.drop_last())
    }
}

/// The target after it was or was not hit once.
pub open spec fn hit_once<T>(target: Target<T>, hit: bool) -> Target<T> {
    if hit {
        Target { hp: (target.hp - 1) as i32, body: target.body }
    } else {
        target
    }
}

/// What a shot did to the targets.
#[derive(Clone, Copy, Debug, PartialEq, Eq, Structural)]
pub struct Shot {
    /// The target that was hit, if one was.
    pub target: Option<usize>,
    /// Whether the target that was hit lost its last hit point.
    pub destroyed: bool,
}

/// Whether `found` names the first marked entry of `hits`: an entry that is
/// marked with none marked before it, or no entry where none is marked.
pub open spec fn names_first_marked(hits: Seq<bool>, found: Option<usize>) -> bool {
    match found {
        Some(i) => {
            &&& i < hits.len()
            &&& hits[i as int]
            &&& forall|k: int| 0 <= k < i ==> !(#[trigger] hits[k])
        },
        None => forall|k: int| 0 <= k < hits.len() ==> !(#[trigger] hits[k]),
    }
}

/// Only one answer names the first marked entry.
pub proof fn lemma_first_marked_unique(hits: Seq<bool>, one: Option<usize>, other: Option<usize>)
    requires
        names_first_marked(hits, one),
        names_first_marked(hits, other),
    ensures
        one == other,
{
    match (one, other) {
        (Some(i), Some(j)) => {
            if i < j {
                assert(!hits[i as int]);
            } else if j < i {
                assert(!hits[j as int]);
            }
        },
        (Some(i), None) => {
            assert(!hits[i as int]);
        },
        (None, Some(j)) => {
            assert(!hits[j as int]);
        },
        (None, None) => {},
    }
}

/// Among the targets that are left none is without hit points, and none of them
/// is new.
pub proof fn lemma_alive_sound<T>(targets: Seq<Target<T>>)
    ensures
        alive(targets).len() <= targets.len(),
        forall|k: int| 0 <= k < alive(targets).len() ==> (#[trigger] alive(targets)[k]).hp > 0,
        forall|k: int|
            0 <= k < alive(targets).len() ==> targets.contains(#[trigger] alive(targets)[k]),
    decreases targets.len(),
{
    if targets.len() > 0 {
        let head = targets.drop_last();
        lemma_alive_sound(head);
        assert forall|k: int| 0 <= k < alive(targets).len() implies targets.contains(
            #[trigger] alive(targets)[k],
        ) by {
            if k < alive(head).len() {
                let t = alive(head)[k];
                assert(head.contains(t));
                let j = choose|j: int| 0 <= j < head.len() && head[j] == t;
                assert(targets[j] == t);
            } else {
                assert(targets[targets.len() - 1] == alive(targets)[k]);
            }
        }
    }
}

/// Where every target has hit points, all are left.
pub proof fn lemma_alive_all<T>(targets: Seq<Target<T>>)
    requires
        forall|k: int| 0 <= k < targets.len() ==> (#[trigger] targets[k]).hp > 0,
    ensures
        alive(targets) == targets,
    decreases targets.len(),
{
    if targets.len() > 0 {
        let head = targets.drop_last();
        lemma_alive_all(head);
        assert(head.push(targets.last()) =~= targets);
    }
}

/// Once the targets without hit points are gone, there are none left to take out.
pub proof fn lemma_alive_settles<T>(targets: Seq<Target<T>>)
    ensures
        alive(alive(targets)) == alive(targets),
{
    lemma_alive_sound(targets);
    lemma_alive_all(alive(targets));
}

/// The targets after a shot that was spent on `target`, or on none: that target
/// has lost one hit point, and every other is as it was.
pub open spec fn after_shot<T>(targets: Seq<Target<T>>, target: Option<usize>) -> Seq<Target<T>> {
    Seq::new(targets.len(), |k: int| hit_once(targets[k], target matches Some(i) && i == k))
}

/// One shot that finds exactly one target in the line of fire takes one hit point
/// from that target and from no other, and raises the hits and the shots of the
/// score by one each.
pub proof fn lemma_one_shot_one_hit<T>(
    targets: Seq<Target<T>>,
    stats: Statistic,
    hits: Seq<bool>,
    found: Option<usize>,
    t: int,
)
    requires
        hits.len() == targets.len(),
        names_first_marked(hits, found),
        0 <= t < hits.len(),
        forall|k: int| 0 <= k < hits.len() ==> (#[trigger] hits[k] <==> k == t),
        targets[t].hp > i32::MIN,
        stats.hits < i32::MAX,
        stats.shots < i32::MAX,
    ensures
        found matches Some(i) && i == t,
        after_shot(targets, found).len() == targets.len(),
        after_shot(targets, found)[t].hp == targets[t].hp - 1,
        after_shot(targets, found)[t].body == targets[t].body,
        forall|k: int|
            0 <= k < targets.len() && k != t ==> #[trigger] after_shot(targets, found)[k]
                == targets[k],
        stats.after_frame(true, found is Some).hits == stats.hits + 1,
        stats.after_frame(true, found is Some).shots == stats.shots + 1,
{
    assert(hits[t]);
    match found {
        Some(i) => {
            assert(hits[i as int]);
        },
        None => {},
    }
}

/// A shot that finds no target in the line of fire leaves every target as it was
/// and raises only the shots of the score.
pub proof fn lemma_shot_without_hit<T>(
    targets: Seq<Target<T>>,
    stats: Statistic,
    hits: Seq<bool>,
    found: Option<usize>,
)
    requires
        hits.len() == targets.len(),
        names_first_marked(hits, found),
        forall|k: int| 0 <= k < hits.len() ==> !(#[trigger] hits[k]),
        stats.shots < i32::MAX,
    ensures
        found is None,
        after_shot(targets, found) == targets,
        stats.after_frame(true, found is Some).hits == stats.hits,
        stats.after_frame(true, found is Some).shots == stats.shots + 1,
{
    match found {
        Some(i) => {
            assert(hits[i as int]);
        },
        None => {},
    }
    assert(after_shot(targets, found) =~= targets);
}

impl<T> TargetVec<T> {
    /// A pool without targets that is to hold `count`, each with `hp` hit points.
    pub fn empty(count: usize, hp: i32) -> (pool: TargetVec<T>)
        ensures
            pool.vec@.len() == 0,
            pool.count == count,
            pool.hp == hp,
    {
        TargetVec { vec: Vec::new(), count, hp }
    }

    /// Whether the pool holds fewer targets than it should.
    pub open spec fn is_short(&self) -> bool {
        self.vec@.len() < self.count
    }

    /// Puts a fresh target into play.
    pub fn add_target(&mut self, body: T)
        ensures
            final(self).vec@ == old(self).vec@.push(Target { hp: old(self).hp, body }),
            final(self).count == old(self).count,
            final(self).hp == old(self).hp,
    {
        self.vec.push(Target { hp: self.hp, body });
    }

    /// Takes one hit point from target `i` and tells whether that was its last.
    pub fn register_hit(&mut self, i: usize) -> (destroyed: bool)
        requires
            i < old(self).vec@.len(),
            old(self).vec@[i as int].hp > i32::MIN,
        ensures
            final(self).vec@.len() == old(self).vec@.len(),
            final(self).vec@[i as int].hp == old(self).vec@[i as int].hp - 1,
            final(self).vec@[i as int].body == old(self).vec@[i as int].body,
            forall|k: int|
                0 <= k < old(self).vec@.len() && k != i ==> final(self).vec@[k] == old(
                    self,
                ).vec@[k],
            final(self).count == old(self).count,
            final(self).hp == old(self).hp,
            destroyed == (final(self).vec@[i as int].hp < 1),
    {
        let left = self.vec[i].hp - 1;
        self.vec[i].hp = left;
        left < 1
    }

    /// Lets a shot take effect: of the targets that `hits` marks as standing in
    /// the line of fire, the first loses one hit point. Tells which one that was,
    /// if there was one, and whether it lost its last hit point.
    pub fn apply_shot(&mut self, hits: &Vec<bool>) -> (shot: Shot)
        requires
            hits@.len() == old(self).vec@.len(),
            forall|i: usize|
                names_first_marked(hits@, Some(i)) ==> (#[trigger] old(self).vec@[i as int]).hp
                    > i32::MIN,
        ensures
            names_first_marked(hits@, shot.target),
            final(self).vec@.len() == old(self).vec@.len(),
            forall|k: int|
                0 <= k < old(self).vec@.len() ==> (#[trigger] final(self).vec@[k]) == hit_once(
                    old(self).vec@[k],
                    shot.target == Some(k as usize),
                ),
            shot.destroyed == (match shot.target {
                Some(i) => final(self).vec@[i as int].hp < 1,
                None => false,
            }),
            final(self).count == old(self).count,
            final(self).hp == old(self).hp,
    {
        let mut i: usize = 0;
        while i < hits.len()
            invariant
                i <= hits@.len(),
                hits@.len() == self.vec@.len(),
                *self == *old(self),
                forall|j: usize|
                    names_first_marked(hits@, Some(j)) ==> (#[trigger] self.vec@[j as int]).hp
                        > i32::MIN,
                forall|k: int| 0 <= k < i ==> !(#[trigger] hits@[k]),
            decreases hits@.len() - i,
        {
            if hits[i] {
                assert(names_first_marked(hits@, Some(i)));
                let destroyed = self.register_hit(i);
                return Shot { target: Some(i), destroyed };
            }
            i = i + 1;
        }
        Shot { target: None, destroyed: false }
    }

    /// Settles what the trigger did in one frame. Where the gun fired, the first
    /// of the targets that `hits` marks as standing in the line of fire loses one
    /// hit point, and the score counts a hit and a shot; where it fired and no
    /// target stood there, the score counts a shot. Where the gun did not fire,
    /// nothing changes.
    pub fn settle_frame(&mut self, stats: &mut Statistic, gun_shot: bool, hits: &Vec<bool>) -> (shot:
        Shot)
        requires
            hits@.len() == old(self).vec@.len(),
            gun_shot ==> old(stats).shots < i32::MAX,
            gun_shot ==> forall|i: usize|
                names_first_marked(hits@, Some(i)) ==> (#[trigger] old(self).vec@[i as int]).hp
                    > i32::MIN && old(stats).hits < i32::MAX,
        ensures
            gun_shot ==> names_first_marked(hits@, shot.target),
            !gun_shot ==> shot.target is None,
            final(self).vec@ == after_shot(old(self).vec@, shot.target),
            shot.destroyed == (match shot.target {
                Some(i) => final(self).vec@[i as int].hp < 1,
                None => false,
            }),
            final(self).count == old(self).count,
            final(self).hp == old(self).hp,
            *final(stats) == old(stats).after_frame(gun_shot, shot.target is Some),
    {
        if gun_shot {
            let shot = self.apply_shot(hits);
            stats.record(true, shot.target.is_some());
            let len: usize = self.vec.len();
            assert(len == self.vec@.len() && self.vec@ =~= after_shot(old(self).vec@, shot.target));
            shot
        } else {
            assert(self.vec@ =~= after_shot(old(self).vec@, None));
            Shot { target: None, destroyed: false }
        }
    }

    /// Takes the targets without hit points out of play and tells whether a
    /// fresh one is to be put in their place.
    pub fn maintain(&mut self) -> (spawn: bool)
        ensures
            final(self).vec@ == alive(old(self).vec@),
            final(self).count == old(self).count,
            final(self).hp == old(self).hp,
            spawn == final(self).is_short(),
    {
        let ghost before = self.vec@;
        let mut kept: usize = 0;
        let mut seen: Ghost<int> = Ghost(0);
        assert(self.vec@ =~= alive(before.take(0)) + before.skip(0));
        while kept < self.vec.len()
            invariant
                0 <= seen@ <= before.len(),
                kept == alive(before.take(seen@)).len(),
                self.vec@ == alive(before.take(seen@)) + before.skip(seen@),
                self.count == old(self).count,
                self.hp == old(self).hp,
            decreases before.len() - seen@,
        {
            let ghost head = alive(before.take(seen@));
            proof {
                assert(seen@ < before.len());
                assert(self.vec@[kept as int] == before[seen@]);
                assert(before.take(seen@ + 1).drop_last() =~= before.take(seen@));
                assert(before.take(seen@ + 1).last() == before[seen@]);
            }
            if self.vec[kept].hp > 0 {
                kept = kept + 1;
                proof {
                    assert(self.vec@ =~= head.push(before[seen@]) + before.skip(seen@ + 1));
                }
            } else {
                let gone = self.vec.remove(kept);
                proof {
                    assert(self.vec@ =~= head + before.skip(seen@ + 1));
                }
            }
            proof {
                seen@ = seen@ + 1;
            }
        }
        proof {
            assert(seen@ == before.len());
            assert(before.take(seen@) =~= before);
            assert(self.vec@ =~= alive(before));
        }
        self.vec.len() < self.count
    }
}

} // verus!
