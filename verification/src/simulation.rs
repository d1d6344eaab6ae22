//! The simulation: a flock, its obstacles and its switches, and the tick
//! that moves them.

use crate::config::{Config, COORD_LIMIT, FORCE_LIMIT, PARAM_LIMIT};
use crate::control::{
    command_of, rule_named, Command, Entity, Frame, Key, Pause, Rule, RuleState,
};
use crate::entities::{next_position, next_velocity, on_field, Bird, Obstacle};
use crate::rules::{
    alignment, alignment_steering, cohesion, cohesion_steering, flock_wf, is_neighbour,
    lemma_alone_no_steering, lemma_no_neighbours, lemma_no_neighbours_no_steering,
    obstacle_avoidance, obstacle_positions, obstacle_steering, obstacles_wf, separation,
    separation_steering,
};
use crate::random::sample_within;
use crate::vector::{Point2, Vec2, Vector2};
use vstd::prelude::*;

verus! {

/// The birds that are alive, in their order.
pub open spec fn living_birds(birds: Seq<Bird>) -> Seq<Bird> {
    birds.filter(|bird: Bird| bird.is_alive)
}

/// The obstacles that are alive, in their order.
pub open spec fn living_obstacles(obstacles: Seq<Obstacle>) -> Seq<Obstacle> {
    obstacles.filter(|obstacle: Obstacle| obstacle.is_alive)
}

/// The birds that are alive, in their order.
pub fn retain_living_birds(birds: &Vec<Bird>) -> (kept: Vec<Bird>)
    ensures
        kept@ == living_birds(birds@),
        forall|k: int|
            0 <= k < kept.len() ==> (#[trigger] kept[k]).is_alive && birds@.contains(kept[k]),
{
    let mut kept: Vec<Bird> = Vec::new();
    let mut i: usize = 0;
    proof {
        reveal(Seq::filter);
        assert(birds@.take(0) =~= Seq::<Bird>::empty());
    }
    while i < birds.len()
        invariant
            i <= birds.len(),
            kept@ == living_birds(birds@.take(i as int)),
            forall|k: int|
                0 <= k < kept.len() ==> (#[trigger] kept[k]).is_alive && birds@.contains(kept[k]),
        decreases birds.len() - i,
    {
        proof {
            reveal(Seq::filter);
            assert(birds@.take(i + 1).drop_last() =~= birds@.take(i as int));
            assert(birds@.take(i + 1).last() == birds@[i as int]);
        }
        if birds[i].is_alive {
            kept.push(birds[i]);
        }
        i = i + 1;
    }
    proof {
        assert(birds@.take(birds.len() as int) =~= birds@);
    }
    kept
}

/// The obstacles that are alive, in their order.
pub fn retain_living_obstacles(obstacles: &Vec<Obstacle>) -> (kept: Vec<Obstacle>)
    ensures
        kept@ == living_obstacles(obstacles@),
        forall|k: int|
            0 <= k < kept.len() ==> (#[trigger] kept[k]).is_alive && obstacles@.contains(
                kept[k],
            ),
{
    let mut kept: Vec<Obstacle> = Vec::new();
    let mut i: usize = 0;
    proof {
        reveal(Seq::filter);
        assert(obstacles@.take(0) =~= Seq::<Obstacle>::empty());
    }
    while i < obstacles.len()
        invariant
            i <= obstacles.len(),
            kept@ == living_obstacles(obstacles@.take(i as int)),
            forall|k: int|
                0 <= k < kept.len() ==> (#[trigger] kept[k]).is_alive && obstacles@.contains(
                    kept[k],
                ),
        decreases obstacles.len() - i,
    {
        proof {
            reveal(Seq::filter);
            assert(obstacles@.take(i + 1).drop_last() =~= obstacles@.take(i as int));
            assert(obstacles@.take(i + 1).last() == obstacles@[i as int]);
        }
        if obstacles[i].is_alive {
            kept.push(obstacles[i]);
        }
        i = i + 1;
    }
    proof {
        assert(obstacles@.take(obstacles.len() as int) =~= obstacles@);
    }
    kept
}

/// What a simulation stands for in contracts: its birds and obstacles as
/// sequences, and its switches.
pub struct World {
    pub birds: Seq<Bird>,
    pub obstacles: Seq<Obstacle>,
    pub rules: RuleState,
    pub config: Config,
    pub spawn_cooldown: i64,
    pub pause: Pause,
    pub spawn_entity: Entity,
}

impl World {
    /// The configuration can be simulated, and every bird and obstacle is
    /// small enough to compute with.
    pub open spec fn wf(self) -> bool {
        self.config.wf() && flock_wf(self.birds) && obstacles_wf(self.obstacles)
    }

    /// The steering that alignment gives to `me`: zero while the rule is off.
    pub open spec fn align_of(self, me: Bird) -> Vec2 {
        if self.rules.alignment {
            alignment_steering(me, self.birds, self.config)
        } else {
            Vec2::zero()
        }
    }

    /// The steering that separation gives to `me`: zero while the rule is
    /// off.
    pub open spec fn sep_of(self, me: Bird) -> Vec2 {
        if self.rules.separation {
            separation_steering(me, self.birds, self.config)
        } else {
            Vec2::zero()
        }
    }

    /// The steering that cohesion gives to `me`: zero while the rule is off.
    pub open spec fn coh_of(self, me: Bird) -> Vec2 {
        if self.rules.cohesion {
            cohesion_steering(me, self.birds, self.config)
        } else {
            Vec2::zero()
        }
    }

    /// The part of the jitter that reaches a bird: all of it while random
    /// movement is on, none of it while it is off.
    pub open spec fn random_of(self, jitter: Vec2) -> Vec2 {
        if self.rules.random_movement {
            jitter
        } else {
            Vec2::zero()
        }
    }

    /// The steering that the obstacles give to `me`. No switch turns it off.
    pub open spec fn obst_of(self, me: Bird) -> Vec2 {
        obstacle_steering(me, self.obstacles, self.config)
    }

    /// The bird `me` after one tick in this world, under the given jitter.
    /// The steering is read from the world as it is before the tick.
    pub open spec fn moved_bird(self, me: Bird, jitter: Vec2) -> Bird {
        me.updated(
            self.align_of(me),
            self.sep_of(me),
            self.coh_of(me),
            self.random_of(jitter),
            self.obst_of(me),
            self.config.max_speed as int,
            self.config.screen_width as int,
            self.config.screen_height as int,
        )
    }

    /// Every bird after one tick, the bird at each place under the jitter at
    /// that place.
    pub open spec fn moved(self, jitter: Seq<Vector2>) -> Seq<Bird> {
        Seq::new(self.birds.len(), |i: int| self.moved_bird(self.birds[i], jitter[i]@))
    }

    /// The jitter holds one vector for each bird, and while random movement
    /// is on none of them is larger than the configuration allows.
    pub open spec fn accepts(self, jitter: Seq<Vector2>) -> bool {
        &&& jitter.len() == self.birds.len()
        &&& self.rules.random_movement ==> forall|i: int|
            0 <= i < jitter.len() ==> (#[trigger] jitter[i])@.within(
                self.config.random_movement as int,
            )
    }

    /// The world after the flock has moved by one tick: every bird is moved,
    /// then the birds and obstacles that are not alive are taken out.
    pub open spec fn advanced(self, jitter: Seq<Vector2>) -> World {
        World {
            birds: living_birds(self.moved(jitter)),
            obstacles: living_obstacles(self.obstacles),
            ..self
        }
    }

    /// The world after a switch was flipped by its name; a name that names
    /// no switch changes nothing.
    pub open spec fn rule_toggled(self, name: Seq<char>) -> World {
        World { rules: self.rules.toggled_by_name(name), ..self }
    }

    /// The world after the pause command.
    pub open spec fn pause_toggled(self) -> World {
        World { pause: self.pause.toggled(), ..self }
    }

    /// The world after the command that changes what a click spawns.
    pub open spec fn spawn_toggled(self) -> World {
        World { spawn_entity: self.spawn_entity.toggled(), ..self }
    }

    /// The world after every bird was marked as not alive. The next tick
    /// takes them out.
    pub open spec fn birds_killed(self) -> World {
        World {
            birds: Seq::new(
                self.birds.len(),
                |i: int| (Bird { is_alive: false, ..self.birds[i] }),
            ),
            ..self
        }
    }

    /// The world after every obstacle was marked as not alive. The next tick
    /// takes them out.
    pub open spec fn obstacles_killed(self) -> World {
        World {
            obstacles: Seq::new(
                self.obstacles.len(),
                |i: int| (Obstacle { is_alive: false, ..self.obstacles[i] }),
            ),
            ..self
        }
    }

    /// The world after a command.
    pub open spec fn after_command(self, command: Command) -> World {
        match command {
            Command::Toggle(rule) => World { rules: self.rules.toggled(rule), ..self },
            Command::TogglePause => self.pause_toggled(),
            Command::ToggleSpawn => self.spawn_toggled(),
            Command::KillBirds => self.birds_killed(),
            Command::KillObstacles => self.obstacles_killed(),
            Command::Quit => self,
            Command::Nothing => self,
        }
    }

    /// What the next frame shows.
    pub open spec fn frame(self) -> Frame {
        match self.pause {
            Pause::Running => Frame::Scene,
            Pause::ToPause => Frame::PauseMenu,
            Pause::Paused => Frame::Nothing,
        }
    }

    /// The world after a frame was shown.
    pub open spec fn after_frame(self) -> World {
        World { pause: self.pause.after_frame(), ..self }
    }

    /// The world after the time of one tick has passed on the spawn timer,
    /// which stops at the least `i64`.
    pub open spec fn cooled(self) -> World {
        let left = self.spawn_cooldown - self.config.tick_time;
        World {
            spawn_cooldown: if left < i64::MIN {
                i64::MIN
            } else {
                left as i64
            },
            ..self
        }
    }

    /// A click may spawn: the spawn timer has run out.
    pub open spec fn can_spawn(self) -> bool {
        self.spawn_cooldown <= 0
    }

    /// The world after a click at `at`. Where the spawn timer has run out,
    /// a bird of the given velocity or an obstacle of the configured radius
    /// is added at the end, whichever the world is set to spawn, and the timer
    /// starts again; else nothing changes.
    pub open spec fn spawned(self, at: Point2, velocity: Vector2) -> World {
        if !self.can_spawn() {
            self
        } else {
            match self.spawn_entity {
                Entity::Bird => World {
                    birds: self.birds.push(
                        Bird {
                            pos: at,
                            vel: velocity,
                            align: Vector2 { x: 0, y: 0 },
                            sep: Vector2 { x: 0, y: 0 },
                            coh: Vector2 { x: 0, y: 0 },
                            obst: Vector2 { x: 0, y: 0 },
                            random: Vector2 { x: 0, y: 0 },
                            is_alive: true,
                        },
                    ),
                    spawn_cooldown: self.config.spawn_cooldown,
                    ..self
                },
                Entity::Obstacle => World {
                    obstacles: self.obstacles.push(
                        Obstacle { pos: at, radius: self.config.obstacle_radius, is_alive: true },
                    ),
                    spawn_cooldown: self.config.spawn_cooldown,
                    ..self
                },
            }
        }
    }

    /// The world after one tick of a running simulation: the spawn timer
    /// goes on, a click at `pointer` spawns if it may, and the flock moves.
    pub open spec fn ticked(
        self,
        pointer: Option<Point2>,
        velocity: Vector2,
        jitter: Seq<Vector2>,
    ) -> World {
        self.before_move(pointer, velocity).advanced(jitter)
    }

    /// The world in the middle of a tick: the spawn timer has gone on and a
    /// click at `pointer` has spawned if it may, but the flock has not moved.
    pub open spec fn before_move(self, pointer: Option<Point2>, velocity: Vector2) -> World {
        match pointer {
            Some(at) => self.cooled().spawned(at, velocity),
            None => self.cooled(),
        }
    }
}

/// The steering that the rules give to one bird in one tick.
#[derive(Clone, Copy, Debug, PartialEq, Eq, Structural)]
pub struct Steering {
    pub align: Vector2,
    pub sep: Vector2,
    pub coh: Vector2,
    pub random: Vector2,
    pub obst: Vector2,
}

/// A flock, its obstacles and its switches.
pub struct Simulation {
    pub birds: Vec<Bird>,
    pub obstacles: Vec<Obstacle>,
    pub rules: RuleState,
    pub config: Config,
    /// The time until the next spawn, in millionths of a second; at zero or
    /// below a click spawns.
    pub spawn_cooldown: i64,
    pub pause: Pause,
    pub spawn_entity: Entity,
}

impl View for Simulation {
    type V = World;

    open spec fn view(&self) -> World {
        World {
            birds: self.birds@,
            obstacles: self.obstacles@,
            rules: self.rules,
            config: self.config,
            spawn_cooldown: self.spawn_cooldown,
            pause: self.pause,
            spawn_entity: self.spawn_entity,
        }
    }
}

impl Simulation {
    /// The steering that the rules give to the bird `me`, read from the
    /// flock and the obstacles as they are. A rule that is switched off gives
    /// the zero vector, whatever the neighbours of `me`; the jitter is
    /// passed on while random movement is on.
    pub fn steering_for(&self, me: &Bird, jitter: Vector2) -> (steering: Steering)
        requires
            self@.wf(),
            me.wf(),
            self.rules.random_movement ==> jitter@.within(self.config.random_movement as int),
        ensures
            steering.align@ == self@.align_of(*me),
            steering.sep@ == self@.sep_of(*me),
            steering.coh@ == self@.coh_of(*me),
            steering.random@ == self@.random_of(jitter@),
            steering.obst@ == self@.obst_of(*me),
            !self.rules.alignment ==> steering.align@ == Vec2::zero(),
            !self.rules.separation ==> steering.sep@ == Vec2::zero(),
            !self.rules.cohesion ==> steering.coh@ == Vec2::zero(),
            !self.rules.random_movement ==> steering.random@ == Vec2::zero(),
            steering.align@.within(FORCE_LIMIT as int),
            steering.sep@.within(FORCE_LIMIT as int),
            steering.coh@.within(FORCE_LIMIT as int),
            steering.obst@.within(FORCE_LIMIT as int),
            steering.random@.within(PARAM_LIMIT as int),
    {
        let align: Vector2 = if self.rules.alignment {
            alignment(me, &self.birds, &self.config)
        } else {
            Vector2::zero()
        };
        let sep: Vector2 = if self.rules.separation {
            separation(me, &self.birds, &self.config)
        } else {
            Vector2::zero()
        };
        let coh: Vector2 = if self.rules.cohesion {
            cohesion(me, &self.birds, &self.config)
        } else {
            Vector2::zero()
        };
        let random: Vector2 = if self.rules.random_movement {
            jitter
        } else {
            Vector2::zero()
        };
        let obst: Vector2 = obstacle_avoidance(me, &self.obstacles, &self.config);
        Steering { align, sep, coh, random, obst }
    }

    /// Moves the flock by one tick under the given jitter, one vector for
    /// each bird. Every bird is steered by what the flock and the obstacles
    /// were before the tick, so the order of the birds does not matter. Then
    /// the birds and obstacles that are not alive are taken out.
    ///
    /// After the tick no bird is faster than the top speed, and a bird that
    /// was on the field is still on it.
    pub fn advance(&mut self, jitter: &Vec<Vector2>)
        requires
            old(self)@.wf(),
            old(self)@.accepts(jitter@),
        ensures
            final(self)@ == old(self)@.advanced(jitter@),
            final(self)@.wf(),
            forall|i: int|
                0 <= i < final(self).birds.len() ==> (#[trigger] final(self).birds[i]).vel@.norm_sq()
                    <= final(self).config.max_speed * final(self).config.max_speed,
            (forall|i: int|
                0 <= i < old(self).birds.len() ==> on_field(
                    (#[trigger] old(self).birds[i]).pos@,
                    old(self).config.screen_width as int,
                    old(self).config.screen_height as int,
                )) ==> (forall|i: int|
                0 <= i < final(self).birds.len() ==> on_field(
                    (#[trigger] final(self).birds[i]).pos@,
                    final(self).config.screen_width as int,
                    final(self).config.screen_height as int,
                )),
    {
        let ghost before = self@;
        let mut moved: Vec<Bird> = Vec::new();
        let mut i: usize = 0;
        while i < self.birds.len()
            invariant
                i <= self.birds.len(),
                self@ == before,
                before.wf(),
                before.accepts(jitter@),
                moved.len() == i,
                forall|k: int|
                    0 <= k < i ==> #[trigger] moved[k] == before.moved_bird(
                        before.birds[k],
                        jitter[k]@,
                    ),
                forall|k: int|
                    0 <= k < i ==> (#[trigger] moved[k]).wf() && moved[k].vel@.norm_sq()
                        <= before.config.max_speed * before.config.max_speed,
                forall|k: int|
                    0 <= k < i && on_field(
                        before.birds[k].pos@,
                        before.config.screen_width as int,
                        before.config.screen_height as int,
                    ) ==> on_field(
                        (#[trigger] moved[k]).pos@,
                        before.config.screen_width as int,
                        before.config.screen_height as int,
                    ),
            decreases self.birds.len() - i,
        {
            let mut bird: Bird = self.birds[i];
            assert(bird.wf());
            assert(before.rules.random_movement ==> jitter[i as int]@.within(
                before.config.random_movement as int,
            ));
            let steering: Steering = self.steering_for(&bird, jitter[i]);
            bird.update(
                steering.align,
                steering.sep,
                steering.coh,
                steering.random,
                steering.obst,
                self.config.max_speed,
                self.config.screen_width,
                self.config.screen_height,
            );
            moved.push(bird);
            i = i + 1;
        }
        assert(moved@ =~= before.moved(jitter@));
        let birds: Vec<Bird> = retain_living_birds(&moved);
        let obstacles: Vec<Obstacle> = retain_living_obstacles(&self.obstacles);
        self.birds = birds;
        self.obstacles = obstacles;
    }

    /// Tells whether the configuration can be simulated and every bird and
    /// obstacle is small enough to compute with.
    pub fn is_valid(&self) -> (b: bool)
        ensures
            b == self@.wf(),
    {
        if !self.config.is_valid() {
            return false;
        }
        let mut i: usize = 0;
        while i < self.birds.len()
            invariant
                i <= self.birds.len(),
                forall|k: int| 0 <= k < i ==> (#[trigger] self.birds[k]).wf(),
            decreases self.birds.len() - i,
        {
            if !self.birds[i].is_valid() {
                return false;
            }
            i = i + 1;
        }
        let mut j: usize = 0;
        while j < self.obstacles.len()
            invariant
                j <= self.obstacles.len(),
                flock_wf(self.birds@),
                forall|k: int| 0 <= k < j ==> (#[trigger] self.obstacles[k]).wf(),
            decreases self.obstacles.len() - j,
        {
            if !self.obstacles[j].is_valid() {
                return false;
            }
            j = j + 1;
        }
        true
    }

    /// A running simulation of one bird, which stands in the middle of the
    /// field and moves at the spawn speed along both axes. The four rules are
    /// on, the overlays are off, a click spawns a bird, and the spawn timer
    /// has its full time to run.
    pub fn new(config: Config) -> (simulation: Simulation)
        requires
            config.wf(),
        ensures
            simulation@.wf(),
            simulation@ == (World {
                birds: seq![
                    Bird {
                        pos: Point2 {
                            x: (config.screen_width / 2) as i64,
                            y: (config.screen_height / 2) as i64,
                        },
                        vel: Vector2 { x: config.spawn_speed, y: config.spawn_speed },
                        align: Vector2 { x: 0, y: 0 },
                        sep: Vector2 { x: 0, y: 0 },
                        coh: Vector2 { x: 0, y: 0 },
                        obst: Vector2 { x: 0, y: 0 },
                        random: Vector2 { x: 0, y: 0 },
                        is_alive: true,
                    },
                ],
                obstacles: Seq::empty(),
                rules: RuleState {
                    separation: true,
                    alignment: true,
                    cohesion: true,
                    random_movement: true,
                    debug_circles: false,
                    debug_vectors: false,
                },
                config,
                spawn_cooldown: config.spawn_cooldown,
                pause: Pause::Running,
                spawn_entity: Entity::Bird,
            }),
    {
        let centre: Point2 = Point2::new(config.screen_width / 2, config.screen_height / 2);
        let first: Bird = Bird::new(centre, Vector2::new(config.spawn_speed, config.spawn_speed));
        let mut birds: Vec<Bird> = Vec::new();
        birds.push(first);
        let simulation = Simulation {
            birds,
            obstacles: Vec::new(),
            rules: RuleState::new(),
            config,
            spawn_cooldown: config.spawn_cooldown,
            pause: Pause::Running,
            spawn_entity: Entity::Bird,
        };
        assert(simulation@.birds =~= seq![first]);
        assert(simulation@.obstacles =~= Seq::empty());
        simulation
    }

    /// Flips the switch that `rule` names and returns it, so that the caller
    /// can report it; a name that names no switch changes nothing and
    /// returns `None`.
    pub fn toggle_rule(&mut self, rule: &str) -> (flipped: Option<Rule>)
        ensures
            flipped == rule_named(rule@),
            final(self)@ == old(self)@.rule_toggled(rule@),
    {
        self.rules.toggle_rule(rule)
    }

    /// The pause command: a running simulation is to pause with the next
    /// frame, any other runs again.
    pub fn toggle_pause(&mut self)
        ensures
            final(self)@ == old(self)@.pause_toggled(),
    {
        match self.pause {
            Pause::Running => {
                self.pause = Pause::ToPause;
            },
            Pause::ToPause => {
                self.pause = Pause::Running;
            },
            Pause::Paused => {
                self.pause = Pause::Running;
            },
        }
    }

    /// Changes what a click spawns: a bird, or an obstacle.
    pub fn toggle_spawn(&mut self)
        ensures
            final(self)@ == old(self)@.spawn_toggled(),
    {
        match self.spawn_entity {
            Entity::Bird => {
                self.spawn_entity = Entity::Obstacle;
            },
            Entity::Obstacle => {
                self.spawn_entity = Entity::Bird;
            },
        }
    }

    /// Marks every bird as not alive. The next tick takes them out.
    pub fn kill_birds(&mut self)
        ensures
            final(self)@ == old(self)@.birds_killed(),
            old(self)@.wf() ==> final(self)@.wf(),
    {
        let ghost before = self@;
        let mut i: usize = 0;
        while i < self.birds.len()
            invariant
                i <= self.birds.len(),
                self.birds.len() == before.birds.len(),
                self@ == (World { birds: self.birds@, ..before }),
                forall|k: int|
                    0 <= k < i ==> #[trigger] self.birds[k] == (Bird {
                        is_alive: false,
                        ..before.birds[k]
                    }),
                forall|k: int| i <= k < self.birds.len() ==> #[trigger] self.birds[k] == before.birds[k],
            decreases self.birds.len() - i,
        {
            let bird: Bird = self.birds[i];
            self.birds.set(i, Bird { is_alive: false, ..bird });
            i = i + 1;
        }
        assert(self.birds@ =~= before.birds_killed().birds);
    }

    /// Marks every obstacle as not alive. The next tick takes them out.
    pub fn kill_obstacles(&mut self)
        ensures
            final(self)@ == old(self)@.obstacles_killed(),
            old(self)@.wf() ==> final(self)@.wf(),
    {
        let ghost before = self@;
        let mut i: usize = 0;
        while i < self.obstacles.len()
            invariant
                i <= self.obstacles.len(),
                self.obstacles.len() == before.obstacles.len(),
                self@ == (World { obstacles: self.obstacles@, ..before }),
                forall|k: int|
                    0 <= k < i ==> #[trigger] self.obstacles[k] == (Obstacle {
                        is_alive: false,
                        ..before.obstacles[k]
                    }),
                forall|k: int|
                    i <= k < self.obstacles.len() ==> #[trigger] self.obstacles[k]
                        == before.obstacles[k],
            decreases self.obstacles.len() - i,
        {
            let obstacle: Obstacle = self.obstacles[i];
            self.obstacles.set(i, Obstacle { is_alive: false, ..obstacle });
            i = i + 1;
        }
        assert(self.obstacles@ =~= before.obstacles_killed().obstacles);
    }

    /// Carries out the command on a key, and tells whether the key asks to
    /// quit.
    pub fn key_down_event(&mut self, key: Key) -> (quit: bool)
        ensures
            final(self)@ == old(self)@.after_command(command_of(key)),
            quit == (command_of(key) == Command::Quit),
            old(self)@.wf() ==> final(self)@.wf(),
    {
        match key.command() {
            Command::Toggle(rule) => {
                self.rules.toggle(rule);
                false
            },
            Command::TogglePause => {
                self.toggle_pause();
                false
            },
            Command::ToggleSpawn => {
                self.toggle_spawn();
                false
            },
            Command::KillBirds => {
                self.kill_birds();
                false
            },
            Command::KillObstacles => {
                self.kill_obstacles();
                false
            },
            Command::Quit => true,
            Command::Nothing => false,
        }
    }

    /// Tells what the frame that is due shows, and puts a pause that was
    /// asked for in force.
    pub fn draw(&mut self) -> (frame: Frame)
        ensures
            frame == old(self)@.frame(),
            final(self)@ == old(self)@.after_frame(),
    {
        match self.pause {
            Pause::Running => Frame::Scene,
            Pause::ToPause => {
                self.pause = Pause::Paused;
                Frame::PauseMenu
            },
            Pause::Paused => Frame::Nothing,
        }
    }

    /// Lets the time of one tick pass on the spawn timer.
    pub fn cool_down(&mut self)
        requires
            0 <= old(self).config.tick_time,
        ensures
            final(self)@ == old(self)@.cooled(),
    {
        if self.spawn_cooldown >= i64::MIN + self.config.tick_time {
            self.spawn_cooldown = self.spawn_cooldown - self.config.tick_time;
        } else {
            self.spawn_cooldown = i64::MIN;
        }
    }

    /// A click at `at`, for a bird that would start with the given velocity.
    /// Where the spawn timer has run out, the bird or an obstacle is added,
    /// whichever the simulation is set to spawn, the timer starts again, and
    /// the result is `true`. Else nothing changes and the result is `false`.
    pub fn try_spawn_with(&mut self, at: Point2, velocity: Vector2) -> (spawned: bool)
        requires
            old(self)@.wf(),
            at@.within(COORD_LIMIT as int),
            velocity@.within(PARAM_LIMIT as int),
        ensures
            spawned == old(self)@.can_spawn(),
            final(self)@ == old(self)@.spawned(at, velocity),
            final(self)@.wf(),
    {
        if self.spawn_cooldown > 0 {
            return false;
        }
        match self.spawn_entity {
            Entity::Bird => {
                self.birds.push(Bird::new(at, velocity));
            },
            Entity::Obstacle => {
                self.obstacles.push(Obstacle::new(at, self.config.obstacle_radius));
            },
        }
        self.spawn_cooldown = self.config.spawn_cooldown;
        true
    }

    /// A click at `at`. Where the spawn timer has run out, a bird or an
    /// obstacle is added, whichever the simulation is set to spawn, the
    /// timer starts again, and the result is `true`; a bird starts with a
    /// random velocity of at most the spawn speed along each axis. Else
    /// nothing changes and the result is `false`.
    pub fn try_spawn(&mut self, at: Point2) -> (spawned: bool)
        requires
            old(self)@.wf(),
            at@.within(COORD_LIMIT as int),
        ensures
            spawned == old(self)@.can_spawn(),
            exists|velocity: Vector2|
                velocity@.within(old(self).config.spawn_speed as int) && final(self)@ == old(
                    self,
                )@.spawned(at, velocity),
            final(self)@.wf(),
    {
        let velocity: Vector2 = if self.spawn_cooldown <= 0 {
            let x: i64 = sample_within(self.config.spawn_speed);
            let y: i64 = sample_within(self.config.spawn_speed);
            Vector2::new(x, y)
        } else {
            Vector2::zero()
        };
        self.try_spawn_with(at, velocity)
    }

    /// The jitter of one tick: a vector for each bird, random and of at most
    /// the configured size along each axis while random movement is on, and
    /// zero while it is off.
    pub fn draw_jitter(&self) -> (jitter: Vec<Vector2>)
        requires
            0 <= self.config.random_movement,
        ensures
            self@.accepts(jitter@),
            !self.rules.random_movement ==> forall|i: int|
                0 <= i < jitter.len() ==> (#[trigger] jitter[i])@ == Vec2::zero(),
    {
        let mut jitter: Vec<Vector2> = Vec::new();
        let mut i: usize = 0;
        while i < self.birds.len()
            invariant
                i <= self.birds.len(),
                jitter.len() == i,
                0 <= self.config.random_movement,
                forall|k: int|
                    0 <= k < i ==> (#[trigger] jitter[k])@.within(
                        self.config.random_movement as int,
                    ),
                !self.rules.random_movement ==> forall|k: int|
                    0 <= k < i ==> (#[trigger] jitter[k])@ == Vec2::zero(),
            decreases self.birds.len() - i,
        {
            let next: Vector2 = if self.rules.random_movement {
                let x: i64 = sample_within(self.config.random_movement);
                let y: i64 = sample_within(self.config.random_movement);
                Vector2::new(x, y)
            } else {
                Vector2::zero()
            };
            jitter.push(next);
            i = i + 1;
        }
        jitter
    }

    /// One tick. A simulation that does not run stays as it is. In a running
    /// one the spawn timer goes on, a click at `pointer` spawns if it may, and
    /// the flock moves under random jitter.
    pub fn update(&mut self, pointer: Option<Point2>)
        requires
            old(self)@.wf(),
            pointer matches Some(at) ==> at@.within(COORD_LIMIT as int),
        ensures
            final(self)@.wf(),
            old(self).pause != Pause::Running ==> final(self)@ == old(self)@,
            old(self).pause == Pause::Running ==> exists|velocity: Vector2, jitter: Seq<Vector2>|
                {
                    &&& velocity@.within(old(self).config.spawn_speed as int)
                    &&& old(self)@.before_move(pointer, velocity).accepts(jitter)
                    &&& final(self)@ == old(self)@.ticked(pointer, velocity, jitter)
                },
            old(self).pause == Pause::Running ==> forall|i: int|
                0 <= i < final(self).birds.len() ==> (#[trigger] final(self).birds[i]).vel@.norm_sq()
                    <= final(self).config.max_speed * final(self).config.max_speed,
    {
        if self.pause != Pause::Running {
            return ;
        }
        let ghost before = self@;
        self.cool_down();
        let ghost mut velocity: Vector2 = Vector2 { x: 0, y: 0 };
        match pointer {
            Some(at) => {
                let ghost cooled = self@;
                self.try_spawn(at);
                proof {
                    velocity =
                    choose|velocity: Vector2|
                        velocity@.within(before.config.spawn_speed as int) && self@
                            == cooled.spawned(at, velocity);
                }
            },
            None => {},
        }
        assert(self@ == before.before_move(pointer, velocity));
        let jitter: Vec<Vector2> = self.draw_jitter();
        self.advance(&jitter);
        assert(self@ == before.ticked(pointer, velocity, jitter@));
    }
}

/// A bird that nothing disturbs flies straight on: with no other bird in
/// sight, no obstacle in reach and no jitter, a bird that is no faster than
/// the top speed keeps its velocity and moves by it.
pub proof fn lemma_undisturbed_bird(world: World, me: Bird, jitter: Vec2)
    requires
        world.config.wf(),
        me.wf(),
        forall|i: int|
            0 <= i < world.birds.len() ==> {
                let other = (#[trigger] world.birds[i]).pos@;
                &&& !is_neighbour(me.pos@, other, world.config.alignment_view_distance as int)
                &&& !is_neighbour(me.pos@, other, world.config.separation_view_distance as int)
                &&& !is_neighbour(me.pos@, other, world.config.cohesion_view_distance as int)
            },
        forall|i: int|
            0 <= i < world.obstacles.len() ==> !is_neighbour(
                me.pos@,
                (#[trigger] world.obstacles[i]).pos@,
                world.config.obstacle_radius as int,
            ),
        world.rules.random_movement ==> jitter == Vec2::zero(),
        me.vel@.norm_sq() <= world.config.max_speed * world.config.max_speed,
    ensures
        world.moved_bird(me, jitter).vel == me.vel,
        world.moved_bird(me, jitter).pos@ == next_position(
            me.pos@,
            me.vel@,
            world.config.screen_width as int,
            world.config.screen_height as int,
        ),
        world.moved_bird(me, jitter).is_alive == me.is_alive,
{
    lemma_alone_no_steering(me, world.birds, world.config);
    let points = obstacle_positions(world.obstacles);
    assert forall|i: int| 0 <= i < world.obstacles.len() implies !is_neighbour(
        me.pos@,
        #[trigger] points[i],
        world.config.obstacle_radius as int,
    ) by {
        assert(points[i] == world.obstacles[i].pos@);
    }
    lemma_no_neighbours(
        me.pos@,
        points,
        world.config.obstacle_radius as int,
        world.obstacles.len() as int,
    );
    lemma_no_neighbours_no_steering(me, world.birds, world.obstacles, world.config);
    let moved = world.moved_bird(me, jitter);
    let velocity = next_velocity(
        me.vel@,
        world.align_of(me),
        world.sep_of(me),
        world.coh_of(me),
        world.random_of(jitter),
        world.obst_of(me),
        world.config.max_speed as int,
    );
    assert(velocity == me.vel@);
}

/// Of birds that are all alive none is taken out, and of birds of which
/// none is alive none is kept.
pub proof fn lemma_living_birds(birds: Seq<Bird>)
    ensures
        (forall|i: int| 0 <= i < birds.len() ==> (#[trigger] birds[i]).is_alive) ==> living_birds(
            birds,
        ) == birds,
        (forall|i: int| 0 <= i < birds.len() ==> !(#[trigger] birds[i]).is_alive)
            ==> living_birds(birds) == Seq::<Bird>::empty(),
    decreases birds.len(),
{
    reveal(Seq::filter);
    if birds.len() > 0 {
        lemma_living_birds(birds.drop_last());
        if forall|i: int| 0 <= i < birds.len() ==> (#[trigger] birds[i]).is_alive {
            assert forall|i: int| 0 <= i < birds.drop_last().len() implies (
            #[trigger] birds.drop_last()[i]).is_alive by {
                assert(birds.drop_last()[i] == birds[i]);
            }
            assert(birds.drop_last().push(birds.last()) =~= birds);
        }
        if forall|i: int| 0 <= i < birds.len() ==> !(#[trigger] birds[i]).is_alive {
            assert forall|i: int| 0 <= i < birds.drop_last().len() implies !(
            #[trigger] birds.drop_last()[i]).is_alive by {
                assert(birds.drop_last()[i] == birds[i]);
            }
            assert(!birds.last().is_alive);
        }
    } else {
        assert(birds =~= Seq::<Bird>::empty());
    }
}

/// After the command that kills the birds, the next tick leaves no bird.
pub proof fn lemma_killed_birds_leave(world: World, jitter: Seq<Vector2>)
    ensures
        world.birds_killed().advanced(jitter).birds == Seq::<Bird>::empty(),
{
    lemma_living_birds(world.birds_killed().moved(jitter));
}

/// A tick takes no bird out of a flock in which every bird is alive, and it
/// keeps each bird at its place in the flock.
pub proof fn lemma_living_flock_stays(world: World, jitter: Seq<Vector2>)
    requires
        forall|i: int| 0 <= i < world.birds.len() ==> (#[trigger] world.birds[i]).is_alive,
    ensures
        world.advanced(jitter).birds == world.moved(jitter),
        world.advanced(jitter).birds.len() == world.birds.len(),
{
    let moved = world.moved(jitter);
    assert forall|i: int| 0 <= i < moved.len() implies (#[trigger] moved[i]).is_alive by {
        assert(world.birds[i].is_alive);
    }
    lemma_living_birds(moved);
}

} // verus!
