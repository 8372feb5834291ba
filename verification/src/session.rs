//! One play session: the run-scoped state (player, camera, live entities,
//! pending level, score, high-score table), the play-state machine, and the
//! tick dispatcher that runs the systems valid for the current state in a
//! fixed order: object lifecycle, then kinematics, then collision rules,
//! then scoring and state transitions.

use vstd::prelude::*;
use crate::collisions::{
    bob_after_bounce, bob_after_spring, bob_hits_castle, bob_hits_squirrel,
    check_castle_collisions, check_coin_collisions, check_platform_collisions,
    check_spring_collisions, check_squirrel_collisions, lemma_platform_collision_fn,
    lemma_spring_collision_fn, platform_hit_index, platforms_after_bounce, pulverize_stepped,
    spring_hit_occurs, step_pulverizing, surviving_coins, COIN_SCORE,
};
use crate::entities::{Bob, Castle, Coin, Platform, Spring, Squirrel};
use crate::highscores::{check_and_update_highscores, first_slot_below, inserted, HighScores,
    HIGHSCORE_COUNT};
use crate::kinematics::{
    bob_step_ok, bob_stepped, bob_with_velocity_x, check_bob_has_fallen, input_velocity_x,
    lemma_bob_stepped, move_bob, move_objects, moved_platforms, moved_squirrels,
    squirrel_moved_ok, update_bob, InputIntent,
};
use crate::level::{generate_level_with, level_wf, GameObject};
use crate::lifecycle::{cleanup_objects, object_geom_ok, spawn_objects, unspawned};
use crate::rng::DrawSource;
use crate::world::{
    BOB_JUMP_VELOCITY, DRAW_RANGE, DT_MAX_MS, POS_LIMIT, SCREEN_HALF_HEIGHT,
    SPRING_JUMP_VELOCITY,
};

verus! {

/// The points budget one run can never exceed: every coin a level can hold,
/// at the fixed score per coin.
pub const POINTS_BUDGET: u32 = 5_120;

/// The run's score.
pub struct Points(pub u32);

/// The pending world-object table of the current run.
pub struct GameObjects(pub Vec<GameObject>);

/// The play-state machine: Ready waits for the run to start, Running
/// simulates, Paused freezes, GameOver lets the player fall out.
#[derive(Clone, Copy, PartialEq, Eq, Structural, Debug)]
pub enum PlayState {
    Ready,
    Running,
    Paused,
    GameOver,
}

/// A user action on the play screen's buttons.
#[derive(Clone, Copy, PartialEq, Eq, Structural, Debug)]
pub enum PlayAction {
    Play,
    Resume,
    Pause,
    Quit,
}

/// A top-level screen transition the core requests; presenting the screen
/// is the caller's affair.
#[derive(Clone, Copy, PartialEq, Eq, Structural, Debug)]
pub enum ScreenRequest {
    Menu,
    WinScreen,
}

/// What one tick did: the sound cues to fire and the transitions taken.
pub struct TickEvents {
    /// A platform bounce happened (jump cue).
    pub jumped: bool,
    /// A spring boost happened (high-jump cue).
    pub high_jumped: bool,
    /// Coins collected this tick (coin cue when nonzero).
    pub coins_collected: u32,
    /// The run ended in defeat this tick (hit cue, game-over screen).
    pub defeated: bool,
    /// The run ended at the castle this tick (win screen).
    pub won: bool,
    /// The submitted score set a new high score.
    pub new_record: bool,
}

/// No cue fired and no transition was taken.
pub open spec fn no_events(ev: TickEvents) -> bool {
    !ev.jumped && !ev.high_jumped && ev.coins_collected == 0 && !ev.defeated && !ev.won
        && !ev.new_record
}

fn quiet_events() -> (ev: TickEvents)
    ensures
        no_events(ev),
{
    TickEvents {
        jumped: false,
        high_jumped: false,
        coins_collected: 0,
        defeated: false,
        won: false,
        new_record: false,
    }
}

/// Pending coins that have not spawned yet: the score those could still add
/// is what bounds the run's points.
pub open spec fn unspawned_coin_count(s: Seq<GameObject>) -> int
    decreases s.len(),
{
    if s.len() == 0 {
        0
    } else {
        unspawned_coin_count(s.drop_last()) + if !s.last().is_spawned
            && s.last().object_type is Coin {
            1int
        } else {
            0int
        }
    }
}

pub proof fn lemma_unspawned_coin_count_bounds(s: Seq<GameObject>)
    ensures
        0 <= unspawned_coin_count(s) <= s.len(),
    decreases s.len(),
{
    if s.len() > 0 {
        lemma_unspawned_coin_count_bounds(s.drop_last());
    }
}

/// The spawn pass conserves coins: each newly spawned live coin leaves the
/// unspawned pending count by exactly one.
pub proof fn lemma_spawn_conserves_coins(s: Seq<GameObject>, cam: int)
    ensures
        crate::lifecycle::new_coins(s, cam).len() + unspawned_coin_count(
            crate::lifecycle::mark_spawned(s, cam),
        ) == unspawned_coin_count(s),
    decreases s.len(),
{
    if s.len() > 0 {
        lemma_spawn_conserves_coins(s.drop_last(), cam);
        let marked = crate::lifecycle::mark_spawned(s, cam);
        assert(marked.drop_last() =~= crate::lifecycle::mark_spawned(s.drop_last(), cam));
        assert(marked.last() == crate::lifecycle::mark_one(s.last(), cam));
    }
}

/// Pruning spawned descriptors leaves the unspawned coin count alone.
pub proof fn lemma_unspawned_keeps_coin_count(s: Seq<GameObject>)
    ensures
        unspawned_coin_count(unspawned(s)) == unspawned_coin_count(s),
    decreases s.len(),
{
    if s.len() > 0 {
        lemma_unspawned_keeps_coin_count(s.drop_last());
        if !s.last().is_spawned {
            assert(unspawned(s) == unspawned(s.drop_last()).push(s.last()));
            assert(unspawned(s).drop_last() =~= unspawned(s.drop_last()));
        }
    }
}

/// Despawning coins only lowers the live coin count.
pub proof fn lemma_kept_coins_len(s: Seq<Coin>, cam: int)
    ensures
        crate::lifecycle::kept_coins(s, cam).len() <= s.len(),
    decreases s.len(),
{
    if s.len() > 0 {
        lemma_kept_coins_len(s.drop_last(), cam);
    }
}

/// The whole Running tick as one relation: every field of the new session
/// and every event is equated to the composition of the verified passes, in
/// the order the dispatcher runs them — spawn, input, integration, fall
/// test, patrols, pulverize countdown, the five collision rules, prune and
/// despawn, then the deferred score and state writes.
pub open spec fn running_tick_ok(
    s: GameSession,
    input: InputIntent,
    dt: int,
    draw: u32,
    t: GameSession,
    ev: TickEvents,
) -> bool {
    let cam0 = s.camera_y as int;
    let pending1 = crate::lifecycle::mark_spawned(s.pending.0@, cam0);
    let plats1 = s.platforms@ + crate::lifecycle::new_platforms(s.pending.0@, cam0);
    let coins1 = s.coins@ + crate::lifecycle::new_coins(s.pending.0@, cam0);
    let springs1 = s.springs@ + crate::lifecycle::new_springs(s.pending.0@, cam0);
    let sqs1 = s.squirrels@ + crate::lifecycle::new_squirrels(s.pending.0@, cam0);
    let castles1 = s.castles@ + crate::lifecycle::new_castles(s.pending.0@, cam0);
    let b1 = bob_with_velocity_x(s.bob, input_velocity_x(input));
    let stepped = bob_stepped(b1, cam0, false, dt);
    let b2 = stepped.0;
    let cam2 = stepped.1;
    let fell = b2.y <= cam2 - SCREEN_HALF_HEIGHT && cam2 > 0;
    let plats3 = pulverize_stepped(moved_platforms(plats1, dt));
    let sqs2 = moved_squirrels(sqs1, dt);
    let jumped = platform_hit_index(b2, plats3) != -1;
    let b3 = bob_after_bounce(b2, plats3);
    let plats4 = platforms_after_bounce(b2, plats3, draw);
    let high_jumped = spring_hit_occurs(b3, springs1);
    let b4 = bob_after_spring(b3, springs1);
    let coins2 = surviving_coins(b4, coins1);
    let collected = coins1.len() - coins2.len();
    let squirrel_hit = exists|i: int|
        0 <= i < sqs2.len() && bob_hits_squirrel(b4, #[trigger] sqs2[i]);
    let won = exists|i: int|
        0 <= i < castles1.len() && bob_hits_castle(b4, #[trigger] castles1[i]);
    let defeated = (fell || squirrel_hit) && !won;
    &&& t.play_state == (if won {
        PlayState::Ready
    } else if defeated {
        PlayState::GameOver
    } else {
        PlayState::Running
    })
    &&& t.points.0 == s.points.0 + COIN_SCORE * collected
    &&& t.camera_y == cam2
    &&& t.bob == b4
    &&& t.pending.0@ == unspawned(pending1)
    &&& t.platforms@ == crate::lifecycle::kept_platforms(plats4, cam2)
    &&& t.coins@ == crate::lifecycle::kept_coins(coins2, cam2)
    &&& t.springs@ == springs1
    &&& t.squirrels@ == sqs2
    &&& t.castles@ == castles1
    &&& t.high_scores.0@ == (if won || defeated {
        inserted(s.high_scores.0@, t.points.0)
    } else {
        s.high_scores.0@
    })
    &&& ev.jumped == jumped
    &&& ev.high_jumped == high_jumped
    &&& ev.coins_collected == collected
    &&& ev.defeated == defeated
    &&& ev.won == won
    &&& ev.new_record == ((won || defeated) && first_slot_below(s.high_scores.0@, t.points.0)
        < HIGHSCORE_COUNT)
}

/// One play session, owned by the run loop and handed to each subsystem.
pub struct GameSession {
    pub play_state: PlayState,
    pub points: Points,
    pub camera_y: i64,
    pub bob: Bob,
    pub pending: GameObjects,
    pub platforms: Vec<Platform>,
    pub coins: Vec<Coin>,
    pub springs: Vec<Spring>,
    pub squirrels: Vec<Squirrel>,
    pub castles: Vec<Castle>,
    pub high_scores: HighScores,
}

impl GameSession {
    /// Every run-scoped value in range, every live entity well-formed, and
    /// the score within the budget the remaining coins allow.
    pub open spec fn wf(&self) -> bool {
        &&& self.bob.wf()
        &&& 0 <= self.camera_y <= POS_LIMIT
        &&& forall|i: int| 0 <= i < self.platforms@.len() ==> (#[trigger] self.platforms@[i]).wf()
        &&& forall|i: int| 0 <= i < self.coins@.len() ==> (#[trigger] self.coins@[i]).wf()
        &&& forall|i: int| 0 <= i < self.springs@.len() ==> (#[trigger] self.springs@[i]).wf()
        &&& forall|i: int| 0 <= i < self.squirrels@.len() ==> (#[trigger] self.squirrels@[i]).wf()
        &&& forall|i: int| 0 <= i < self.castles@.len() ==> (#[trigger] self.castles@[i]).wf()
        &&& forall|i: int|
            0 <= i < self.pending.0@.len() ==> object_geom_ok(#[trigger] self.pending.0@[i])
        &&& self.high_scores.wf()
        &&& self.points.0 + COIN_SCORE * (self.coins@.len() + unspawned_coin_count(self.pending.0@))
            <= POINTS_BUDGET
    }

    /// A fresh session on the menu: no run yet, score zero, camera at the
    /// bottom, the given high-score table.
    pub fn new(high_scores: HighScores) -> (s: GameSession)
        requires
            high_scores.wf(),
        ensures
            s.wf(),
            s.play_state == PlayState::Ready,
            s.points.0 == 0,
            s.camera_y == 0,
            s.pending.0@.len() == 0,
            s.platforms@.len() == 0 && s.coins@.len() == 0 && s.springs@.len() == 0
                && s.squirrels@.len() == 0 && s.castles@.len() == 0,
            s.bob == (Bob { x: 0i64, y: -208_000_000i64, velocity_x: 0i64, velocity_y: 0i64 }),
            s.high_scores == high_scores,
    {
        GameSession {
            play_state: PlayState::Ready,
            points: Points(0),
            camera_y: 0,
            bob: Bob::at_start(),
            pending: GameObjects(Vec::new()),
            platforms: Vec::new(),
            coins: Vec::new(),
            springs: Vec::new(),
            squirrels: Vec::new(),
            castles: Vec::new(),
            high_scores: HighScores(high_scores.0),
        }
    }

    /// Enters the play screen: generates a fresh level, resets the player,
    /// camera and score, clears the live world, and waits Ready.
    pub fn start_run(&mut self, src: &mut DrawSource)
        requires
            old(self).wf(),
            old(src).wf(),
        ensures
            final(self).wf(),
            final(src).wf(),
            final(self).play_state == PlayState::Ready,
            final(self).points.0 == 0,
            final(self).camera_y == 0,
            level_wf(final(self).pending.0@),
            !old(src).system ==> final(self).pending.0@ == crate::level::level_from(
                old(src).draws@,
                old(src).next as int,
                (crate::world::PLATFORM_HEIGHT / 2) as int,
            ),
            forall|i: int|
                0 <= i < final(self).pending.0@.len() ==> !(#[trigger] final(self).pending.0@[i]).is_spawned,
            final(self).platforms@.len() == 0 && final(self).coins@.len() == 0 && final(self).springs@.len() == 0 && final(self).squirrels@.len() == 0 && final(self).castles@.len() == 0,
            final(self).high_scores == old(self).high_scores,
    {
        let objects = generate_level_with(src);
        proof {
            lemma_unspawned_coin_count_bounds(objects@);
            assert forall|i: int| 0 <= i < objects@.len() implies object_geom_ok(
                #[trigger] objects@[i],
            ) by {
                assert(crate::level::pending_object_ok(objects@[i]));
            }
        }
        self.play_state = PlayState::Ready;
        self.points = Points(0);
        self.camera_y = 0;
        self.bob = Bob::at_start();
        self.pending = GameObjects(objects);
        self.platforms = Vec::new();
        self.coins = Vec::new();
        self.springs = Vec::new();
        self.squirrels = Vec::new();
        self.castles = Vec::new();
    }

    /// Leaves the play screen: the whole run scope is torn down. Safe to
    /// call whatever the session has partially done this tick.
    pub fn reset_run(&mut self)
        requires
            old(self).wf(),
        ensures
            final(self).wf(),
            final(self).play_state == PlayState::Ready,
            final(self).points.0 == 0,
            final(self).camera_y == 0,
            final(self).pending.0@.len() == 0,
            final(self).platforms@.len() == 0 && final(self).coins@.len() == 0 && final(self).springs@.len() == 0 && final(self).squirrels@.len() == 0 && final(self).castles@.len() == 0,
            final(self).high_scores == old(self).high_scores,
    {
        self.play_state = PlayState::Ready;
        self.points = Points(0);
        self.camera_y = 0;
        self.bob = Bob::at_start();
        self.pending = GameObjects(Vec::new());
        self.platforms = Vec::new();
        self.coins = Vec::new();
        self.springs = Vec::new();
        self.squirrels = Vec::new();
        self.castles = Vec::new();
    }

    /// A play-screen button: Play starts from Ready, Pause freezes a running
    /// game, Resume continues, and Quit from pause submits the score and
    /// asks for the menu. An action in any other state does nothing.
    pub fn handle_play_action(&mut self, action: PlayAction) -> (r: Option<ScreenRequest>)
        requires
            old(self).wf(),
        ensures
            final(self).wf(),
            old(self).play_state == PlayState::Ready && action == PlayAction::Play ==> final(self).play_state == PlayState::Running && r is None,
            old(self).play_state == PlayState::Paused && action == PlayAction::Resume ==> final(self).play_state == PlayState::Running && r is None,
            old(self).play_state == PlayState::Running && action == PlayAction::Pause ==> final(self).play_state == PlayState::Paused && r is None,
            old(self).play_state == PlayState::Paused && action == PlayAction::Quit ==> {
                &&& final(self).play_state == PlayState::Ready
                &&& r == Some(ScreenRequest::Menu)
                &&& final(self).high_scores.0@ == inserted(
                    old(self).high_scores.0@,
                    old(self).points.0,
                )
            },
            !((old(self).play_state == PlayState::Ready && action == PlayAction::Play) || (old(self).play_state == PlayState::Paused && action == PlayAction::Resume) || (old(self).play_state == PlayState::Running && action == PlayAction::Pause) || (old(self).play_state == PlayState::Paused && action == PlayAction::Quit)) ==> *final(self)
                == *old(self) && r is None,
            !(old(self).play_state == PlayState::Paused && action == PlayAction::Quit)
                ==> final(self).high_scores == old(self).high_scores,
            final(self).points == old(self).points,
            final(self).camera_y == old(self).camera_y,
            final(self).bob == old(self).bob,
            final(self).pending == old(self).pending,
            final(self).platforms == old(self).platforms,
            final(self).coins == old(self).coins,
            final(self).springs == old(self).springs,
            final(self).squirrels == old(self).squirrels,
            final(self).castles == old(self).castles,
    {
        match action {
            PlayAction::Play => {
                if self.play_state == PlayState::Ready {
                    self.play_state = PlayState::Running;
                }
                None
            },
            PlayAction::Resume => {
                if self.play_state == PlayState::Paused {
                    self.play_state = PlayState::Running;
                }
                None
            },
            PlayAction::Pause => {
                if self.play_state == PlayState::Running {
                    self.play_state = PlayState::Paused;
                }
                None
            },
            PlayAction::Quit => {
                if self.play_state == PlayState::Paused {
                    check_and_update_highscores(&mut self.high_scores, self.points.0);
                    self.play_state = PlayState::Ready;
                    Some(ScreenRequest::Menu)
                } else {
                    None
                }
            },
        }
    }

    /// One simulation tick. Ready and Paused freeze the world. After a
    /// defeat only the player's fall-out advances. While Running the systems
    /// run in dependency order: lifecycle (spawn), kinematics (input,
    /// integration, fall test, patrols, pulverize countdown), the collision
    /// rules (platform, spring, coin, squirrel, castle), lifecycle again
    /// (prune and despawn), and last the state transitions, which mirror the
    /// engine's deferred state writes. If the castle and a hazard fire in
    /// one tick the win takes precedence; a platform bounce leaves the
    /// player rising, so a spring can never also fire that tick.
    pub fn tick(&mut self, input: InputIntent, dt: i64, draw: u32) -> (ev: TickEvents)
        requires
            old(self).wf(),
            0 < dt <= DT_MAX_MS,
            draw < DRAW_RANGE,
        ensures
            final(self).wf(),
            (old(self).play_state == PlayState::Ready || old(self).play_state == PlayState::Paused)
                ==> *final(self) == *old(self) && no_events(ev),
            old(self).play_state == PlayState::GameOver ==> {
                &&& final(self).play_state == PlayState::GameOver
                &&& final(self).points == old(self).points
                &&& final(self).high_scores == old(self).high_scores
                &&& final(self).pending == old(self).pending
                &&& final(self).platforms == old(self).platforms
                &&& final(self).coins == old(self).coins
                &&& final(self).springs == old(self).springs
                &&& final(self).squirrels == old(self).squirrels
                &&& final(self).castles == old(self).castles
                &&& final(self).camera_y == old(self).camera_y
                &&& bob_step_ok(
                    old(self).bob,
                    old(self).camera_y as int,
                    true,
                    dt as int,
                    final(self).bob,
                    final(self).camera_y as int,
                )
                &&& no_events(ev)
            },
            old(self).play_state == PlayState::Running ==> running_tick_ok(
                *old(self),
                input,
                dt as int,
                draw,
                *final(self),
                ev,
            ),
            old(self).play_state == PlayState::Running ==> {
                &&& (ev.defeated ==> !ev.won)
                &&& final(self).play_state == (if ev.won {
                    PlayState::Ready
                } else if ev.defeated {
                    PlayState::GameOver
                } else {
                    PlayState::Running
                })
                &&& final(self).points.0 == old(self).points.0 + COIN_SCORE * ev.coins_collected
                &&& ((ev.won || ev.defeated) ==> {
                    &&& final(self).high_scores.0@ == inserted(
                        old(self).high_scores.0@,
                        final(self).points.0,
                    )
                    &&& ev.new_record == (first_slot_below(
                        old(self).high_scores.0@,
                        final(self).points.0,
                    ) < HIGHSCORE_COUNT)
                })
                &&& (!(ev.won || ev.defeated) ==> final(self).high_scores == old(self).high_scores
                    && !ev.new_record)
                &&& final(self).camera_y >= old(self).camera_y
                &&& final(self).pending.0@ == unspawned(
                    crate::lifecycle::mark_spawned(
                        old(self).pending.0@,
                        old(self).camera_y as int,
                    ),
                )
                &&& final(self).springs@ == old(self).springs@
                    + crate::lifecycle::new_springs(
                    old(self).pending.0@,
                    old(self).camera_y as int,
                )
                &&& final(self).castles@ == old(self).castles@
                    + crate::lifecycle::new_castles(
                    old(self).pending.0@,
                    old(self).camera_y as int,
                )
                &&& ({
                    let spawned_squirrels = old(self).squirrels@
                        + crate::lifecycle::new_squirrels(
                        old(self).pending.0@,
                        old(self).camera_y as int,
                    );
                    &&& final(self).squirrels@.len() == spawned_squirrels.len()
                    &&& forall|i: int|
                        0 <= i < spawned_squirrels.len() ==> squirrel_moved_ok(
                            spawned_squirrels[i],
                            dt as int,
                            #[trigger] final(self).squirrels@[i],
                        )
                })
                &&& (ev.jumped ==> !ev.high_jumped)
                &&& (ev.high_jumped ==> final(self).bob.velocity_y == SPRING_JUMP_VELOCITY)
                &&& (ev.jumped ==> final(self).bob.velocity_y == BOB_JUMP_VELOCITY)
            },
    {
        if self.play_state == PlayState::Ready || self.play_state == PlayState::Paused {
            return quiet_events();
        }
        if self.play_state == PlayState::GameOver {
            update_bob(&mut self.bob, &mut self.camera_y, true, dt);
            return quiet_events();
        }

        // Object lifecycle: spawn what the camera has approached.
        let ghost pending0 = self.pending.0@;
        let ghost coins0 = self.coins@;
        let ghost cam0 = self.camera_y as int;
        spawn_objects(
            &mut self.pending.0,
            &mut self.platforms,
            &mut self.coins,
            &mut self.springs,
            &mut self.squirrels,
            &mut self.castles,
            self.camera_y,
        );
        proof {
            lemma_spawn_conserves_coins(pending0, cam0);
            lemma_unspawned_coin_count_bounds(self.pending.0@);
            assert(self.coins@.len() + unspawned_coin_count(self.pending.0@) == coins0.len()
                + unspawned_coin_count(pending0));
            assert(self.points.0 + COIN_SCORE * (self.coins@.len() + unspawned_coin_count(
                self.pending.0@,
            )) <= POINTS_BUDGET);
        }

        // Kinematics: input, integration, fall test, patrols, countdowns.
        let ghost bob0 = old(self).bob;
        move_bob(&mut self.bob, input);
        proof {
            let b1 = bob_with_velocity_x(bob0, input_velocity_x(input));
            assert(self.bob.x == b1.x && self.bob.y == b1.y && self.bob.velocity_x
                == b1.velocity_x && self.bob.velocity_y == b1.velocity_y);
        }
        let ghost b1 = self.bob;
        update_bob(&mut self.bob, &mut self.camera_y, false, dt);
        proof {
            lemma_bob_stepped(
                b1,
                cam0,
                false,
                dt as int,
                self.bob,
                self.camera_y as int,
            );
        }
        let fell = check_bob_has_fallen(&self.bob, self.camera_y);
        move_objects(&mut self.platforms, &mut self.squirrels, dt);
        step_pulverizing(&mut self.platforms);

        // Collision rules, in documented order.
        let ghost b2 = self.bob;
        let ghost plats3 = self.platforms@;
        let jumped = check_platform_collisions(&mut self.bob, &mut self.platforms, draw);
        proof {
            lemma_platform_collision_fn(b2, plats3, draw, self.bob, self.platforms@, jumped);
        }
        let ghost b3 = self.bob;
        let high_jumped = check_spring_collisions(&mut self.bob, &self.springs);
        proof {
            lemma_spring_collision_fn(b3, self.springs@, self.bob, high_jumped);
        }
        proof {
            lemma_unspawned_coin_count_bounds(self.pending.0@);
            assert(self.points.0 + COIN_SCORE * self.coins@.len() <= POINTS_BUDGET);
        }
        let collected = check_coin_collisions(&self.bob, &mut self.coins, &mut self.points.0);
        let hit_squirrel = check_squirrel_collisions(&self.bob, &self.squirrels);
        let won = check_castle_collisions(&self.bob, &self.castles);

        // Object lifecycle: prune spawned descriptors, despawn off-screen.
        let ghost pending1 = self.pending.0@;
        let ghost coins2 = self.coins@;
        cleanup_objects(&mut self.pending.0, &mut self.platforms, &mut self.coins, self.camera_y);
        proof {
            lemma_unspawned_keeps_coin_count(pending1);
            lemma_kept_coins_len(coins2, self.camera_y as int);
            lemma_unspawned_coin_count_bounds(self.pending.0@);
        }

        // Score and state transitions, applied once everything has run.
        let defeated = (fell || hit_squirrel) && !won;
        let mut new_record = false;
        if won {
            new_record = check_and_update_highscores(&mut self.high_scores, self.points.0);
            self.play_state = PlayState::Ready;
        } else if defeated {
            new_record = check_and_update_highscores(&mut self.high_scores, self.points.0);
            self.play_state = PlayState::GameOver;
        }
        TickEvents {
            jumped,
            high_jumped,
            coins_collected: collected,
            defeated,
            won,
            new_record,
        }
    }

    /// After a defeat, the back-to-menu input returns the state machine to
    /// Ready and asks for the menu.
    pub fn go_back_to_menu(&mut self) -> (r: ScreenRequest)
        requires
            old(self).wf(),
        ensures
            final(self).wf(),
            final(self).play_state == PlayState::Ready,
            r == ScreenRequest::Menu,
            final(self).points == old(self).points,
            final(self).high_scores == old(self).high_scores,
    {
        self.play_state = PlayState::Ready;
        ScreenRequest::Menu
    }
}

} // verus!
