//! The game as a whole: the state of a match and what a frame, a key and a new round do
//! to it.

use vstd::prelude::*;
use crate::color::Color;
use crate::constants::{
    COUNTDOWN_SECONDS, MAX_DELTA_TIME, MAX_PARTICLES, NEUTRAL_MULTIPLIER,
    PARTICLES_ENABLED, PLAYER_HEIGHT, PLAYER_PADDING, PLAYER_WIDTH, POWERUPS_ENABLED,
    POWERUP_SPAWN_INTERVAL, SCREEN_HEIGHT, SCREEN_SHAKE_DURATION, SCREEN_SHAKE_ENABLED,
    SCREEN_SHAKE_INTENSITY, SCREEN_WIDTH,
};
use crate::effects::countdown::Countdown;
use crate::effects::particles::{
    aged, fits, lemma_newest_absorbs, newest, Particle, ParticleSystem,
};
use crate::entities::ball::{Ball, BallModel};
use crate::entities::direction::Direction;
use crate::entities::player::Player;
use crate::game_mode::GameMode;
use crate::heading::EIGHTH_TURN;
use crate::numeric::{time_left, time_sum};
use crate::powerups::manager::{all_well_formed, ManagerModel, PowerUpManager};
use crate::powerups::powerup::PowerUp;
use crate::random::RandomSource;
use crate::rules::{BallOutcome, Burst};
use crate::vec2::Vec2;

verus! {

/// What a key of the game asks for.
#[derive(Clone, Copy, Debug, PartialEq, Eq, Structural)]
pub enum Control {
    /// The left paddle goes up.
    LeftUp,
    /// The left paddle goes down.
    LeftDown,
    /// The right paddle goes up.
    RightUp,
    /// The right paddle goes down.
    RightDown,
    /// The game pauses or goes on.
    TogglePause,
    /// The round starts anew.
    Restart,
    /// The next mode of play is chosen.
    CycleMode,
}

/// A serve: its angle in millionths of a radian, and its side.
#[derive(Clone, Copy, Debug, PartialEq, Eq, Structural)]
pub struct Serve {
    pub angle: i64,
    pub rightward: bool,
}

impl Serve {
    /// The angle lies within an eighth of a turn of the horizontal.
    pub open spec fn well_formed(self) -> bool {
        -EIGHTH_TURN <= self.angle < EIGHTH_TURN
    }

    /// A serve at a random angle to a random side.
    pub fn random(rng: &mut RandomSource) -> (serve: Serve)
        ensures
            serve.well_formed(),
    {
        let angle: i64 = rng.between(-EIGHTH_TURN, EIGHTH_TURN);
        let rightward = rng.coin();
        Serve { angle, rightward }
    }
}

/// What chance decides in one frame: the power-up that is spawned if one is due, the angle
/// by which a split ball leaves the course of its source, and the serve of the next round.
#[derive(Clone, Copy, Debug)]
pub struct FrameDraws {
    pub spawn: PowerUp,
    pub split_angle: i64,
    pub serve: Serve,
}

impl FrameDraws {
    /// The power-up lies within the stored range, and both angles within an eighth of a
    /// turn.
    pub open spec fn well_formed(self) -> bool {
        &&& self.spawn.well_formed()
        &&& -EIGHTH_TURN <= self.split_angle < EIGHTH_TURN
        &&& self.serve.well_formed()
    }

    /// The draws are what chance can give: the power-up is a fresh one in a spawn zone.
    pub open spec fn is_fair(self) -> bool {
        self.well_formed() && self.spawn.is_fresh_spawn()
    }

    /// The draws of one frame, by chance.
    pub fn random(rng: &mut RandomSource) -> (draws: FrameDraws)
        ensures
            draws.is_fair(),
    {
        let spawn = PowerUp::random(rng);
        let split_angle: i64 = rng.between(-EIGHTH_TURN, EIGHTH_TURN);
        let serve = Serve::random(rng);
        FrameDraws { spawn, split_angle, serve }
    }
}

/// The state of a match.
///
/// Player 0 is on the left and player 1 on the right. `screen_shake` holds the intensity
/// and the remaining time of a running shake.
#[derive(Clone, Debug)]
pub struct GameState {
    pub left_player: Player,
    pub right_player: Player,
    pub balls: Vec<Ball>,
    pub left_direction: Option<Direction>,
    pub right_direction: Option<Direction>,
    pub left_score: u32,
    pub right_score: u32,
    pub particle_system: ParticleSystem,
    pub countdown: Countdown,
    pub screen_shake: Option<(i64, u64)>,
    pub game_paused: bool,
    pub round_in_progress: bool,
    pub power_up_manager: PowerUpManager,
    pub game_mode: GameMode,
    pub rally_count: i32,
    pub game_time: u64,
}

/// What a match holds, with its collections as sequences.
pub struct GameModel {
    pub left_player: Player,
    pub right_player: Player,
    pub balls: Seq<BallModel>,
    pub left_direction: Option<Direction>,
    pub right_direction: Option<Direction>,
    pub left_score: u32,
    pub right_score: u32,
    pub particles: Seq<Particle>,
    pub max_particles: usize,
    pub countdown: Countdown,
    pub screen_shake: Option<(i64, u64)>,
    pub game_paused: bool,
    pub round_in_progress: bool,
    pub power_ups: ManagerModel,
    pub game_mode: GameMode,
    pub rally_count: i32,
    pub game_time: u64,
}

/// The balls of a list, each by what it holds.
pub open spec fn ball_models(balls: Seq<Ball>) -> Seq<BallModel> {
    Seq::new(balls.len(), |i: int| balls[i]@)
}

impl View for GameState {
    type V = GameModel;

    open spec fn view(&self) -> GameModel {
        GameModel {
            left_player: self.left_player,
            right_player: self.right_player,
            balls: ball_models(self.balls@),
            left_direction: self.left_direction,
            right_direction: self.right_direction,
            left_score: self.left_score,
            right_score: self.right_score,
            particles: self.particle_system.particles@,
            max_particles: self.particle_system.max_particles,
            countdown: self.countdown,
            screen_shake: self.screen_shake,
            game_paused: self.game_paused,
            round_in_progress: self.round_in_progress,
            power_ups: self.power_up_manager@,
            game_mode: self.game_mode,
            rally_count: self.rally_count,
            game_time: self.game_time,
        }
    }
}

/// The middle of the field, where a round starts.
pub open spec fn center() -> Vec2 {
    Vec2 { x: (SCREEN_WIDTH / 2) as i64, y: (SCREEN_HEIGHT / 2) as i64 }
}

/// The time step of the physics for a frame of `delta` microseconds: the frame, cut at
/// the longest step.
pub open spec fn frame_time(delta: u64) -> u64 {
    if delta > MAX_DELTA_TIME {
        MAX_DELTA_TIME
    } else {
        delta
    }
}

/// A shake after `delta` microseconds: it ends once less than a millisecond is left.
pub open spec fn shake_after(shake: Option<(i64, u64)>, delta: u64) -> Option<(i64, u64)> {
    match shake {
        Some((intensity, remaining)) => if time_left(remaining, delta) < 1000 {
            None
        } else {
            Some((intensity, time_left(remaining, delta)))
        },
        None => None,
    }
}

/// A counter raised by one, held at the largest value it can store.
pub open spec fn one_more(count: u32) -> u32 {
    if count == u32::MAX {
        count
    } else {
        (count + 1) as u32
    }
}

/// The rally counter raised by one, held at the largest value it can store.
pub open spec fn rally_after_hit(rally_count: i32) -> i32 {
    if rally_count == i32::MAX {
        rally_count
    } else {
        (rally_count + 1) as i32
    }
}

/// What the balls of one frame brought so far.
pub struct Sweep {
    pub balls: Seq<BallModel>,
    pub rally_count: i32,
    pub paddle_hit: bool,
    pub bursts: Seq<Burst>,
    pub scorer: Option<usize>,
}

/// The particles that the frame of one ball calls for: those of the wall before those of
/// the paddle.
pub open spec fn bursts_of(outcome: BallOutcome) -> Seq<Burst> {
    (match outcome.wall_burst {
        Some(burst) => seq![burst],
        None => Seq::empty(),
    }) + (match outcome.paddle_burst {
        Some(burst) => seq![burst],
        None => Seq::empty(),
    })
}

/// Whether `fresh` holds, burst by burst and in their order, the new particles that
/// `bursts` call for: for each burst as many as it asks for, new at its place in its colour.
pub open spec fn answers(fresh: Seq<Particle>, bursts: Seq<Burst>) -> bool
    decreases bursts.len(),
{
    if bursts.len() == 0 {
        fresh.len() == 0
    } else {
        let last = bursts.last();
        &&& fresh.len() >= last.count
        &&& forall|i: int|
            fresh.len() - last.count <= i < fresh.len() ==> (#[trigger] fresh[i]).is_fresh(
                last.position,
                last.color,
            )
        &&& answers(fresh.take(fresh.len() - last.count), bursts.drop_last())
    }
}

/// The left paddle as a match starts.
pub open spec fn initial_left_player() -> Player {
    Player {
        position: Vec2 { x: PLAYER_PADDING, y: (SCREEN_HEIGHT / 2 - PLAYER_HEIGHT / 2) as i64 },
        size: Vec2 { x: PLAYER_WIDTH, y: PLAYER_HEIGHT },
        color: Color { r: 200, g: 640, b: 310, a: 1000 },
        speed_multiplier: NEUTRAL_MULTIPLIER,
        size_multiplier: NEUTRAL_MULTIPLIER,
        original_size: Vec2 { x: PLAYER_WIDTH, y: PLAYER_HEIGHT },
    }
}

/// The right paddle as a match starts.
pub open spec fn initial_right_player() -> Player {
    Player {
        position: Vec2 {
            x: (SCREEN_WIDTH - PLAYER_WIDTH - PLAYER_PADDING) as i64,
            y: (SCREEN_HEIGHT / 2 - PLAYER_HEIGHT / 2) as i64,
        },
        size: Vec2 { x: PLAYER_WIDTH, y: PLAYER_HEIGHT },
        color: Color { r: 740, g: 130, b: 190, a: 1000 },
        speed_multiplier: NEUTRAL_MULTIPLIER,
        size_multiplier: NEUTRAL_MULTIPLIER,
        original_size: Vec2 { x: PLAYER_WIDTH, y: PLAYER_HEIGHT },
    }
}

impl GameModel {
    /// Every part of the match is well formed.
    pub open spec fn well_formed(self) -> bool {
        &&& self.left_player.well_formed()
        &&& self.right_player.well_formed()
        &&& forall|i: int| 0 <= i < self.balls.len() ==> (#[trigger] self.balls[i]).well_formed()
        &&& fits(self.particles, self.max_particles)
        &&& self.countdown.well_formed()
        &&& all_well_formed(self.power_ups.power_ups)
    }

    /// The match at the start of a round served with `serve`: the game waits behind a
    /// restarted countdown, the paddles have lost their modifiers, no power-up is left
    /// and the spawn timer starts again, one fresh ball lies in the middle of the field,
    /// and the rally is empty. Scores, mode and particles stay.
    pub open spec fn spec_new_round(self, serve: Serve) -> GameModel {
        GameModel {
            game_paused: true,
            round_in_progress: false,
            countdown: self.countdown.spec_started(),
            left_player: self.left_player.spec_reset(),
            right_player: self.right_player.spec_reset(),
            power_ups: ManagerModel {
                power_ups: Seq::empty(),
                spawn_timer: POWERUP_SPAWN_INTERVAL,
                total_time: self.power_ups.total_time,
            },
            balls: seq![BallModel::spec_launched(center(), serve.angle as int, serve.rightward)],
            rally_count: 0,
            ..self
        }
    }

    /// The match is at the start of a round: it waits behind a running countdown with
    /// exactly one freshly served ball, no power-ups, paddles without modifiers, and an
    /// empty rally.
    pub open spec fn is_fresh_round(self) -> bool {
        &&& self.game_paused
        &&& !self.round_in_progress
        &&& self.countdown.active
        &&& self.countdown.elapsed == 0
        &&& self.balls.len() == 1
        &&& self.balls[0].is_fresh_serve(center())
        &&& self.power_ups.power_ups.len() == 0
        &&& self.power_ups.spawn_timer == POWERUP_SPAWN_INTERVAL
        &&& self.left_player.speed_multiplier == NEUTRAL_MULTIPLIER
        &&& self.left_player.size_multiplier == NEUTRAL_MULTIPLIER
        &&& self.right_player.speed_multiplier == NEUTRAL_MULTIPLIER
        &&& self.right_player.size_multiplier == NEUTRAL_MULTIPLIER
        &&& self.rally_count == 0
    }

    /// The match as it begins, before its first round is set up.
    pub open spec fn spec_initial() -> GameModel {
        GameModel {
            left_player: initial_left_player(),
            right_player: initial_right_player(),
            balls: Seq::empty(),
            left_direction: None,
            right_direction: None,
            left_score: 0,
            right_score: 0,
            particles: Seq::empty(),
            max_particles: MAX_PARTICLES,
            countdown: Countdown {
                duration: 3_000_000,
                elapsed: 0,
                active: false,
                count: COUNTDOWN_SECONDS,
            },
            screen_shake: None,
            game_paused: false,
            round_in_progress: false,
            power_ups: ManagerModel {
                power_ups: Seq::empty(),
                spawn_timer: POWERUP_SPAWN_INTERVAL,
                total_time: 0,
            },
            game_mode: GameMode::Classic,
            rally_count: 0,
            game_time: 0,
        }
    }

    /// The match with a shake of `intensity` started, where shaking is enabled.
    pub open spec fn spec_with_shake(self, intensity: i64) -> GameModel {
        if SCREEN_SHAKE_ENABLED {
            GameModel { screen_shake: Some((intensity, SCREEN_SHAKE_DURATION)), ..self }
        } else {
            self
        }
    }

    /// The match in the next mode, at the start of a round served with `serve`.
    pub open spec fn spec_mode_cycled(self, serve: Serve) -> GameModel {
        (GameModel { game_mode: self.game_mode.spec_next(), ..self }).spec_new_round(serve)
    }

    /// The match with one more ball: split from the first ball by `split_angle`, or
    /// served with `serve` where there is no ball.
    pub open spec fn spec_with_multiball(self, split_angle: int, serve: Serve) -> GameModel {
        if self.balls.len() == 0 {
            GameModel {
                balls: self.balls.push(
                    BallModel::spec_launched(center(), serve.angle as int, serve.rightward),
                ),
                ..self
            }
        } else {
            GameModel { balls: self.balls.push(self.balls[0].spec_split(split_angle)), ..self }
        }
    }

    /// The match after a key went down: a direction key sets the direction of its paddle,
    /// the pause key toggles the pause unless the countdown runs, the restart key starts
    /// the round anew, and the mode key chooses the next mode and starts the round anew.
    pub open spec fn spec_key_down(self, control: Control, serve: Serve) -> GameModel {
        match control {
            Control::LeftUp => GameModel { left_direction: Some(Direction::Up), ..self },
            Control::LeftDown => GameModel { left_direction: Some(Direction::Down), ..self },
            Control::RightUp => GameModel { right_direction: Some(Direction::Up), ..self },
            Control::RightDown => GameModel { right_direction: Some(Direction::Down), ..self },
            Control::TogglePause => if self.countdown.active {
                self
            } else {
                GameModel { game_paused: !self.game_paused, ..self }
            },
            Control::Restart => self.spec_new_round(serve),
            Control::CycleMode => self.spec_mode_cycled(serve),
        }
    }

    /// The match after a key went up: a direction key of either paddle clears the
    /// direction of that paddle, the other keys do nothing.
    pub open spec fn spec_key_up(self, control: Control) -> GameModel {
        match control {
            Control::LeftUp => GameModel { left_direction: None, ..self },
            Control::LeftDown => GameModel { left_direction: None, ..self },
            Control::RightUp => GameModel { right_direction: None, ..self },
            Control::RightDown => GameModel { right_direction: None, ..self },
            _ => self,
        }
    }

    /// The match after the clocks of a frame of `delta` microseconds: the game time goes
    /// on by the time step of the physics, a running countdown by the frame, and where it
    /// finishes the game goes on and the round is in progress; the particles age, and a
    /// running shake runs down.
    pub open spec fn with_timers_advanced(self, delta: u64) -> GameModel {
        let finished = self.countdown.finishes_within(delta);
        GameModel {
            game_time: time_sum(self.game_time, frame_time(delta)),
            countdown: self.countdown.spec_updated(delta),
            game_paused: self.game_paused && !finished,
            round_in_progress: self.round_in_progress || finished,
            particles: if PARTICLES_ENABLED {
                aged(self.particles, delta)
            } else {
                self.particles
            },
            screen_shake: shake_after(self.screen_shake, delta),
            ..self
        }
    }

    /// The match after both paddles followed their input for `micros` microseconds.
    pub open spec fn with_paddles_moved(self, micros: u64) -> GameModel {
        GameModel {
            left_player: self.left_player.spec_updated(self.left_direction, micros),
            right_player: self.right_player.spec_updated(self.right_direction, micros),
            ..self
        }
    }

    /// The match after the power-ups had their frame, where they are enabled and a ball
    /// is on the field: the manager takes its step with the first ball, the paddles take
    /// the effects, and where a multiball split is running beside a single ball, that
    /// ball is split.
    pub open spec fn with_power_ups_updated(self, delta: u64, draws: FrameDraws) -> GameModel {
        if POWERUPS_ENABLED && self.balls.len() > 0 {
            let paddles = self.power_ups.spec_paddles_updated(
                delta,
                self.balls[0],
                draws.spawn,
                (self.left_player, self.right_player),
            );
            let fed = GameModel {
                power_ups: self.power_ups.spec_updated(delta, self.balls[0], draws.spawn),
                left_player: paddles.0,
                right_player: paddles.1,
                ..self
            };
            if fed.power_ups.has_running_multiball() && fed.balls.len() == 1 {
                fed.spec_with_multiball(draws.split_angle as int, draws.serve)
            } else {
                fed
            }
        } else {
            self
        }
    }

    /// The balls after the first `n` of them had their frame of `micros` microseconds, in
    /// their order, with what that brought. Each ball sees the rally as the balls before
    /// it left it. Once a ball has scored, the balls behind it are left alone: one frame
    /// brings at most one point.
    pub open spec fn swept(self, micros: u64, n: nat) -> Sweep
        decreases n,
    {
        if n == 0 {
            Sweep {
                balls: self.balls,
                rally_count: self.rally_count,
                paddle_hit: false,
                bursts: Seq::empty(),
                scorer: None,
            }
        } else {
            let before = self.swept(micros, (n - 1) as nat);
            if before.scorer.is_some() || n > before.balls.len() {
                before
            } else {
                let ball = before.balls[n - 1];
                let outcome = ball.spec_outcome(
                    self.left_player,
                    self.right_player,
                    self.game_mode,
                    before.rally_count,
                    micros,
                );
                Sweep {
                    balls: before.balls.update(
                        n - 1,
                        ball.spec_stepped(
                            self.left_player,
                            self.right_player,
                            self.game_mode,
                            before.rally_count,
                            micros,
                        ),
                    ),
                    rally_count: if outcome.paddle_hit {
                        rally_after_hit(before.rally_count)
                    } else {
                        before.rally_count
                    },
                    paddle_hit: before.paddle_hit || outcome.paddle_hit,
                    bursts: before.bursts + bursts_of(outcome),
                    scorer: outcome.scorer,
                }
            }
        }
    }

    /// The match with the balls and the rally of `sweep`, and shaken where a paddle hit a
    /// ball.
    pub open spec fn after_sweep(self, sweep: Sweep) -> GameModel {
        let played = GameModel { balls: sweep.balls, rally_count: sweep.rally_count, ..self };
        if sweep.paddle_hit {
            played.spec_with_shake(SCREEN_SHAKE_INTENSITY)
        } else {
            played
        }
    }

    /// The match with one more point for `player`, 0 on the left and 1 on the right.
    pub open spec fn with_point(self, player: usize) -> GameModel {
        if player == 0 {
            GameModel { left_score: one_more(self.left_score), ..self }
        } else {
            GameModel { right_score: one_more(self.right_score), ..self }
        }
    }

    /// The match as the balls find it in a frame that is not paused: after the clocks,
    /// the paddles and the power-ups.
    pub open spec fn at_sweep(self, delta: u64, draws: FrameDraws) -> GameModel {
        self.with_timers_advanced(delta).with_paddles_moved(
            frame_time(delta),
        ).with_power_ups_updated(delta, draws)
    }

    /// What the balls of a frame bring.
    pub open spec fn frame_sweep(self, delta: u64, draws: FrameDraws) -> Sweep {
        let ready = self.at_sweep(delta, draws);
        ready.swept(frame_time(delta), ready.balls.len())
    }

    /// The match after a frame of `delta` microseconds in which chance gave `draws`.
    ///
    /// The clocks go on. A paused game stops there. Else the paddles move, the power-ups
    /// have their frame, and the balls have theirs; a paddle hit shakes the screen; and
    /// where a ball has scored, the scorer gets a point and a new round starts.
    pub open spec fn spec_stepped(self, delta: u64, draws: FrameDraws) -> GameModel {
        let timed = self.with_timers_advanced(delta);
        if timed.game_paused {
            timed
        } else {
            let sweep = self.frame_sweep(delta, draws);
            let played = self.at_sweep(delta, draws).after_sweep(sweep);
            match sweep.scorer {
                Some(player) => played.with_point(player).spec_new_round(draws.serve),
                None => played,
            }
        }
    }

    /// The particles that the same frame calls for, in the order of the hits.
    pub open spec fn spec_bursts(self, delta: u64, draws: FrameDraws) -> Seq<Burst> {
        if self.with_timers_advanced(delta).game_paused {
            Seq::empty()
        } else {
            self.frame_sweep(delta, draws).bursts
        }
    }

    /// The match after `fresh` particles were emitted: beyond the capacity the oldest
    /// particles have left.
    pub open spec fn with_sparks(self, fresh: Seq<Particle>) -> GameModel {
        GameModel { particles: newest(self.particles + fresh, self.max_particles as int), ..self }
    }

    /// A new round is fresh and well formed.
    pub proof fn lemma_new_round_is_fresh(self, serve: Serve)
        requires
            self.well_formed(),
            serve.well_formed(),
        ensures
            self.spec_new_round(serve).is_fresh_round(),
            self.spec_new_round(serve).well_formed(),
            self.spec_new_round(serve).left_score == self.left_score,
            self.spec_new_round(serve).right_score == self.right_score,
            self.spec_new_round(serve).game_mode == self.game_mode,
    {
        BallModel::lemma_launched(center(), serve.angle as int, serve.rightward);
        self.left_player.lemma_stays_on_field(None, 0, NEUTRAL_MULTIPLIER);
        self.right_player.lemma_stays_on_field(None, 0, NEUTRAL_MULTIPLIER);
    }

    /// A frame brings at most one point. A frame in which a ball scores gives the scorer
    /// exactly one point, unless the score is at its largest, and ends at the start of a
    /// fresh round; any other frame leaves the scores as they are.
    pub proof fn lemma_frame_scores_at_most_once(self, delta: u64, draws: FrameDraws)
        requires
            self.well_formed(),
            draws.well_formed(),
        ensures
            ({
                let after = self.spec_stepped(delta, draws);
                let scored = !self.with_timers_advanced(delta).game_paused && self.frame_sweep(
                    delta,
                    draws,
                ).scorer.is_some();
                &&& !scored ==> after.left_score == self.left_score && after.right_score
                    == self.right_score
                &&& scored ==> after.is_fresh_round()
                &&& scored && self.frame_sweep(delta, draws).scorer == Some(0usize)
                    ==> after.left_score == one_more(self.left_score) && after.right_score
                    == self.right_score
                &&& scored && self.frame_sweep(delta, draws).scorer != Some(0usize)
                    ==> after.right_score == one_more(self.right_score) && after.left_score
                    == self.left_score
            }),
    {
        let timed = self.with_timers_advanced(delta);
        if !timed.game_paused {
            let sweep = self.frame_sweep(delta, draws);
            let played = self.at_sweep(delta, draws).after_sweep(sweep);
            match sweep.scorer {
                Some(player) => {
                    BallModel::lemma_launched(
                        center(),
                        draws.serve.angle as int,
                        draws.serve.rightward,
                    );
                },
                None => {},
            }
        }
    }

    /// A new round is the same state whether it follows another new round or not.
    pub proof fn lemma_new_round_idempotent(self, first: Serve, second: Serve)
        requires
            self.well_formed(),
        ensures
            self.spec_new_round(first).spec_new_round(second) == self.spec_new_round(second),
            self.spec_new_round(first).spec_new_round(first) == self.spec_new_round(first),
    {
        self.left_player.lemma_reset_idempotent();
        self.right_player.lemma_reset_idempotent();
    }
}

impl GameState {
    /// See [`GameModel::well_formed`].
    pub open spec fn well_formed(&self) -> bool {
        self@.well_formed()
    }

    /// Whether the match is well formed.
    pub fn is_well_formed(&self) -> (valid: bool)
        ensures
            valid == self.well_formed(),
    {
        if !(self.left_player.is_well_formed() && self.right_player.is_well_formed()
            && self.particle_system.is_well_formed() && self.countdown.is_well_formed()
            && self.power_up_manager.is_well_formed()) {
            return false;
        }
        let mut index: usize = 0;
        while index < self.balls.len()
            invariant
                index <= self.balls@.len(),
                forall|i: int| 0 <= i < index ==> (#[trigger] self.balls@[i]).well_formed(),
            decreases self.balls@.len() - index,
        {
            if !self.balls[index].is_well_formed() {
                assert(self@.balls[index as int] == self.balls@[index as int]@);
                return false;
            }
            index += 1;
        }
        assert forall|i: int| 0 <= i < self@.balls.len() implies (
        #[trigger] self@.balls[i]).well_formed() by {
            assert(self.balls@[i].well_formed());
        }
        true
    }

    /// A match at the start of its first round, with a random serve.
    pub fn new(rng: &mut RandomSource) -> (state: GameState)
        ensures
            state.well_formed(),
            state@.is_fresh_round(),
            exists|serve: Serve|
                serve.well_formed() && state@ == #[trigger] GameModel::spec_initial().spec_new_round(
                    serve,
                ),
    {
        let serve = Serve::random(rng);
        Self::new_with(serve)
    }

    /// A match at the start of its first round, served with `serve`.
    pub fn new_with(serve: Serve) -> (state: GameState)
        requires
            serve.well_formed(),
        ensures
            state@ == GameModel::spec_initial().spec_new_round(serve),
            state.well_formed(),
            state@.is_fresh_round(),
    {
        let left_player = Player::new(
            Color::new(200, 640, 310, 1000),
            Vec2::new(PLAYER_PADDING, SCREEN_HEIGHT / 2 - PLAYER_HEIGHT / 2),
        );
        let right_player = Player::new(
            Color::new(740, 130, 190, 1000),
            Vec2::new(
                SCREEN_WIDTH - PLAYER_WIDTH - PLAYER_PADDING,
                SCREEN_HEIGHT / 2 - PLAYER_HEIGHT / 2,
            ),
        );
        let mut state = GameState {
            left_player,
            right_player,
            balls: Vec::new(),
            left_direction: None,
            right_direction: None,
            left_score: 0,
            right_score: 0,
            particle_system: ParticleSystem::new(MAX_PARTICLES),
            countdown: Countdown::new(COUNTDOWN_SECONDS),
            screen_shake: None,
            game_paused: false,
            round_in_progress: false,
            power_up_manager: PowerUpManager::new(),
            game_mode: GameMode::Classic,
            rally_count: 0,
            game_time: 0,
        };
        assert(state@.balls =~= Seq::empty());
        assert(state@.particles =~= Seq::empty());
        assert(state@ == GameModel::spec_initial());
        state.start_new_round_with(serve);
        state
    }

    /// Starts a new round with a random serve.
    pub fn start_new_round(&mut self, rng: &mut RandomSource)
        requires
            old(self).well_formed(),
        ensures
            final(self).well_formed(),
            final(self)@.is_fresh_round(),
            exists|serve: Serve|
                serve.well_formed() && final(self)@ == #[trigger] old(self)@.spec_new_round(serve),
    {
        let serve = Serve::random(rng);
        self.start_new_round_with(serve);
    }

    /// Starts a new round served with `serve`: the one way back to the state before a
    /// round.
    pub fn start_new_round_with(&mut self, serve: Serve)
        requires
            old(self).well_formed(),
            serve.well_formed(),
        ensures
            final(self)@ == old(self)@.spec_new_round(serve),
            final(self).well_formed(),
            final(self)@.is_fresh_round(),
    {
        self.game_paused = true;
        self.round_in_progress = false;
        self.countdown.start();
        self.left_player.reset_power_ups();
        self.right_player.reset_power_ups();
        self.power_up_manager.reset();
        self.balls.clear();
        let ball = Ball::launched(
            Vec2::new(SCREEN_WIDTH / 2, SCREEN_HEIGHT / 2),
            serve.angle,
            serve.rightward,
        );
        self.balls.push(ball);
        self.rally_count = 0;
        proof {
            assert(self@.balls =~= seq![
                BallModel::spec_launched(center(), serve.angle as int, serve.rightward),
            ]);
        }
    }

    /// Starts a shake of the screen with `intensity`, in place of a running one.
    pub fn add_screen_shake(&mut self, intensity: i64)
        ensures
            final(self)@ == old(self)@.spec_with_shake(intensity),
            old(self).well_formed() ==> final(self).well_formed(),
    {
        if SCREEN_SHAKE_ENABLED {
            self.screen_shake = Some((intensity, SCREEN_SHAKE_DURATION));
        }
    }

    /// Chooses the next mode of play and starts a new round with a random serve.
    pub fn cycle_game_mode(&mut self, rng: &mut RandomSource)
        requires
            old(self).well_formed(),
        ensures
            final(self).well_formed(),
            final(self)@.is_fresh_round(),
            final(self).game_mode == old(self).game_mode.spec_next(),
            exists|serve: Serve|
                serve.well_formed() && final(self)@ == #[trigger] old(self)@.spec_mode_cycled(
                    serve,
                ),
    {
        let serve = Serve::random(rng);
        self.cycle_game_mode_with(serve);
    }

    /// Chooses the next mode of play and starts a new round served with `serve`.
    pub fn cycle_game_mode_with(&mut self, serve: Serve)
        requires
            old(self).well_formed(),
            serve.well_formed(),
        ensures
            final(self)@ == old(self)@.spec_mode_cycled(serve),
            final(self).well_formed(),
            final(self)@.is_fresh_round(),
    {
        self.game_mode = self.game_mode.next();
        self.start_new_round_with(serve);
    }

    /// Adds a ball: one split from the first ball by `split_angle`, or one served with
    /// `serve` where there is no ball.
    pub fn add_multiball(&mut self, split_angle: i64, serve: Serve)
        requires
            old(self).well_formed(),
            -EIGHTH_TURN <= split_angle < EIGHTH_TURN,
            serve.well_formed(),
        ensures
            final(self)@ == old(self)@.spec_with_multiball(split_angle as int, serve),
            final(self).well_formed(),
    {
        if self.balls.is_empty() {
            let ball = Ball::launched(
                Vec2::new(SCREEN_WIDTH / 2, SCREEN_HEIGHT / 2),
                serve.angle,
                serve.rightward,
            );
            self.balls.push(ball);
            proof {
                assert(self@.balls =~= old(self)@.balls.push(
                    BallModel::spec_launched(center(), serve.angle as int, serve.rightward),
                ));
            }
        } else {
            assert(old(self)@.balls[0] == old(self).balls@[0]@);
            let new_ball = Ball::split_at(&self.balls[0], split_angle);
            self.balls.push(new_ball);
            proof {
                assert(self@.balls =~= old(self)@.balls.push(
                    old(self)@.balls[0].spec_split(split_angle as int),
                ));
            }
        }
    }

    /// Lets the clocks of a frame go on.
    fn advance_timers(&mut self, delta: u64)
        requires
            old(self).well_formed(),
        ensures
            final(self)@ == old(self)@.with_timers_advanced(delta),
            final(self).well_formed(),
    {
        let micros: u64 = if delta > MAX_DELTA_TIME {
            MAX_DELTA_TIME
        } else {
            delta
        };
        self.game_time = self.game_time.saturating_add(micros);
        if self.countdown.active {
            if self.countdown.update(delta) {
                self.game_paused = false;
                self.round_in_progress = true;
            }
        }
        if PARTICLES_ENABLED {
            self.particle_system.update(delta);
        }
        match self.screen_shake {
            Some((intensity, remaining)) => {
                let rest: u64 = remaining.saturating_sub(delta);
                if rest < 1000 {
                    self.screen_shake = None;
                } else {
                    self.screen_shake = Some((intensity, rest));
                }
            },
            None => {},
        }
    }

    /// Moves both paddles as their directions ask.
    fn move_paddles(&mut self, micros: u64)
        requires
            old(self).well_formed(),
        ensures
            final(self)@ == old(self)@.with_paddles_moved(micros),
            final(self).well_formed(),
    {
        self.left_player.update(self.left_direction, micros);
        self.right_player.update(self.right_direction, micros);
    }

    /// Gives the power-ups their frame and splits the ball where a split is running.
    fn update_power_ups(&mut self, delta: u64, draws: &FrameDraws)
        requires
            old(self).well_formed(),
            draws.well_formed(),
        ensures
            final(self)@ == old(self)@.with_power_ups_updated(delta, *draws),
            final(self).well_formed(),
    {
        if POWERUPS_ENABLED && !self.balls.is_empty() {
            assert(old(self)@.balls[0] == old(self).balls@[0]@);
            self.power_up_manager.update_with(
                delta,
                &self.balls[0],
                &mut self.left_player,
                &mut self.right_player,
                draws.spawn,
            );
            if self.power_up_manager.get_active_multiball() && self.balls.len() == 1 {
                self.add_multiball(draws.split_angle, draws.serve);
            }
        }
    }

    /// Gives every ball its frame, up to the first one that scores, and says whether a
    /// paddle hit a ball, who scored, and which particles to emit.
    fn sweep_balls(&mut self, micros: u64) -> (result: (bool, Option<usize>, Vec<Burst>))
        requires
            old(self).well_formed(),
        ensures
            ({
                let sweep = old(self)@.swept(micros, old(self)@.balls.len());
                &&& final(self)@ == (GameModel {
                    balls: sweep.balls,
                    rally_count: sweep.rally_count,
                    ..old(self)@
                })
                &&& result.0 == sweep.paddle_hit
                &&& result.1 == sweep.scorer
                &&& result.2@ == sweep.bursts
            }),
            final(self).well_formed(),
    {
        let left = self.left_player;
        let right = self.right_player;
        let mode = self.game_mode;
        let count: usize = self.balls.len();
        let mut index: usize = 0;
        let mut paddle_hit = false;
        let mut scorer: Option<usize> = None;
        let mut bursts: Vec<Burst> = Vec::new();
        assert(ball_models(self.balls@) =~= old(self)@.balls);
        assert forall|i: int| 0 <= i < count implies (#[trigger] self.balls@[i]).well_formed() by {
            assert(self@.balls[i] == self.balls@[i]@);
        }
        while index < count
            invariant
                index <= count,
                count == self.balls@.len(),
                count == old(self)@.balls.len(),
                old(self).well_formed(),
                left == old(self).left_player,
                right == old(self).right_player,
                mode == old(self).game_mode,
                self@ == (GameModel {
                    balls: ball_models(self.balls@),
                    rally_count: self.rally_count,
                    ..old(self)@
                }),
                forall|i: int| 0 <= i < count ==> (#[trigger] self.balls@[i]).well_formed(),
                ball_models(self.balls@) == old(self)@.swept(micros, index as nat).balls,
                self.rally_count == old(self)@.swept(micros, index as nat).rally_count,
                paddle_hit == old(self)@.swept(micros, index as nat).paddle_hit,
                scorer == old(self)@.swept(micros, index as nat).scorer,
                bursts@ == old(self)@.swept(micros, index as nat).bursts,
            decreases count - index,
        {
            let ghost before = old(self)@.swept(micros, index as nat);
            let ghost earlier = self.balls@;
            assert(before.balls[index as int] == self.balls@[index as int]@);
            if scorer.is_none() {
                let rally_count = self.rally_count;
                let ball = &mut self.balls[index];
                let outcome = ball.step(&left, &right, mode, rally_count, micros);
                if outcome.paddle_hit {
                    if self.rally_count < i32::MAX {
                        self.rally_count = self.rally_count + 1;
                    }
                    paddle_hit = true;
                }
                match outcome.wall_burst {
                    Some(burst) => {
                        bursts.push(burst);
                    },
                    None => {},
                }
                match outcome.paddle_burst {
                    Some(burst) => {
                        bursts.push(burst);
                    },
                    None => {},
                }
                scorer = outcome.scorer;
                proof {
                    assert(ball_models(self.balls@) =~= before.balls.update(
                        index as int,
                        self.balls@[index as int]@,
                    ));
                    assert(bursts@ =~= before.bursts + bursts_of(outcome));
                }
            }
            index += 1;
        }
        (paddle_hit, scorer, bursts)
    }

    /// Gives `player`, 0 on the left and 1 on the right, one more point.
    fn award_point(&mut self, player: usize)
        ensures
            final(self)@ == old(self)@.with_point(player),
            old(self).well_formed() ==> final(self).well_formed(),
    {
        if player == 0 {
            if self.left_score < u32::MAX {
                self.left_score = self.left_score + 1;
            }
        } else {
            if self.right_score < u32::MAX {
                self.right_score = self.right_score + 1;
            }
        }
    }

    /// Plays one frame of `delta` microseconds in which chance gave `draws`, and returns
    /// the particles that the hits of the frame call for.
    pub fn step(&mut self, delta: u64, draws: &FrameDraws) -> (bursts: Vec<Burst>)
        requires
            old(self).well_formed(),
            draws.well_formed(),
        ensures
            final(self)@ == old(self)@.spec_stepped(delta, *draws),
            bursts@ == old(self)@.spec_bursts(delta, *draws),
            final(self).well_formed(),
    {
        self.advance_timers(delta);
        if self.game_paused {
            return Vec::new();
        }
        let micros: u64 = if delta > MAX_DELTA_TIME {
            MAX_DELTA_TIME
        } else {
            delta
        };
        self.move_paddles(micros);
        self.update_power_ups(delta, draws);
        let (paddle_hit, scorer, bursts) = self.sweep_balls(micros);
        if paddle_hit {
            self.add_screen_shake(SCREEN_SHAKE_INTENSITY);
        }
        match scorer {
            Some(player) => {
                self.award_point(player);
                self.start_new_round_with(draws.serve);
            },
            None => {},
        }
        bursts
    }

    /// Emits the particles that `bursts` call for, burst by burst.
    fn emit_bursts(&mut self, bursts: &Vec<Burst>, rng: &mut RandomSource)
        requires
            old(self).well_formed(),
        ensures
            exists|fresh: Seq<Particle>|
                #[trigger] answers(fresh, bursts@) && final(self)@ == old(self)@.with_sparks(fresh),
            final(self).well_formed(),
    {
        let ghost mut fresh: Seq<Particle> = Seq::empty();
        let mut index: usize = 0;
        proof {
            assert(bursts@.take(0) =~= Seq::empty());
            assert(self.particle_system.particles@ + fresh =~= self.particle_system.particles@);
        }
        while index < bursts.len()
            invariant
                index <= bursts@.len(),
                self.well_formed(),
                answers(fresh, bursts@.take(index as int)),
                self@ == old(self)@.with_sparks(fresh),
            decreases bursts@.len() - index,
        {
            let burst: Burst = bursts[index];
            let ghost before = self.particle_system.particles@;
            let ghost earlier = fresh;
            let ghost entering = self@;
            self.particle_system.emit(burst.position, burst.color, burst.count, rng);
            proof {
                assert(self@ == (GameModel {
                    particles: self.particle_system.particles@,
                    ..entering
                }));
                assert(self@.well_formed());
                let capacity = old(self)@.max_particles as int;
                let sparks = choose|sparks: Seq<Particle>|
                    {
                        &&& sparks.len() == burst.count
                        &&& forall|i: int|
                            0 <= i < burst.count ==> (#[trigger] sparks[i]).is_fresh(
                                burst.position,
                                burst.color,
                            )
                        &&& self.particle_system.particles@ == #[trigger] newest(
                            before + sparks,
                            capacity,
                        )
                    };
                fresh = earlier + sparks;
                lemma_newest_absorbs(old(self)@.particles + earlier, sparks, capacity);
                assert(old(self)@.particles + fresh =~= (old(self)@.particles + earlier)
                    + sparks);
                let served = bursts@.take(index + 1);
                assert(served.last() == burst);
                assert(served.drop_last() =~= bursts@.take(index as int));
                assert(fresh.take(fresh.len() - burst.count) =~= earlier);
                assert forall|i: int| fresh.len() - burst.count <= i < fresh.len() implies (
                #[trigger] fresh[i]).is_fresh(burst.position, burst.color) by {
                    assert(fresh[i] == sparks[i - earlier.len()]);
                }
            }
            index += 1;
        }
        proof {
            assert(bursts@.take(bursts@.len() as int) =~= bursts@);
        }
    }

    /// Plays one frame of `delta` microseconds.
    ///
    /// Chance decides the draws of the frame and what the new particles are like. The
    /// match follows from the draws as [`GameModel::spec_stepped`] says, and the new
    /// particles answer the hits of the frame, burst by burst.
    pub fn update(&mut self, delta: u64, rng: &mut RandomSource)
        requires
            old(self).well_formed(),
        ensures
            final(self).well_formed(),
            exists|draws: FrameDraws, fresh: Seq<Particle>|
                {
                    &&& draws.is_fair()
                    &&& #[trigger] answers(fresh, old(self)@.spec_bursts(delta, draws))
                    &&& final(self)@ == old(self)@.spec_stepped(delta, draws).with_sparks(fresh)
                },
    {
        let draws = FrameDraws::random(rng);
        let bursts = self.step(delta, &draws);
        let ghost stepped = self@;
        if PARTICLES_ENABLED {
            self.emit_bursts(&bursts, rng);
        }
        proof {
            let fresh = choose|fresh: Seq<Particle>|
                #[trigger] answers(fresh, bursts@) && self@ == stepped.with_sparks(fresh);
            assert(answers(fresh, old(self)@.spec_bursts(delta, draws)));
        }
    }

    /// Handles a key that went down; a restart or a change of mode serves at random.
    pub fn key_down_event(&mut self, control: Control, rng: &mut RandomSource)
        requires
            old(self).well_formed(),
        ensures
            final(self).well_formed(),
            exists|serve: Serve|
                serve.well_formed() && final(self)@ == #[trigger] old(self)@.spec_key_down(
                    control,
                    serve,
                ),
    {
        let serve = Serve::random(rng);
        self.key_down_with(control, serve);
    }

    /// Handles a key that went down; a restart or a change of mode serves with `serve`.
    pub fn key_down_with(&mut self, control: Control, serve: Serve)
        requires
            old(self).well_formed(),
            serve.well_formed(),
        ensures
            final(self)@ == old(self)@.spec_key_down(control, serve),
            final(self).well_formed(),
    {
        match control {
            Control::LeftUp => {
                self.left_direction = Some(Direction::Up);
            },
            Control::LeftDown => {
                self.left_direction = Some(Direction::Down);
            },
            Control::RightUp => {
                self.right_direction = Some(Direction::Up);
            },
            Control::RightDown => {
                self.right_direction = Some(Direction::Down);
            },
            Control::TogglePause => {
                if !self.countdown.active {
                    self.game_paused = !self.game_paused;
                }
            },
            Control::Restart => {
                self.start_new_round_with(serve);
            },
            Control::CycleMode => {
                self.cycle_game_mode_with(serve);
            },
        }
    }

    /// Handles a key that went up: the paddle of a direction key stops.
    pub fn key_up_event(&mut self, control: Control)
        ensures
            final(self)@ == old(self)@.spec_key_up(control),
            old(self).well_formed() ==> final(self).well_formed(),
    {
        match control {
            Control::LeftUp | Control::LeftDown => {
                self.left_direction = None;
            },
            Control::RightUp | Control::RightDown => {
                self.right_direction = None;
            },
            _ => {},
        }
    }
}

} // verus!
