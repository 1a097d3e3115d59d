//! What one frame does to one ball: the speed rule of the mode, the walls, the paddles,
//! and the edges behind the paddles where a point is scored.

use vstd::prelude::*;
use crate::color::Color;
use crate::constants::{
    wall_spark_color, BALL_ACCELERATION_FACTOR, LONG_RALLY_SPEED_MULTIPLIER,
    LONG_RALLY_THRESHOLD, PADDLE_HIT_PARTICLE_COUNT, PARTICLES_ENABLED, PLAYER_WIDTH,
    SCREEN_HEIGHT, SCREEN_WIDTH, SPIN_SPEED, WALL_HIT_PARTICLE_COUNT,
};
use crate::entities::ball::{Ball, BallModel};
use crate::entities::player::Player;
use crate::game_mode::GameMode;
use crate::numeric::{
    abs_i64, clamp_i128, clamped, floor_sqrt, isqrt, lemma_negated_square, lemma_product_bound,
    lemma_square_monotone, magnitude, quotient, LIMIT,
};
use crate::vec2::Vec2;

verus! {

/// A request for particles: `count` of them at `position` in `color`.
#[derive(Clone, Copy, Debug)]
pub struct Burst {
    pub position: Vec2,
    pub color: Color,
    pub count: usize,
}

/// What a frame brought for one ball.
#[derive(Clone, Copy, Debug)]
pub struct BallOutcome {
    /// The particles of a wall hit, if there was one.
    pub wall_burst: Option<Burst>,
    /// The particles of a paddle hit, if there was one.
    pub paddle_burst: Option<Burst>,
    /// Whether a paddle hit the ball.
    pub paddle_hit: bool,
    /// The player who scored, 0 on the left and 1 on the right, if the ball left the field.
    pub scorer: Option<usize>,
}

impl BallModel {
    /// The ball under the speed rule of `mode`: the classic mode brings a drifted speed
    /// back to its target, the accelerating mode speeds the ball up, and the rally fever
    /// sets the long-rally multiplier once the rally is long.
    pub open spec fn after_policy(self, mode: GameMode, rally_count: i32, micros: u64) -> BallModel {
        match mode {
            GameMode::Accelerating => self.spec_accelerated(BALL_ACCELERATION_FACTOR, micros),
            GameMode::RallyFever => if rally_count >= LONG_RALLY_THRESHOLD {
                self.spec_with_speed_multiplier(LONG_RALLY_SPEED_MULTIPLIER)
            } else {
                self
            },
            GameMode::Classic => self.spec_normalized(),
        }
    }

    /// Whether the ball touches the top or the bottom wall.
    pub open spec fn touches_wall(self) -> bool {
        self.position.y - self.radius <= 0 || self.position.y + self.radius >= SCREEN_HEIGHT
    }

    /// The point of the wall that the ball touches.
    pub open spec fn wall_contact(self) -> Vec2 {
        if self.position.y - self.radius <= 0 {
            Vec2 { x: self.position.x, y: 0 }
        } else {
            Vec2 { x: self.position.x, y: SCREEN_HEIGHT }
        }
    }

    /// Whether the ball overlaps the vertical extent of `paddle`.
    pub open spec fn beside(self, paddle: Player) -> bool {
        self.position.y + self.radius >= paddle.position.y && self.position.y - self.radius
            <= paddle.position.y + paddle.size.y
    }

    /// Whether the left paddle hits the ball: the ball flies to the left, has reached the
    /// paddle's right edge, and overlaps its vertical extent.
    pub open spec fn hits_left_paddle(self, paddle: Player) -> bool {
        self.position.x - self.radius <= paddle.position.x + PLAYER_WIDTH && self.beside(paddle)
            && self.velocity.x < 0
    }

    /// Whether the right paddle hits the ball: the ball flies to the right, has reached
    /// the paddle's left edge, and overlaps its vertical extent.
    pub open spec fn hits_right_paddle(self, paddle: Player) -> bool {
        self.position.x + self.radius >= paddle.position.x && self.beside(paddle)
            && self.velocity.x > 0
    }

    /// The vertical speed that a hit by `paddle` adds: the spin speed times the distance of
    /// the ball from the middle of the paddle, in half paddle heights, rounded toward zero.
    pub open spec fn spin(self, paddle: Player) -> int {
        let half = paddle.size.y / 2;
        if half == 0 {
            0
        } else {
            quotient((self.position.y - (paddle.position.y + half)) * SPIN_SPEED, half as int)
        }
    }

    /// The ball sent back by `paddle`, to the right or to the left: its horizontal speed
    /// points away from the paddle, and the spin is added to its vertical speed as far as
    /// the speed stays within the stored range.
    pub open spec fn deflected(self, paddle: Player, rightward: bool) -> BallModel {
        let ahead = magnitude(self.velocity.x as int);
        let room = floor_sqrt(LIMIT * LIMIT - ahead * ahead);
        BallModel {
            velocity: Vec2 {
                x: (if rightward {
                    ahead
                } else {
                    -ahead
                }) as i64,
                y: clamped(self.velocity.y + self.spin(paddle), -room, room) as i64,
            },
            ..self
        }
    }

    /// The player who scores as the ball leaves the field: the right one, 1, behind the
    /// left edge and the left one, 0, behind the right edge.
    pub open spec fn scorer(self) -> Option<usize> {
        if self.position.x + self.radius < 0 {
            Some(1usize)
        } else if self.position.x - self.radius > SCREEN_WIDTH {
            Some(0usize)
        } else {
            None
        }
    }

    /// The ball after the walls: reversed vertically where it touches one.
    pub open spec fn after_walls(self) -> BallModel {
        if self.touches_wall() {
            self.spec_bounced_vertical()
        } else {
            self
        }
    }

    /// The ball after the paddles: sent back by the left paddle, else by the right one,
    /// where one of them hits it.
    pub open spec fn after_paddles(self, left: Player, right: Player) -> BallModel {
        if self.hits_left_paddle(left) {
            self.deflected(left, true)
        } else if self.hits_right_paddle(right) {
            self.deflected(right, false)
        } else {
            self
        }
    }

    /// The particles that the paddles call for: at the edge of the paddle that hits the
    /// ball, level with the ball, in the paddle's colour.
    pub open spec fn paddle_burst(self, left: Player, right: Player) -> Option<Burst> {
        if !PARTICLES_ENABLED {
            None
        } else if self.hits_left_paddle(left) {
            Some(
                Burst {
                    position: Vec2 {
                        x: (left.position.x + PLAYER_WIDTH) as i64,
                        y: self.position.y,
                    },
                    color: left.color,
                    count: PADDLE_HIT_PARTICLE_COUNT,
                },
            )
        } else if self.hits_right_paddle(right) {
            Some(
                Burst {
                    position: Vec2 { x: right.position.x, y: self.position.y },
                    color: right.color,
                    count: PADDLE_HIT_PARTICLE_COUNT,
                },
            )
        } else {
            None
        }
    }

    /// The particles that the walls call for: at the point of contact, in grey.
    pub open spec fn wall_burst(self) -> Option<Burst> {
        if PARTICLES_ENABLED && self.touches_wall() {
            Some(
                Burst {
                    position: self.wall_contact(),
                    color: Color { r: 800, g: 800, b: 800, a: 1000 },
                    count: WALL_HIT_PARTICLE_COUNT,
                },
            )
        } else {
            None
        }
    }

    /// The ball as the walls find it in a frame of `micros` microseconds: moved, and under
    /// the speed rule of the mode.
    pub open spec fn at_walls(self, mode: GameMode, rally_count: i32, micros: u64) -> BallModel {
        self.spec_updated(micros).after_policy(mode, rally_count, micros)
    }

    /// The ball after a frame of `micros` microseconds: moved, under the speed rule of the
    /// mode, reflected by the walls and sent back by the paddles.
    pub open spec fn spec_stepped(
        self,
        left: Player,
        right: Player,
        mode: GameMode,
        rally_count: i32,
        micros: u64,
    ) -> BallModel {
        self.at_walls(mode, rally_count, micros).after_walls().after_paddles(left, right)
    }

    /// What that frame brings: the particles of the wall and of the paddle, whether a
    /// paddle hit the ball, and who scored.
    pub open spec fn spec_outcome(
        self,
        left: Player,
        right: Player,
        mode: GameMode,
        rally_count: i32,
        micros: u64,
    ) -> BallOutcome {
        let at_walls = self.at_walls(mode, rally_count, micros);
        let at_paddles = at_walls.after_walls();
        BallOutcome {
            wall_burst: at_walls.wall_burst(),
            paddle_burst: at_paddles.paddle_burst(left, right),
            paddle_hit: at_paddles.hits_left_paddle(left) || at_paddles.hits_right_paddle(right),
            scorer: at_paddles.after_paddles(left, right).scorer(),
        }
    }
}

impl BallModel {
    /// A paddle hit is resolved at once: the ball that a paddle has sent back flies away
    /// from it with the horizontal speed it came with, so that neither this paddle nor any
    /// other on its side hits it again while it flies on.
    pub proof fn lemma_paddle_hit_resolves(self, paddle: Player, other: Player)
        requires
            self.well_formed(),
        ensures
            self.hits_left_paddle(paddle) ==> self.deflected(paddle, true).velocity.x
                == -self.velocity.x && !self.deflected(paddle, true).hits_left_paddle(other),
            self.hits_right_paddle(paddle) ==> self.deflected(paddle, false).velocity.x
                == -self.velocity.x && !self.deflected(paddle, false).hits_right_paddle(other),
            self.deflected(paddle, true).well_formed(),
            self.deflected(paddle, false).well_formed(),
            self.deflected(paddle, true).position == self.position,
    {
        self.velocity.lemma_components_within(LIMIT as int);
        let ahead = magnitude(self.velocity.x as int);
        lemma_product_bound(ahead, ahead, LIMIT as int, LIMIT as int);
        lemma_negated_square(ahead);
        lemma_negated_square(self.velocity.x as int);
        let rest = LIMIT * LIMIT - ahead * ahead;
        crate::numeric::lemma_floor_sqrt_exists(rest);
        let room = floor_sqrt(rest);
        if room > LIMIT {
            lemma_square_monotone(LIMIT + 1, room);
        }
        let vertical = clamped(self.velocity.y + self.spin(paddle), -room, room);
        lemma_negated_square(vertical);
        lemma_negated_square(room);
        lemma_square_monotone(magnitude(vertical), room);
        assert(magnitude(vertical) * magnitude(vertical) == vertical * vertical)
            by (nonlinear_arith);
    }
}

impl Ball {
    /// Applies the speed rule of `mode` to the ball.
    pub fn apply_policy(&mut self, mode: GameMode, rally_count: i32, micros: u64)
        requires
            old(self).well_formed(),
        ensures
            final(self)@ == old(self)@.after_policy(mode, rally_count, micros),
            final(self).well_formed(),
    {
        match mode {
            GameMode::Accelerating => {
                self.accelerate(BALL_ACCELERATION_FACTOR, micros);
            },
            GameMode::RallyFever => {
                if rally_count >= LONG_RALLY_THRESHOLD {
                    self.apply_speed_multiplier(LONG_RALLY_SPEED_MULTIPLIER);
                }
            },
            GameMode::Classic => {
                self.normalize_velocity();
            },
        }
    }

    /// Whether the ball touches the top or the bottom wall.
    pub fn touches_wall(&self) -> (touches: bool)
        requires
            self.well_formed(),
        ensures
            touches == self@.touches_wall(),
    {
        self.position.y - self.radius <= 0 || self.position.y + self.radius >= SCREEN_HEIGHT
    }

    /// Whether the left paddle hits the ball.
    pub fn hits_left_paddle(&self, paddle: &Player) -> (hit: bool)
        requires
            self.well_formed(),
            paddle.well_formed(),
        ensures
            hit == self@.hits_left_paddle(*paddle),
    {
        self.position.x - self.radius <= paddle.position.x + PLAYER_WIDTH && self.position.y
            + self.radius >= paddle.position.y && self.position.y - self.radius
            <= paddle.position.y + paddle.size.y && self.velocity.x < 0
    }

    /// Whether the right paddle hits the ball.
    pub fn hits_right_paddle(&self, paddle: &Player) -> (hit: bool)
        requires
            self.well_formed(),
            paddle.well_formed(),
        ensures
            hit == self@.hits_right_paddle(*paddle),
    {
        self.position.x + self.radius >= paddle.position.x && self.position.y + self.radius
            >= paddle.position.y && self.position.y - self.radius <= paddle.position.y
            + paddle.size.y && self.velocity.x > 0
    }

    /// Sends the ball back from `paddle`, to the right or to the left, with the spin of
    /// the place where it was hit. The horizontal speed keeps its amount.
    pub fn deflect(&mut self, paddle: &Player, rightward: bool)
        requires
            old(self).well_formed(),
            paddle.well_formed(),
        ensures
            final(self)@ == old(self)@.deflected(*paddle, rightward),
            final(self).well_formed(),
            magnitude(final(self).velocity.x as int) == magnitude(old(self).velocity.x as int),
            rightward ==> final(self).velocity.x >= 0,
            !rightward ==> final(self).velocity.x <= 0,
    {
        proof {
            self.velocity.lemma_components_within(LIMIT as int);
        }
        let ahead: i64 = abs_i64(self.velocity.x);
        proof {
            lemma_product_bound(ahead as int, ahead as int, LIMIT as int, LIMIT as int);
            lemma_negated_square(ahead as int);
            lemma_negated_square(self.velocity.x as int);
            assert(ahead * ahead == self.velocity.x * self.velocity.x);
        }
        let root: u64 = isqrt((LIMIT * LIMIT - ahead * ahead) as u128);
        proof {
            assert(root <= LIMIT) by {
                if root > LIMIT {
                    lemma_square_monotone(LIMIT + 1, root as int);
                }
            }
        }
        let room: i64 = root as i64;
        let half: i64 = paddle.size.y / 2;
        let spin: i128 = if half == 0 {
            0
        } else {
            let offset: i64 = self.position.y - (paddle.position.y + half);
            proof {
                lemma_product_bound(offset as int, SPIN_SPEED as int, 3 * LIMIT, SPIN_SPEED as int);
            }
            (offset as i128) * (SPIN_SPEED as i128) / (half as i128)
        };
        let vertical: i64 = clamp_i128(self.velocity.y as i128 + spin, -room, room);
        proof {
            lemma_negated_square(vertical as int);
            lemma_negated_square(room as int);
            assert(vertical * vertical <= room * room) by {
                lemma_square_monotone(magnitude(vertical as int), room as int);
                assert(magnitude(vertical as int) * magnitude(vertical as int) == vertical
                    * vertical) by (nonlinear_arith);
            }
            lemma_negated_square(ahead as int);
        }
        self.velocity = Vec2 {
            x: if rightward {
                ahead
            } else {
                -ahead
            },
            y: vertical,
        };
    }

    /// The player who scores as the ball leaves the field, if it does.
    pub fn scorer(&self) -> (scorer: Option<usize>)
        requires
            self.well_formed(),
        ensures
            scorer == self@.scorer(),
    {
        if self.position.x + self.radius < 0 {
            Some(1)
        } else if self.position.x - self.radius > SCREEN_WIDTH {
            Some(0)
        } else {
            None
        }
    }

    /// Carries the ball through one frame of `micros` microseconds: it moves, takes the
    /// speed rule of the mode, is reflected by the walls and sent back by the paddles.
    /// The outcome names the particles to emit, whether a paddle hit the ball, and who
    /// scored.
    pub fn step(
        &mut self,
        left: &Player,
        right: &Player,
        mode: GameMode,
        rally_count: i32,
        micros: u64,
    ) -> (outcome: BallOutcome)
        requires
            old(self).well_formed(),
            left.well_formed(),
            right.well_formed(),
        ensures
            final(self)@ == old(self)@.spec_stepped(*left, *right, mode, rally_count, micros),
            outcome == old(self)@.spec_outcome(*left, *right, mode, rally_count, micros),
            final(self).well_formed(),
    {
        self.update(micros);
        self.apply_policy(mode, rally_count, micros);
        let mut wall_burst: Option<Burst> = None;
        if self.touches_wall() {
            if PARTICLES_ENABLED {
                let contact = if self.position.y - self.radius <= 0 {
                    Vec2::new(self.position.x, 0)
                } else {
                    Vec2::new(self.position.x, SCREEN_HEIGHT)
                };
                wall_burst = Some(
                    Burst {
                        position: contact,
                        color: wall_spark_color(),
                        count: WALL_HIT_PARTICLE_COUNT,
                    },
                );
            }
            self.bounce_vertical();
        }
        let mut paddle_burst: Option<Burst> = None;
        let mut paddle_hit = false;
        if self.hits_left_paddle(left) {
            if PARTICLES_ENABLED {
                paddle_burst = Some(
                    Burst {
                        position: Vec2::new(left.position.x + PLAYER_WIDTH, self.position.y),
                        color: left.color,
                        count: PADDLE_HIT_PARTICLE_COUNT,
                    },
                );
            }
            self.deflect(left, true);
            paddle_hit = true;
        } else if self.hits_right_paddle(right) {
            if PARTICLES_ENABLED {
                paddle_burst = Some(
                    Burst {
                        position: Vec2::new(right.position.x, self.position.y),
                        color: right.color,
                        count: PADDLE_HIT_PARTICLE_COUNT,
                    },
                );
            }
            self.deflect(right, false);
            paddle_hit = true;
        }
        let scorer = self.scorer();
        BallOutcome { wall_burst, paddle_burst, paddle_hit, scorer }
    }
}

} // verus!
