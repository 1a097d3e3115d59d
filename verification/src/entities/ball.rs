//! A ball: its motion, its trail of earlier positions, and the rules that set its speed.

use vstd::prelude::*;
use std::collections::VecDeque;
use crate::color::Color;
use crate::constants::{
    ball_color, ACCELERATION_THRESHOLD, BALL_RADIUS, BALL_SPEED, BALL_SUBSTEPS, MAX_BALL_SPEED,
    MOTION_BLUR_ENABLED, MOTION_BLUR_TRAIL_COUNT, NEUTRAL_MULTIPLIER,
};
use crate::heading::{Heading, EIGHTH_TURN};
use crate::numeric::{
    floor_sqrt, lemma_floor_sqrt_exists, lemma_floor_sqrt_unique, lemma_negated_square,
    lemma_product_bound, lemma_square_monotone, lesser, magnitude, LIMIT,
};
use crate::random::RandomSource;
use crate::vec2::Vec2;

verus! {

/// A ball. The multiplier is in thousandths; `previous_positions` holds the positions of
/// the last steps, oldest first.
#[derive(Clone, Debug)]
pub struct Ball {
    pub position: Vec2,
    pub velocity: Vec2,
    pub radius: i64,
    pub color: Color,
    pub previous_positions: VecDeque<Vec2>,
    pub speed_multiplier: u32,
    pub base_speed: i64,
}

/// What a ball holds, with its trail as a sequence.
pub struct BallModel {
    pub position: Vec2,
    pub velocity: Vec2,
    pub radius: i64,
    pub color: Color,
    pub trail: Seq<Vec2>,
    pub speed_multiplier: u32,
    pub base_speed: i64,
}

impl View for Ball {
    type V = BallModel;

    open spec fn view(&self) -> BallModel {
        BallModel {
            position: self.position,
            velocity: self.velocity,
            radius: self.radius,
            color: self.color,
            trail: self.previous_positions@,
            speed_multiplier: self.speed_multiplier,
            base_speed: self.base_speed,
        }
    }
}

/// A trail that holds `position` in every place.
pub open spec fn filled_trail(position: Vec2) -> Seq<Vec2> {
    Seq::new(MOTION_BLUR_TRAIL_COUNT as nat, |i: int| position)
}

impl BallModel {
    /// Position, speed and radius lie within the stored range and the trail has its
    /// fixed length.
    pub open spec fn well_formed(self) -> bool {
        &&& self.position.in_bounds()
        &&& self.velocity.no_faster_than(LIMIT as int)
        &&& 0 <= self.radius <= LIMIT
        &&& 0 <= self.base_speed <= LIMIT
        &&& self.trail.len() == MOTION_BLUR_TRAIL_COUNT
    }

    /// The speed, rounded down.
    pub open spec fn speed(self) -> int {
        floor_sqrt(self.velocity.norm_sq())
    }

    /// The velocity of a serve: the heading of `angle`, to the right or mirrored to the
    /// left, at the starting speed of a ball.
    pub open spec fn serve_velocity(angle: int, rightward: bool) -> Vec2 {
        let heading = Heading::spec_from_angle(angle);
        if rightward {
            heading.spec_velocity(BALL_SPEED as int)
        } else {
            heading.spec_mirrored().spec_velocity(BALL_SPEED as int)
        }
    }

    /// A ball served from `position` at `angle`, to the right or to the left.
    pub open spec fn spec_launched(position: Vec2, angle: int, rightward: bool) -> BallModel {
        BallModel {
            position,
            velocity: Self::serve_velocity(angle, rightward),
            radius: BALL_RADIUS,
            color: Color { r: 0, g: 0, b: 1000, a: 1000 },
            trail: filled_trail(position),
            speed_multiplier: NEUTRAL_MULTIPLIER,
            base_speed: BALL_SPEED,
        }
    }

    /// The ball lies at `position`, its trail holds no other place, and it flies at the
    /// starting speed, up to rounding, no steeper than an eighth of a turn from the
    /// horizontal.
    pub open spec fn is_fresh_serve(self, position: Vec2) -> bool {
        &&& self.position == position
        &&& self.radius == BALL_RADIUS
        &&& self.color == Color { r: 0, g: 0, b: 1000, a: 1000 }
        &&& self.trail == filled_trail(position)
        &&& self.speed_multiplier == NEUTRAL_MULTIPLIER
        &&& self.base_speed == BALL_SPEED
        &&& self.velocity.no_faster_than(BALL_SPEED as int)
        &&& self.velocity.no_slower_than(BALL_SPEED - 3)
        &&& magnitude(self.velocity.y as int) <= magnitude(self.velocity.x as int)
        &&& self.velocity.x != 0
    }

    /// A second ball split from this one: same place, same multipliers, an empty history,
    /// and the velocity turned by `angle`.
    pub open spec fn spec_split(self, angle: int) -> BallModel {
        BallModel {
            velocity: Heading::spec_from_angle(angle).spec_turn(self.velocity),
            trail: filled_trail(self.position),
            ..self
        }
    }

    /// The ball after `micros` microseconds: the position it leaves joins the trail in
    /// place of the oldest entry, and the ball moves in three equal steps.
    pub open spec fn spec_updated(self, micros: u64) -> BallModel {
        BallModel {
            position: self.position.spec_moved_in_steps(
                self.velocity,
                (micros / BALL_SUBSTEPS) as int,
                BALL_SUBSTEPS as nat,
            ),
            trail: if MOTION_BLUR_ENABLED {
                self.trail.drop_first().push(self.position)
            } else {
                self.trail
            },
            ..self
        }
    }

    /// The ball after one update for each entry of `steps`, in their order.
    pub open spec fn spec_updated_through(self, steps: Seq<u64>) -> BallModel
        decreases steps.len(),
    {
        if steps.len() == 0 {
            self
        } else {
            self.spec_updated_through(steps.drop_last()).spec_updated(steps.last())
        }
    }

    /// The ball with its vertical velocity reversed.
    pub open spec fn spec_bounced_vertical(self) -> BallModel {
        BallModel { velocity: Vec2 { x: self.velocity.x, y: (-self.velocity.y) as i64 }, ..self }
    }

    /// The ball with its horizontal velocity reversed.
    pub open spec fn spec_bounced_horizontal(self) -> BallModel {
        BallModel { velocity: Vec2 { x: (-self.velocity.x) as i64, y: self.velocity.y }, ..self }
    }

    /// The ball served anew from `position`; radius and colour stay.
    pub open spec fn spec_reset(self, position: Vec2, angle: int, rightward: bool) -> BallModel {
        BallModel {
            position,
            velocity: Self::serve_velocity(angle, rightward),
            trail: if MOTION_BLUR_ENABLED {
                filled_trail(position)
            } else {
                self.trail
            },
            speed_multiplier: NEUTRAL_MULTIPLIER,
            base_speed: BALL_SPEED,
            ..self
        }
    }

    /// The speed that a multiplier asks for: the base speed times the multiplier.
    pub open spec fn multiplied_speed(self, multiplier: u32) -> int {
        self.base_speed * multiplier / 1000
    }

    /// The ball under another speed multiplier: the velocity is brought to the multiplied
    /// speed, or to the largest ball speed where that is lower; a ball at rest stays at
    /// rest.
    pub open spec fn spec_with_speed_multiplier(self, multiplier: u32) -> BallModel {
        BallModel {
            speed_multiplier: multiplier,
            velocity: self.velocity.spec_scaled_to(
                lesser(self.multiplied_speed(multiplier), MAX_BALL_SPEED as int),
            ),
            ..self
        }
    }

    /// The speed that `micros` microseconds of acceleration at `rate` lead to: the
    /// present speed plus the gain, or the largest ball speed where that is lower.
    pub open spec fn accelerated_speed(self, rate: u32, micros: u64) -> int {
        lesser(self.speed() + rate * micros / 1_000_000, MAX_BALL_SPEED as int)
    }

    /// Whether the acceleration changes the ball: it moves, and the change of speed is
    /// above the threshold.
    pub open spec fn accelerates(self, rate: u32, micros: u64) -> bool {
        self.speed() > 0 && magnitude(self.accelerated_speed(rate, micros) - self.speed())
            > ACCELERATION_THRESHOLD
    }

    /// The ball after `micros` microseconds of acceleration at `rate`.
    pub open spec fn spec_accelerated(self, rate: u32, micros: u64) -> BallModel {
        if self.accelerates(rate, micros) {
            BallModel {
                velocity: self.velocity.spec_scaled_to(self.accelerated_speed(rate, micros)),
                ..self
            }
        } else {
            self
        }
    }

    /// The speed that the ball is meant to have: the base speed times its multiplier,
    /// within the stored range.
    pub open spec fn target_speed(self) -> int {
        lesser(self.multiplied_speed(self.speed_multiplier), LIMIT as int)
    }

    /// Whether the speed has left the band of a tenth around the target speed.
    pub open spec fn has_drifted(self) -> bool {
        self.speed() > 0 && (self.speed() * 10 < self.target_speed() * 9 || self.speed() * 10
            > self.target_speed() * 11)
    }

    /// The ball brought back to its target speed where it has drifted.
    pub open spec fn spec_normalized(self) -> BallModel {
        if self.has_drifted() {
            BallModel { velocity: self.velocity.spec_scaled_to(self.target_speed()), ..self }
        } else {
            self
        }
    }
}

impl BallModel {
    /// A served ball is well formed and fresh: it flies at the starting speed, up to
    /// rounding, no steeper than an eighth of a turn from the horizontal, to the side it
    /// was served to.
    pub proof fn lemma_launched(position: Vec2, angle: int, rightward: bool)
        requires
            position.in_bounds(),
            -EIGHTH_TURN <= angle < EIGHTH_TURN,
        ensures
            Self::spec_launched(position, angle, rightward).well_formed(),
            Self::spec_launched(position, angle, rightward).is_fresh_serve(position),
            rightward ==> Self::serve_velocity(angle, rightward).x > 0,
            !rightward ==> Self::serve_velocity(angle, rightward).x < 0,
    {
        Heading::lemma_from_angle(angle);
        let heading = Heading::spec_from_angle(angle);
        let aimed = if rightward {
            heading
        } else {
            heading.spec_mirrored()
        };
        lemma_negated_square(heading.cos as int);
        let direction = Vec2 { x: aimed.cos, y: aimed.sin };
        direction.lemma_scaled_to(BALL_SPEED as int);
        let velocity = direction.spec_scaled_to(BALL_SPEED as int);
        assert(direction.norm_sq() != 0);
        if velocity.x == 0 {
            assert(velocity.y == 0);
            assert(velocity.norm_sq() == 0) by (nonlinear_arith)
                requires
                    velocity.x == 0,
                    velocity.y == 0,
            ;
        }
        lemma_square_monotone(BALL_SPEED as int, LIMIT as int);
        assert(filled_trail(position).len() == MOTION_BLUR_TRAIL_COUNT);
    }

    /// Moving a ball never changes its velocity, however often it moves.
    pub proof fn lemma_updates_keep_velocity(self, steps: Seq<u64>)
        ensures
            self.spec_updated_through(steps).velocity == self.velocity,
            self.spec_updated_through(steps).speed_multiplier == self.speed_multiplier,
            self.spec_updated_through(steps).base_speed == self.base_speed,
        decreases steps.len(),
    {
        if steps.len() > 0 {
            self.lemma_updates_keep_velocity(steps.drop_last());
        }
    }

    /// Once a speed multiplier has been applied, the ball is no faster than the largest
    /// ball speed, and stays so however often it moves.
    pub proof fn lemma_multiplier_caps_speed(self, multiplier: u32, steps: Seq<u64>)
        requires
            self.well_formed(),
        ensures
            self.spec_with_speed_multiplier(multiplier).spec_updated_through(
                steps,
            ).velocity.no_faster_than(MAX_BALL_SPEED as int),
    {
        let set = self.spec_with_speed_multiplier(multiplier);
        set.lemma_updates_keep_velocity(steps);
        self.velocity.lemma_components_within(LIMIT as int);
        lemma_product_bound(self.base_speed as int, multiplier as int, LIMIT as int, 0xffff_ffff);
        assert(self.base_speed * multiplier >= 0) by (nonlinear_arith)
            requires
                self.base_speed >= 0,
                multiplier >= 0,
        ;
        let target = lesser(self.multiplied_speed(multiplier), MAX_BALL_SPEED as int);
        self.velocity.lemma_scaled_to(target);
        lemma_negated_square(MAX_BALL_SPEED as int);
        if self.velocity.norm_sq() != 0 {
            lemma_square_monotone(target, MAX_BALL_SPEED as int);
        }
    }

    /// Once the acceleration has changed a ball, or where the ball was no faster than the
    /// largest ball speed before, the ball is no faster than the largest ball speed after
    /// the acceleration, and stays so however often it moves.
    pub proof fn lemma_acceleration_caps_speed(self, rate: u32, micros: u64, steps: Seq<u64>)
        requires
            self.well_formed(),
            self.accelerates(rate, micros) || self.velocity.no_faster_than(MAX_BALL_SPEED as int),
        ensures
            self.spec_accelerated(rate, micros).spec_updated_through(
                steps,
            ).velocity.no_faster_than(MAX_BALL_SPEED as int),
    {
        let faster = self.spec_accelerated(rate, micros);
        faster.lemma_updates_keep_velocity(steps);
        if self.accelerates(rate, micros) {
            self.velocity.lemma_components_within(LIMIT as int);
            self.velocity.lemma_norm_sq_bound();
            lemma_floor_sqrt_exists(self.velocity.norm_sq());
            lemma_product_bound(rate as int, micros as int, 0xffff_ffff, 0xffff_ffff_ffff_ffff);
            assert(rate * micros >= 0) by (nonlinear_arith)
                requires
                    rate >= 0,
                    micros >= 0,
            ;
            let target = self.accelerated_speed(rate, micros);
            self.velocity.lemma_scaled_to(target);
            if self.velocity.norm_sq() == 0 {
                lemma_floor_sqrt_unique(0, 0);
            }
            lemma_square_monotone(target, MAX_BALL_SPEED as int);
        }
    }

    /// A ball split from this one is no faster than this one, slower by less than three
    /// units beyond the rounding of this one's speed, and flies within an eighth of a
    /// turn of this one's course, up to the rounding of its velocity.
    pub proof fn lemma_split_keeps_speed_and_course(self, angle: int)
        requires
            self.well_formed(),
            -EIGHTH_TURN <= angle < EIGHTH_TURN,
        ensures
            self.spec_split(angle).velocity.norm_sq() <= self.velocity.norm_sq(),
            self.spec_split(angle).velocity.no_slower_than(self.speed() - 3),
            self.velocity.within_eighth_turn(self.spec_split(angle).velocity),
            self.spec_split(angle).position == self.position,
            self.spec_split(angle).well_formed(),
    {
        Heading::lemma_from_angle(angle);
        Heading::spec_from_angle(angle).lemma_turn(self.velocity);
        assert(filled_trail(self.position).len() == MOTION_BLUR_TRAIL_COUNT);
    }
}

/// A trail of the fixed length with `position` in every place.
fn fresh_trail(position: Vec2) -> (trail: VecDeque<Vec2>)
    ensures
        trail@ == filled_trail(position),
{
    let mut trail: VecDeque<Vec2> = VecDeque::with_capacity(MOTION_BLUR_TRAIL_COUNT);
    let mut filled: usize = 0;
    while filled < MOTION_BLUR_TRAIL_COUNT
        invariant
            filled <= MOTION_BLUR_TRAIL_COUNT,
            trail@.len() == filled,
            forall|i: int| 0 <= i < filled ==> trail@[i] == position,
        decreases MOTION_BLUR_TRAIL_COUNT - filled,
    {
        trail.push_back(position);
        filled += 1;
    }
    assert(trail@ =~= filled_trail(position));
    trail
}

/// The velocity of a serve at `angle`, to the right or to the left.
fn serve(angle: i64, rightward: bool) -> (velocity: Vec2)
    requires
        -EIGHTH_TURN <= angle < EIGHTH_TURN,
    ensures
        velocity == BallModel::serve_velocity(angle as int, rightward),
        velocity.no_faster_than(BALL_SPEED as int),
        velocity.no_slower_than(BALL_SPEED - 3),
        magnitude(velocity.y as int) <= magnitude(velocity.x as int),
        rightward ==> velocity.x > 0,
        !rightward ==> velocity.x < 0,
{
    let heading = Heading::from_angle(angle);
    let aimed = if rightward {
        heading
    } else {
        heading.mirrored()
    };
    let velocity = aimed.velocity(BALL_SPEED);
    proof {
        if velocity.x == 0 {
            assert(velocity.y == 0);
            assert(velocity.norm_sq() == 0) by (nonlinear_arith)
                requires
                    velocity.x == 0,
                    velocity.y == 0,
            ;
        }
    }
    velocity
}

impl Ball {
    /// See [`BallModel::well_formed`].
    pub open spec fn well_formed(&self) -> bool {
        self@.well_formed()
    }

    /// Whether the ball is well formed.
    pub fn is_well_formed(&self) -> (valid: bool)
        ensures
            valid == self.well_formed(),
    {
        proof {
            if self.velocity.no_faster_than(LIMIT as int) {
                self.velocity.lemma_components_within(LIMIT as int);
            }
        }
        if !(self.position.is_in_bounds() && self.velocity.is_in_bounds()) {
            return false;
        }
        self.velocity.length_squared() <= LIMIT * LIMIT && 0 <= self.radius && self.radius
            <= LIMIT && 0 <= self.base_speed && self.base_speed <= LIMIT
            && self.previous_positions.len() == MOTION_BLUR_TRAIL_COUNT
    }

    /// A ball at `position`, served at a random angle within an eighth of a turn of the
    /// horizontal, to the left or to the right by chance.
    pub fn new(position: Vec2, rng: &mut RandomSource) -> (ball: Ball)
        requires
            position.in_bounds(),
        ensures
            ball.well_formed(),
            ball@.is_fresh_serve(position),
            exists|angle: int, rightward: bool|
                -EIGHTH_TURN <= angle < EIGHTH_TURN && ball@ == BallModel::spec_launched(
                    position,
                    angle,
                    rightward,
                ),
    {
        let angle: i64 = rng.between(-EIGHTH_TURN, EIGHTH_TURN);
        let rightward = rng.coin();
        Ball::launched(position, angle, rightward)
    }

    /// A ball at `position`, served at `angle`, to the right or to the left.
    pub fn launched(position: Vec2, angle: i64, rightward: bool) -> (ball: Ball)
        requires
            position.in_bounds(),
            -EIGHTH_TURN <= angle < EIGHTH_TURN,
        ensures
            ball@ == BallModel::spec_launched(position, angle as int, rightward),
            ball.well_formed(),
            ball@.is_fresh_serve(position),
            rightward ==> ball.velocity.x > 0,
            !rightward ==> ball.velocity.x < 0,
    {
        let velocity = serve(angle, rightward);
        proof {
            lemma_square_monotone(BALL_SPEED as int, LIMIT as int);
        }
        Ball {
            position,
            radius: BALL_RADIUS,
            color: ball_color(),
            velocity,
            previous_positions: fresh_trail(position),
            speed_multiplier: NEUTRAL_MULTIPLIER,
            base_speed: BALL_SPEED,
        }
    }

    /// A second ball split from `source`, its velocity turned by a random angle within
    /// an eighth of a turn.
    pub fn split_from(source: &Ball, rng: &mut RandomSource) -> (ball: Ball)
        requires
            source.well_formed(),
        ensures
            ball.well_formed(),
            exists|angle: int|
                -EIGHTH_TURN <= angle < EIGHTH_TURN && ball@ == source@.spec_split(angle),
            ball.position == source.position,
            ball.velocity.norm_sq() <= source.velocity.norm_sq(),
            ball.velocity.no_slower_than(source@.speed() - 3),
            source.velocity.within_eighth_turn(ball.velocity),
    {
        let angle: i64 = rng.between(-EIGHTH_TURN, EIGHTH_TURN);
        Ball::split_at(source, angle)
    }

    /// A second ball split from `source`, its velocity turned by `angle`.
    ///
    /// The new ball is no faster than the source, slower by less than three units
    /// beyond the rounding of the speed of the source, and flies within an eighth of a turn
    /// of the course of the source.
    pub fn split_at(source: &Ball, angle: i64) -> (ball: Ball)
        requires
            source.well_formed(),
            -EIGHTH_TURN <= angle < EIGHTH_TURN,
        ensures
            ball@ == source@.spec_split(angle as int),
            ball.well_formed(),
            ball.velocity.norm_sq() <= source.velocity.norm_sq(),
            ball.velocity.no_slower_than(source@.speed() - 3),
            source.velocity.within_eighth_turn(ball.velocity),
    {
        let heading = Heading::from_angle(angle);
        Ball {
            position: source.position,
            radius: source.radius,
            color: source.color,
            velocity: heading.turn(source.velocity),
            previous_positions: fresh_trail(source.position),
            speed_multiplier: source.speed_multiplier,
            base_speed: source.base_speed,
        }
    }

    /// Moves the ball for `micros` microseconds, in three equal steps, after noting the
    /// position it leaves in the trail.
    pub fn update(&mut self, micros: u64)
        requires
            old(self).well_formed(),
        ensures
            final(self)@ == old(self)@.spec_updated(micros),
            final(self).well_formed(),
    {
        if MOTION_BLUR_ENABLED {
            self.previous_positions.pop_front();
            self.previous_positions.push_back(self.position);
        }
        let step: u64 = micros / BALL_SUBSTEPS;
        let mut taken: u64 = 0;
        while taken < BALL_SUBSTEPS
            invariant
                taken <= BALL_SUBSTEPS,
                self.velocity == old(self).velocity,
                self.radius == old(self).radius,
                self.color == old(self).color,
                self.speed_multiplier == old(self).speed_multiplier,
                self.base_speed == old(self).base_speed,
                self.previous_positions@ == old(self)@.spec_updated(micros).trail,
                self.position.in_bounds(),
                self.position == old(self).position.spec_moved_in_steps(
                    old(self).velocity,
                    step as int,
                    taken as nat,
                ),
            decreases BALL_SUBSTEPS - taken,
        {
            self.position = self.position.moved_by(self.velocity, step);
            taken += 1;
        }
    }

    /// Reverses the vertical velocity.
    pub fn bounce_vertical(&mut self)
        requires
            old(self).well_formed(),
        ensures
            final(self)@ == old(self)@.spec_bounced_vertical(),
            final(self).well_formed(),
            final(self).velocity.norm_sq() == old(self).velocity.norm_sq(),
    {
        proof {
            self.velocity.lemma_components_within(LIMIT as int);
            lemma_negated_square(self.velocity.y as int);
        }
        self.velocity.y = -self.velocity.y;
    }

    /// Reverses the horizontal velocity.
    pub fn bounce_horizontal(&mut self)
        requires
            old(self).well_formed(),
        ensures
            final(self)@ == old(self)@.spec_bounced_horizontal(),
            final(self).well_formed(),
            final(self).velocity.norm_sq() == old(self).velocity.norm_sq(),
    {
        proof {
            self.velocity.lemma_components_within(LIMIT as int);
            lemma_negated_square(self.velocity.x as int);
        }
        self.velocity.x = -self.velocity.x;
    }

    /// Serves the ball anew from `position` at a random angle, with its multiplier back
    /// at one and its history emptied.
    pub fn reset(&mut self, position: Vec2, rng: &mut RandomSource)
        requires
            old(self).well_formed(),
            position.in_bounds(),
        ensures
            final(self).well_formed(),
            exists|angle: int, rightward: bool|
                -EIGHTH_TURN <= angle < EIGHTH_TURN && final(self)@ == old(self)@.spec_reset(
                    position,
                    angle,
                    rightward,
                ),
            final(self).position == position,
            final(self).speed_multiplier == NEUTRAL_MULTIPLIER,
            final(self).velocity.no_faster_than(BALL_SPEED as int),
            final(self).velocity.no_slower_than(BALL_SPEED - 3),
    {
        let angle: i64 = rng.between(-EIGHTH_TURN, EIGHTH_TURN);
        let rightward = rng.coin();
        self.reset_at(position, angle, rightward);
    }

    /// Serves the ball anew from `position` at `angle`, to the right or to the left.
    pub fn reset_at(&mut self, position: Vec2, angle: i64, rightward: bool)
        requires
            old(self).well_formed(),
            position.in_bounds(),
            -EIGHTH_TURN <= angle < EIGHTH_TURN,
        ensures
            final(self)@ == old(self)@.spec_reset(position, angle as int, rightward),
            final(self).well_formed(),
            final(self).velocity.no_faster_than(BALL_SPEED as int),
            final(self).velocity.no_slower_than(BALL_SPEED - 3),
    {
        self.position = position;
        if MOTION_BLUR_ENABLED {
            self.previous_positions = fresh_trail(position);
        }
        self.speed_multiplier = NEUTRAL_MULTIPLIER;
        self.base_speed = BALL_SPEED;
        self.velocity = serve(angle, rightward);
        proof {
            lemma_square_monotone(BALL_SPEED as int, LIMIT as int);
        }
    }

    /// Sets the speed multiplier, in thousandths, and brings the velocity to the
    /// multiplied speed, never above the largest ball speed. A ball at rest stays at rest.
    pub fn apply_speed_multiplier(&mut self, multiplier: u32)
        requires
            old(self).well_formed(),
        ensures
            final(self)@ == old(self)@.spec_with_speed_multiplier(multiplier),
            final(self).well_formed(),
            final(self).velocity.no_faster_than(MAX_BALL_SPEED as int),
            old(self).velocity.norm_sq() != 0 ==> final(self).velocity.no_slower_than(
                lesser(old(self)@.multiplied_speed(multiplier), MAX_BALL_SPEED as int) - 3,
            ),
    {
        proof {
            self.velocity.lemma_components_within(LIMIT as int);
            lemma_product_bound(
                self.base_speed as int,
                multiplier as int,
                LIMIT as int,
                0xffff_ffff,
            );
            assert(self.base_speed * multiplier >= 0) by (nonlinear_arith)
                requires
                    self.base_speed >= 0,
                    multiplier >= 0,
            ;
            lemma_square_monotone(MAX_BALL_SPEED as int, LIMIT as int);
            lemma_negated_square(MAX_BALL_SPEED as int);
        }
        self.speed_multiplier = multiplier;
        let asked: i128 = (self.base_speed as i128) * (multiplier as i128) / 1000;
        let new_speed: i64 = if asked <= MAX_BALL_SPEED as i128 {
            asked as i64
        } else {
            MAX_BALL_SPEED
        };
        proof {
            if self.velocity.norm_sq() != 0 {
                lemma_square_monotone(new_speed as int, MAX_BALL_SPEED as int);
            }
        }
        self.velocity = self.velocity.scaled_to(new_speed);
    }

    /// Speeds the ball up by `rate` units per second over `micros` microseconds, never
    /// above the largest ball speed. A ball at rest, or a change of speed within the
    /// threshold, leaves the ball as it is.
    pub fn accelerate(&mut self, rate: u32, micros: u64)
        requires
            old(self).well_formed(),
        ensures
            final(self)@ == old(self)@.spec_accelerated(rate, micros),
            final(self).well_formed(),
            old(self).velocity.no_faster_than(MAX_BALL_SPEED as int)
                ==> final(self).velocity.no_faster_than(MAX_BALL_SPEED as int),
            old(self)@.accelerates(rate, micros) ==> final(self).velocity.no_faster_than(
                MAX_BALL_SPEED as int,
            ),
    {
        proof {
            self.velocity.lemma_components_within(LIMIT as int);
            lemma_product_bound(rate as int, micros as int, 0xffff_ffff, 0xffff_ffff_ffff_ffff);
            assert(rate * micros >= 0) by (nonlinear_arith)
                requires
                    rate >= 0,
                    micros >= 0,
            ;
            lemma_square_monotone(MAX_BALL_SPEED as int, LIMIT as int);
        }
        let current: i64 = self.velocity.length();
        let gain: i128 = (rate as i128) * (micros as i128) / 1_000_000;
        let raised: i128 = current as i128 + gain;
        let new_speed: i64 = if raised <= MAX_BALL_SPEED as i128 {
            raised as i64
        } else {
            MAX_BALL_SPEED
        };
        let change: i64 = if new_speed >= current {
            new_speed - current
        } else {
            current - new_speed
        };
        if change > ACCELERATION_THRESHOLD && current > 0 {
            proof {
                lemma_square_monotone(new_speed as int, MAX_BALL_SPEED as int);
                if self.velocity.norm_sq() == 0 {
                    lemma_floor_sqrt_unique(0, 0);
                }
            }
            self.velocity = self.velocity.scaled_to(new_speed);
        }
    }

    /// Brings the velocity back to the target speed, the base speed times the multiplier,
    /// where the speed has left the band of a tenth around it.
    pub fn normalize_velocity(&mut self)
        requires
            old(self).well_formed(),
        ensures
            final(self)@ == old(self)@.spec_normalized(),
            final(self).well_formed(),
    {
        proof {
            self.velocity.lemma_components_within(LIMIT as int);
            lemma_product_bound(
                self.base_speed as int,
                self.speed_multiplier as int,
                LIMIT as int,
                0xffff_ffff,
            );
            assert(self.base_speed * self.speed_multiplier >= 0) by (nonlinear_arith)
                requires
                    self.base_speed >= 0,
                    self.speed_multiplier >= 0,
            ;
        }
        let speed: i64 = self.velocity.length();
        let asked: i128 = (self.base_speed as i128) * (self.speed_multiplier as i128) / 1000;
        let target: i64 = if asked <= LIMIT as i128 {
            asked as i64
        } else {
            LIMIT
        };
        proof {
            if speed > LIMIT {
                lemma_square_monotone(LIMIT + 1, speed as int);
            }
        }
        if speed > 0 && (speed * 10 < target * 9 || speed * 10 > target * 11) {
            proof {
                lemma_square_monotone(target as int, LIMIT as int);
                if self.velocity.norm_sq() == 0 {
                    lemma_floor_sqrt_unique(0, 0);
                }
            }
            self.velocity = self.velocity.scaled_to(target);
        }
    }

    /// The earlier positions of the ball, oldest first.
    pub fn get_motion_blur_positions(&self) -> (trail: &VecDeque<Vec2>)
        ensures
            trail@ == self@.trail,
    {
        &self.previous_positions
    }
}

} // verus!
