//! A paddle: it moves up and down along its edge of the field and never leaves it.

use vstd::prelude::*;
use crate::color::Color;
use crate::constants::{
    NEUTRAL_MULTIPLIER, PLAYER_HEIGHT, PLAYER_MAX_HEIGHT, PLAYER_SPEED, PLAYER_WIDTH,
    SCREEN_HEIGHT,
};
use crate::entities::direction::Direction;
use crate::numeric::{clamp_i128, clamped, lemma_product_bound, LIMIT};
use crate::vec2::Vec2;

verus! {

/// A paddle. `position` is its top left corner; the multipliers are in thousandths.
#[derive(Clone, Copy, Debug, PartialEq, Eq, Structural)]
pub struct Player {
    pub position: Vec2,
    pub size: Vec2,
    pub color: Color,
    pub speed_multiplier: u32,
    pub size_multiplier: u32,
    pub original_size: Vec2,
}

impl Player {
    /// The height of a paddle of height `original` under a size multiplier: the product,
    /// rounded down, and at most the largest height.
    pub open spec fn scaled_height(original: int, multiplier: int) -> int {
        let height = original * multiplier / 1000;
        if height > PLAYER_MAX_HEIGHT {
            PLAYER_MAX_HEIGHT as int
        } else {
            height
        }
    }

    /// The distance a paddle travels in `micros` microseconds under a speed multiplier.
    pub open spec fn travel(multiplier: int, micros: int) -> int {
        PLAYER_SPEED * multiplier * micros / 1_000_000_000
    }

    /// The height follows from the original height and the size multiplier, and the
    /// paddle lies between the top and the bottom of the field.
    pub open spec fn well_formed(self) -> bool {
        &&& self.position.in_bounds()
        &&& self.size.in_bounds()
        &&& self.original_size.in_bounds()
        &&& self.original_size.y >= 0
        &&& self.size.x == self.original_size.x
        &&& self.size.y == Self::scaled_height(
            self.original_size.y as int,
            self.size_multiplier as int,
        )
        &&& 0 <= self.position.y <= SCREEN_HEIGHT - self.size.y
    }

    /// The paddle after `micros` microseconds of input: without input it rests; upward
    /// it stops at the top of the field, downward at the bottom.
    pub open spec fn spec_updated(self, direction: Option<Direction>, micros: u64) -> Player {
        let step = Self::travel(self.speed_multiplier as int, micros as int);
        let y = match direction {
            None => self.position.y as int,
            Some(Direction::Up) => clamped(self.position.y - step, 0, self.position.y as int),
            Some(Direction::Down) => clamped(
                self.position.y + step,
                self.position.y as int,
                SCREEN_HEIGHT - self.size.y,
            ),
        };
        Player { position: Vec2 { x: self.position.x, y: y as i64 }, ..self }
    }

    /// The paddle with its height recomputed from the size multiplier and moved up where
    /// it would reach below the field.
    pub open spec fn spec_resized(self) -> Player {
        let height = Self::scaled_height(self.original_size.y as int, self.size_multiplier as int);
        let y = if self.position.y + height > SCREEN_HEIGHT {
            SCREEN_HEIGHT - height
        } else {
            self.position.y as int
        };
        Player {
            position: Vec2 { x: self.position.x, y: y as i64 },
            size: Vec2 { x: self.size.x, y: height as i64 },
            ..self
        }
    }

    /// The paddle under another size multiplier.
    pub open spec fn spec_with_size_multiplier(self, multiplier: u32) -> Player {
        (Player { size_multiplier: multiplier, ..self }).spec_resized()
    }

    /// The paddle without modifiers.
    pub open spec fn spec_reset(self) -> Player {
        (Player {
            speed_multiplier: NEUTRAL_MULTIPLIER,
            size_multiplier: NEUTRAL_MULTIPLIER,
            ..self
        }).spec_resized()
    }

    /// A paddle of the configured size at `position`, without modifiers.
    pub fn new(color: Color, position: Vec2) -> (player: Player)
        requires
            position.in_bounds(),
            0 <= position.y <= SCREEN_HEIGHT - PLAYER_HEIGHT,
        ensures
            player.well_formed(),
            player == (Player {
                position,
                size: Vec2 { x: PLAYER_WIDTH, y: PLAYER_HEIGHT },
                color,
                speed_multiplier: NEUTRAL_MULTIPLIER,
                size_multiplier: NEUTRAL_MULTIPLIER,
                original_size: Vec2 { x: PLAYER_WIDTH, y: PLAYER_HEIGHT },
            }),
    {
        Player {
            color,
            position,
            size: Vec2::new(PLAYER_WIDTH, PLAYER_HEIGHT),
            original_size: Vec2::new(PLAYER_WIDTH, PLAYER_HEIGHT),
            speed_multiplier: NEUTRAL_MULTIPLIER,
            size_multiplier: NEUTRAL_MULTIPLIER,
        }
    }

    /// Moves the paddle for `micros` microseconds in the given direction, if any; the
    /// paddle never crosses the top or the bottom of the field.
    pub fn update(&mut self, direction: Option<Direction>, micros: u64)
        requires
            old(self).well_formed(),
        ensures
            *final(self) == old(self).spec_updated(direction, micros),
            final(self).well_formed(),
    {
        if let Some(direction) = direction {
            proof {
                lemma_product_bound(
                    PLAYER_SPEED as int,
                    self.speed_multiplier as int,
                    PLAYER_SPEED as int,
                    0xffff_ffff,
                );
                lemma_product_bound(
                    PLAYER_SPEED * self.speed_multiplier,
                    micros as int,
                    PLAYER_SPEED * 0xffff_ffff,
                    0xffff_ffff_ffff_ffff,
                );
            }
            let pace: i128 = (PLAYER_SPEED as i128) * (self.speed_multiplier as i128);
            let step: i128 = pace * (micros as i128) / 1_000_000_000;
            match direction {
                Direction::Up => {
                    self.position.y = clamp_i128(self.position.y as i128 - step, 0, self.position.y);
                },
                Direction::Down => {
                    self.position.y = clamp_i128(
                        self.position.y as i128 + step,
                        self.position.y,
                        SCREEN_HEIGHT - self.size.y,
                    );
                },
            }
        }
    }

    /// Sets the speed multiplier, in thousandths.
    pub fn apply_speed_multiplier(&mut self, multiplier: u32)
        requires
            old(self).well_formed(),
        ensures
            *final(self) == (Player { speed_multiplier: multiplier, ..*old(self) }),
            final(self).well_formed(),
    {
        self.speed_multiplier = multiplier;
    }

    /// Sets the size multiplier, in thousandths, and resizes the paddle.
    pub fn apply_size_multiplier(&mut self, multiplier: u32)
        requires
            old(self).well_formed(),
        ensures
            *final(self) == old(self).spec_with_size_multiplier(multiplier),
            final(self).well_formed(),
    {
        self.size_multiplier = multiplier;
        self.update_size();
    }

    /// Recomputes the height from the size multiplier, keeps it at or below the largest
    /// height, and moves the paddle up where it would reach below the field.
    fn update_size(&mut self)
        requires
            old(self).position.in_bounds(),
            old(self).size.in_bounds(),
            old(self).original_size.in_bounds(),
            old(self).original_size.y >= 0,
            old(self).size.x == old(self).original_size.x,
            0 <= old(self).position.y,
        ensures
            *final(self) == old(self).spec_resized(),
            final(self).well_formed(),
    {
        proof {
            lemma_product_bound(
                self.original_size.y as int,
                self.size_multiplier as int,
                LIMIT as int,
                0xffff_ffff,
            );
            assert(self.original_size.y * self.size_multiplier >= 0) by (nonlinear_arith)
                requires
                    self.original_size.y >= 0,
                    self.size_multiplier >= 0,
            ;
        }
        let new_height: i128 = (self.original_size.y as i128) * (self.size_multiplier as i128)
            / 1000;
        let clamped_height: i64 = if new_height > PLAYER_MAX_HEIGHT as i128 {
            PLAYER_MAX_HEIGHT
        } else {
            new_height as i64
        };
        self.size.y = clamped_height;
        if self.position.y + self.size.y > SCREEN_HEIGHT {
            self.position.y = SCREEN_HEIGHT - self.size.y;
        }
    }

    /// Removes the modifiers: both multipliers return to one, and the paddle is resized.
    pub fn reset_power_ups(&mut self)
        requires
            old(self).well_formed(),
        ensures
            *final(self) == old(self).spec_reset(),
            final(self).well_formed(),
            final(self).speed_multiplier == NEUTRAL_MULTIPLIER,
            final(self).size_multiplier == NEUTRAL_MULTIPLIER,
    {
        self.speed_multiplier = NEUTRAL_MULTIPLIER;
        self.size_multiplier = NEUTRAL_MULTIPLIER;
        self.update_size();
    }

    /// Whatever a paddle is asked to do, it stays between the top and the bottom of the
    /// field: after moving, after a change of either multiplier, and after losing its
    /// modifiers.
    pub proof fn lemma_stays_on_field(
        self,
        direction: Option<Direction>,
        micros: u64,
        multiplier: u32,
    )
        requires
            self.well_formed(),
        ensures
            self.spec_updated(direction, micros).well_formed(),
            self.spec_with_size_multiplier(multiplier).well_formed(),
            (Player { speed_multiplier: multiplier, ..self }).well_formed(),
            self.spec_reset().well_formed(),
    {
        lemma_product_bound(
            self.original_size.y as int,
            multiplier as int,
            LIMIT as int,
            0xffff_ffff,
        );
        assert(self.original_size.y * multiplier >= 0) by (nonlinear_arith)
            requires
                self.original_size.y >= 0,
                multiplier >= 0,
        ;
        lemma_product_bound(
            self.original_size.y as int,
            NEUTRAL_MULTIPLIER as int,
            LIMIT as int,
            0xffff_ffff,
        );
        assert(self.original_size.y * NEUTRAL_MULTIPLIER >= 0) by (nonlinear_arith)
            requires
                self.original_size.y >= 0,
        ;
    }

    /// Whether the paddle is well formed.
    pub fn is_well_formed(&self) -> (valid: bool)
        ensures
            valid == self.well_formed(),
    {
        if !(self.position.is_in_bounds() && self.size.is_in_bounds()
            && self.original_size.is_in_bounds()) {
            return false;
        }
        if self.original_size.y < 0 || self.size.x != self.original_size.x {
            return false;
        }
        proof {
            lemma_product_bound(
                self.original_size.y as int,
                self.size_multiplier as int,
                LIMIT as int,
                0xffff_ffff,
            );
            assert(self.original_size.y * self.size_multiplier >= 0) by (nonlinear_arith)
                requires
                    self.original_size.y >= 0,
                    self.size_multiplier >= 0,
            ;
        }
        let height: i128 = (self.original_size.y as i128) * (self.size_multiplier as i128) / 1000;
        let expected: i64 = if height > PLAYER_MAX_HEIGHT as i128 {
            PLAYER_MAX_HEIGHT
        } else {
            height as i64
        };
        self.size.y == expected && 0 <= self.position.y && self.position.y <= SCREEN_HEIGHT
            - self.size.y
    }

    /// Removing the modifiers twice is the same as removing them once.
    pub proof fn lemma_reset_idempotent(self)
        requires
            self.well_formed(),
        ensures
            self.spec_reset().spec_reset() == self.spec_reset(),
    {
    }
}

} // verus!
