//! A power-up: spawned on the field, collected once by a ball, and gone when its effect
//! has run out.

use vstd::prelude::*;
use crate::color::Color;
use crate::constants::{
    POWERUP_DURATION, POWERUP_FLASH_THRESHOLD, POWERUP_SIZE, SCREEN_HEIGHT, SCREEN_WIDTH,
};
use crate::heading::FULL_TURN;
use crate::numeric::{lemma_product_bound, time_left, time_sum, LIMIT};
use crate::random::RandomSource;
use crate::vec2::Vec2;

verus! {

/// The kinds of power-up.
#[derive(Debug, Clone, Copy, PartialEq, Eq, Structural)]
pub enum PowerUpType {
    /// Enlarges the collector's paddle.
    PaddleGrow,
    /// Shrinks the opponent's paddle.
    PaddleShrink,
    /// Speeds up the collector's paddle.
    SpeedUp,
    /// Slows down the opponent's paddle.
    SpeedDown,
    /// Splits the ball in two.
    MultiballSplit,
}

impl PowerUpType {
    /// The kind with the given number: 0 to 3 in the order of declaration, and the
    /// multiball split for every other number.
    pub open spec fn spec_from_index(index: int) -> PowerUpType {
        if index == 0 {
            PowerUpType::PaddleGrow
        } else if index == 1 {
            PowerUpType::PaddleShrink
        } else if index == 2 {
            PowerUpType::SpeedUp
        } else if index == 3 {
            PowerUpType::SpeedDown
        } else {
            PowerUpType::MultiballSplit
        }
    }

    /// The colour that the kind is drawn in.
    pub open spec fn spec_color(self) -> Color {
        match self {
            PowerUpType::PaddleGrow => Color { r: 0, g: 800, b: 0, a: 1000 },
            PowerUpType::PaddleShrink => Color { r: 800, g: 0, b: 0, a: 1000 },
            PowerUpType::SpeedUp => Color { r: 1000, g: 500, b: 0, a: 1000 },
            PowerUpType::SpeedDown => Color { r: 0, g: 0, b: 800, a: 1000 },
            PowerUpType::MultiballSplit => Color { r: 800, g: 0, b: 800, a: 1000 },
        }
    }

    /// The kind with the given number.
    pub fn from_index(index: i64) -> (kind: PowerUpType)
        ensures
            kind == Self::spec_from_index(index as int),
    {
        if index == 0 {
            PowerUpType::PaddleGrow
        } else if index == 1 {
            PowerUpType::PaddleShrink
        } else if index == 2 {
            PowerUpType::SpeedUp
        } else if index == 3 {
            PowerUpType::SpeedDown
        } else {
            PowerUpType::MultiballSplit
        }
    }

    /// One of the five kinds, by chance.
    pub fn random(rng: &mut RandomSource) -> (kind: PowerUpType)
        ensures
            exists|index: int| 0 <= index < 5 && kind == Self::spec_from_index(index),
    {
        let index: i64 = rng.between(0, 5);
        Self::from_index(index)
    }

    /// The colour that the kind is drawn in: green, red, orange, blue and purple.
    pub fn color(&self) -> (color: Color)
        ensures
            color == self.spec_color(),
    {
        match self {
            PowerUpType::PaddleGrow => Color::new(0, 800, 0, 1000),
            PowerUpType::PaddleShrink => Color::new(800, 0, 0, 1000),
            PowerUpType::SpeedUp => Color::new(1000, 500, 0, 1000),
            PowerUpType::SpeedDown => Color::new(0, 0, 800, 1000),
            PowerUpType::MultiballSplit => Color::new(800, 0, 800, 1000),
        }
    }
}

/// A power-up on the field.
///
/// While `active` it waits to be collected. Once collected it is no longer active,
/// `collected_by` names the player (0 on the left, 1 on the right) and
/// `remaining_duration` counts the microseconds that its effect still lasts. `rotation`
/// is its turn on screen, in millionths of a radian.
#[derive(Clone, Copy, Debug)]
pub struct PowerUp {
    pub position: Vec2,
    pub power_type: PowerUpType,
    pub size: i64,
    pub active: bool,
    pub collected_by: Option<usize>,
    pub remaining_duration: Option<u64>,
    pub rotation: u64,
}

impl PowerUp {
    /// Position and size lie within the stored range.
    pub open spec fn well_formed(self) -> bool {
        self.position.in_bounds() && 0 <= self.size <= LIMIT
    }

    /// A power-up as it is spawned: waiting, uncollected, of the configured size.
    pub open spec fn spec_new(position: Vec2, power_type: PowerUpType) -> PowerUp {
        PowerUp {
            position,
            power_type,
            size: POWERUP_SIZE,
            active: true,
            collected_by: None,
            remaining_duration: None,
            rotation: 0,
        }
    }

    /// `position` lies in one of the two spawn zones: two power-up sizes away from the
    /// edges of the field and from its centre line.
    pub open spec fn in_spawn_zone(position: Vec2) -> bool {
        &&& 2 * POWERUP_SIZE <= position.y < SCREEN_HEIGHT - 2 * POWERUP_SIZE
        &&& {
            ||| 2 * POWERUP_SIZE <= position.x < SCREEN_WIDTH / 2 - 2 * POWERUP_SIZE
            ||| SCREEN_WIDTH / 2 + 2 * POWERUP_SIZE <= position.x < SCREEN_WIDTH - 2
                * POWERUP_SIZE
        }
    }

    /// A freshly spawned power-up in a spawn zone.
    pub open spec fn is_fresh_spawn(self) -> bool {
        Self::in_spawn_zone(self.position) && self == Self::spec_new(
            self.position,
            self.power_type,
        )
    }

    /// The power-up after `delta` microseconds: it turns on, by no more than one full
    /// turn back, and a running effect runs down.
    pub open spec fn spec_updated(self, delta: u64) -> PowerUp {
        let turned = time_sum(self.rotation, delta);
        PowerUp {
            rotation: if turned > FULL_TURN {
                (turned - FULL_TURN) as u64
            } else {
                turned
            },
            remaining_duration: match self.remaining_duration {
                Some(left) => Some(time_left(left, delta)),
                None => None,
            },
            ..self
        }
    }

    /// Whether the power-up is still there after `delta` microseconds: an uncollected one
    /// always, a collected one while its effect has time left.
    pub open spec fn survives(self, delta: u64) -> bool {
        match self.remaining_duration {
            Some(left) => left > delta,
            None => true,
        }
    }

    /// The power-up collected by `player_index`: a waiting one stops waiting and its
    /// effect starts to run; one that was collected before stays as it is.
    pub open spec fn spec_activated(self, player_index: usize) -> PowerUp {
        if self.active {
            PowerUp {
                active: false,
                collected_by: Some(player_index),
                remaining_duration: Some(POWERUP_DURATION),
                ..self
            }
        } else {
            self
        }
    }

    /// Whether the effect is about to run out.
    pub open spec fn spec_should_flash(self) -> bool {
        match self.remaining_duration {
            Some(left) => left <= POWERUP_FLASH_THRESHOLD,
            None => false,
        }
    }

    /// The opacity at the point `wave` of the flash cycle, both in thousandths: full
    /// while the power-up does not flash, else between half and full.
    pub open spec fn spec_opacity(self, wave: u16) -> u16 {
        if self.spec_should_flash() {
            if wave >= 1000 {
                1000
            } else {
                (500 + wave / 2) as u16
            }
        } else {
            1000
        }
    }

    /// Whether a ball overlaps the power-up: the power-up waits to be collected and the
    /// centres are closer than the sum of size and radius.
    pub open spec fn spec_collides(self, ball_position: Vec2, ball_radius: i64) -> bool {
        self.active && self.position.spec_distance_squared(ball_position) < (self.size
            + ball_radius) * (self.size + ball_radius)
    }

    /// Whether the power-up is well formed.
    pub fn is_well_formed(&self) -> (valid: bool)
        ensures
            valid == self.well_formed(),
    {
        self.position.is_in_bounds() && 0 <= self.size && self.size <= LIMIT
    }

    /// A waiting power-up of the given kind at `position`.
    pub fn new(position: Vec2, power_type: PowerUpType) -> (power_up: PowerUp)
        ensures
            power_up == Self::spec_new(position, power_type),
            position.in_bounds() ==> power_up.well_formed(),
    {
        PowerUp {
            position,
            power_type,
            size: POWERUP_SIZE,
            active: true,
            collected_by: None,
            remaining_duration: None,
            rotation: 0,
        }
    }

    /// A waiting power-up of a random kind at a random place in the left or the right
    /// spawn zone.
    pub fn random(rng: &mut RandomSource) -> (power_up: PowerUp)
        ensures
            power_up.is_fresh_spawn(),
            power_up.well_formed(),
    {
        let x: i64 = if rng.coin() {
            rng.between(POWERUP_SIZE * 2, SCREEN_WIDTH / 2 - POWERUP_SIZE * 2)
        } else {
            rng.between(SCREEN_WIDTH / 2 + POWERUP_SIZE * 2, SCREEN_WIDTH - POWERUP_SIZE * 2)
        };
        let y: i64 = rng.between(POWERUP_SIZE * 2, SCREEN_HEIGHT - POWERUP_SIZE * 2);
        Self::new(Vec2::new(x, y), PowerUpType::random(rng))
    }

    /// Lets `delta` microseconds pass and says whether the power-up is still there:
    /// false once the effect of a collected power-up has run out.
    pub fn update(&mut self, delta: u64) -> (alive: bool)
        ensures
            *final(self) == old(self).spec_updated(delta),
            alive == old(self).survives(delta),
    {
        self.rotation = self.rotation.saturating_add(delta);
        if self.rotation > FULL_TURN as u64 {
            self.rotation = self.rotation - FULL_TURN as u64;
        }
        match self.remaining_duration {
            Some(left) => {
                let rest: u64 = left.saturating_sub(delta);
                self.remaining_duration = Some(rest);
                if rest == 0 {
                    return false;
                }
            },
            None => {},
        }
        true
    }

    /// Collects the power-up for `player_index`, 0 on the left and 1 on the right. A
    /// power-up is collected once: on one that was collected before, nothing changes.
    pub fn activate(&mut self, player_index: usize)
        ensures
            *final(self) == old(self).spec_activated(player_index),
            !final(self).active,
    {
        if self.active {
            self.active = false;
            self.collected_by = Some(player_index);
            self.remaining_duration = Some(POWERUP_DURATION);
        }
    }

    /// Whether the effect is about to run out.
    pub fn should_flash(&self) -> (flash: bool)
        ensures
            flash == self.spec_should_flash(),
    {
        match self.remaining_duration {
            Some(left) => left <= POWERUP_FLASH_THRESHOLD,
            None => false,
        }
    }

    /// The opacity at the point `wave` of the flash cycle, both in thousandths.
    pub fn get_opacity(&self, wave: u16) -> (opacity: u16)
        ensures
            opacity == self.spec_opacity(wave),
            500 <= opacity <= 1000,
    {
        if self.should_flash() {
            if wave >= 1000 {
                1000
            } else {
                500 + wave / 2
            }
        } else {
            1000
        }
    }

    /// Whether a ball at `ball_position` with `ball_radius` overlaps the power-up. A
    /// collected power-up overlaps nothing.
    pub fn collides_with_ball(&self, ball_position: Vec2, ball_radius: i64) -> (hit: bool)
        requires
            self.well_formed(),
            ball_position.in_bounds(),
            0 <= ball_radius <= LIMIT,
        ensures
            hit == self.spec_collides(ball_position, ball_radius),
            !self.active ==> !hit,
    {
        if !self.active {
            return false;
        }
        let reach: i64 = self.size + ball_radius;
        proof {
            lemma_product_bound(reach as int, reach as int, 2 * LIMIT, 2 * LIMIT);
        }
        self.position.distance_squared(ball_position) < reach * reach
    }

    /// A power-up is collected at most once: after a contact that collected it, no
    /// contact collects it again, and collecting it again changes nothing.
    pub proof fn lemma_collected_once(
        self,
        first: usize,
        second: usize,
        ball_position: Vec2,
        ball_radius: i64,
    )
        ensures
            !self.spec_activated(first).spec_collides(ball_position, ball_radius),
            self.spec_activated(first).spec_activated(second) == self.spec_activated(first),
    {
    }
}

} // verus!
