//! Short-lived particles that fly off a hit, in a system of fixed capacity.

use vstd::prelude::*;
use crate::color::Color;
use crate::heading::{Heading, FULL_TURN};
use crate::numeric::{
    clamp_i128, clamped, lemma_product_bound, lemma_square_monotone, time_sum, LIMIT,
};
use crate::random::RandomSource;
use crate::vec2::Vec2;

verus! {

/// Downward acceleration of a particle, in thousandths of a pixel per second squared.
pub const GRAVITY: i64 = 200_000;

/// Least speed of a new particle.
pub const PARTICLE_MIN_SPEED: i64 = 50_000;

/// Bound above the speed of a new particle.
pub const PARTICLE_MAX_SPEED: i64 = 200_000;

/// Least size of a new particle.
pub const PARTICLE_MIN_SIZE: i64 = 1_000;

/// Bound above the size of a new particle.
pub const PARTICLE_MAX_SIZE: i64 = 3_000;

/// Least lifetime of a new particle, in milliseconds.
pub const PARTICLE_MIN_LIFETIME: i64 = 200;

/// Bound above the lifetime of a new particle, in milliseconds.
pub const PARTICLE_MAX_LIFETIME: i64 = 500;

/// A particle. `lifetime` and `elapsed` are in microseconds.
#[derive(Clone, Copy, Debug, PartialEq, Eq, Structural)]
pub struct Particle {
    pub position: Vec2,
    pub velocity: Vec2,
    pub color: Color,
    pub size: i64,
    pub lifetime: u64,
    pub elapsed: u64,
}

impl Particle {
    /// A new particle at `position` that flies off at `angle` with `speed` and lives for
    /// `lifetime_millis` milliseconds.
    pub open spec fn spec_emitted(
        position: Vec2,
        color: Color,
        angle: int,
        speed: int,
        size: int,
        lifetime_millis: int,
    ) -> Particle {
        Particle {
            position,
            velocity: Heading::spec_from_angle(angle).spec_velocity(speed),
            color,
            size: size as i64,
            lifetime: (lifetime_millis * 1000) as u64,
            elapsed: 0,
        }
    }

    /// The particle is new at `position` in `color`, with speed, size and lifetime in
    /// their ranges.
    pub open spec fn is_fresh(self, position: Vec2, color: Color) -> bool {
        &&& self.position == position
        &&& self.color == color
        &&& self.elapsed == 0
        &&& PARTICLE_MIN_SIZE <= self.size < PARTICLE_MAX_SIZE
        &&& PARTICLE_MIN_LIFETIME * 1000 <= self.lifetime < PARTICLE_MAX_LIFETIME * 1000
        &&& self.velocity.no_faster_than(PARTICLE_MAX_SPEED as int)
        &&& self.velocity.no_slower_than(PARTICLE_MIN_SPEED - 3)
        &&& self.velocity.in_bounds()
    }

    /// Whether the particle is still alive after `delta` microseconds.
    pub open spec fn survives(self, delta: u64) -> bool {
        time_sum(self.elapsed, delta) < self.lifetime
    }

    /// The particle after `delta` microseconds. One that has reached its lifetime only
    /// ages. A living one moves on, fades in proportion to its age, and gains downward
    /// speed.
    pub open spec fn spec_updated(self, delta: u64) -> Particle {
        let elapsed = time_sum(self.elapsed, delta);
        if elapsed >= self.lifetime {
            Particle { elapsed, ..self }
        } else {
            Particle {
                elapsed,
                position: self.position.spec_moved_by(self.velocity, delta as int),
                color: Color {
                    a: (1000 - elapsed * 1000 / (self.lifetime as int)) as u16,
                    ..self.color
                },
                velocity: Vec2 {
                    x: self.velocity.x,
                    y: clamped(
                        self.velocity.y + GRAVITY * delta / 1_000_000,
                        -LIMIT as int,
                        LIMIT as int,
                    ) as i64,
                },
                ..self
            }
        }
    }

    /// A new particle at `position` with a random direction, speed, size and lifetime.
    pub fn new(position: Vec2, color: Color, rng: &mut RandomSource) -> (particle: Particle)
        ensures
            particle.is_fresh(position, color),
            exists|angle: int, speed: int, size: int, lifetime_millis: int|
                0 <= angle < FULL_TURN && PARTICLE_MIN_SPEED <= speed < PARTICLE_MAX_SPEED
                    && PARTICLE_MIN_SIZE <= size < PARTICLE_MAX_SIZE && PARTICLE_MIN_LIFETIME
                    <= lifetime_millis < PARTICLE_MAX_LIFETIME && particle == Self::spec_emitted(
                    position,
                    color,
                    angle,
                    speed,
                    size,
                    lifetime_millis,
                ),
    {
        let angle: i64 = rng.between(0, FULL_TURN);
        let speed: i64 = rng.between(PARTICLE_MIN_SPEED, PARTICLE_MAX_SPEED);
        let size: i64 = rng.between(PARTICLE_MIN_SIZE, PARTICLE_MAX_SIZE);
        let lifetime_millis: i64 = rng.between(PARTICLE_MIN_LIFETIME, PARTICLE_MAX_LIFETIME);
        Self::emitted(position, color, angle, speed, size, lifetime_millis)
    }

    /// A new particle at `position` that flies off at `angle` with `speed` and lives for
    /// `lifetime_millis` milliseconds.
    pub fn emitted(
        position: Vec2,
        color: Color,
        angle: i64,
        speed: i64,
        size: i64,
        lifetime_millis: i64,
    ) -> (particle: Particle)
        requires
            PARTICLE_MIN_SPEED <= speed < PARTICLE_MAX_SPEED,
            PARTICLE_MIN_SIZE <= size < PARTICLE_MAX_SIZE,
            PARTICLE_MIN_LIFETIME <= lifetime_millis < PARTICLE_MAX_LIFETIME,
        ensures
            particle == Self::spec_emitted(
                position,
                color,
                angle as int,
                speed as int,
                size as int,
                lifetime_millis as int,
            ),
            particle.is_fresh(position, color),
    {
        let velocity = Heading::from_angle(angle).velocity(speed);
        proof {
            lemma_square_monotone(speed as int, PARTICLE_MAX_SPEED as int);
            lemma_square_monotone(PARTICLE_MIN_SPEED - 3, speed - 3);
        }
        Particle {
            position,
            velocity,
            color,
            size,
            lifetime: (lifetime_millis * 1000) as u64,
            elapsed: 0,
        }
    }

    /// Lets `delta` microseconds pass and says whether the particle is still alive.
    pub fn update(&mut self, delta: u64) -> (alive: bool)
        requires
            old(self).velocity.in_bounds(),
        ensures
            *final(self) == old(self).spec_updated(delta),
            alive == old(self).survives(delta),
            final(self).velocity.in_bounds(),
            alive ==> final(self).position.in_bounds(),
            old(self).position.in_bounds() ==> final(self).position.in_bounds(),
    {
        self.elapsed = self.elapsed.saturating_add(delta);
        if self.elapsed >= self.lifetime {
            return false;
        }
        self.position = self.position.moved_by(self.velocity, delta);
        proof {
            lemma_product_bound(self.elapsed as int, 1000, 0xffff_ffff_ffff_ffff, 1000);
            assert(self.elapsed * 1000 / (self.lifetime as int) < 1000) by (nonlinear_arith)
                requires
                    0 <= self.elapsed < self.lifetime,
            ;
            assert(self.elapsed * 1000 / (self.lifetime as int) >= 0) by (nonlinear_arith)
                requires
                    0 <= self.elapsed < self.lifetime,
            ;
            lemma_product_bound(GRAVITY as int, delta as int, GRAVITY as int, 0xffff_ffff_ffff_ffff);
        }
        let faded: u128 = (self.elapsed as u128) * 1000 / (self.lifetime as u128);
        self.color.a = (1000 - faded) as u16;
        let pull: i128 = (GRAVITY as i128) * (delta as i128) / 1_000_000;
        self.velocity.y = clamp_i128(self.velocity.y as i128 + pull, -LIMIT, LIMIT);
        true
    }
}

/// The newest `capacity` entries of `all`, oldest first; all of them where there are no
/// more than `capacity`.
pub open spec fn newest(all: Seq<Particle>, capacity: int) -> Seq<Particle> {
    if all.len() <= capacity {
        all
    } else {
        all.subrange(all.len() - capacity, all.len() as int)
    }
}

/// What a full system keeps are the last entries in their order; nothing is kept beyond
/// the capacity, and nothing is dropped while there is room.
pub proof fn lemma_newest_keeps_the_last(all: Seq<Particle>, capacity: int)
    requires
        capacity >= 0,
    ensures
        newest(all, capacity).len() == if all.len() <= capacity {
            all.len() as int
        } else {
            capacity
        },
        forall|i: int|
            0 <= i < newest(all, capacity).len() ==> #[trigger] newest(all, capacity)[i] == all[all.len()
                - newest(all, capacity).len() + i],
{
}

/// Keeping the newest, adding more and keeping the newest again is the same as adding to
/// all and keeping the newest once.
pub proof fn lemma_newest_absorbs(all: Seq<Particle>, more: Seq<Particle>, capacity: int)
    requires
        capacity >= 0,
    ensures
        newest(newest(all, capacity) + more, capacity) == newest(all + more, capacity),
{
    assert(newest(newest(all, capacity) + more, capacity) =~= newest(all + more, capacity));
}

/// The particles that are still alive after `delta` microseconds, each as it is then, in
/// their order.
pub open spec fn aged(particles: Seq<Particle>, delta: u64) -> Seq<Particle>
    decreases particles.len(),
{
    if particles.len() == 0 {
        Seq::empty()
    } else {
        let earlier = aged(particles.drop_last(), delta);
        if particles.last().survives(delta) {
            earlier.push(particles.last().spec_updated(delta))
        } else {
            earlier
        }
    }
}

/// Ageing never adds a particle.
pub proof fn lemma_aged_len(particles: Seq<Particle>, delta: u64)
    ensures
        aged(particles, delta).len() <= particles.len(),
    decreases particles.len(),
{
    if particles.len() > 0 {
        lemma_aged_len(particles.drop_last(), delta);
    }
}

/// A positive capacity holds all of `particles`, and every velocity lies within the stored
/// range.
pub open spec fn fits(particles: Seq<Particle>, capacity: usize) -> bool {
    &&& capacity > 0
    &&& particles.len() <= capacity
    &&& forall|i: int| 0 <= i < particles.len() ==> (#[trigger] particles[i]).velocity.in_bounds()
}

/// The particles in flight, oldest first, never more than `max_particles`.
#[derive(Clone, Debug)]
pub struct ParticleSystem {
    pub particles: Vec<Particle>,
    pub max_particles: usize,
}

impl ParticleSystem {
    /// The capacity is positive and holds every particle, and every particle's velocity
    /// lies within the stored range.
    pub open spec fn well_formed(&self) -> bool {
        fits(self.particles@, self.max_particles)
    }

    /// Whether the system is well formed.
    pub fn is_well_formed(&self) -> (valid: bool)
        ensures
            valid == self.well_formed(),
    {
        if self.max_particles == 0 || self.particles.len() > self.max_particles {
            return false;
        }
        let mut index: usize = 0;
        while index < self.particles.len()
            invariant
                index <= self.particles@.len(),
                forall|i: int| 0 <= i < index ==> (#[trigger] self.particles@[i]).velocity.in_bounds(),
            decreases self.particles@.len() - index,
        {
            if !self.particles[index].velocity.is_in_bounds() {
                return false;
            }
            index += 1;
        }
        true
    }

    /// An empty system that holds up to `max_particles` particles.
    pub fn new(max_particles: usize) -> (system: ParticleSystem)
        requires
            max_particles > 0,
        ensures
            system.well_formed(),
            system.particles@.len() == 0,
            system.max_particles == max_particles,
    {
        ParticleSystem { particles: Vec::new(), max_particles }
    }

    /// Adds one particle as the newest; a full system gives up its oldest particle for it.
    pub fn add(&mut self, particle: Particle)
        requires
            old(self).well_formed(),
            particle.velocity.in_bounds(),
        ensures
            final(self).well_formed(),
            final(self).max_particles == old(self).max_particles,
            final(self).particles@ == newest(
                old(self).particles@.push(particle),
                old(self).max_particles as int,
            ),
    {
        if self.particles.len() >= self.max_particles {
            self.particles.remove(0);
        }
        self.particles.push(particle);
        assert(self.particles@ =~= newest(
            old(self).particles@.push(particle),
            old(self).max_particles as int,
        ));
    }

    /// Emits `count` new particles at `position` in `color`, each with a random
    /// direction, speed, size and lifetime. Beyond the capacity the oldest particles
    /// leave first: what stays are the newest of the old and the new together.
    pub fn emit(&mut self, position: Vec2, color: Color, count: usize, rng: &mut RandomSource)
        requires
            old(self).well_formed(),
        ensures
            final(self).well_formed(),
            final(self).max_particles == old(self).max_particles,
            exists|fresh: Seq<Particle>|
                {
                    &&& fresh.len() == count
                    &&& forall|i: int| 0 <= i < count ==> (#[trigger] fresh[i]).is_fresh(position, color)
                    &&& final(self).particles@ == #[trigger] newest(
                        old(self).particles@ + fresh,
                        old(self).max_particles as int,
                    )
                },
    {
        let ghost mut fresh: Seq<Particle> = Seq::empty();
        let mut emitted: usize = 0;
        assert(old(self).particles@ + fresh =~= old(self).particles@);
        while emitted < count
            invariant
                emitted <= count,
                self.well_formed(),
                self.max_particles == old(self).max_particles,
                fresh.len() == emitted,
                forall|i: int| 0 <= i < emitted ==> (#[trigger] fresh[i]).is_fresh(position, color),
                self.particles@ == newest(
                    old(self).particles@ + fresh,
                    old(self).max_particles as int,
                ),
            decreases count - emitted,
        {
            let particle = Particle::new(position, color, rng);
            let ghost before = self.particles@;
            let ghost earlier = fresh;
            self.add(particle);
            proof {
                fresh = fresh.push(particle);
                assert(old(self).particles@ + fresh =~= (old(self).particles@ + earlier).push(
                    particle,
                ));
                assert(newest(before.push(particle), old(self).max_particles as int) =~= newest(
                    old(self).particles@ + fresh,
                    old(self).max_particles as int,
                ));
            }
            emitted += 1;
        }
    }

    /// Lets `delta` microseconds pass: every particle is updated, and those that have
    /// reached their lifetime leave.
    pub fn update(&mut self, delta: u64)
        requires
            old(self).well_formed(),
        ensures
            final(self).well_formed(),
            final(self).max_particles == old(self).max_particles,
            final(self).particles@ == aged(old(self).particles@, delta),
            final(self).particles@.len() <= old(self).particles@.len(),
    {
        let mut kept: Vec<Particle> = Vec::new();
        let mut index: usize = 0;
        let count: usize = self.particles.len();
        while index < count
            invariant
                index <= count,
                count == self.particles@.len(),
                self.particles@ == old(self).particles@,
                self.max_particles == old(self).max_particles,
                old(self).well_formed(),
                kept@ == aged(self.particles@.take(index as int), delta),
                kept@.len() <= index,
                forall|i: int| 0 <= i < kept@.len() ==> (#[trigger] kept@[i]).velocity.in_bounds(),
            decreases count - index,
        {
            let mut particle: Particle = self.particles[index];
            let alive = particle.update(delta);
            proof {
                let next = self.particles@.take(index + 1);
                assert(next.drop_last() =~= self.particles@.take(index as int));
                assert(next.last() == self.particles@[index as int]);
            }
            if alive {
                kept.push(particle);
            }
            index += 1;
        }
        assert(self.particles@.take(count as int) =~= self.particles@);
        self.particles = kept;
    }
}

} // verus!
