//! The manager of the power-ups: it spawns one when its timer runs out, hands the ones
//! that the ball touches to a player, applies their effects to the paddles, and retires
//! those whose effect has run out.

use vstd::prelude::*;
use crate::constants::{BOOST_MULTIPLIER, PENALTY_MULTIPLIER, POWERUP_SPAWN_INTERVAL};
use crate::entities::ball::{Ball, BallModel};
use crate::entities::player::Player;
use crate::numeric::{time_left, time_sum};
use crate::powerups::powerup::{PowerUp, PowerUpType};
use crate::random::RandomSource;
use crate::vec2::Vec2;

verus! {

/// The player that collects what a ball with `velocity` touches: the one on the right,
/// 1, for a ball that flies to the right, else the one on the left, 0.
pub open spec fn collector_of(velocity: Vec2) -> usize {
    if velocity.x > 0 {
        1
    } else {
        0
    }
}

/// The two paddles, left and right, under the effect of a power-up of `kind` collected
/// by `collector`: growth and speed-up go to the collector's own paddle, shrinking and
/// slow-down to the opponent's, and a multiball split leaves the paddles alone.
pub open spec fn with_effect(
    paddles: (Player, Player),
    kind: PowerUpType,
    collector: usize,
) -> (Player, Player) {
    let (left, right) = paddles;
    match kind {
        PowerUpType::PaddleGrow => if collector == 0 {
            (left.spec_with_size_multiplier(BOOST_MULTIPLIER), right)
        } else {
            (left, right.spec_with_size_multiplier(BOOST_MULTIPLIER))
        },
        PowerUpType::PaddleShrink => if collector == 0 {
            (left, right.spec_with_size_multiplier(PENALTY_MULTIPLIER))
        } else {
            (left.spec_with_size_multiplier(PENALTY_MULTIPLIER), right)
        },
        PowerUpType::SpeedUp => if collector == 0 {
            (Player { speed_multiplier: BOOST_MULTIPLIER, ..left }, right)
        } else {
            (left, Player { speed_multiplier: BOOST_MULTIPLIER, ..right })
        },
        PowerUpType::SpeedDown => if collector == 0 {
            (left, Player { speed_multiplier: PENALTY_MULTIPLIER, ..right })
        } else {
            (Player { speed_multiplier: PENALTY_MULTIPLIER, ..left }, right)
        },
        PowerUpType::MultiballSplit => (left, right),
    }
}

/// The power-ups after the contact with a ball: every one that the ball touches is
/// collected by `collector`, the others stay as they are.
pub open spec fn collected(
    power_ups: Seq<PowerUp>,
    ball_position: Vec2,
    ball_radius: i64,
    collector: usize,
) -> Seq<PowerUp> {
    Seq::new(
        power_ups.len(),
        |i: int|
            if power_ups[i].spec_collides(ball_position, ball_radius) {
                power_ups[i].spec_activated(collector)
            } else {
                power_ups[i]
            },
    )
}

/// The paddles after the contact with a ball: the effect of every power-up that the ball
/// touches is applied, in the order of the list.
pub open spec fn paddles_after(
    power_ups: Seq<PowerUp>,
    ball_position: Vec2,
    ball_radius: i64,
    collector: usize,
    paddles: (Player, Player),
) -> (Player, Player)
    decreases power_ups.len(),
{
    if power_ups.len() == 0 {
        paddles
    } else {
        let earlier = paddles_after(
            power_ups.drop_last(),
            ball_position,
            ball_radius,
            collector,
            paddles,
        );
        if power_ups.last().spec_collides(ball_position, ball_radius) {
            with_effect(earlier, power_ups.last().power_type, collector)
        } else {
            earlier
        }
    }
}

/// The power-ups that are still there after `delta` microseconds, each as it is then, in
/// their order.
pub open spec fn surviving(power_ups: Seq<PowerUp>, delta: u64) -> Seq<PowerUp>
    decreases power_ups.len(),
{
    if power_ups.len() == 0 {
        Seq::empty()
    } else {
        let earlier = surviving(power_ups.drop_last(), delta);
        if power_ups.last().survives(delta) {
            earlier.push(power_ups.last().spec_updated(delta))
        } else {
            earlier
        }
    }
}

/// All power-ups of the list lie within the stored range.
pub open spec fn all_well_formed(power_ups: Seq<PowerUp>) -> bool {
    forall|i: int| 0 <= i < power_ups.len() ==> (#[trigger] power_ups[i]).well_formed()
}

/// Whether a power-up is a multiball split whose effect is running.
pub open spec fn is_running_multiball(power_up: PowerUp) -> bool {
    power_up.power_type == PowerUpType::MultiballSplit && power_up.collected_by.is_some()
        && power_up.remaining_duration.is_some()
}

/// Those that survive keep their place and size.
pub proof fn lemma_surviving_well_formed(power_ups: Seq<PowerUp>, delta: u64)
    requires
        all_well_formed(power_ups),
    ensures
        all_well_formed(surviving(power_ups, delta)),
        surviving(power_ups, delta).len() <= power_ups.len(),
    decreases power_ups.len(),
{
    if power_ups.len() > 0 {
        lemma_surviving_well_formed(power_ups.drop_last(), delta);
    }
}

/// Power-ups that were all collected before are not collected again: a contact changes
/// none of them and has no effect on the paddles.
pub proof fn lemma_collection_is_single_shot(
    power_ups: Seq<PowerUp>,
    ball_position: Vec2,
    ball_radius: i64,
    collector: usize,
    paddles: (Player, Player),
)
    requires
        forall|i: int| 0 <= i < power_ups.len() ==> !(#[trigger] power_ups[i]).active,
    ensures
        collected(power_ups, ball_position, ball_radius, collector) == power_ups,
        paddles_after(power_ups, ball_position, ball_radius, collector, paddles) == paddles,
    decreases power_ups.len(),
{
    assert(collected(power_ups, ball_position, ball_radius, collector) =~= power_ups);
    if power_ups.len() > 0 {
        lemma_collection_is_single_shot(
            power_ups.drop_last(),
            ball_position,
            ball_radius,
            collector,
            paddles,
        );
    }
}

/// After a contact, a second contact with any ball collects nothing that the first one
/// collected: what the first contact collected stays as it is, and only power-ups that
/// the first ball did not touch can still have an effect.
pub proof fn lemma_contact_collects_once(
    power_ups: Seq<PowerUp>,
    first_position: Vec2,
    first_radius: i64,
    first_collector: usize,
    second_position: Vec2,
    second_radius: i64,
    second_collector: usize,
    i: int,
)
    requires
        0 <= i < power_ups.len(),
        power_ups[i].spec_collides(first_position, first_radius),
    ensures
        ({
            let once = collected(power_ups, first_position, first_radius, first_collector);
            let twice = collected(once, second_position, second_radius, second_collector);
            &&& !once[i].spec_collides(second_position, second_radius)
            &&& twice[i] == once[i]
            &&& once[i].collected_by == Some(first_collector)
        }),
{
}

/// The power-ups on the field, in the order in which they were spawned, the time until
/// the next spawn, and the time that has passed, both in microseconds.
#[derive(Clone, Debug)]
pub struct PowerUpManager {
    pub power_ups: Vec<PowerUp>,
    pub spawn_timer: u64,
    pub total_time: u64,
}

/// What a manager holds, with its power-ups as a sequence.
pub struct ManagerModel {
    pub power_ups: Seq<PowerUp>,
    pub spawn_timer: u64,
    pub total_time: u64,
}

impl View for PowerUpManager {
    type V = ManagerModel;

    open spec fn view(&self) -> ManagerModel {
        ManagerModel {
            power_ups: self.power_ups@,
            spawn_timer: self.spawn_timer,
            total_time: self.total_time,
        }
    }
}

impl ManagerModel {
    /// Whether a step of `delta` microseconds runs the spawn timer out.
    pub open spec fn spawn_due(self, delta: u64) -> bool {
        time_left(self.spawn_timer, delta) == 0
    }

    /// The power-ups at the contact of this step: those on the field, and `candidate`
    /// behind them where the spawn timer runs out.
    pub open spec fn at_contact(self, delta: u64, candidate: PowerUp) -> Seq<PowerUp> {
        if self.spawn_due(delta) {
            self.power_ups.push(candidate)
        } else {
            self.power_ups
        }
    }

    /// The manager after a step of `delta` microseconds with `ball` on the field. Where
    /// the spawn timer runs out, `candidate` is spawned and the timer starts again. Then
    /// the power-ups that the ball touches are collected, and at last all of them age
    /// and those whose effect has run out leave.
    pub open spec fn spec_updated(
        self,
        delta: u64,
        ball: BallModel,
        candidate: PowerUp,
    ) -> ManagerModel {
        ManagerModel {
            power_ups: surviving(
                collected(
                    self.at_contact(delta, candidate),
                    ball.position,
                    ball.radius,
                    collector_of(ball.velocity),
                ),
                delta,
            ),
            spawn_timer: if self.spawn_due(delta) {
                POWERUP_SPAWN_INTERVAL
            } else {
                time_left(self.spawn_timer, delta)
            },
            total_time: time_sum(self.total_time, delta),
        }
    }

    /// The paddles after the same step: the effects of the power-ups that the ball
    /// touches are applied to them.
    pub open spec fn spec_paddles_updated(
        self,
        delta: u64,
        ball: BallModel,
        candidate: PowerUp,
        paddles: (Player, Player),
    ) -> (Player, Player) {
        paddles_after(
            self.at_contact(delta, candidate),
            ball.position,
            ball.radius,
            collector_of(ball.velocity),
            paddles,
        )
    }

    /// Whether a multiball split is running.
    pub open spec fn has_running_multiball(self) -> bool {
        exists|i: int|
            0 <= i < self.power_ups.len() && is_running_multiball(#[trigger] self.power_ups[i])
    }
}

/// Applies the effect of a collected power-up of `kind` to the paddles.
fn apply_effect(kind: PowerUpType, collector: usize, left: &mut Player, right: &mut Player)
    requires
        old(left).well_formed(),
        old(right).well_formed(),
    ensures
        (*final(left), *final(right)) == with_effect((*old(left), *old(right)), kind, collector),
        final(left).well_formed(),
        final(right).well_formed(),
{
    match kind {
        PowerUpType::PaddleGrow => {
            if collector == 0 {
                left.apply_size_multiplier(BOOST_MULTIPLIER);
            } else {
                right.apply_size_multiplier(BOOST_MULTIPLIER);
            }
        },
        PowerUpType::PaddleShrink => {
            if collector == 0 {
                right.apply_size_multiplier(PENALTY_MULTIPLIER);
            } else {
                left.apply_size_multiplier(PENALTY_MULTIPLIER);
            }
        },
        PowerUpType::SpeedUp => {
            if collector == 0 {
                left.apply_speed_multiplier(BOOST_MULTIPLIER);
            } else {
                right.apply_speed_multiplier(BOOST_MULTIPLIER);
            }
        },
        PowerUpType::SpeedDown => {
            if collector == 0 {
                right.apply_speed_multiplier(PENALTY_MULTIPLIER);
            } else {
                left.apply_speed_multiplier(PENALTY_MULTIPLIER);
            }
        },
        PowerUpType::MultiballSplit => {},
    }
}

impl PowerUpManager {
    /// All power-ups lie within the stored range.
    pub open spec fn well_formed(&self) -> bool {
        all_well_formed(self.power_ups@)
    }

    /// Whether the manager is well formed.
    pub fn is_well_formed(&self) -> (valid: bool)
        ensures
            valid == self.well_formed(),
    {
        let mut index: usize = 0;
        while index < self.power_ups.len()
            invariant
                index <= self.power_ups@.len(),
                forall|i: int| 0 <= i < index ==> (#[trigger] self.power_ups@[i]).well_formed(),
            decreases self.power_ups@.len() - index,
        {
            if !self.power_ups[index].is_well_formed() {
                return false;
            }
            index += 1;
        }
        true
    }

    /// A manager without power-ups whose first spawn is one spawn interval away.
    pub fn new() -> (manager: PowerUpManager)
        ensures
            manager@ == (ManagerModel {
                power_ups: Seq::empty(),
                spawn_timer: POWERUP_SPAWN_INTERVAL,
                total_time: 0,
            }),
            manager.well_formed(),
    {
        PowerUpManager { power_ups: Vec::new(), spawn_timer: POWERUP_SPAWN_INTERVAL, total_time: 0 }
    }

    /// Lets `delta` microseconds pass with `ball` on the field; where the spawn timer
    /// runs out, the power-up that is spawned is random.
    pub fn update(
        &mut self,
        delta: u64,
        ball: &Ball,
        left_player: &mut Player,
        right_player: &mut Player,
        rng: &mut RandomSource,
    )
        requires
            old(self).well_formed(),
            ball.well_formed(),
            old(left_player).well_formed(),
            old(right_player).well_formed(),
        ensures
            final(self).well_formed(),
            final(left_player).well_formed(),
            final(right_player).well_formed(),
            exists|candidate: PowerUp|
                {
                    &&& candidate.is_fresh_spawn()
                    &&& final(self)@ == #[trigger] old(self)@.spec_updated(delta, ball@, candidate)
                    &&& (*final(left_player), *final(right_player))
                        == old(self)@.spec_paddles_updated(
                        delta,
                        ball@,
                        candidate,
                        (*old(left_player), *old(right_player)),
                    )
                },
    {
        let candidate = PowerUp::random(rng);
        self.update_with(delta, ball, left_player, right_player, candidate);
    }

    /// Lets `delta` microseconds pass with `ball` on the field; where the spawn timer
    /// runs out, `candidate` is spawned.
    pub fn update_with(
        &mut self,
        delta: u64,
        ball: &Ball,
        left_player: &mut Player,
        right_player: &mut Player,
        candidate: PowerUp,
    )
        requires
            old(self).well_formed(),
            candidate.well_formed(),
            ball.well_formed(),
            old(left_player).well_formed(),
            old(right_player).well_formed(),
        ensures
            final(self)@ == old(self)@.spec_updated(delta, ball@, candidate),
            (*final(left_player), *final(right_player)) == old(self)@.spec_paddles_updated(
                delta,
                ball@,
                candidate,
                (*old(left_player), *old(right_player)),
            ),
            final(self).well_formed(),
            final(left_player).well_formed(),
            final(right_player).well_formed(),
    {
        self.total_time = self.total_time.saturating_add(delta);
        self.spawn_timer = self.spawn_timer.saturating_sub(delta);
        if self.spawn_timer == 0 {
            self.spawn_power_up(candidate);
            self.spawn_timer = POWERUP_SPAWN_INTERVAL;
        }
        let ghost at_contact = self.power_ups@;
        let ghost paddles = (*left_player, *right_player);
        let ghost timer = self.spawn_timer;
        let ghost time = self.total_time;
        let collector: usize = if ball.velocity.x > 0 {
            1
        } else {
            0
        };
        let count: usize = self.power_ups.len();
        let mut index: usize = 0;
        while index < count
            invariant
                index <= count,
                count == at_contact.len(),
                self.power_ups@.len() == count,
                self.spawn_timer == timer,
                self.total_time == time,
                ball.well_formed(),
                all_well_formed(at_contact),
                all_well_formed(self.power_ups@),
                left_player.well_formed(),
                right_player.well_formed(),
                collector == collector_of(ball.velocity),
                forall|i: int|
                    0 <= i < index ==> self.power_ups@[i] == collected(
                        at_contact,
                        ball.position,
                        ball.radius,
                        collector,
                    )[i],
                forall|i: int| index <= i < count ==> self.power_ups@[i] == at_contact[i],
                (*left_player, *right_player) == paddles_after(
                    at_contact.take(index as int),
                    ball.position,
                    ball.radius,
                    collector,
                    paddles,
                ),
            decreases count - index,
        {
            let mut power_up: PowerUp = self.power_ups[index];
            proof {
                let next = at_contact.take(index + 1);
                assert(next.drop_last() =~= at_contact.take(index as int));
                assert(next.last() == at_contact[index as int]);
            }
            if power_up.active && power_up.collides_with_ball(ball.position, ball.radius) {
                power_up.activate(collector);
                self.power_ups.set(index, power_up);
                apply_effect(power_up.power_type, collector, left_player, right_player);
            }
            index += 1;
        }
        proof {
            assert(at_contact.take(count as int) =~= at_contact);
            assert(self.power_ups@ =~= collected(
                at_contact,
                ball.position,
                ball.radius,
                collector,
            ));
        }
        let ghost touched = self.power_ups@;
        let mut kept: Vec<PowerUp> = Vec::new();
        let mut index: usize = 0;
        while index < count
            invariant
                index <= count,
                count == self.power_ups@.len(),
                self.power_ups@ == touched,
                self.spawn_timer == timer,
                self.total_time == time,
                all_well_formed(touched),
                kept@ == surviving(touched.take(index as int), delta),
                all_well_formed(kept@),
            decreases count - index,
        {
            let mut power_up: PowerUp = self.power_ups[index];
            let alive = power_up.update(delta);
            proof {
                let next = touched.take(index + 1);
                assert(next.drop_last() =~= touched.take(index as int));
                assert(next.last() == touched[index as int]);
            }
            if alive {
                kept.push(power_up);
            }
            index += 1;
        }
        proof {
            assert(touched.take(count as int) =~= touched);
        }
        self.power_ups = kept;
    }

    /// Puts `power_up` on the field as the newest.
    fn spawn_power_up(&mut self, power_up: PowerUp)
        requires
            old(self).well_formed(),
            power_up.well_formed(),
        ensures
            final(self).power_ups@ == old(self).power_ups@.push(power_up),
            final(self).spawn_timer == old(self).spawn_timer,
            final(self).total_time == old(self).total_time,
            final(self).well_formed(),
    {
        self.power_ups.push(power_up);
    }

    /// Whether a multiball split has been collected and its effect is still running.
    pub fn get_active_multiball(&self) -> (running: bool)
        ensures
            running == self@.has_running_multiball(),
    {
        let mut index: usize = 0;
        while index < self.power_ups.len()
            invariant
                index <= self.power_ups@.len(),
                forall|i: int| 0 <= i < index ==> !is_running_multiball(#[trigger] self.power_ups@[i]),
            decreases self.power_ups@.len() - index,
        {
            let power_up: PowerUp = self.power_ups[index];
            let is_split = match power_up.power_type {
                PowerUpType::MultiballSplit => true,
                _ => false,
            };
            if is_split && power_up.collected_by.is_some() && power_up.remaining_duration.is_some() {
                assert(is_running_multiball(self@.power_ups[index as int]));
                return true;
            }
            index += 1;
        }
        false
    }

    /// Removes all power-ups and starts the spawn timer again.
    pub fn reset(&mut self)
        ensures
            final(self)@ == (ManagerModel {
                power_ups: Seq::empty(),
                spawn_timer: POWERUP_SPAWN_INTERVAL,
                total_time: old(self).total_time,
            }),
            final(self).well_formed(),
    {
        self.power_ups.clear();
        self.spawn_timer = POWERUP_SPAWN_INTERVAL;
    }
}

} // verus!
