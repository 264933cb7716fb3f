use crate::character::{
    bundle_views, CharacterBundle, CharacterBundleView, CharacterState, CharacterView, Health,
};
use crate::direction::FacingDirection;
use crate::fixedpoint::{fits_raw, lemma_mul_unit, mul_raw, FixedPoint, ONE_RAW};
use crate::vec2::Vec2;
use vstd::prelude::*;

verus! {

/// One unit of combat consequence, delivered to a combatant that was struck.
#[derive(Clone, Copy, Debug, PartialEq, Eq, Structural)]
pub enum Effect {
    Damage(FixedPoint),
    Hitstun(usize),
    Blockstun(usize),
    Pushback(FixedPoint),
}

/// Effects queued for a combatant during a tick, in order of arrival.
#[derive(Clone, Debug, PartialEq, Eq)]
pub struct Effects {
    pub effects: Vec<Effect>,
}

impl View for Effects {
    type V = Seq<Effect>;

    open spec fn view(&self) -> Seq<Effect> {
        self.effects@
    }
}

/// An independent copy of a list of effects.
pub fn copy_effects(effects: &Vec<Effect>) -> (r: Vec<Effect>)
    ensures
        r@ == effects@,
{
    let mut out: Vec<Effect> = Vec::new();
    let mut i: usize = 0;
    while i < effects.len()
        invariant
            i <= effects.len(),
            out@ == effects@.take(i as int),
        decreases effects.len() - i,
    {
        out.push(effects[i]);
        i += 1;
    }
    out
}

/// Share of a damage that a blocking combatant takes: the raw value
/// nearest below one fifth.
pub const BLOCKED_DAMAGE_RAW: i64 = 13107;

impl CharacterBundleView {
    /// Whether the combatant blocks: it moves backward or is in blockstun.
    pub open spec fn is_blocking(self) -> bool {
        self.character.state == CharacterState::MovingBackward || self.character.state is Blockstun
    }

    /// The health that a damage takes away: all of it, or, from a
    /// combatant that blocks, its product with the blocked share.
    pub open spec fn damage_taken(damage: FixedPoint, blocking: bool) -> int {
        if blocking {
            mul_raw(damage@, BLOCKED_DAMAGE_RAW as int)
        } else {
            damage@
        }
    }

    /// Whether one effect can be applied within the range of the raw
    /// values.
    pub open spec fn effect_fits(self, effect: Effect, blocking: bool) -> bool {
        match effect {
            Effect::Damage(damage) => {
                &&& blocking ==> fits_raw(damage@ * BLOCKED_DAMAGE_RAW)
                &&& fits_raw(self.health.value@ - Self::damage_taken(damage, blocking))
            },
            Effect::Pushback(push) => if self.character.facing == FacingDirection::Right {
                fits_raw(push@ * (-ONE_RAW))
            } else {
                fits_raw(push@ * ONE_RAW)
            },
            _ => true,
        }
    }

    /// The combatant after one effect. `blocking` says whether the
    /// combatant blocked when the effects of this tick began to be
    /// applied.
    ///
    /// Damage lowers the health, by its blocked share where the combatant
    /// blocks. Hitstun strikes only one that does not block, and Blockstun
    /// only one that does; either makes the combatant one that has just
    /// transitioned. A combatant that a hitstun takes out of Normal drops
    /// the effects of its move. Pushback sets the horizontal velocity,
    /// away from the combatant's own front.
    pub open spec fn affected(self, effect: Effect, blocking: bool) -> CharacterBundleView {
        match effect {
            Effect::Damage(damage) => CharacterBundleView {
                health: Health {
                    value: FixedPoint(
                        (self.health.value@ - Self::damage_taken(damage, blocking)) as i64,
                    ),
                },
                ..self
            },
            Effect::Hitstun(frames) => if !blocking {
                CharacterBundleView {
                    character: CharacterView {
                        state: CharacterState::Hitstun(frames),
                        just_transitioned: true,
                        current_move_on_hit: if self.character.state == CharacterState::Normal {
                            None
                        } else {
                            self.character.current_move_on_hit
                        },
                        ..self.character
                    },
                    ..self
                }
            } else {
                self
            },
            Effect::Blockstun(frames) => if blocking {
                CharacterBundleView {
                    character: CharacterView {
                        state: CharacterState::Blockstun(frames),
                        just_transitioned: true,
                        ..self.character
                    },
                    ..self
                }
            } else {
                self
            },
            Effect::Pushback(push) => CharacterBundleView {
                velocity: Vec2 {
                    x: FixedPoint(
                        (if self.character.facing == FacingDirection::Right {
                            -push@
                        } else {
                            push@
                        }) as i64,
                    ),
                    y: self.velocity.y,
                },
                ..self
            },
        }
    }

    /// The combatant after a list of effects, applied in order.
    pub open spec fn after_effects(
        self,
        effects: Seq<Effect>,
        blocking: bool,
    ) -> CharacterBundleView
        decreases effects.len(),
    {
        if effects.len() == 0 {
            self
        } else {
            self.after_effects(effects.drop_last(), blocking).affected(effects.last(), blocking)
        }
    }

    /// Whether each effect of a list can be applied, in order, within the
    /// range of the raw values.
    pub open spec fn effects_fit(self, effects: Seq<Effect>, blocking: bool) -> bool
        decreases effects.len(),
    {
        effects.len() == 0 || (self.effects_fit(effects.drop_last(), blocking)
            && self.after_effects(effects.drop_last(), blocking).effect_fits(
            effects.last(),
            blocking,
        ))
    }

    /// What the application of the queued effects needs.
    pub open spec fn apply_effects_ready(self) -> bool {
        self.effects_fit(self.effects, self.is_blocking())
    }

    /// The combatant after its queued effects are applied and the queue is
    /// emptied. Whether the combatant blocks is settled once, before the
    /// first effect.
    pub open spec fn effects_applied(self) -> CharacterBundleView {
        CharacterBundleView {
            effects: Seq::empty(),
            ..self.after_effects(self.effects, self.is_blocking())
        }
    }
}

impl CharacterBundle {
    /// Applies one effect to the combatant.
    pub fn apply_effect(&mut self, effect: Effect, blocking: bool)
        requires
            old(self)@.effect_fits(effect, blocking),
        ensures
            final(self)@ == old(self)@.affected(effect, blocking),
    {
        match effect {
            Effect::Damage(damage) => {
                if blocking {
                    self.health.value = self.health.value - damage * FixedPoint::new_raw(
                        BLOCKED_DAMAGE_RAW,
                    );
                } else {
                    self.health.value = self.health.value - damage;
                }
            },
            Effect::Hitstun(frames) => {
                if !blocking {
                    if self.character.state == CharacterState::Normal {
                        self.character.current_move_on_hit = None;
                    }
                    self.character.state = CharacterState::Hitstun(frames);
                    self.character.just_transitioned = true;
                }
            },
            Effect::Blockstun(frames) => {
                if blocking {
                    self.character.state = CharacterState::Blockstun(frames);
                    self.character.just_transitioned = true;
                }
            },
            Effect::Pushback(push) => {
                proof {
                    lemma_mul_unit(push@);
                }
                let sign = if self.character.facing == FacingDirection::Right {
                    FixedPoint::new_raw(-ONE_RAW)
                } else {
                    FixedPoint::new_raw(ONE_RAW)
                };
                self.velocity.x = push * sign;
            },
        }
    }

    /// Whether one effect can be applied within the range of the raw
    /// values.
    pub fn effect_can_be_applied(&self, effect: Effect, blocking: bool) -> (r: bool)
        ensures
            r == self@.effect_fits(effect, blocking),
    {
        match effect {
            Effect::Damage(damage) => {
                let taken = if blocking {
                    match damage.0.checked_mul(BLOCKED_DAMAGE_RAW) {
                        Some(product) => {
                            assert(product >> 16 == product / 65536) by (bit_vector);
                            product >> 16
                        },
                        None => { return false; },
                    }
                } else {
                    damage.0
                };
                self.health.value.0.checked_sub(taken).is_some()
            },
            Effect::Pushback(push) => {
                let sign = if self.character.facing == FacingDirection::Right {
                    -ONE_RAW
                } else {
                    ONE_RAW
                };
                push.0.checked_mul(sign).is_some()
            },
            _ => true,
        }
    }

    /// Applies the queued effects in order and empties the queue, as far
    /// as the effects can be applied, and says whether all could. Where
    /// one cannot, the effects before it are applied, and the queue stays
    /// as it is.
    pub(crate) fn try_apply_effects(&mut self) -> (ok: bool)
        ensures
            ok == old(self)@.apply_effects_ready(),
            ok ==> final(self)@ == old(self)@.effects_applied(),
    {
        let blocking = match self.character.state {
            CharacterState::MovingBackward => true,
            CharacterState::Blockstun(_) => true,
            _ => false,
        };
        let ghost queued = self.effects@;
        let mut i: usize = 0;
        while i < self.effects.effects.len()
            invariant
                queued == old(self)@.effects,
                blocking == old(self)@.is_blocking(),
                i <= queued.len(),
                self@ == old(self)@.after_effects(queued.take(i as int), blocking),
                self@.effects == queued,
                old(self)@.effects_fit(queued.take(i as int), blocking),
            decreases queued.len() - i,
        {
            let effect = self.effects.effects[i];
            proof {
                assert(queued.take(i + 1).drop_last() =~= queued.take(i as int));
                assert(queued.take(i + 1).last() == effect);
            }
            if !self.effect_can_be_applied(effect, blocking) {
                proof {
                    assert(!old(self)@.effects_fit(queued.take(i + 1), blocking));
                    if old(self)@.effects_fit(queued, blocking) {
                        lemma_effects_fit_prefix(old(self)@, queued, blocking, i + 1);
                    }
                }
                return false;
            }
            self.apply_effect(effect, blocking);
            i += 1;
        }
        assert(queued.take(queued.len() as int) =~= queued);
        self.effects.effects.clear();
        true
    }

    /// Applies the queued effects in order and empties the queue.
    pub fn apply_effects(&mut self)
        requires
            old(self)@.apply_effects_ready(),
        ensures
            final(self)@ == old(self)@.effects_applied(),
    {
        let blocking = match self.character.state {
            CharacterState::MovingBackward => true,
            CharacterState::Blockstun(_) => true,
            _ => false,
        };
        let ghost queued = self.effects@;
        let mut i: usize = 0;
        while i < self.effects.effects.len()
            invariant
                queued == old(self)@.effects,
                blocking == old(self)@.is_blocking(),
                old(self)@.effects_fit(queued, blocking),
                i <= queued.len(),
                self@ == old(self)@.after_effects(queued.take(i as int), blocking),
                self@.effects == queued,
                old(self)@.effects_fit(queued.take(i as int), blocking),
            decreases queued.len() - i,
        {
            let effect = self.effects.effects[i];
            proof {
                assert(queued.take(i + 1).drop_last() =~= queued.take(i as int));
                assert(queued.take(i + 1).last() == effect);
                lemma_effects_fit_prefix(old(self)@, queued, blocking, i + 1);
            }
            self.apply_effect(effect, blocking);
            i += 1;
        }
        assert(queued.take(queued.len() as int) =~= queued);
        self.effects.effects.clear();
    }
}

/// The combatants after each has had its queued effects applied.
pub open spec fn effects_applied_all(entities: Seq<CharacterBundleView>) -> Seq<
    CharacterBundleView,
> {
    Seq::new(entities.len(), |k: int| entities[k].effects_applied())
}

/// Whether the queued effects of every combatant can be applied.
pub open spec fn apply_effects_all_ready(entities: Seq<CharacterBundleView>) -> bool {
    forall|k: int| 0 <= k < entities.len() ==> (#[trigger] entities[k]).apply_effects_ready()
}

/// Applies the queued effects of every combatant.
pub fn apply_effects(entities: &mut Vec<CharacterBundle>)
    requires
        apply_effects_all_ready(bundle_views(old(entities)@)),
    ensures
        final(entities).len() == old(entities).len(),
        bundle_views(final(entities)@) == effects_applied_all(bundle_views(old(entities)@)),
{
    let ghost before = bundle_views(entities@);
    let count = entities.len();
    let mut k: usize = 0;
    while k < count
        invariant
            before == bundle_views(old(entities)@),
            apply_effects_all_ready(before),
            count == entities.len(),
            count == before.len(),
            k <= count,
            forall|e: int| 0 <= e < k ==> (#[trigger] entities[e])@ == before[e].effects_applied(),
            forall|e: int| k <= e < count ==> (#[trigger] entities[e])@ == before[e],
        decreases count - k,
    {
        assert(before[k as int].apply_effects_ready());
        entities[k].apply_effects();
        k += 1;
    }
    assert(bundle_views(entities@) =~= effects_applied_all(before));
}

/// Applies the queued effects of every combatant, as far as they can be
/// applied, and says whether all could.
pub(crate) fn try_apply_effects(entities: &mut Vec<CharacterBundle>) -> (ok: bool)
    ensures
        final(entities).len() == old(entities).len(),
        ok == apply_effects_all_ready(bundle_views(old(entities)@)),
        ok ==> bundle_views(final(entities)@) == effects_applied_all(bundle_views(old(entities)@)),
{
    let ghost before = bundle_views(entities@);
    let count = entities.len();
    let mut k: usize = 0;
    while k < count
        invariant
            before == bundle_views(old(entities)@),
            count == entities.len(),
            count == before.len(),
            k <= count,
            forall|e: int| 0 <= e < k ==> (#[trigger] entities[e])@ == before[e].effects_applied(),
            forall|e: int| 0 <= e < k ==> (#[trigger] before[e]).apply_effects_ready(),
            forall|e: int| k <= e < count ==> (#[trigger] entities[e])@ == before[e],
        decreases count - k,
    {
        if !entities[k].try_apply_effects() {
            assert(!before[k as int].apply_effects_ready());
            return false;
        }
        k += 1;
    }
    assert(bundle_views(entities@) =~= effects_applied_all(before));
    true
}

/// A strike that brings damage, hitstun, blockstun and pushback, in this
/// order, to a combatant with nothing else queued. One that does not
/// block loses the damage from its health and goes into the hitstun; one
/// that blocks loses the blocked share of the damage and goes into the
/// blockstun. Either is pushed away from its own front, has just
/// transitioned, and has nothing queued afterwards.
pub proof fn lemma_strike(
    entity: CharacterBundleView,
    damage: FixedPoint,
    hitstun: usize,
    blockstun: usize,
    push: FixedPoint,
)
    requires
        entity.effects == seq![
            Effect::Damage(damage),
            Effect::Hitstun(hitstun),
            Effect::Blockstun(blockstun),
            Effect::Pushback(push),
        ],
        entity.apply_effects_ready(),
    ensures
        ({
            let after = entity.effects_applied();
            &&& !entity.is_blocking() ==> after.health.value@ == entity.health.value@ - damage@
                && after.character.state == CharacterState::Hitstun(hitstun)
            &&& entity.is_blocking() ==> after.health.value@ == entity.health.value@ - mul_raw(
                damage@,
                BLOCKED_DAMAGE_RAW as int,
            ) && after.character.state == CharacterState::Blockstun(blockstun)
            &&& after.velocity.x@ == if entity.character.facing == FacingDirection::Right {
                -push@
            } else {
                push@
            }
            &&& after.character.just_transitioned
            &&& after.effects.len() == 0
        }),
{
    let blocking = entity.is_blocking();
    let queued = entity.effects;
    let one = queued.take(1);
    let two = queued.take(2);
    let three = queued.take(3);
    assert(queued.drop_last() =~= three);
    assert(three.drop_last() =~= two);
    assert(two.drop_last() =~= one);
    assert(one.drop_last() =~= Seq::<Effect>::empty());
    assert(entity.after_effects(one.drop_last(), blocking) == entity);
    assert(entity.after_effects(one, blocking) == entity.affected(queued[0], blocking));
    assert(entity.after_effects(two, blocking) == entity.after_effects(one, blocking).affected(
        queued[1],
        blocking,
    ));
    assert(entity.after_effects(three, blocking) == entity.after_effects(two, blocking).affected(
        queued[2],
        blocking,
    ));
    assert(entity.after_effects(queued, blocking) == entity.after_effects(
        three,
        blocking,
    ).affected(queued[3], blocking));
    assert(entity.effects_fit(three, blocking));
    assert(entity.effects_fit(two, blocking));
    assert(entity.effects_fit(one, blocking));
    assert(entity.effect_fits(queued[0], blocking));
    assert(entity.after_effects(three, blocking).effect_fits(queued[3], blocking));
}

/// Effects bring a combatant no move in flight; and one that they take out
/// of Normal has none afterwards.
pub proof fn lemma_effects_drop_move(
    entity: CharacterBundleView,
    effects: Seq<Effect>,
    blocking: bool,
)
    requires
        blocking == entity.is_blocking(),
    ensures
        entity.character.current_move_on_hit is None ==> entity.after_effects(
            effects,
            blocking,
        ).character.current_move_on_hit is None,
        entity.character.state == CharacterState::Normal && entity.after_effects(
            effects,
            blocking,
        ).character.state != CharacterState::Normal ==> entity.after_effects(
            effects,
            blocking,
        ).character.current_move_on_hit is None,
    decreases effects.len(),
{
    if effects.len() > 0 {
        lemma_effects_drop_move(entity, effects.drop_last(), blocking);
    }
}

/// Where a list of effects can be applied, so can each of its prefixes.
pub proof fn lemma_effects_fit_prefix(
    combatant: CharacterBundleView,
    effects: Seq<Effect>,
    blocking: bool,
    upto: int,
)
    requires
        combatant.effects_fit(effects, blocking),
        0 <= upto <= effects.len(),
    ensures
        combatant.effects_fit(effects.take(upto), blocking),
    decreases effects.len(),
{
    if upto == effects.len() {
        assert(effects.take(upto) =~= effects);
    } else {
        lemma_effects_fit_prefix(combatant, effects.drop_last(), blocking, upto);
        assert(effects.drop_last().take(upto) =~= effects.take(upto));
    }
}

} // verus!
