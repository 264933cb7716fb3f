use crate::animation::{lemma_next_timed_bounds, Animation, FrameStep, Hitbox2, HitboxPos};
use crate::character::{faced, lemma_first_on_team, CharacterBundleView, Team};
use crate::direction::FacingDirection;
use crate::effects::Effect;
use crate::fixedpoint::{fits_raw, lemma_mul_shrinks, FixedPoint};
use crate::input_history::InputSnapshot;
use crate::physics::{
    collided, collisions_ready, deliveries, delivered_to, delivery_of, gathered, overlap_fits,
    pair_fits, pair_hits, received, records_against, resolved, row_hits, Collision, Delivery,
    ARENA_MAX_X_RAW, ARENA_MIN_X_RAW,
};
use crate::simulation::{lemma_ticked_wf, SimulationView};
use crate::stages::{advance_all_fits, lemma_advanced_keeps};
use crate::state_machine::lemma_scan_outcome;
use crate::vec2::Vec2;
use crate::wellformed::{
    animations_wf, lemma_faced_wf, lemma_ingested_wf, lemma_state_managed_wf,
};
use vstd::prelude::*;

verus! {

/// Most combatants of a simulation that is within bounds.
pub const MAX_COMBATANTS: usize = 16;

/// Most hitboxes on a frame, and most live hitboxes of a combatant, in a
/// simulation that is within bounds.
pub const MAX_BOXES: usize = 64;

/// Most effects of a move in a simulation that is within bounds.
pub const MAX_EFFECTS: usize = 64;

/// Largest magnitude of a coordinate, a velocity, a damage or a pushback
/// in a simulation that is within bounds, in raw units: 2^32, the value
/// 65536.
pub const MAX_MAGNITUDE_RAW: i64 = 4294967296;

/// Largest magnitude of a health in a simulation that is within bounds, in
/// raw units: 2^62.
pub const MAX_HEALTH_RAW: i64 = 4611686018427387904;

/// Whether a value is within the bound on magnitudes.
pub open spec fn small(value: FixedPoint) -> bool {
    -MAX_MAGNITUDE_RAW <= value@ <= MAX_MAGNITUDE_RAW
}

/// Whether both components of a vector are within the bound on magnitudes.
pub open spec fn small_vec(value: Vec2) -> bool {
    small(value.x) && small(value.y)
}

/// Whether the damage or the pushback of an effect is within the bound on
/// magnitudes, and the damage not negative.
pub open spec fn small_effect(effect: Effect) -> bool {
    match effect {
        Effect::Damage(damage) => 0 <= damage@ <= MAX_MAGNITUDE_RAW,
        Effect::Pushback(push) => small(push),
        _ => true,
    }
}

/// Whether every effect of a list is within the bound on magnitudes.
pub open spec fn all_small(effects: Seq<Effect>) -> bool {
    forall|i: int| 0 <= i < effects.len() ==> small_effect(#[trigger] effects[i])
}

/// Whether a list of effects is within the bounds on its length and on the
/// magnitudes.
pub open spec fn small_effects(effects: Seq<Effect>) -> bool {
    effects.len() <= MAX_EFFECTS && all_small(effects)
}

/// Whether a live hitbox is within the bound on magnitudes; a horizontal
/// offset may be twice as large, since mirroring adds the width to it.
pub open spec fn small_box(live: Hitbox2) -> bool {
    &&& -2 * MAX_MAGNITUDE_RAW <= live.offset.x@ <= 2 * MAX_MAGNITUDE_RAW
    &&& small(live.offset.y)
    &&& small_vec(live.size)
}

/// Whether a list of live hitboxes is within the bounds on its length and
/// on the magnitudes.
pub open spec fn small_boxes(boxes: Seq<Hitbox2>) -> bool {
    boxes.len() <= MAX_BOXES && all_small_boxes(boxes)
}

/// Whether a placement is within the bound on magnitudes.
pub open spec fn small_placement(placed: HitboxPos) -> bool {
    small_vec(placed.pos) && small_vec(placed.size)
}

/// Whether the frames of an animation are within the bounds on the number
/// of hitboxes and on the magnitudes.
pub open spec fn small_animation(animation: Animation) -> bool {
    forall|f: int|
        0 <= f < animation.frames.len() ==> (#[trigger] animation.frames[f]).hitboxes.len()
            <= MAX_BOXES && forall|h: int|
            0 <= h < animation.frames[f].hitboxes.len() ==> small_placement(
                #[trigger] animation.frames[f].hitboxes[h],
            )
}

/// Whether every animation of a table is within bounds.
pub open spec fn small_animations(animations: Seq<Animation>) -> bool {
    forall|a: int| 0 <= a < animations.len() ==> small_animation(#[trigger] animations[a])
}

impl CharacterBundleView {
    /// Whether the moves of the combatant, and the move in flight, are
    /// within bounds.
    pub open spec fn small_moves(self) -> bool {
        &&& self.character.current_move_on_hit matches Some(effects) ==> small_effects(effects)
        &&& forall|m: int|
            0 <= m < self.movelist.len() ==> small_effects((#[trigger] self.movelist[m]).effects@)
    }

    /// Whether the combatant is within bounds between two ticks: its
    /// position, velocity and live hitboxes are within the bound on
    /// magnitudes, its health within the bound on healths, its moves within
    /// bounds, and nothing is pending for it.
    pub open spec fn bounded(self) -> bool {
        &&& small_vec(self.position)
        &&& small_vec(self.velocity)
        &&& -MAX_HEALTH_RAW <= self.health.value@ <= MAX_HEALTH_RAW
        &&& small_boxes(self.hitboxes)
        &&& self.small_moves()
        &&& self.collisions.len() == 0
        &&& self.effects.len() == 0
    }

    /// Whether the combatant is within bounds after its own part of a
    /// tick: it stands in the arena, at a height of at most twice the bound
    /// on magnitudes, and is else as between two ticks.
    pub open spec fn bounded_in_arena(self) -> bool {
        &&& ARENA_MIN_X_RAW <= self.position.x@ <= ARENA_MAX_X_RAW
        &&& -2 * MAX_MAGNITUDE_RAW <= self.position.y@ <= 2 * MAX_MAGNITUDE_RAW
        &&& small(self.velocity.x)
        &&& -MAX_HEALTH_RAW <= self.health.value@ <= MAX_HEALTH_RAW
        &&& small_boxes(self.hitboxes)
        &&& self.small_moves()
        &&& self.collisions.len() == 0
        &&& self.effects.len() == 0
    }
}

/// The hitboxes that are live on a frame of an animation within bounds
/// are within bounds.
pub proof fn lemma_live_hitboxes_small(animation: Animation, frame: int, facing: FacingDirection)
    requires
        animation.wf(),
        small_animation(animation),
        0 <= frame < animation.frames.len(),
    ensures
        small_boxes(animation.live_hitboxes(frame, facing)),
{
    let placements = animation.frames[frame].hitboxes@;
    assert forall|h: int| 0 <= h < placements.len() implies small_placement(
        #[trigger] placements[h],
    ) by {
        assert(small_placement(animation.frames[frame].hitboxes[h]));
    }
    lemma_resolved_small(animation, placements, facing);
}

/// The live hitboxes that the enabled placements of a list resolve to.
pub open spec fn resolved_all(
    animation: Animation,
    placements: Seq<HitboxPos>,
    facing: FacingDirection,
) -> Seq<Hitbox2> {
    placements.filter_map(|placed: HitboxPos| animation.resolved(placed, facing))
}

/// Whether every live hitbox of a list is within the bound on magnitudes.
pub open spec fn all_small_boxes(boxes: Seq<Hitbox2>) -> bool {
    forall|i: int| 0 <= i < boxes.len() ==> small_box(#[trigger] boxes[i])
}

/// The enabled placements of a list within bounds resolve to live
/// hitboxes within bounds, and to no more of them than there are
/// placements.
proof fn lemma_resolved_small(
    animation: Animation,
    placements: Seq<HitboxPos>,
    facing: FacingDirection,
)
    requires
        forall|h: int| 0 <= h < placements.len() ==> small_placement(#[trigger] placements[h]),
    ensures
        resolved_all(animation, placements, facing).len() <= placements.len(),
        all_small_boxes(resolved_all(animation, placements, facing)),
    decreases placements.len(),
{
    if placements.len() > 0 {
        lemma_resolved_small(animation, placements.drop_last(), facing);
        assert(small_placement(placements[placements.len() - 1]));
    }
}

/// The own part of a tick can be computed for a combatant within bounds,
/// and leaves it within bounds and in the arena.
pub proof fn lemma_advance_bounded(
    entity: CharacterBundleView,
    input: InputSnapshot,
    animations: Seq<Animation>,
    current_frame: usize,
)
    requires
        animations_wf(animations),
        small_animations(animations),
        entity.wf(animations, current_frame),
        entity.bounded(),
    ensures
        entity.advance_fits(input, current_frame),
        entity.advanced(input, animations, current_frame).bounded_in_arena(),
        entity.velocity.y@ == 0 ==> entity.advanced(
            input,
            animations,
            current_frame,
        ).velocity.y@ == 0 && small(
            entity.advanced(input, animations, current_frame).position.y,
        ),
{
    let sensed = entity.ingested(input, current_frame);
    lemma_ingested_wf(entity, input, animations, current_frame);
    lemma_scan_outcome(
        sensed.movelist,
        sensed.input_history.move_buffer,
        sensed.character.facing,
        current_frame,
        sensed.steered_state(),
        sensed.movelist.len() as int,
    );
    lemma_mul_shrinks(sensed.velocity.x@, 58982);
    assert(fits_raw(sensed.velocity.x@ * 58982)) by (nonlinear_arith)
        requires
            -4294967296 <= sensed.velocity.x@ <= 4294967296,
    ;
    let managed = sensed.state_managed(current_frame);
    assert(small(managed.velocity.x));
    assert(managed.small_moves()) by {
        let scan = sensed.move_scan(current_frame);
        if let Some(index) = scan.fired {
            assert(small_effects(sensed.movelist[index].effects@));
        }
    }
    let moved = managed.integrated();
    assert(moved.animator == managed.animator);
    lemma_state_managed_wf(sensed, animations, current_frame);
    let animation = animations[moved.animator.animation as int];
    assert(animation.wf());
    assert(small_animation(animation));
    let after = moved.animated(animation, current_frame);
    lemma_next_timed_bounds(animation.frames@, moved.animator.frame + 1, 0);
    lemma_next_timed_bounds(animation.frames@, 0, 0);
    if animation.takes_time() {
        let timed = choose|i: int|
            0 <= i < animation.frames.len() && (#[trigger] animation.frames[i]).duration > 0;
        lemma_next_timed_bounds(animation.frames@, 0, timed);
    }
    assert(small_boxes(after.hitboxes)) by {
        match animation.frame_step(moved.animator, current_frame) {
            FrameStep::Show(frame) => {
                lemma_live_hitboxes_small(animation, frame, moved.character.facing);
            },
            FrameStep::Stay => {
                lemma_live_hitboxes_small(
                    animation,
                    moved.animator.frame as int,
                    moved.character.facing,
                );
            },
            _ => {},
        }
    }
}

/// Whether every combatant of a list is within bounds and in the arena.
pub open spec fn all_in_arena(entities: Seq<CharacterBundleView>) -> bool {
    forall|k: int| 0 <= k < entities.len() ==> (#[trigger] entities[k]).bounded_in_arena()
}

/// The collisions between combatants within bounds can be detected.
pub proof fn lemma_bounded_collisions_ready(entities: Seq<CharacterBundleView>)
    requires
        all_in_arena(entities),
    ensures
        collisions_ready(entities),
{
    assert forall|i: int, j: int| 0 <= i < j < entities.len() implies pair_fits(
        (#[trigger] entities[i]).position,
        entities[i].hitboxes,
        (#[trigger] entities[j]).position,
        entities[j].hitboxes,
    ) by {
        let a = entities[i];
        let b = entities[j];
        assert(a.bounded_in_arena() && b.bounded_in_arena());
        assert forall|p: int, q: int|
            0 <= p < a.hitboxes.len() && 0 <= q < b.hitboxes.len() && (
            #[trigger] a.hitboxes[p]).hitbox_type != (
            #[trigger] b.hitboxes[q]).hitbox_type implies overlap_fits(
            a.position,
            a.hitboxes[p],
            b.position,
            b.hitboxes[q],
        ) by {
            assert(small_box(a.hitboxes[p]));
            assert(small_box(b.hitboxes[q]));
        }
    }
}

/// One box against a list of boxes collides with no more of them than
/// there are.
pub proof fn lemma_row_hits_len(
    apos: Vec2,
    abox: Hitbox2,
    bpos: Vec2,
    bboxes: Seq<Hitbox2>,
    upto: int,
)
    requires
        0 <= upto,
    ensures
        row_hits(apos, abox, bpos, bboxes, upto).len() <= upto,
    decreases upto,
{
    if upto > 0 {
        lemma_row_hits_len(apos, abox, bpos, bboxes, upto - 1);
    }
}

/// The boxes of two combatants collide in no more pairs than there are.
pub proof fn lemma_pair_hits_len(
    apos: Vec2,
    aboxes: Seq<Hitbox2>,
    bpos: Vec2,
    bboxes: Seq<Hitbox2>,
    upto: int,
)
    requires
        0 <= upto,
    ensures
        pair_hits(apos, aboxes, bpos, bboxes, upto).len() <= upto * bboxes.len(),
    decreases upto,
{
    if upto > 0 {
        lemma_pair_hits_len(apos, aboxes, bpos, bboxes, upto - 1);
        lemma_row_hits_len(apos, aboxes[upto - 1], bpos, bboxes, bboxes.len() as int);
        assert(upto * bboxes.len() == (upto - 1) * bboxes.len() + bboxes.len())
            by (nonlinear_arith);
    } else {
        assert(0 * bboxes.len() == 0) by (nonlinear_arith);
    }
}

/// Most records that a combatant gets from its pair with another in a
/// simulation that is within bounds.
pub const MAX_PAIR_RECORDS: usize = 4096;

/// A combatant gets no more records from its pairs with combatants within
/// bounds than the bound on the boxes allows.
pub proof fn lemma_received_len(entities: Seq<CharacterBundleView>, k: int, upto: int)
    requires
        all_in_arena(entities),
        0 <= k < entities.len(),
        0 <= upto <= entities.len(),
    ensures
        received(entities, k, upto).len() <= upto * MAX_PAIR_RECORDS,
    decreases upto,
{
    if upto > 0 {
        lemma_received_len(entities, k, upto - 1);
        let m = upto - 1;
        let own = entities[k];
        let other = entities[m];
        assert(own.bounded_in_arena() && other.bounded_in_arena());
        let from_pair = records_against(entities, k, m);
        if k < m {
            lemma_pair_hits_len(
                own.position,
                own.hitboxes,
                other.position,
                other.hitboxes,
                own.hitboxes.len() as int,
            );
            assert(own.hitboxes.len() * other.hitboxes.len() <= 4096) by (nonlinear_arith)
                requires
                    own.hitboxes.len() <= 64,
                    other.hitboxes.len() <= 64,
            ;
        } else if m < k {
            lemma_pair_hits_len(
                other.position,
                other.hitboxes,
                own.position,
                own.hitboxes,
                other.hitboxes.len() as int,
            );
            assert(other.hitboxes.len() * own.hitboxes.len() <= 4096) by (nonlinear_arith)
                requires
                    own.hitboxes.len() <= 64,
                    other.hitboxes.len() <= 64,
            ;
        }
        assert(from_pair.len() <= 4096);
    }
}

/// Whether every delivery of a list brings effects within bounds.
pub open spec fn small_deliveries(table: Seq<Delivery>) -> bool {
    forall|d: int| 0 <= d < table.len() ==> small_effects((#[trigger] table[d]).effects)
}

/// The records of a combatant whose moves are within bounds deliver
/// effects within bounds, and no more deliveries than there are records.
pub proof fn lemma_gathered_small(entity: CharacterBundleView, records: Seq<Collision>)
    requires
        entity.small_moves(),
    ensures
        records.filter_map(|record: Collision| delivery_of(entity, record)).len() <= records.len(),
        small_deliveries(records.filter_map(|record: Collision| delivery_of(entity, record))),
    decreases records.len(),
{
    if records.len() > 0 {
        lemma_gathered_small(entity, records.drop_last());
    }
}

/// Most records that are pending for a combatant after the detection of a
/// tick in a simulation that is within bounds.
pub const MAX_RECORDS: usize = 65536;

/// Whether the combatants have moves within bounds and no more pending
/// records than the bounds allow.
pub open spec fn small_records(entities: Seq<CharacterBundleView>) -> bool {
    forall|k: int|
        0 <= k < entities.len() ==> (#[trigger] entities[k]).small_moves()
            && entities[k].collisions.len() <= MAX_RECORDS
}

/// Combatants within bounds make deliveries within bounds, and no more of
/// them than they have records.
pub proof fn lemma_deliveries_small(entities: Seq<CharacterBundleView>, upto: int)
    requires
        small_records(entities),
        0 <= upto <= entities.len(),
    ensures
        deliveries(entities, upto).len() <= upto * MAX_RECORDS,
        small_deliveries(deliveries(entities, upto)),
    decreases upto,
{
    if upto > 0 {
        lemma_deliveries_small(entities, upto - 1);
        let entity = entities[upto - 1];
        assert(entity.small_moves() && entity.collisions.len() <= MAX_RECORDS);
        lemma_gathered_small(entity, entity.collisions);
        let earlier = deliveries(entities, upto - 1);
        let made = gathered(entity);
        assert forall|d: int| 0 <= d < deliveries(entities, upto).len() implies small_effects(
            (#[trigger] deliveries(entities, upto)[d]).effects,
        ) by {
            if d < earlier.len() {
                assert(deliveries(entities, upto)[d] == earlier[d]);
            } else {
                assert(deliveries(entities, upto)[d] == made[d - earlier.len()]);
            }
        }
    }
}

/// Deliveries within bounds bring a combatant effects within the bound on
/// magnitudes, and no more of them than the bound on the effects of a move
/// allows for each delivery.
pub proof fn lemma_delivered_small(table: Seq<Delivery>, target: int)
    requires
        small_deliveries(table),
    ensures
        delivered_to(table, target).len() <= table.len() * MAX_EFFECTS,
        all_small(delivered_to(table, target)),
    decreases table.len(),
{
    if table.len() > 0 {
        lemma_delivered_small(table.drop_last(), target);
        let before = delivered_to(table.drop_last(), target);
        let last = table.last();
        assert(small_effects(table[table.len() - 1].effects));
        assert forall|i: int| 0 <= i < delivered_to(table, target).len() implies small_effect(
            #[trigger] delivered_to(table, target)[i],
        ) by {
            if last.target == target && i >= before.len() {
                assert(delivered_to(table, target)[i] == last.effects[i - before.len()]);
            } else {
                assert(delivered_to(table, target)[i] == before[i]);
            }
        }
    }
}

/// Effects within the bound on magnitudes can be applied to a combatant
/// whose health leaves room for them, and move its health by no more than
/// the bound for each.
pub proof fn lemma_small_effects_fit(
    entity: CharacterBundleView,
    effects: Seq<Effect>,
    blocking: bool,
)
    requires
        all_small(effects),
        -MAX_HEALTH_RAW <= entity.health.value@ <= MAX_HEALTH_RAW,
        effects.len() * MAX_MAGNITUDE_RAW < MAX_HEALTH_RAW,
    ensures
        entity.effects_fit(effects, blocking),
        entity.health.value@ - effects.len() * MAX_MAGNITUDE_RAW <= entity.after_effects(
            effects,
            blocking,
        ).health.value@ <= entity.health.value@ + effects.len() * MAX_MAGNITUDE_RAW,
    decreases effects.len(),
{
    if effects.len() > 0 {
        let earlier = effects.drop_last();
        assert(all_small(earlier)) by {
            assert forall|i: int| 0 <= i < earlier.len() implies small_effect(
                #[trigger] earlier[i],
            ) by {
                assert(earlier[i] == effects[i]);
            }
        }
        assert(earlier.len() * MAX_MAGNITUDE_RAW + MAX_MAGNITUDE_RAW == effects.len()
            * MAX_MAGNITUDE_RAW) by (nonlinear_arith)
            requires
                earlier.len() + 1 == effects.len(),
        ;
        lemma_small_effects_fit(entity, earlier, blocking);
        let last = effects.last();
        let before = entity.after_effects(earlier, blocking);
        assert(small_effect(effects[effects.len() - 1]));
        assert(entity.after_effects(effects, blocking) == before.affected(last, blocking));
        match last {
            Effect::Damage(damage) => {
                lemma_mul_shrinks(damage@, 13107);
                assert(fits_raw(damage@ * 13107)) by (nonlinear_arith)
                    requires
                        -4294967296 <= damage@ <= 4294967296,
                ;
                let taken = CharacterBundleView::damage_taken(damage, blocking);
                assert(-MAX_MAGNITUDE_RAW <= taken <= MAX_MAGNITUDE_RAW);
                assert(fits_raw(before.health.value@ - taken));
                assert(before.effect_fits(last, blocking));
            },
            Effect::Pushback(push) => {
                assert(fits_raw(push@ * 65536) && fits_raw(push@ * (-65536))) by (nonlinear_arith)
                    requires
                        -4294967296 <= push@ <= 4294967296,
                ;
                assert(before.effect_fits(last, blocking));
            },
            _ => {
                assert(before.effect_fits(last, blocking));
            },
        }
        assert(entity.effects_fit(effects, blocking));
    } else {
        assert(effects.len() * MAX_MAGNITUDE_RAW == 0) by (nonlinear_arith)
            requires
                effects.len() == 0,
        ;
    }
}

/// Effects within the bound on magnitudes leave a combatant where it is,
/// with its moves and its live hitboxes; they leave its horizontal
/// velocity within the bound, its vertical velocity as it is, and its
/// health no higher; and they bring it no move in flight.
pub proof fn lemma_effects_keep_bounds(
    entity: CharacterBundleView,
    effects: Seq<Effect>,
    blocking: bool,
)
    requires
        all_small(effects),
        small(entity.velocity.x),
    ensures
        ({
            let after = entity.after_effects(effects, blocking);
            &&& after.position == entity.position
            &&& after.movelist == entity.movelist
            &&& after.hitboxes == entity.hitboxes
            &&& after.collisions == entity.collisions
            &&& after.effects == entity.effects
            &&& small(after.velocity.x)
            &&& after.velocity.y == entity.velocity.y
            &&& after.character.current_move_on_hit is None
                || after.character.current_move_on_hit == entity.character.current_move_on_hit
            &&& entity.effects_fit(effects, blocking) ==> after.health.value@
                <= entity.health.value@
        }),
    decreases effects.len(),
{
    if effects.len() > 0 {
        let earlier = effects.drop_last();
        assert(all_small(earlier)) by {
            assert forall|i: int| 0 <= i < earlier.len() implies small_effect(
                #[trigger] earlier[i],
            ) by {
                assert(earlier[i] == effects[i]);
            }
        }
        lemma_effects_keep_bounds(entity, earlier, blocking);
        assert(small_effect(effects[effects.len() - 1]));
        if let Effect::Damage(damage) = effects.last() {
            lemma_mul_shrinks(damage@, 13107);
        }
    }
}

impl SimulationView {
    /// Whether the simulation is within bounds between two ticks: there
    /// are no more combatants than the bound allows, the animations and
    /// the combatants are within bounds, and the clock has a tick left.
    pub open spec fn bounded(self) -> bool {
        &&& self.entities.len() <= MAX_COMBATANTS
        &&& small_animations(self.animations)
        &&& forall|k: int| 0 <= k < self.entities.len() ==> (#[trigger] self.entities[k]).bounded()
        &&& self.frameticker.current_frame < usize::MAX
    }
}

/// In a well-formed simulation within bounds, the own part of a tick can
/// be computed for every combatant, and leaves it within bounds and in the
/// arena, with the health that it had; one that stood still vertically
/// does so afterwards, at a height within the bound on magnitudes.
pub proof fn lemma_bounded_advance(simulation: SimulationView, inputs: Seq<InputSnapshot>)
    requires
        simulation.wf(),
        simulation.bounded(),
        inputs.len() == simulation.entities.len(),
    ensures
        advance_all_fits(
            faced(simulation.entities),
            inputs,
            simulation.frameticker.current_frame,
        ),
        simulation.advanced(inputs).len() == simulation.entities.len(),
        all_in_arena(simulation.advanced(inputs)),
        forall|k: int|
            0 <= k < simulation.entities.len() ==> (#[trigger] simulation.advanced(
                inputs,
            )[k]).health == simulation.entities[k].health && (simulation.entities[k].velocity.y@
                == 0 ==> simulation.advanced(inputs)[k].velocity.y@ == 0 && small(
                simulation.advanced(inputs)[k].position.y,
            )),
{
    let animations = simulation.animations;
    let current_frame = simulation.frameticker.current_frame;
    let turned = faced(simulation.entities);
    let alone = simulation.advanced(inputs);
    lemma_faced_wf(simulation.entities, animations, current_frame);
    lemma_first_on_team(simulation.entities, Team::Team1, 0);
    lemma_first_on_team(simulation.entities, Team::Team2, 0);
    assert forall|k: int| 0 <= k < simulation.entities.len() implies (#[trigger] turned[k]).advance_fits(
        inputs[k],
        current_frame,
    ) && alone[k].bounded_in_arena() && alone[k].health == simulation.entities[k].health && (
    simulation.entities[k].velocity.y@ == 0 ==> alone[k].velocity.y@ == 0 && small(
        alone[k].position.y,
    )) by {
        assert(simulation.entities[k].bounded());
        assert(turned[k].bounded());
        assert(turned[k].wf(animations, current_frame));
        lemma_advance_bounded(turned[k], inputs[k], animations, current_frame);
        lemma_advanced_keeps(turned[k], inputs[k], animations, current_frame);
    }
}

/// Among no more combatants within bounds than the bound allows, the
/// collisions can be detected, and their resolution queues for each
/// combatant effects within the bound on magnitudes, few enough for its
/// health to take them; it changes nothing else but to take the
/// collisions up.
pub proof fn lemma_bounded_strike(entities: Seq<CharacterBundleView>)
    requires
        all_in_arena(entities),
        entities.len() <= MAX_COMBATANTS,
    ensures
        collisions_ready(entities),
        forall|k: int|
            0 <= k < entities.len() ==> {
                let struck = #[trigger] resolved(collided(entities))[k];
                &&& struck == (CharacterBundleView {
                    collisions: Seq::empty(),
                    effects: struck.effects,
                    ..entities[k]
                })
                &&& all_small(struck.effects)
                &&& struck.effects.len() * MAX_MAGNITUDE_RAW < MAX_HEALTH_RAW
            },
{
    let count = entities.len() as int;
    lemma_bounded_collisions_ready(entities);
    let hit = collided(entities);
    assert forall|k: int| 0 <= k < count implies (#[trigger] hit[k]).small_moves()
        && hit[k].collisions.len() <= MAX_RECORDS by {
        assert(entities[k].bounded_in_arena());
        lemma_received_len(entities, k, count);
        assert(count * MAX_PAIR_RECORDS <= MAX_RECORDS) by (nonlinear_arith)
            requires
                0 <= count <= 16,
        ;
    }
    assert(small_records(hit));
    lemma_deliveries_small(hit, count);
    let table = deliveries(hit, count);
    assert(table.len() <= 1048576) by (nonlinear_arith)
        requires
            table.len() <= count * MAX_RECORDS,
            0 <= count <= 16,
    ;
    assert forall|k: int| 0 <= k < count implies {
        let struck = #[trigger] resolved(hit)[k];
        &&& struck == (CharacterBundleView {
            collisions: Seq::empty(),
            effects: struck.effects,
            ..entities[k]
        })
        &&& all_small(struck.effects)
        &&& struck.effects.len() * MAX_MAGNITUDE_RAW < MAX_HEALTH_RAW
    } by {
        let struck = resolved(hit)[k];
        lemma_delivered_small(table, k);
        let brought = delivered_to(table, k);
        assert(entities[k].bounded_in_arena());
        assert(struck.effects =~= brought);
        assert(brought.len() * MAX_MAGNITUDE_RAW < MAX_HEALTH_RAW) by (nonlinear_arith)
            requires
                brought.len() <= table.len() * MAX_EFFECTS,
                table.len() <= 1048576,
        ;
    }
}

/// A tick of a well-formed simulation within bounds can be computed,
/// whatever the input.
pub proof fn lemma_bounded_tick_fits(simulation: SimulationView, inputs: Seq<InputSnapshot>)
    requires
        simulation.wf(),
        simulation.bounded(),
        inputs.len() == simulation.entities.len(),
    ensures
        simulation.tick_fits(inputs),
{
    let alone = simulation.advanced(inputs);
    lemma_bounded_advance(simulation, inputs);
    lemma_bounded_strike(alone);
    let struck = simulation.struck(inputs);
    assert forall|k: int| 0 <= k < struck.len() implies (#[trigger] struck[k]).apply_effects_ready() by {
        assert(alone[k].bounded_in_arena());
        lemma_small_effects_fit(struck[k], struck[k].effects, struck[k].is_blocking());
    }
}

/// A combatant as it is at the start of a match is steady, where it
/// stands within the bound on magnitudes and its moves are within bounds.
pub proof fn lemma_fresh_steady(entity: CharacterBundleView)
    requires
        entity.is_fresh(
            entity.position.x,
            entity.team,
            entity.character.animations,
            entity.animator.animation,
            entity.movelist,
        ),
        small(entity.position.x),
        forall|m: int|
            0 <= m < entity.movelist.len() ==> small_effects(
                (#[trigger] entity.movelist[m]).effects@,
            ),
    ensures
        entity.steady(),
{
}

impl CharacterBundleView {
    /// Whether the combatant is within bounds, stands still vertically,
    /// and is not down.
    pub open spec fn steady(self) -> bool {
        self.bounded() && self.velocity.y@ == 0 && self.health.value@ > 0
    }
}

impl SimulationView {
    /// Whether the simulation is well-formed and, unless it is paused,
    /// within bounds with every combatant steady.
    pub open spec fn steady(self) -> bool {
        &&& self.wf()
        &&& self.entities.len() <= usize::MAX
        &&& !self.frameticker.pause ==> {
            &&& self.bounded()
            &&& forall|k: int|
                0 <= k < self.entities.len() ==> (#[trigger] self.entities[k]).steady()
        }
    }
}

/// A tick of a steady simulation can be computed, whatever the input, and
/// leaves the simulation steady, until the clock runs out: a match can be
/// played to its end.
pub proof fn lemma_steady_tick(simulation: SimulationView, inputs: Seq<InputSnapshot>)
    requires
        simulation.steady(),
        inputs.len() == simulation.entities.len(),
    ensures
        simulation.tick_fits(inputs),
        simulation.ticked(inputs).steady() || simulation.ticked(inputs).frameticker.current_frame
            == usize::MAX,
{
    if !simulation.frameticker.pause {
        lemma_bounded_tick_fits(simulation, inputs);
        lemma_ticked_wf(simulation, inputs);
        let alone = simulation.advanced(inputs);
        lemma_bounded_advance(simulation, inputs);
        lemma_bounded_strike(alone);
        let struck = simulation.struck(inputs);
        let settled = simulation.settled(inputs);
        assert forall|k: int| 0 <= k < settled.len() implies (#[trigger] settled[k]).bounded()
            && settled[k].velocity.y@ == 0 by {
            assert(simulation.entities[k].steady());
            assert(alone[k].bounded_in_arena());
            assert(struck[k].apply_effects_ready());
            lemma_effects_keep_bounds(struck[k], struck[k].effects, struck[k].is_blocking());
            lemma_small_effects_fit(struck[k], struck[k].effects, struck[k].is_blocking());
        }
    }
}

} // verus!
