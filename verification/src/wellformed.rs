use crate::animation::{lemma_next_timed_bounds, Animation};
use crate::character::{
    bundle_views, faced, first_on_team, has_both_teams, lemma_first_on_team, CharacterBundle,
    CharacterBundleView, CharacterState, Team,
};
use crate::effects::{effects_applied_all, Effect};
use crate::input_history::InputSnapshot;
use crate::physics::{
    collided, deliveries, delivery_of, gathered, received, resolved, resolver_ready, Collision,
};
use crate::state_machine::lemma_scan_outcome;
use vstd::prelude::*;

verus! {

/// Whether an animation of the table can be played in a loop: it is in the
/// table, and one of its frames takes time.
pub open spec fn loops(animations: Seq<Animation>, index: usize) -> bool {
    index < animations.len() && animations[index as int].takes_time()
}

impl CharacterBundleView {
    /// Whether every pending collision names one of `population`
    /// combatants.
    pub open spec fn collisions_name(self, population: int) -> bool {
        forall|c: int|
            0 <= c < self.collisions.len() ==> (#[trigger] self.collisions[c]).other_entity
                < population
    }

    /// Well-formedness of a combatant at a tick, in a table of animations.
    ///
    /// The log is ordered and holds no event from a later tick. A
    /// combatant that has just transitioned is not in Normal. The
    /// animations of the states can be played in a loop, and those of the
    /// moves are in the table. The animator shows a frame of an animation
    /// of the table, since a tick that is not in the future, and a looping
    /// animation has a frame that takes time.
    pub open spec fn wf(self, animations: Seq<Animation>, current_frame: usize) -> bool {
        &&& self.input_history.ordered()
        &&& self.input_history.no_later_than(current_frame)
        &&& self.character.just_transitioned ==> self.character.state != CharacterState::Normal
        &&& loops(animations, self.character.animations.idle)
        &&& loops(animations, self.character.animations.walking_forward)
        &&& loops(animations, self.character.animations.walking_forward_2)
        &&& loops(animations, self.character.animations.walking_backward)
        &&& forall|m: int|
            0 <= m < self.movelist.len() ==> (#[trigger] self.movelist[m]).animation
                < animations.len()
        &&& self.animator.animation < animations.len()
        &&& self.animator.frame < animations[self.animator.animation as int].frames.len()
        &&& self.animator.last_frame_change <= current_frame
        &&& self.animator.idle_after_animation
            || animations[self.animator.animation as int].takes_time()
    }
}

/// Whether every animation of a table is well-formed.
pub open spec fn animations_wf(animations: Seq<Animation>) -> bool {
    forall|a: int| 0 <= a < animations.len() ==> (#[trigger] animations[a]).wf()
}

/// Whether every combatant of a list is well-formed at a tick, and its
/// pending collisions name combatants of the list.
pub open spec fn entities_wf(
    entities: Seq<CharacterBundleView>,
    animations: Seq<Animation>,
    current_frame: usize,
) -> bool {
    forall|k: int|
        0 <= k < entities.len() ==> (#[trigger] entities[k]).wf(animations, current_frame)
            && entities[k].collisions_name(entities.len() as int)
}

/// Whether an animation of a table can be played in a loop.
pub fn can_loop(animations: &Vec<Animation>, index: usize) -> (r: bool)
    ensures
        r == loops(animations@, index),
{
    index < animations.len() && animations[index].has_timed_frame()
}

impl CharacterBundle {
    /// Whether the animation of every move is in a table of as many
    /// animations as `count`.
    pub fn moves_are_animated(&self, count: usize) -> (r: bool)
        ensures
            r == forall|m: int|
                0 <= m < self@.movelist.len() ==> (#[trigger] self@.movelist[m]).animation < count,
    {
        let mut m: usize = 0;
        while m < self.movelist.moves.len()
            invariant
                m <= self.movelist.moves.len(),
                forall|e: int| 0 <= e < m ==> (#[trigger] self@.movelist[e]).animation < count,
            decreases self.movelist.moves.len() - m,
        {
            if self.movelist.moves[m].animation >= count {
                assert(!(self@.movelist[m as int].animation < count));
                return false;
            }
            m += 1;
        }
        true
    }

    /// Whether every pending collision names one of `population`
    /// combatants.
    pub fn names_combatants(&self, population: usize) -> (r: bool)
        ensures
            r == self@.collisions_name(population as int),
    {
        let mut c: usize = 0;
        while c < self.collisions.collisions.len()
            invariant
                c <= self.collisions.collisions.len(),
                forall|e: int|
                    0 <= e < c ==> (#[trigger] self@.collisions[e]).other_entity < population,
            decreases self.collisions.collisions.len() - c,
        {
            if self.collisions.collisions[c].other_entity >= population {
                assert(!(self@.collisions[c as int].other_entity < population));
                return false;
            }
            c += 1;
        }
        true
    }

    /// Whether the combatant is well-formed at a tick, in a table of
    /// animations.
    pub fn is_well_formed(&self, animations: &Vec<Animation>, current_frame: usize) -> (r: bool)
        ensures
            r == self@.wf(animations@, current_frame),
    {
        if !self.input_history.is_well_formed(current_frame) {
            return false;
        }
        if self.character.just_transitioned && self.character.state == CharacterState::Normal {
            return false;
        }
        let set = self.character.animations;
        let playable = can_loop(animations, set.idle) && can_loop(animations, set.walking_forward)
            && can_loop(animations, set.walking_forward_2) && can_loop(
            animations,
            set.walking_backward,
        );
        if !playable {
            return false;
        }
        if !self.moves_are_animated(animations.len()) {
            return false;
        }
        if self.animator.animation >= animations.len() {
            return false;
        }
        let animation = &animations[self.animator.animation];
        self.animator.frame < animation.frames.len() && self.animator.last_frame_change
            <= current_frame && (self.animator.idle_after_animation || animation.has_timed_frame())
    }
}

/// Whether every animation of a table is well-formed.
pub fn animations_are_well_formed(animations: &Vec<Animation>) -> (r: bool)
    ensures
        r == animations_wf(animations@),
{
    let mut a: usize = 0;
    while a < animations.len()
        invariant
            a <= animations.len(),
            forall|e: int| 0 <= e < a ==> (#[trigger] animations[e]).wf(),
        decreases animations.len() - a,
    {
        if !animations[a].is_well_formed() {
            return false;
        }
        a += 1;
    }
    true
}

/// Whether every combatant of a list is well-formed at a tick, and its
/// pending collisions name combatants of the list.
pub fn entities_are_well_formed(
    entities: &Vec<CharacterBundle>,
    animations: &Vec<Animation>,
    current_frame: usize,
) -> (r: bool)
    ensures
        r == entities_wf(bundle_views(entities@), animations@, current_frame),
{
    let mut k: usize = 0;
    while k < entities.len()
        invariant
            k <= entities.len(),
            forall|e: int|
                0 <= e < k ==> (#[trigger] bundle_views(entities@)[e]).wf(
                    animations@,
                    current_frame,
                ) && bundle_views(entities@)[e].collisions_name(entities.len() as int),
        decreases entities.len() - k,
    {
        if !entities[k].is_well_formed(animations, current_frame) || !entities[k].names_combatants(
            entities.len(),
        ) {
            assert(!(bundle_views(entities@)[k as int].wf(animations@, current_frame)
                && bundle_views(entities@)[k as int].collisions_name(entities.len() as int)));
            return false;
        }
        k += 1;
    }
    true
}

/// A combatant as it is at the start of a match is well-formed at every
/// tick, where its first animation and those of its states can be played
/// in a loop and those of its moves are in the table.
pub proof fn lemma_fresh_wf(
    entity: CharacterBundleView,
    animations: Seq<Animation>,
    current_frame: usize,
)
    requires
        entity.is_fresh(
            entity.position.x,
            entity.team,
            entity.character.animations,
            entity.animator.animation,
            entity.movelist,
        ),
        animations_wf(animations),
        loops(animations, entity.animator.animation),
        loops(animations, entity.character.animations.idle),
        loops(animations, entity.character.animations.walking_forward),
        loops(animations, entity.character.animations.walking_forward_2),
        loops(animations, entity.character.animations.walking_backward),
        forall|m: int|
            0 <= m < entity.movelist.len() ==> (#[trigger] entity.movelist[m]).animation
                < animations.len(),
    ensures
        entity.wf(animations, current_frame),
        entity.collisions_name(0),
{
    assert(animations[entity.animator.animation as int].wf());
}

/// Taking in the input of a tick keeps a combatant well-formed.
pub proof fn lemma_ingested_wf(
    entity: CharacterBundleView,
    input: InputSnapshot,
    animations: Seq<Animation>,
    current_frame: usize,
)
    requires
        entity.wf(animations, current_frame),
    ensures
        entity.ingested(input, current_frame).wf(animations, current_frame),
{
    let after = entity.input_history.recorded(input, current_frame).move_buffer;
    let before = entity.input_history.move_buffer;
    assert(before.len() <= after.len());
    assert forall|i: int| 0 <= i < after.len() implies (i < before.len() ==> after[i] == before[i])
        && (i >= before.len() ==> (#[trigger] after[i]).time == current_frame) by {}
}

/// The state machine keeps a combatant well-formed.
pub proof fn lemma_state_managed_wf(
    entity: CharacterBundleView,
    animations: Seq<Animation>,
    current_frame: usize,
)
    requires
        entity.wf(animations, current_frame),
        animations_wf(animations),
    ensures
        entity.state_managed(current_frame).wf(animations, current_frame),
{
    lemma_scan_outcome(
        entity.movelist,
        entity.input_history.move_buffer,
        entity.character.facing,
        current_frame,
        entity.steered_state(),
        entity.movelist.len() as int,
    );
    let after = entity.state_managed(current_frame);
    assert(animations[after.animator.animation as int].wf());
}

/// The frame driver keeps a combatant well-formed.
pub proof fn lemma_animated_wf(
    entity: CharacterBundleView,
    animations: Seq<Animation>,
    current_frame: usize,
)
    requires
        entity.wf(animations, current_frame),
        animations_wf(animations),
    ensures
        entity.animated(animations[entity.animator.animation as int], current_frame).wf(
            animations,
            current_frame,
        ),
{
    let animation = animations[entity.animator.animation as int];
    assert(animation.wf());
    lemma_next_timed_bounds(animation.frames@, entity.animator.frame + 1, 0);
    lemma_next_timed_bounds(animation.frames@, 0, 0);
    if animation.takes_time() {
        let timed = choose|i: int|
            0 <= i < animation.frames.len() && (#[trigger] animation.frames[i]).duration > 0;
        lemma_next_timed_bounds(animation.frames@, 0, timed);
    }
}

/// Setting the facings keeps the combatants well-formed, and leaves each
/// on its team.
pub proof fn lemma_faced_wf(
    entities: Seq<CharacterBundleView>,
    animations: Seq<Animation>,
    current_frame: usize,
)
    requires
        entities_wf(entities, animations, current_frame),
        has_both_teams(entities),
    ensures
        entities_wf(faced(entities), animations, current_frame),
        faced(entities).len() == entities.len(),
        forall|k: int|
            0 <= k < entities.len() ==> (#[trigger] faced(entities)[k]).team == entities[k].team,
{
    lemma_first_on_team(entities, Team::Team1, 0);
    lemma_first_on_team(entities, Team::Team2, 0);
    assert forall|k: int| 0 <= k < entities.len() implies (#[trigger] faced(entities)[k]).wf(
        animations,
        current_frame,
    ) && faced(entities)[k].collisions_name(entities.len() as int) && faced(entities)[k].team
        == entities[k].team by {
        assert(entities[k].wf(animations, current_frame));
        assert(entities[k].collisions_name(entities.len() as int));
    }
}

/// Every record that a combatant gets from its pairs with the first `upto`
/// combatants names one of them.
pub proof fn lemma_received_names(entities: Seq<CharacterBundleView>, k: int, upto: int)
    requires
        0 <= upto <= entities.len() <= usize::MAX,
    ensures
        forall|c: int|
            0 <= c < received(entities, k, upto).len() ==> (#[trigger] received(
                entities,
                k,
                upto,
            )[c]).other_entity < upto,
    decreases upto,
{
    if upto > 0 {
        lemma_received_names(entities, k, upto - 1);
    }
}

/// Collision detection keeps the combatants well-formed.
pub proof fn lemma_collided_wf(
    entities: Seq<CharacterBundleView>,
    animations: Seq<Animation>,
    current_frame: usize,
)
    requires
        entities_wf(entities, animations, current_frame),
        entities.len() <= usize::MAX,
    ensures
        entities_wf(collided(entities), animations, current_frame),
{
    assert forall|k: int| 0 <= k < entities.len() implies (#[trigger] collided(entities)[k]).wf(
        animations,
        current_frame,
    ) && collided(entities)[k].collisions_name(entities.len() as int) by {
        lemma_received_names(entities, k, entities.len() as int);
        assert(entities[k].wf(animations, current_frame));
        assert(entities[k].collisions_name(entities.len() as int));
    }
}

/// Every delivery that the first `upto` combatants make goes to a
/// combatant that one of their pending collisions names.
pub proof fn lemma_deliveries_named(
    entities: Seq<CharacterBundleView>,
    animations: Seq<Animation>,
    current_frame: usize,
    upto: int,
)
    requires
        entities_wf(entities, animations, current_frame),
        0 <= upto <= entities.len(),
    ensures
        forall|d: int|
            0 <= d < deliveries(entities, upto).len() ==> (#[trigger] deliveries(
                entities,
                upto,
            )[d]).target < entities.len(),
    decreases upto,
{
    if upto > 0 {
        lemma_deliveries_named(entities, animations, current_frame, upto - 1);
        let entity = entities[upto - 1];
        let made = gathered(entity);
        let earlier = deliveries(entities, upto - 1);
        assert(entity.collisions_name(entities.len() as int));
        assert forall|g: int| 0 <= g < made.len() implies (#[trigger] made[g]).target
            < entities.len() by {
            let deliver = |record: Collision| delivery_of(entity, record);
            assert(made.contains(made[g]));
            entity.collisions.lemma_filter_map_contains(deliver, made[g]);
            let record = choose|record: Collision| #[trigger]
                entity.collisions.contains(record) && deliver(record) == Some(made[g]);
            let c = choose|c: int|
                0 <= c < entity.collisions.len() && entity.collisions[c] == record;
            assert(entity.collisions[c].other_entity < entities.len());
        }
        assert forall|d: int| 0 <= d < deliveries(entities, upto).len() implies (
        #[trigger] deliveries(entities, upto)[d]).target < entities.len() by {
            if d >= earlier.len() {
                assert(deliveries(entities, upto)[d] == made[d - earlier.len()]);
            } else {
                assert(deliveries(entities, upto)[d] == earlier[d]);
            }
        }
    }
}

/// The resolver can run on well-formed combatants, and keeps them
/// well-formed.
pub proof fn lemma_resolved_wf(
    entities: Seq<CharacterBundleView>,
    animations: Seq<Animation>,
    current_frame: usize,
)
    requires
        entities_wf(entities, animations, current_frame),
    ensures
        resolver_ready(entities),
        entities_wf(resolved(entities), animations, current_frame),
{
    lemma_deliveries_named(entities, animations, current_frame, entities.len() as int);
    assert forall|k: int| 0 <= k < entities.len() implies (#[trigger] resolved(entities)[k]).wf(
        animations,
        current_frame,
    ) && resolved(entities)[k].collisions_name(entities.len() as int) by {
        assert(entities[k].wf(animations, current_frame));
    }
}

/// Effects keep a combatant well-formed.
pub proof fn lemma_after_effects_wf(
    entity: CharacterBundleView,
    effects: Seq<Effect>,
    blocking: bool,
    animations: Seq<Animation>,
    current_frame: usize,
)
    requires
        entity.wf(animations, current_frame),
    ensures
        entity.after_effects(effects, blocking).wf(animations, current_frame),
    decreases effects.len(),
{
    if effects.len() > 0 {
        lemma_after_effects_wf(entity, effects.drop_last(), blocking, animations, current_frame);
    }
}

/// Effects leave a combatant on its team and at its position, and leave
/// its pending collisions alone.
pub proof fn lemma_after_effects_kept(
    entity: CharacterBundleView,
    effects: Seq<Effect>,
    blocking: bool,
)
    ensures
        entity.after_effects(effects, blocking).team == entity.team,
        entity.after_effects(effects, blocking).position == entity.position,
        entity.after_effects(effects, blocking).collisions == entity.collisions,
    decreases effects.len(),
{
    if effects.len() > 0 {
        lemma_after_effects_kept(entity, effects.drop_last(), blocking);
    }
}

/// Applying the queued effects keeps the combatants well-formed, and
/// leaves each on its team.
pub proof fn lemma_effects_applied_wf(
    entities: Seq<CharacterBundleView>,
    animations: Seq<Animation>,
    current_frame: usize,
)
    requires
        entities_wf(entities, animations, current_frame),
    ensures
        entities_wf(effects_applied_all(entities), animations, current_frame),
        forall|k: int|
            0 <= k < entities.len() ==> (#[trigger] effects_applied_all(entities)[k]).team
                == entities[k].team,
{
    assert forall|k: int| 0 <= k < entities.len() implies (#[trigger] effects_applied_all(
        entities,
    )[k]).wf(animations, current_frame) && effects_applied_all(entities)[k].collisions_name(
        entities.len() as int,
    ) && effects_applied_all(entities)[k].team == entities[k].team by {
        assert(entities[k].wf(animations, current_frame));
        assert(entities[k].collisions_name(entities.len() as int));
        lemma_after_effects_wf(
            entities[k],
            entities[k].effects,
            entities[k].is_blocking(),
            animations,
            current_frame,
        );
        lemma_after_effects_kept(entities[k], entities[k].effects, entities[k].is_blocking());
    }
}

/// Two lists of combatants that agree on the teams agree on the first
/// combatant of each team.
pub proof fn lemma_same_teams(
    a: Seq<CharacterBundleView>,
    b: Seq<CharacterBundleView>,
    team: Team,
    from: int,
)
    requires
        a.len() == b.len(),
        0 <= from,
        forall|k: int| 0 <= k < a.len() ==> (#[trigger] a[k]).team == b[k].team,
    ensures
        first_on_team(a, team, from) == first_on_team(b, team, from),
    decreases a.len() - from,
{
    if from < a.len() && a[from].team != team {
        lemma_same_teams(a, b, team, from + 1);
    }
}

/// A combatant that is well-formed at a tick is so at the next.
pub proof fn lemma_wf_next_tick(
    entity: CharacterBundleView,
    animations: Seq<Animation>,
    current_frame: usize,
)
    requires
        entity.wf(animations, current_frame),
        current_frame < usize::MAX,
    ensures
        entity.wf(animations, (current_frame + 1) as usize),
{
}

/// The own part of a tick keeps a combatant well-formed.
pub proof fn lemma_advanced_wf(
    entity: CharacterBundleView,
    input: InputSnapshot,
    animations: Seq<Animation>,
    current_frame: usize,
)
    requires
        entity.wf(animations, current_frame),
        animations_wf(animations),
    ensures
        entity.advanced(input, animations, current_frame).wf(animations, current_frame),
        entity.advanced(input, animations, current_frame).collisions == entity.collisions,
{
    lemma_ingested_wf(entity, input, animations, current_frame);
    let sensed = entity.ingested(input, current_frame);
    lemma_state_managed_wf(sensed, animations, current_frame);
    let moved = sensed.state_managed(current_frame).integrated();
    lemma_animated_wf(moved, animations, current_frame);
}

} // verus!
