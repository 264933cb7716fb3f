use crate::animation::Animator;
use crate::character::{faced, CharacterBundleView, CharacterState};
use crate::direction::AbsoluteDirection;
use crate::input_history::InputSnapshot;
use crate::physics::{collided, lemma_unarmed_deliveries, ARENA_MAX_X_RAW, ARENA_MIN_X_RAW};
use crate::simulation::SimulationView;
use crate::state_machine::lemma_scan_outcome;
use vstd::prelude::*;

verus! {

/// The input of a combatant whose player does nothing.
pub open spec fn no_input() -> InputSnapshot {
    InputSnapshot {
        movement: None,
        punch_pressed: false,
        punch_released: false,
        kick_pressed: false,
        kick_released: false,
    }
}

impl CharacterBundleView {
    /// Whether the combatant is at rest at a tick: it stands idle inside
    /// the arena, without velocity, without a transition to act on and
    /// without a move in flight; its input was and is neutral, and no move
    /// fires; its animation loops; and nothing is pending for it.
    pub open spec fn at_rest(self, current_frame: usize) -> bool {
        &&& self.character.state == CharacterState::Idle
        &&& !self.character.just_transitioned
        &&& self.character.current_move_on_hit is None
        &&& self.character.input_dir == AbsoluteDirection::Neutral
        &&& self.input_history.last_dir == AbsoluteDirection::Neutral
        &&& self.move_scan(current_frame).fired is None
        &&& self.velocity.x@ == 0 && self.velocity.y@ == 0
        &&& ARENA_MIN_X_RAW <= self.position.x@ <= ARENA_MAX_X_RAW && self.position.y@ >= 0
        &&& !self.animator.idle_after_animation
        &&& self.collisions.len() == 0
        &&& self.effects.len() == 0
    }

    /// Whether another combatant differs from this one in nothing but the
    /// frame that its animator shows, the tick since which it shows it,
    /// and the live hitboxes of that frame.
    pub open spec fn differs_in_frame_only(self, other: CharacterBundleView) -> bool {
        other == (CharacterBundleView {
            animator: Animator {
                frame: other.animator.frame,
                last_frame_change: other.animator.last_frame_change,
                just_changed_animation: other.animator.just_changed_animation,
                ..self.animator
            },
            hitboxes: other.hitboxes,
            ..self
        })
    }
}

/// A tick without input and without anything pending changes nothing of
/// combatants at rest but the progress of their animations: where the
/// simulation runs, every combatant is at rest and faces as its position
/// asks, and no player does anything, each combatant is after the tick as
/// it was before, up to the frame that is shown.
pub proof fn lemma_quiet_tick(simulation: SimulationView, inputs: Seq<InputSnapshot>)
    requires
        !simulation.frameticker.pause,
        inputs.len() == simulation.entities.len(),
        forall|k: int| 0 <= k < inputs.len() ==> #[trigger] inputs[k] == no_input(),
        faced(simulation.entities) == simulation.entities,
        forall|k: int|
            0 <= k < simulation.entities.len() ==> (#[trigger] simulation.entities[k]).at_rest(
                simulation.frameticker.current_frame,
            ),
    ensures
        simulation.ticked(inputs).entities.len() == simulation.entities.len(),
        forall|k: int|
            0 <= k < simulation.entities.len() ==> (
            #[trigger] simulation.entities[k]).differs_in_frame_only(
                simulation.ticked(inputs).entities[k],
            ),
{
    let current_frame = simulation.frameticker.current_frame;
    let entities = simulation.entities;
    let alone = simulation.advanced(inputs);
    let hit = collided(alone);
    assert forall|k: int| 0 <= k < entities.len() implies (
    #[trigger] entities[k]).differs_in_frame_only(alone[k])
        && alone[k].character.current_move_on_hit is None by {
        let entity = entities[k];
        assert(entity.at_rest(current_frame));
        assert(inputs[k] == no_input());
        let sensed = entity.ingested(inputs[k], current_frame);
        assert(sensed.input_history.move_buffer =~= entity.input_history.move_buffer);
        assert(sensed =~= entity);
        lemma_scan_outcome(
            entity.movelist,
            entity.input_history.move_buffer,
            entity.character.facing,
            current_frame,
            entity.steered_state(),
            entity.movelist.len() as int,
        );
        let managed = sensed.state_managed(current_frame);
        assert(managed.character =~= entity.character);
        assert(managed =~= entity);
        let moved = managed.integrated();
        assert(moved =~= entity);
    }
    assert forall|k: int| 0 <= k < entities.len() implies (
    #[trigger] hit[k]).character.current_move_on_hit is None by {
        assert(alone[k].character.current_move_on_hit is None);
    }
    lemma_unarmed_deliveries(hit, hit.len() as int);
    let struck = simulation.struck(inputs);
    assert forall|k: int| 0 <= k < entities.len() implies (
    #[trigger] entities[k]).differs_in_frame_only(simulation.settled(inputs)[k]) by {
        assert(entities[k].differs_in_frame_only(alone[k]));
        assert(struck[k].effects =~= alone[k].effects);
        assert(struck[k].collisions =~= entities[k].collisions);
        assert(struck[k].effects.len() == 0);
        assert(struck[k].effects_applied() =~= struck[k]);
    }
}

} // verus!
