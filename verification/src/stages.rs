use crate::animation::Animation;
use crate::character::{bundle_views, CharacterBundle, CharacterBundleView, CharacterView};
use crate::input_history::InputSnapshot;
use crate::wellformed::{
    animations_wf, entities_wf, lemma_animated_wf, lemma_ingested_wf, lemma_state_managed_wf,
};
use vstd::prelude::*;

verus! {

impl CharacterBundleView {
    /// The combatant after the input of a tick is taken in: the direction
    /// is noted, and the log has the events of the tick.
    pub open spec fn ingested(
        self,
        input: InputSnapshot,
        current_frame: usize,
    ) -> CharacterBundleView {
        CharacterBundleView {
            character: CharacterView { input_dir: input.resolved(), ..self.character },
            input_history: self.input_history.recorded(input, current_frame),
            ..self
        }
    }

    /// Whether the state machine can run for the combatant once its input
    /// is taken in, and the motion that follows can be computed.
    pub open spec fn advance_fits(self, input: InputSnapshot, current_frame: usize) -> bool {
        let sensed = self.ingested(input, current_frame);
        &&& sensed.state_manager_ready(current_frame)
        &&& sensed.state_managed(current_frame).integrate_ready()
    }

    /// The combatant after the part of a tick that it goes through alone:
    /// its input is taken in, its state machine runs, it moves, and its
    /// animation is driven.
    pub open spec fn advanced(
        self,
        input: InputSnapshot,
        animations: Seq<Animation>,
        current_frame: usize,
    ) -> CharacterBundleView {
        let moved = self.ingested(input, current_frame).state_managed(current_frame).integrated();
        moved.animated(animations[moved.animator.animation as int], current_frame)
    }
}

impl CharacterBundle {
    /// Takes in the input of a tick.
    pub fn ingest(&mut self, input: &InputSnapshot, current_frame: usize)
        requires
            old(self)@.input_history.no_later_than(current_frame),
        ensures
            final(self)@ == old(self)@.ingested(*input, current_frame),
    {
        self.character.input_dir = input.direction();
        self.input_history.record_input(input, current_frame);
    }

    /// Takes the combatant through the part of a tick that it goes through
    /// alone.
    pub fn advance(
        &mut self,
        input: &InputSnapshot,
        animations: &Vec<Animation>,
        current_frame: usize,
    )
        requires
            animations_wf(animations@),
            old(self)@.wf(animations@, current_frame),
            old(self)@.advance_fits(*input, current_frame),
        ensures
            final(self)@ == old(self)@.advanced(*input, animations@, current_frame),
            final(self)@.wf(animations@, current_frame),
            final(self)@.collisions == old(self)@.collisions,
    {
        proof {
            lemma_ingested_wf(old(self)@, *input, animations@, current_frame);
        }
        self.ingest(input, current_frame);
        proof {
            lemma_state_managed_wf(self@, animations@, current_frame);
        }
        self.state_manager(current_frame);
        self.integrate();
        proof {
            lemma_animated_wf(self@, animations@, current_frame);
        }
        let animation = &animations[self.animator.animation];
        self.animate(animation, current_frame);
    }

    /// Takes the combatant through the part of a tick that it goes through
    /// alone, as far as that can be computed, and says whether all of it
    /// could.
    pub(crate) fn try_advance(
        &mut self,
        input: &InputSnapshot,
        animations: &Vec<Animation>,
        current_frame: usize,
    ) -> (ok: bool)
        requires
            animations_wf(animations@),
            old(self)@.wf(animations@, current_frame),
        ensures
            ok == old(self)@.advance_fits(*input, current_frame),
            ok ==> final(self)@ == old(self)@.advanced(*input, animations@, current_frame),
            ok ==> final(self)@.wf(animations@, current_frame),
            final(self)@.collisions == old(self)@.collisions,
    {
        proof {
            lemma_ingested_wf(old(self)@, *input, animations@, current_frame);
        }
        self.ingest(input, current_frame);
        proof {
            lemma_state_managed_wf(self@, animations@, current_frame);
        }
        if !self.try_state_manager(current_frame) {
            return false;
        }
        if !self.try_integrate() {
            return false;
        }
        proof {
            lemma_animated_wf(self@, animations@, current_frame);
        }
        let animation = &animations[self.animator.animation];
        self.animate(animation, current_frame);
        true
    }
}

/// The own part of a tick leaves a combatant on its team and leaves its
/// queues alone.
pub proof fn lemma_advanced_keeps(
    entity: CharacterBundleView,
    input: InputSnapshot,
    animations: Seq<Animation>,
    current_frame: usize,
)
    ensures
        entity.advanced(input, animations, current_frame).team == entity.team,
        entity.advanced(input, animations, current_frame).collisions == entity.collisions,
        entity.advanced(input, animations, current_frame).effects == entity.effects,
        entity.advanced(input, animations, current_frame).health == entity.health,
{
}

/// The combatants after each has gone through its own part of a tick.
pub open spec fn advanced_all(
    entities: Seq<CharacterBundleView>,
    inputs: Seq<InputSnapshot>,
    animations: Seq<Animation>,
    current_frame: usize,
) -> Seq<CharacterBundleView> {
    Seq::new(entities.len(), |k: int| entities[k].advanced(inputs[k], animations, current_frame))
}

/// Whether the own part of a tick can be computed for every combatant
/// within the range of the raw values.
pub open spec fn advance_all_fits(
    entities: Seq<CharacterBundleView>,
    inputs: Seq<InputSnapshot>,
    current_frame: usize,
) -> bool {
    forall|k: int|
        0 <= k < entities.len() ==> (#[trigger] entities[k]).advance_fits(inputs[k], current_frame)
}

/// Takes every combatant through the part of a tick that it goes through
/// alone.
pub fn advance_all(
    entities: &mut Vec<CharacterBundle>,
    inputs: &Vec<InputSnapshot>,
    animations: &Vec<Animation>,
    current_frame: usize,
)
    requires
        animations_wf(animations@),
        entities_wf(bundle_views(old(entities)@), animations@, current_frame),
        inputs.len() == old(entities).len(),
        advance_all_fits(bundle_views(old(entities)@), inputs@, current_frame),
    ensures
        final(entities).len() == old(entities).len(),
        bundle_views(final(entities)@) == advanced_all(
            bundle_views(old(entities)@),
            inputs@,
            animations@,
            current_frame,
        ),
        entities_wf(bundle_views(final(entities)@), animations@, current_frame),
{
    let ghost before = bundle_views(entities@);
    let count = entities.len();
    let mut k: usize = 0;
    while k < count
        invariant
            before == bundle_views(old(entities)@),
            animations_wf(animations@),
            entities_wf(before, animations@, current_frame),
            advance_all_fits(before, inputs@, current_frame),
            count == entities.len(),
            count == before.len(),
            count == inputs.len(),
            k <= count,
            forall|e: int|
                0 <= e < k ==> (#[trigger] entities[e])@ == before[e].advanced(
                    inputs[e],
                    animations@,
                    current_frame,
                ) && entities[e]@.wf(animations@, current_frame) && entities[e]@.collisions_name(
                    count as int,
                ),
            forall|e: int| k <= e < count ==> (#[trigger] entities[e])@ == before[e],
        decreases count - k,
    {
        assert(before[k as int].advance_fits(inputs[k as int], current_frame));
        assert(before[k as int].wf(animations@, current_frame));
        assert(before[k as int].collisions_name(count as int));
        entities[k].advance(&inputs[k], animations, current_frame);
        k += 1;
    }
    assert(bundle_views(entities@) =~= advanced_all(before, inputs@, animations@, current_frame));
}

/// Takes every combatant through the part of a tick that it goes through
/// alone, as far as that can be computed, and says whether all of it
/// could.
pub(crate) fn try_advance_all(
    entities: &mut Vec<CharacterBundle>,
    inputs: &Vec<InputSnapshot>,
    animations: &Vec<Animation>,
    current_frame: usize,
) -> (ok: bool)
    requires
        animations_wf(animations@),
        entities_wf(bundle_views(old(entities)@), animations@, current_frame),
        inputs.len() == old(entities).len(),
    ensures
        final(entities).len() == old(entities).len(),
        ok == advance_all_fits(bundle_views(old(entities)@), inputs@, current_frame),
        ok ==> bundle_views(final(entities)@) == advanced_all(
            bundle_views(old(entities)@),
            inputs@,
            animations@,
            current_frame,
        ),
        ok ==> entities_wf(bundle_views(final(entities)@), animations@, current_frame),
{
    let ghost before = bundle_views(entities@);
    let count = entities.len();
    let mut k: usize = 0;
    while k < count
        invariant
            before == bundle_views(old(entities)@),
            animations_wf(animations@),
            entities_wf(before, animations@, current_frame),
            count == entities.len(),
            count == before.len(),
            count == inputs.len(),
            k <= count,
            forall|e: int|
                0 <= e < k ==> (#[trigger] entities[e])@ == before[e].advanced(
                    inputs[e],
                    animations@,
                    current_frame,
                ) && entities[e]@.wf(animations@, current_frame) && entities[e]@.collisions_name(
                    count as int,
                ),
            forall|e: int|
                0 <= e < k ==> (#[trigger] before[e]).advance_fits(inputs[e], current_frame),
            forall|e: int| k <= e < count ==> (#[trigger] entities[e])@ == before[e],
        decreases count - k,
    {
        assert(before[k as int].wf(animations@, current_frame));
        assert(before[k as int].collisions_name(count as int));
        if !entities[k].try_advance(&inputs[k], animations, current_frame) {
            assert(!before[k as int].advance_fits(inputs[k as int], current_frame));
            return false;
        }
        k += 1;
    }
    assert(bundle_views(entities@) =~= advanced_all(before, inputs@, animations@, current_frame));
    true
}

} // verus!
