use crate::animation::Animation;
use crate::character::{
    bundle_views, faced, facing_corrector, find_team, has_both_teams, lemma_first_on_team,
    CharacterBundle, CharacterBundleView, CharacterState, Team,
};
use crate::effects::lemma_effects_drop_move;
use crate::effects::{
    apply_effects, apply_effects_all_ready, effects_applied_all, try_apply_effects,
};
use crate::input_history::InputSnapshot;
use crate::physics::{
    collided, collision_resolver, collisions, collisions_can_be_detected, collisions_ready,
    resolved, resolver_ready, ARENA_MAX_X_RAW, ARENA_MIN_X_RAW,
};
use crate::stages::{
    advance_all, advance_all_fits, advanced_all, lemma_advanced_keeps, try_advance_all,
};
use crate::state_machine::lemma_scan_stun;
use crate::wellformed::{
    animations_are_well_formed, animations_wf, entities_are_well_formed, entities_wf,
    lemma_after_effects_kept, lemma_collided_wf, lemma_effects_applied_wf, lemma_faced_wf,
    lemma_advanced_wf, lemma_resolved_wf, lemma_same_teams, lemma_wf_next_tick,
};
use vstd::prelude::*;

verus! {

/// The clock of the simulation.
#[derive(Clone, Copy, Debug, PartialEq, Eq, Structural)]
pub struct Frameticker {
    /// Number of the present tick.
    pub current_frame: usize,
    /// Set once a combatant is down; the clock then stands.
    pub pause: bool,
}

impl Default for Frameticker {
    fn default() -> (r: Self)
        ensures
            r == (Frameticker { current_frame: 0, pause: false }),
    {
        Frameticker { current_frame: 0, pause: false }
    }
}

impl Frameticker {
    /// The clock after the end of a tick: one tick on, unless it stands.
    pub open spec fn advanced(self) -> Frameticker {
        if self.pause {
            self
        } else {
            Frameticker { current_frame: (self.current_frame + 1) as usize, ..self }
        }
    }

    /// Moves the clock on by one tick, unless it stands.
    pub fn tick_frame(&mut self)
        requires
            !old(self).pause ==> old(self).current_frame < usize::MAX,
        ensures
            *final(self) == old(self).advanced(),
    {
        if !self.pause {
            self.current_frame += 1;
        }
    }
}

/// Whether a combatant of a list is down: its health is not above zero.
pub open spec fn any_down(entities: Seq<CharacterBundleView>) -> bool {
    exists|k: int| 0 <= k < entities.len() && (#[trigger] entities[k]).health.value@ <= 0
}

/// Whether a combatant of a list is down.
pub fn someone_down(entities: &Vec<CharacterBundle>) -> (r: bool)
    ensures
        r == any_down(bundle_views(entities@)),
{
    let mut k: usize = 0;
    while k < entities.len()
        invariant
            k <= entities.len(),
            forall|e: int| 0 <= e < k ==> (#[trigger] bundle_views(entities@)[e]).health.value@ > 0,
        decreases entities.len() - k,
    {
        if entities[k].health.value.0 <= 0 {
            assert(bundle_views(entities@)[k as int].health.value@ <= 0);
            return true;
        }
        k += 1;
    }
    false
}

/// The simulation: the combatants, the table of the animations that they
/// play, and the clock.
#[derive(Clone, Debug, PartialEq, Eq)]
pub struct Simulation {
    pub entities: Vec<CharacterBundle>,
    pub animations: Vec<Animation>,
    pub frameticker: Frameticker,
}

/// The simulation, with each combatant as its view.
#[verifier::ext_equal]
pub struct SimulationView {
    pub entities: Seq<CharacterBundleView>,
    pub animations: Seq<Animation>,
    pub frameticker: Frameticker,
}

impl View for Simulation {
    type V = SimulationView;

    open spec fn view(&self) -> SimulationView {
        SimulationView {
            entities: bundle_views(self.entities@),
            animations: self.animations@,
            frameticker: self.frameticker,
        }
    }
}

impl Simulation {
    /// A simulation at the start of a match: the clock is at zero and
    /// runs.
    pub fn new(entities: Vec<CharacterBundle>, animations: Vec<Animation>) -> (r: Self)
        ensures
            r.entities == entities,
            r.animations == animations,
            r.frameticker == (Frameticker { current_frame: 0, pause: false }),
    {
        Simulation { entities, animations, frameticker: Frameticker::default() }
    }

    /// A simulation at the start of a match, if the combatants and the
    /// animations make a well-formed one.
    pub fn try_new(entities: Vec<CharacterBundle>, animations: Vec<Animation>) -> (r: Option<Self>)
        ensures
            r is Some <==> (Simulation {
                entities,
                animations,
                frameticker: Frameticker { current_frame: 0, pause: false },
            })@.wf(),
            r matches Some(simulation) ==> simulation.entities == entities && simulation.animations
                == animations && simulation.frameticker == (Frameticker {
                current_frame: 0,
                pause: false,
            }),
    {
        let simulation = Simulation::new(entities, animations);
        if simulation.is_well_formed() {
            Some(simulation)
        } else {
            None
        }
    }

    /// Whether the simulation is well-formed.
    pub fn is_well_formed(&self) -> (r: bool)
        ensures
            r == self@.wf(),
    {
        animations_are_well_formed(&self.animations) && entities_are_well_formed(
            &self.entities,
            &self.animations,
            self.frameticker.current_frame,
        ) && find_team(&self.entities, Team::Team1) < self.entities.len() && find_team(
            &self.entities,
            Team::Team2,
        ) < self.entities.len()
    }
}

impl SimulationView {
    /// Well-formedness: the animations and the combatants are well-formed,
    /// and there is a combatant of each of the two playing teams.
    pub open spec fn wf(self) -> bool {
        &&& animations_wf(self.animations)
        &&& entities_wf(self.entities, self.animations, self.frameticker.current_frame)
        &&& has_both_teams(self.entities)
    }

    /// The combatants after the facings are set and each has gone through
    /// its own part of the tick.
    pub open spec fn advanced(self, inputs: Seq<InputSnapshot>) -> Seq<CharacterBundleView> {
        advanced_all(
            faced(self.entities),
            inputs,
            self.animations,
            self.frameticker.current_frame,
        )
    }

    /// The combatants after the collisions of the tick are detected and
    /// resolved into queued effects.
    pub open spec fn struck(self, inputs: Seq<InputSnapshot>) -> Seq<CharacterBundleView> {
        resolved(collided(self.advanced(inputs)))
    }

    /// The combatants at the end of a tick, after the queued effects are
    /// applied.
    pub open spec fn settled(self, inputs: Seq<InputSnapshot>) -> Seq<CharacterBundleView> {
        effects_applied_all(self.struck(inputs))
    }

    /// Whether a tick can be computed within the range of the raw values
    /// and of the clock.
    pub open spec fn tick_fits(self, inputs: Seq<InputSnapshot>) -> bool {
        self.frameticker.pause || {
            &&& self.stages_fit(inputs)
            &&& !any_down(self.settled(inputs)) ==> self.frameticker.current_frame < usize::MAX
        }
    }

    /// The simulation after one tick.
    ///
    /// A simulation that is paused stays as it is. Otherwise the facings
    /// are set; every combatant takes in its input, runs its state
    /// machine, moves, and has its animation driven; collisions are
    /// detected and resolved into effects, and the effects are applied.
    /// The simulation is paused from then on if a combatant is down, and
    /// else the clock moves on by one tick.
    pub open spec fn ticked(self, inputs: Seq<InputSnapshot>) -> SimulationView {
        if self.frameticker.pause {
            self
        } else {
            SimulationView {
                entities: self.settled(inputs),
                frameticker: Frameticker {
                    current_frame: self.frameticker.current_frame,
                    pause: any_down(self.settled(inputs)),
                }.advanced(),
                ..self
            }
        }
    }

    /// Whether the stages of a tick that act on the combatants can be
    /// computed within the range of the raw values.
    pub open spec fn stages_fit(self, inputs: Seq<InputSnapshot>) -> bool {
        &&& advance_all_fits(faced(self.entities), inputs, self.frameticker.current_frame)
        &&& collisions_ready(self.advanced(inputs))
        &&& apply_effects_all_ready(self.struck(inputs))
    }
}

/// The stages of a tick keep the combatants well-formed, and both playing
/// teams keep a combatant.
pub proof fn lemma_stages_wf(simulation: SimulationView, inputs: Seq<InputSnapshot>)
    requires
        simulation.wf(),
        simulation.entities.len() <= usize::MAX,
        entities_wf(
            simulation.advanced(inputs),
            simulation.animations,
            simulation.frameticker.current_frame,
        ),
    ensures
        entities_wf(
            collided(simulation.advanced(inputs)),
            simulation.animations,
            simulation.frameticker.current_frame,
        ),
        resolver_ready(collided(simulation.advanced(inputs))),
        entities_wf(
            simulation.struck(inputs),
            simulation.animations,
            simulation.frameticker.current_frame,
        ),
        entities_wf(
            simulation.settled(inputs),
            simulation.animations,
            simulation.frameticker.current_frame,
        ),
        has_both_teams(simulation.settled(inputs)),
{
    let animations = simulation.animations;
    let current_frame = simulation.frameticker.current_frame;
    let entities = simulation.entities;
    let alone = simulation.advanced(inputs);
    let settled = simulation.settled(inputs);
    lemma_faced_wf(entities, animations, current_frame);
    lemma_collided_wf(alone, animations, current_frame);
    lemma_resolved_wf(collided(alone), animations, current_frame);
    lemma_effects_applied_wf(simulation.struck(inputs), animations, current_frame);
    assert forall|k: int| 0 <= k < entities.len() implies (#[trigger] entities[k]).team
        == settled[k].team by {
        assert(faced(entities)[k].team == entities[k].team);
        lemma_advanced_keeps(faced(entities)[k], inputs[k], animations, current_frame);
        assert(simulation.struck(inputs)[k].team == alone[k].team);
    }
    lemma_same_teams(entities, settled, Team::Team1, 0);
    lemma_same_teams(entities, settled, Team::Team2, 0);
}

impl Simulation {
    /// Runs the stages of a tick that act on the combatants, in their
    /// order: facings, each combatant's own part, detection and resolution
    /// of collisions, application of effects.
    pub fn run_stages(&mut self, inputs: &Vec<InputSnapshot>)
        requires
            old(self)@.wf(),
            inputs.len() == old(self).entities.len(),
            old(self)@.stages_fit(inputs@),
        ensures
            final(self)@ == (SimulationView {
                entities: old(self)@.settled(inputs@),
                ..old(self)@
            }),
            final(self)@.wf(),
    {
        let current_frame = self.frameticker.current_frame;
        let ghost before = self@;
        proof {
            lemma_faced_wf(before.entities, before.animations, current_frame);
        }
        facing_corrector(&mut self.entities);
        advance_all(&mut self.entities, inputs, &self.animations, current_frame);
        proof {
            assert(bundle_views(self.entities@) == before.advanced(inputs@));
            lemma_stages_wf(before, inputs@);
        }
        collisions(&mut self.entities);
        collision_resolver(&mut self.entities);
        proof {
            assert(bundle_views(self.entities@) == before.struck(inputs@));
        }
        apply_effects(&mut self.entities);
    }

    /// Runs the stages of a tick that act on the combatants, as far as they
    /// can be computed, and says whether all of them could.
    pub(crate) fn try_run_stages(&mut self, inputs: &Vec<InputSnapshot>) -> (ok: bool)
        requires
            old(self)@.wf(),
            inputs.len() == old(self).entities.len(),
        ensures
            ok == old(self)@.stages_fit(inputs@),
            ok ==> final(self)@ == (SimulationView {
                entities: old(self)@.settled(inputs@),
                ..old(self)@
            }),
            ok ==> final(self)@.wf(),
            final(self).frameticker == old(self).frameticker,
    {
        let current_frame = self.frameticker.current_frame;
        let ghost before = self@;
        proof {
            lemma_faced_wf(before.entities, before.animations, current_frame);
        }
        facing_corrector(&mut self.entities);
        if !try_advance_all(&mut self.entities, inputs, &self.animations, current_frame) {
            return false;
        }
        proof {
            assert(bundle_views(self.entities@) == before.advanced(inputs@));
            lemma_stages_wf(before, inputs@);
        }
        if !collisions_can_be_detected(&self.entities) {
            return false;
        }
        collisions(&mut self.entities);
        collision_resolver(&mut self.entities);
        proof {
            assert(bundle_views(self.entities@) == before.struck(inputs@));
        }
        try_apply_effects(&mut self.entities)
    }

    /// Advances the simulation by one tick if it is well-formed, there is
    /// an input for each combatant, and the tick can be computed within
    /// the range of the raw values and of the clock. Else there is no
    /// simulation to go on with.
    pub fn try_tick(self, inputs: &Vec<InputSnapshot>) -> (r: Option<Simulation>)
        ensures
            r is Some <==> self@.wf() && inputs.len() == self.entities.len() && self@.tick_fits(
                inputs@,
            ),
            r matches Some(next) ==> next@ == self@.ticked(inputs@) && next@.wf(),
    {
        if !self.is_well_formed() || inputs.len() != self.entities.len() {
            return None;
        }
        if self.frameticker.pause {
            return Some(self);
        }
        let mut next = self;
        if !next.try_run_stages(inputs) {
            return None;
        }
        let down = someone_down(&next.entities);
        if !down && next.frameticker.current_frame == usize::MAX {
            return None;
        }
        if down {
            next.frameticker.pause = true;
        }
        let ghost settled = next@;
        next.frameticker.tick_frame();
        proof {
            if !next.frameticker.pause {
                assert forall|e: int| 0 <= e < settled.entities.len() implies (
                #[trigger] settled.entities[e]).wf(
                    settled.animations,
                    next@.frameticker.current_frame,
                ) by {
                    lemma_wf_next_tick(
                        settled.entities[e],
                        settled.animations,
                        settled.frameticker.current_frame,
                    );
                }
            }
        }
        Some(next)
    }

    /// Advances the simulation by one tick. `inputs` holds the input of
    /// each combatant, in the order of the combatants.
    pub fn tick(&mut self, inputs: &Vec<InputSnapshot>)
        requires
            old(self)@.wf(),
            inputs.len() == old(self).entities.len(),
            old(self)@.tick_fits(inputs@),
        ensures
            final(self)@ == old(self)@.ticked(inputs@),
            final(self)@.wf(),
    {
        if self.frameticker.pause {
            return;
        }
        self.run_stages(inputs);
        if someone_down(&self.entities) {
            self.frameticker.pause = true;
        }
        let ghost settled = self@;
        self.frameticker.tick_frame();
        proof {
            if !self.frameticker.pause {
                assert forall|e: int| 0 <= e < settled.entities.len() implies (
                #[trigger] settled.entities[e]).wf(
                    settled.animations,
                    self@.frameticker.current_frame,
                ) by {
                    lemma_wf_next_tick(
                        settled.entities[e],
                        settled.animations,
                        settled.frameticker.current_frame,
                    );
                }
            }
        }
    }
}

/// A tick keeps a simulation well-formed, as long as the clock has a tick
/// left.
pub proof fn lemma_ticked_wf(simulation: SimulationView, inputs: Seq<InputSnapshot>)
    requires
        simulation.wf(),
        simulation.entities.len() <= usize::MAX,
        simulation.frameticker.current_frame < usize::MAX,
    ensures
        simulation.ticked(inputs).wf(),
{
    if !simulation.frameticker.pause {
        let animations = simulation.animations;
        let current_frame = simulation.frameticker.current_frame;
        let turned = faced(simulation.entities);
        lemma_faced_wf(simulation.entities, animations, current_frame);
        let alone = simulation.advanced(inputs);
        assert forall|k: int| 0 <= k < alone.len() implies (#[trigger] alone[k]).wf(
            animations,
            current_frame,
        ) && alone[k].collisions_name(alone.len() as int) by {
            assert(turned[k].wf(animations, current_frame));
            assert(turned[k].collisions_name(alone.len() as int));
            lemma_advanced_wf(turned[k], inputs[k], animations, current_frame);
        }
        lemma_stages_wf(simulation, inputs);
        let settled = simulation.settled(inputs);
        let after = simulation.ticked(inputs);
        assert forall|k: int| 0 <= k < settled.len() implies (#[trigger] settled[k]).wf(
            animations,
            after.frameticker.current_frame,
        ) by {
            lemma_wf_next_tick(settled[k], animations, current_frame);
        }
    }
}

/// A combatant that a tick takes out of Normal has no move in flight after
/// the tick.
pub proof fn lemma_leaving_normal_drops_move(
    simulation: SimulationView,
    inputs: Seq<InputSnapshot>,
    k: int,
)
    requires
        simulation.wf(),
        0 <= k < simulation.entities.len(),
        simulation.entities[k].character.state == CharacterState::Normal,
        simulation.ticked(inputs).entities[k].character.state != CharacterState::Normal,
    ensures
        simulation.ticked(inputs).entities[k].character.current_move_on_hit is None,
{
    let current_frame = simulation.frameticker.current_frame;
    let turned = faced(simulation.entities);
    lemma_faced_wf(simulation.entities, simulation.animations, current_frame);
    lemma_first_on_team(simulation.entities, Team::Team1, 0);
    lemma_first_on_team(simulation.entities, Team::Team2, 0);
    assert(turned[k].character.state == CharacterState::Normal);
    let sensed = turned[k].ingested(inputs[k], current_frame);
    lemma_scan_stun(
        sensed.movelist,
        sensed.input_history.move_buffer,
        sensed.character.facing,
        current_frame,
        sensed.steered_state(),
        sensed.movelist.len() as int,
    );
    let moved = sensed.state_managed(current_frame).integrated();
    assert(moved.character.state == CharacterState::Normal);
    let alone = simulation.advanced(inputs)[k];
    assert(alone == moved.animated(
        simulation.animations[moved.animator.animation as int],
        current_frame,
    ));
    let struck = simulation.struck(inputs)[k];
    assert(struck.character == alone.character);
    lemma_effects_drop_move(struck, struck.effects, struck.is_blocking());
}

/// After every tick of a simulation that runs, every combatant stands
/// within the horizontal bounds of the arena and not below the floor.
pub proof fn lemma_tick_keeps_arena(simulation: SimulationView, inputs: Seq<InputSnapshot>)
    requires
        simulation.wf(),
        !simulation.frameticker.pause,
        simulation.tick_fits(inputs),
    ensures
        forall|k: int|
            0 <= k < simulation.entities.len() ==> {
                let position = (#[trigger] simulation.ticked(inputs).entities[k]).position;
                ARENA_MIN_X_RAW <= position.x@ <= ARENA_MAX_X_RAW && position.y@ >= 0
            },
{
    let current_frame = simulation.frameticker.current_frame;
    let turned = faced(simulation.entities);
    let struck = simulation.struck(inputs);
    lemma_faced_wf(simulation.entities, simulation.animations, current_frame);
    assert forall|k: int| 0 <= k < simulation.entities.len() implies {
        let position = (#[trigger] simulation.ticked(inputs).entities[k]).position;
        ARENA_MIN_X_RAW <= position.x@ <= ARENA_MAX_X_RAW && position.y@ >= 0
    } by {
        lemma_after_effects_kept(struck[k], struck[k].effects, struck[k].is_blocking());
        let alone = simulation.advanced(inputs)[k];
        assert(struck[k].position == alone.position);
        assert(turned[k].advance_fits(inputs[k], current_frame));
        let moved = turned[k].ingested(inputs[k], current_frame).state_managed(
            current_frame,
        ).integrated();
        assert(alone == moved.animated(
            simulation.animations[moved.animator.animation as int],
            current_frame,
        ));
        assert(alone.position == moved.position);
    }
}

} // verus!
