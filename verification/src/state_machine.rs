use crate::animation::Animator;
use crate::character::{CharacterBundle, CharacterBundleView, CharacterState, CharacterView};
use crate::direction::{AbsoluteDirection, FacingDirection};
use crate::effects::copy_effects;
use crate::fixedpoint::{fits_raw, mul_raw, FixedPoint};
use crate::input_history::{InputAction, InputSnapshot};
use crate::movelist::Move;
use crate::vec2::Vec2;
use vstd::prelude::*;

verus! {

/// Walking speed: one unit per tick, in raw units.
pub const WALK_SPEED_RAW: i64 = 65536;

/// Factor by which a stun damps the horizontal velocity each tick: the
/// raw value nearest below nine tenths.
pub const STUN_DAMPING_RAW: i64 = 58982;

/// Outcome of one pass over a list of moves.
pub struct MoveScan {
    /// The state after the pass.
    pub state: CharacterState,
    /// Index of the move that fired last, if any fired.
    pub fired: Option<int>,
}

/// Whether a move fires from a state: its state matcher admits the state, and its
/// input predicate holds of the log at the tick.
pub open spec fn move_fires(
    mov: Move,
    state: CharacterState,
    buffer: Seq<InputAction>,
    facing: FacingDirection,
    current_frame: usize,
) -> bool {
    mov.valid_in_states.admits(state) && mov.input_matcher.satisfied(buffer, facing, current_frame)
}

/// One pass over the first `upto` moves, in order: each move is tried
/// against the state that the moves before it have left, and a move that
/// fires sets the state.
pub open spec fn scan_moves(
    moves: Seq<Move>,
    buffer: Seq<InputAction>,
    facing: FacingDirection,
    current_frame: usize,
    state: CharacterState,
    upto: int,
) -> MoveScan
    decreases upto,
{
    if upto <= 0 {
        MoveScan { state, fired: None }
    } else {
        let before = scan_moves(moves, buffer, facing, current_frame, state, upto - 1);
        if move_fires(moves[upto - 1], before.state, buffer, facing, current_frame) {
            MoveScan { state: moves[upto - 1].to_state, fired: Some(upto - 1) }
        } else {
            before
        }
    }
}

/// A pass over moves ends in the state of the move that fired last, and
/// that move is one of those passed; where none fired, the state is as it
/// was.
pub proof fn lemma_scan_outcome(
    moves: Seq<Move>,
    buffer: Seq<InputAction>,
    facing: FacingDirection,
    current_frame: usize,
    state: CharacterState,
    upto: int,
)
    ensures
        match scan_moves(moves, buffer, facing, current_frame, state, upto).fired {
            Some(index) => 0 <= index < upto && scan_moves(
                moves,
                buffer,
                facing,
                current_frame,
                state,
                upto,
            ).state == moves[index].to_state,
            None => scan_moves(moves, buffer, facing, current_frame, state, upto).state == state,
        },
    decreases upto,
{
    if upto > 0 {
        lemma_scan_outcome(moves, buffer, facing, current_frame, state, upto - 1);
    }
}

/// Where no move leads to a movement state, the first move that fires is
/// the only one: a pass ends with the first move, in order, that fires
/// from the state at which the pass began.
pub proof fn lemma_first_match_wins(
    moves: Seq<Move>,
    buffer: Seq<InputAction>,
    facing: FacingDirection,
    current_frame: usize,
    state: CharacterState,
    upto: int,
)
    requires
        0 <= upto <= moves.len(),
        forall|m: int| 0 <= m < moves.len() ==> !(#[trigger] moves[m]).to_state.is_movement(),
    ensures
        match scan_moves(moves, buffer, facing, current_frame, state, upto).fired {
            Some(index) => 0 <= index < upto && move_fires(
                moves[index],
                state,
                buffer,
                facing,
                current_frame,
            ) && forall|m: int|
                0 <= m < index ==> !move_fires(
                    #[trigger] moves[m],
                    state,
                    buffer,
                    facing,
                    current_frame,
                ),
            None => forall|m: int|
                0 <= m < upto ==> !move_fires(
                    #[trigger] moves[m],
                    state,
                    buffer,
                    facing,
                    current_frame,
                ),
        },
    decreases upto,
{
    if upto > 0 {
        lemma_first_match_wins(moves, buffer, facing, current_frame, state, upto - 1);
        lemma_scan_outcome(moves, buffer, facing, current_frame, state, upto - 1);
        let before = scan_moves(moves, buffer, facing, current_frame, state, upto - 1);
        if before.fired is Some {
            assert(!moves[before.fired.unwrap()].to_state.is_movement());
        }
    }
}

/// Horizontal velocity that a state dictates: walking speed along the
/// facing for MovingForward and against it for MovingBackward, the damped
/// present velocity during a stun, and none otherwise.
pub open spec fn state_velocity(
    state: CharacterState,
    facing: FacingDirection,
    present: int,
) -> int {
    let along: int = if facing == FacingDirection::Right {
        WALK_SPEED_RAW as int
    } else {
        -WALK_SPEED_RAW
    };
    match state {
        CharacterState::MovingForward => along,
        CharacterState::MovingBackward => -along,
        CharacterState::Hitstun(_) => mul_raw(present, STUN_DAMPING_RAW as int),
        CharacterState::Blockstun(_) => mul_raw(present, STUN_DAMPING_RAW as int),
        _ => 0,
    }
}

impl CharacterBundleView {
    /// The state after the stun countdown and the movement transition.
    pub open spec fn steered_state(self) -> CharacterState {
        let counted = self.character.state.stun_elapsed();
        match counted.movement_target(self.character.input_dir.relative_to(self.character.facing)) {
            Some(target) => target,
            None => counted,
        }
    }

    /// Whether the movement input leads to another state this tick.
    pub open spec fn steers(self) -> bool {
        self.character.state.stun_elapsed().movement_target(
            self.character.input_dir.relative_to(self.character.facing),
        ) is Some
    }

    /// The pass over the combatant's moves at a tick.
    pub open spec fn move_scan(self, current_frame: usize) -> MoveScan {
        scan_moves(
            self.movelist,
            self.input_history.move_buffer,
            self.character.facing,
            current_frame,
            self.steered_state(),
            self.movelist.len() as int,
        )
    }

    /// What the state machine needs of a combatant at a tick: no event of
    /// the log is from a later tick; a combatant that has just
    /// transitioned is not in Normal; and where the tick ends in a stun,
    /// the damped velocity can be computed.
    pub open spec fn state_manager_ready(self, current_frame: usize) -> bool {
        &&& self.input_history.no_later_than(current_frame)
        &&& self.character.just_transitioned ==> self.character.state != CharacterState::Normal
        &&& self.move_scan(current_frame).state.is_stun() ==> fits_raw(
            self.velocity.x@ * STUN_DAMPING_RAW,
        )
    }

    /// The combatant after the state machine has run for a tick.
    ///
    /// The stun countdown comes first, then the movement transition, then
    /// the pass over the moves, which overrides both. A move that fires
    /// takes the animator over, to play its animation once, and carries
    /// its effects for delivery. Otherwise, where the combatant has just
    /// transitioned, the animator starts the animation of the new state,
    /// which loops. The horizontal velocity follows from the final state.
    pub open spec fn state_managed(self, current_frame: usize) -> CharacterBundleView {
        let scan = self.move_scan(current_frame);
        let pending = self.character.just_transitioned || self.steers();
        let character = CharacterView {
            state: scan.state,
            just_transitioned: false,
            current_move_on_hit: match scan.fired {
                Some(index) => Some(self.movelist[index].effects@),
                None => self.character.current_move_on_hit,
            },
            ..self.character
        };
        let animator = match scan.fired {
            Some(index) => Animator {
                animation: self.movelist[index].animation,
                frame: 0,
                just_changed_animation: true,
                last_frame_change: current_frame,
                idle_after_animation: true,
            },
            None => if pending {
                Animator {
                    animation: self.character.animations.canonical(
                        scan.state,
                        self.character.new_anim,
                    ),
                    frame: 0,
                    just_changed_animation: true,
                    last_frame_change: current_frame,
                    idle_after_animation: false,
                }
            } else {
                self.animator
            },
        };
        let velocity = Vec2 {
            x: FixedPoint(
                state_velocity(scan.state, self.character.facing, self.velocity.x@) as i64,
            ),
            y: self.velocity.y,
        };
        CharacterBundleView { character, animator, velocity, ..self }
    }
}

/// A stun that has ticks left counts down by exactly one per tick,
/// whatever the input and the moves. One that has none left ends in Idle,
/// where neither the movement input nor a move leads on from there.
pub proof fn lemma_stun_countdown(entity: CharacterBundleView, current_frame: usize, frames: usize)
    ensures
        entity.character.state == CharacterState::Hitstun(frames) && frames > 0
            ==> entity.state_managed(current_frame).character.state == CharacterState::Hitstun(
            (frames - 1) as usize,
        ),
        entity.character.state == CharacterState::Blockstun(frames) && frames > 0
            ==> entity.state_managed(current_frame).character.state == CharacterState::Blockstun(
            (frames - 1) as usize,
        ),
        (entity.character.state == CharacterState::Hitstun(0) || entity.character.state
            == CharacterState::Blockstun(0)) && !entity.steers() && entity.move_scan(
            current_frame,
        ).fired is None ==> entity.state_managed(current_frame).character.state
            == CharacterState::Idle,
{
    if !entity.steered_state().is_movement() {
        lemma_scan_stun(
            entity.movelist,
            entity.input_history.move_buffer,
            entity.character.facing,
            current_frame,
            entity.steered_state(),
            entity.movelist.len() as int,
        );
    }
    lemma_scan_outcome(
        entity.movelist,
        entity.input_history.move_buffer,
        entity.character.facing,
        current_frame,
        entity.steered_state(),
        entity.movelist.len() as int,
    );
}

/// No move fires from a state that is not a movement state.
pub proof fn lemma_scan_stun(
    moves: Seq<Move>,
    buffer: Seq<InputAction>,
    facing: FacingDirection,
    current_frame: usize,
    state: CharacterState,
    upto: int,
)
    requires
        !state.is_movement(),
    ensures
        scan_moves(moves, buffer, facing, current_frame, state, upto).fired is None,
        scan_moves(moves, buffer, facing, current_frame, state, upto).state == state,
    decreases upto,
{
    if upto > 0 {
        lemma_scan_stun(moves, buffer, facing, current_frame, state, upto - 1);
    }
}

/// The movement input of a tick changes the state only when the state
/// machine runs, not when it is taken in. The state machine then takes an
/// idle combatant whose input points to its front to MovingForward, and
/// one that moves forward and has no input to Idle, unless a move fires.
pub proof fn lemma_movement_transitions(
    entity: CharacterBundleView,
    input: InputSnapshot,
    current_frame: usize,
)
    requires
        entity.ingested(input, current_frame).move_scan(current_frame).fired is None,
    ensures
        entity.ingested(input, current_frame).character.state == entity.character.state,
        entity.character.state == CharacterState::Idle && input.resolved().relative_to(
            entity.character.facing,
        ) == AbsoluteDirection::Right ==> entity.ingested(input, current_frame).state_managed(
            current_frame,
        ).character.state == CharacterState::MovingForward,
        entity.character.state == CharacterState::MovingForward && input.resolved().relative_to(
            entity.character.facing,
        ) == AbsoluteDirection::Neutral ==> entity.ingested(input, current_frame).state_managed(
            current_frame,
        ).character.state == CharacterState::Idle,
{
    let sensed = entity.ingested(input, current_frame);
    lemma_scan_outcome(
        sensed.movelist,
        sensed.input_history.move_buffer,
        sensed.character.facing,
        current_frame,
        sensed.steered_state(),
        sensed.movelist.len() as int,
    );
}

/// What the state machine decides for a combatant in a tick, before
/// anything is changed.
#[derive(Clone, Copy, Debug, PartialEq, Eq)]
pub struct Decision {
    /// The state in which the tick ends.
    pub state: CharacterState,
    /// Whether a transition waits to be acted on, should no move fire.
    pub pending: bool,
    /// Index of the move that fired last, if any fired.
    pub fired: Option<usize>,
}

impl Decision {
    /// Whether this is what the state machine decides for a combatant at
    /// a tick.
    pub open spec fn decides(self, entity: CharacterBundleView, current_frame: usize) -> bool {
        let scan = entity.move_scan(current_frame);
        &&& self.state == scan.state
        &&& self.pending == (entity.character.just_transitioned || entity.steers())
        &&& match self.fired {
            Some(index) => scan.fired == Some(index as int) && index < entity.movelist.len(),
            None => scan.fired is None,
        }
    }
}

impl CharacterBundle {
    /// Decides the state in which the tick ends: the stun countdown, the
    /// movement transition, and the pass over the moves.
    pub fn decide(&self, current_frame: usize) -> (r: Decision)
        requires
            self@.input_history.no_later_than(current_frame),
        ensures
            r.decides(self@, current_frame),
    {
        let counted = self.character.state.counted_down();
        let relative = self.character.input_dir.flipped(self.character.facing);
        let mut state = counted;
        let mut pending = self.character.just_transitioned;
        if let Some(target) = counted.moved(relative) {
            state = target;
            pending = true;
        }
        let mut fired: Option<usize> = None;
        let mut i: usize = 0;
        while i < self.movelist.moves.len()
            invariant
                self@.input_history.no_later_than(current_frame),
                i <= self.movelist.moves.len(),
                ({
                    let scan = scan_moves(
                        self@.movelist,
                        self@.input_history.move_buffer,
                        self@.character.facing,
                        current_frame,
                        self@.steered_state(),
                        i as int,
                    );
                    &&& scan.state == state
                    &&& match fired {
                        Some(index) => scan.fired == Some(index as int) && index < i,
                        None => scan.fired is None,
                    }
                }),
            decreases self.movelist.moves.len() - i,
        {
            let mov = &self.movelist.moves[i];
            if mov.valid_in_states.matches(state) && mov.input_matcher.matches(
                &self.input_history,
                self.character.facing,
                current_frame,
            ) {
                state = mov.to_state;
                fired = Some(i);
            }
            i += 1;
        }
        Decision { state, pending, fired }
    }

    /// Carries out what the state machine has decided.
    pub fn settle(&mut self, decision: Decision, current_frame: usize)
        requires
            decision.decides(old(self)@, current_frame),
            old(self)@.state_manager_ready(current_frame),
        ensures
            final(self)@ == old(self)@.state_managed(current_frame),
    {
        proof {
            lemma_scan_outcome(
                self@.movelist,
                self@.input_history.move_buffer,
                self@.character.facing,
                current_frame,
                self@.steered_state(),
                self@.movelist.len() as int,
            );
        }
        let state = decision.state;
        self.character.state = state;
        if let Some(index) = decision.fired {
            let mov = &self.movelist.moves[index];
            self.character.current_move_on_hit = Some(copy_effects(&mov.effects));
            self.animator = Animator {
                animation: mov.animation,
                frame: 0,
                just_changed_animation: true,
                last_frame_change: current_frame,
                idle_after_animation: true,
            };
        } else if decision.pending {
            let animation = self.character.animations.animation_for(state, self.character.new_anim);
            self.animator = Animator {
                animation,
                frame: 0,
                just_changed_animation: true,
                last_frame_change: current_frame,
                idle_after_animation: false,
            };
        }
        self.character.just_transitioned = false;
        let along: i64 = if self.character.facing == FacingDirection::Right {
            WALK_SPEED_RAW
        } else {
            -WALK_SPEED_RAW
        };
        match state {
            CharacterState::MovingForward => {
                self.velocity.x = FixedPoint::new_raw(along);
            },
            CharacterState::MovingBackward => {
                self.velocity.x = FixedPoint::new_raw(-along);
            },
            CharacterState::Blockstun(_) | CharacterState::Hitstun(_) => {
                self.velocity.x = self.velocity.x * FixedPoint::new_raw(STUN_DAMPING_RAW);
            },
            _ => {
                self.velocity.x = FixedPoint::zero();
            },
        }
    }

    /// Runs the state machine of the combatant for one tick.
    pub fn state_manager(&mut self, current_frame: usize)
        requires
            old(self)@.state_manager_ready(current_frame),
        ensures
            final(self)@ == old(self)@.state_managed(current_frame),
    {
        let decision = self.decide(current_frame);
        self.settle(decision, current_frame);
    }

    /// Runs the state machine of the combatant for one tick, if the
    /// damped velocity of a stun can be computed, and says whether it
    /// did; else the combatant stays as it is.
    pub fn try_state_manager(&mut self, current_frame: usize) -> (ok: bool)
        requires
            old(self)@.input_history.no_later_than(current_frame),
            old(self)@.character.just_transitioned ==> old(self)@.character.state
                != CharacterState::Normal,
        ensures
            ok == old(self)@.state_manager_ready(current_frame),
            ok ==> final(self)@ == old(self)@.state_managed(current_frame),
            !ok ==> *final(self) == *old(self),
    {
        let decision = self.decide(current_frame);
        let stunned = match decision.state {
            CharacterState::Hitstun(_) => true,
            CharacterState::Blockstun(_) => true,
            _ => false,
        };
        if stunned && self.velocity.x.0.checked_mul(STUN_DAMPING_RAW).is_none() {
            return false;
        }
        self.settle(decision, current_frame);
        true
    }
}

} // verus!
