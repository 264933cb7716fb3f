use crate::character::CharacterState;
use crate::direction::FacingDirection;
use crate::effects::Effect;
use crate::input_history::{InputAction, InputActionKind, InputHistory, InputHistoryView};
use vstd::prelude::*;

verus! {

/// An attack button.
#[derive(Clone, Copy, Debug, PartialEq, Eq, Structural)]
pub enum Button {
    Punch,
    Kick,
}

/// Condition of a move on the state of the combatant: the set of movement
/// states from which the move may start. No matcher admits Normal, Hitstun
/// or Blockstun.
#[derive(Clone, Copy, Debug, PartialEq, Eq, Structural)]
pub struct StateMatcher {
    pub idle: bool,
    pub forward: bool,
    pub backward: bool,
}

impl StateMatcher {
    /// Whether the matcher admits a state.
    pub open spec fn admits(self, state: CharacterState) -> bool {
        match state {
            CharacterState::Idle => self.idle,
            CharacterState::MovingForward => self.forward,
            CharacterState::MovingBackward => self.backward,
            _ => false,
        }
    }

    /// The matcher that admits Idle only.
    pub fn idle() -> (r: Self)
        ensures
            forall|s: CharacterState| #[trigger] r.admits(s) <==> s == CharacterState::Idle,
    {
        Self { idle: true, forward: false, backward: false }
    }

    /// The matcher that admits MovingForward only.
    pub fn forward() -> (r: Self)
        ensures
            forall|s: CharacterState|
                #[trigger] r.admits(s) <==> s == CharacterState::MovingForward,
    {
        Self { idle: false, forward: true, backward: false }
    }

    /// The matcher that admits MovingBackward only.
    pub fn backward() -> (r: Self)
        ensures
            forall|s: CharacterState|
                #[trigger] r.admits(s) <==> s == CharacterState::MovingBackward,
    {
        Self { idle: false, forward: false, backward: true }
    }

    /// The matcher that admits the three movement states: Idle, MovingForward
    /// and MovingBackward.
    pub fn all() -> (r: Self)
        ensures
            forall|s: CharacterState|
                #[trigger] r.admits(s) <==> (s == CharacterState::Idle || s
                    == CharacterState::MovingForward || s == CharacterState::MovingBackward),
    {
        Self { idle: true, forward: true, backward: true }
    }

    /// Whether the matcher admits a state.
    pub fn matches(&self, state: CharacterState) -> (r: bool)
        ensures
            r == self.admits(state),
    {
        match state {
            CharacterState::Idle => self.idle,
            CharacterState::MovingForward => self.forward,
            CharacterState::MovingBackward => self.backward,
            _ => false,
        }
    }
}

/// Predicate of a move on the input history.
#[derive(Clone, Copy, Debug, PartialEq, Eq, Structural)]
pub enum InputMatcher {
    Button(Button),
}

/// Whether an event lies within the lookback window of a tick: it is at
/// most `InputHistory::BUFFER` ticks old.
pub open spec fn in_window(action: InputAction, current_frame: usize) -> bool {
    current_frame - action.time <= 5
}

/// Whether a press of `button` can be reached from the newest end of the
/// log without passing an event that fell out of the window: some press of
/// the button is in the window, and so is every event recorded after it.
pub open spec fn press_in_window(
    buffer: Seq<InputAction>,
    button: Button,
    current_frame: usize,
) -> bool {
    exists|i: int|
        0 <= i < buffer.len() && (#[trigger] buffer[i]).kind == InputActionKind::PressButton(
            button,
        ) && forall|j: int| i <= j < buffer.len() ==> in_window(#[trigger] buffer[j], current_frame)
}

impl InputMatcher {
    /// What `matches` answers.
    pub open spec fn satisfied(
        self,
        buffer: Seq<InputAction>,
        facing_direction: FacingDirection,
        current_frame: usize,
    ) -> bool {
        match self {
            InputMatcher::Button(button) => press_in_window(buffer, button, current_frame),
        }
    }

    /// Scans the log from its newest event backwards and stops at the
    /// first event that is older than the window.
    pub fn matches(
        &self,
        input_history: &InputHistory,
        facing_direction: FacingDirection,
        current_frame: usize,
    ) -> (r: bool)
        requires
            input_history@.no_later_than(current_frame),
        ensures
            r == self.satisfied(input_history@.move_buffer, facing_direction, current_frame),
    {
        match self {
            InputMatcher::Button(button) => {
                let buffer = &input_history.move_buffer;
                let mut i: usize = buffer.len();
                while i > 0
                    invariant
                        i <= buffer.len(),
                        *self == InputMatcher::Button(*button),
                        buffer@ == input_history@.move_buffer,
                        input_history@.no_later_than(current_frame),
                        forall|j: int|
                            i <= j < buffer.len() ==> in_window(#[trigger] buffer[j], current_frame)
                                && buffer[j].kind != InputActionKind::PressButton(*button),
                    decreases i,
                {
                    i -= 1;
                    let action = &buffer[i];
                    if current_frame - action.time > InputHistory::BUFFER {
                        assert(!in_window(buffer@[i as int], current_frame));
                        assert(!press_in_window(buffer@, *button, current_frame));
                        return false;
                    }
                    if let InputActionKind::PressButton(b) = action.kind {
                        if b == *button {
                            assert(in_window(buffer@[i as int], current_frame));
                            assert(buffer@[i as int].kind == InputActionKind::PressButton(*button));
                            assert(press_in_window(buffer@, *button, current_frame));
                            return true;
                        }
                    }
                }
                assert(!press_in_window(buffer@, *button, current_frame));
                false
            },
        }
    }
}

/// A press matches from the tick at which it was recorded up to and
/// including the fifth tick after it, whatever was recorded since, and no
/// longer, unless the button was pressed again.
pub proof fn lemma_press_window(
    history: InputHistoryView,
    i: int,
    button: Button,
    current_frame: usize,
)
    requires
        history.ordered(),
        history.no_later_than(current_frame),
        0 <= i < history.move_buffer.len(),
        history.move_buffer[i].kind == InputActionKind::PressButton(button),
    ensures
        current_frame - history.move_buffer[i].time <= 5 ==> press_in_window(
            history.move_buffer,
            button,
            current_frame,
        ),
        current_frame - history.move_buffer[i].time > 5 && (forall|j: int|
            i < j < history.move_buffer.len() ==> (#[trigger] history.move_buffer[j]).kind
                != InputActionKind::PressButton(button)) ==> !press_in_window(
            history.move_buffer,
            button,
            current_frame,
        ),
{
    let buffer = history.move_buffer;
    if current_frame - buffer[i].time <= 5 {
        assert forall|j: int| i <= j < buffer.len() implies in_window(
            #[trigger] buffer[j],
            current_frame,
        ) by {
            assert(buffer[i].time <= buffer[j].time);
        }
    } else if forall|j: int|
        i < j < buffer.len() ==> (#[trigger] buffer[j]).kind != InputActionKind::PressButton(
            button,
        ) {
        assert forall|k: int|
            0 <= k < buffer.len() && (#[trigger] buffer[k]).kind == InputActionKind::PressButton(
                button,
            ) implies !(forall|j: int|
            k <= j < buffer.len() ==> in_window(#[trigger] buffer[j], current_frame)) by {
            assert(k <= i);
            assert(!in_window(buffer[i], current_frame));
        }
    }
}

/// One move of a combatant: conditioned on state and input, it overrides the
/// movement states and carries the effects that a hit delivers.
#[derive(Clone, Debug, PartialEq, Eq)]
pub struct Move {
    pub name: String,
    pub input_matcher: InputMatcher,
    pub valid_in_states: StateMatcher,
    pub to_state: CharacterState,
    /// Index of the move's animation in the table of animations.
    pub animation: usize,
    pub effects: Vec<Effect>,
}

/// The moves of a combatant, in order of declaration.
#[derive(Clone, Debug, PartialEq, Eq)]
pub struct Movelist {
    pub moves: Vec<Move>,
}

} // verus!
