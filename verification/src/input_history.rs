use crate::direction::{sector, sector_direction, AbsoluteDirection};
use crate::movelist::Button;
use vstd::prelude::*;

verus! {

/// What an input event reports. A release carries the ticks since the
/// press that it ends.
#[derive(Clone, Copy, Debug, PartialEq, Eq, Structural)]
pub enum InputActionKind {
    PressDirection(AbsoluteDirection),
    ReleaseDirection { direction: AbsoluteDirection, duration: usize },
    PressButton(Button),
    ReleaseButton { button: Button, duration: usize },
}

/// An input event with the tick at which it was recorded.
#[derive(Clone, Copy, Debug, PartialEq, Eq, Structural)]
pub struct InputAction {
    pub time: usize,
    pub kind: InputActionKind,
}

/// Log of the input events of a combatant, oldest first. Nothing is ever
/// removed from it.
#[derive(Clone, Debug, PartialEq, Eq)]
pub struct InputHistory {
    pub last_dir: AbsoluteDirection,
    pub move_buffer: Vec<InputAction>,
}

/// A log of input events, as a sequence.
#[verifier::ext_equal]
pub struct InputHistoryView {
    pub last_dir: AbsoluteDirection,
    pub move_buffer: Seq<InputAction>,
}

impl Default for InputHistory {
    /// The empty log of a combatant whose input has been neutral.
    fn default() -> (r: Self)
        ensures
            r@.last_dir == AbsoluteDirection::Neutral,
            r@.move_buffer.len() == 0,
    {
        InputHistory { last_dir: AbsoluteDirection::Neutral, move_buffer: Vec::new() }
    }
}

impl View for InputHistory {
    type V = InputHistoryView;

    open spec fn view(&self) -> InputHistoryView {
        InputHistoryView { last_dir: self.last_dir, move_buffer: self.move_buffer@ }
    }
}

impl InputHistoryView {
    /// No event bears a tick after `current_frame`.
    pub open spec fn no_later_than(self, current_frame: usize) -> bool {
        forall|i: int|
            0 <= i < self.move_buffer.len() ==> (#[trigger] self.move_buffer[i]).time
                <= current_frame
    }

    /// The ticks of the events never go down along the log.
    pub open spec fn ordered(self) -> bool {
        forall|i: int, j: int|
            0 <= i <= j < self.move_buffer.len() ==> (#[trigger] self.move_buffer[i]).time <= (
            #[trigger] self.move_buffer[j]).time
    }
}

/// Tick of the newest event of the log that `wanted` holds of, if there
/// is one.
pub open spec fn last_time_of(
    buffer: Seq<InputAction>,
    wanted: spec_fn(InputAction) -> bool,
) -> Option<usize>
    decreases buffer.len(),
{
    if buffer.len() == 0 {
        None
    } else if wanted(buffer.last()) {
        Some(buffer.last().time)
    } else {
        last_time_of(buffer.drop_last(), wanted)
    }
}

/// The tick of an event, if the event is of the given kind.
pub open spec fn time_if(action: InputAction, kind: InputActionKind) -> Option<usize> {
    if action.kind == kind {
        Some(action.time)
    } else {
        None
    }
}

/// Tick of the newest press of a direction.
pub open spec fn last_pressed_dir(buffer: Seq<InputAction>, dir: AbsoluteDirection) -> Option<
    usize,
> {
    last_time_of(buffer, |a: InputAction| a.kind == InputActionKind::PressDirection(dir))
}

/// Tick of the newest press of a button.
pub open spec fn last_pressed_button(buffer: Seq<InputAction>, btn: Button) -> Option<usize> {
    last_time_of(buffer, |a: InputAction| a.kind == InputActionKind::PressButton(btn))
}

/// The newest event that `wanted` holds of is found at `i`: none after it
/// is wanted.
proof fn lemma_last_time_at(buffer: Seq<InputAction>, wanted: spec_fn(InputAction) -> bool, i: int)
    requires
        0 <= i < buffer.len(),
        wanted(buffer[i]),
        forall|j: int| i < j < buffer.len() ==> !wanted(#[trigger] buffer[j]),
    ensures
        last_time_of(buffer, wanted) == Some(buffer[i].time),
    decreases buffer.len(),
{
    if i < buffer.len() - 1 {
        assert(!wanted(buffer[buffer.len() - 1]));
        lemma_last_time_at(buffer.drop_last(), wanted, i);
    }
}

/// Where no event is wanted, no tick is found.
proof fn lemma_last_time_none(buffer: Seq<InputAction>, wanted: spec_fn(InputAction) -> bool)
    requires
        forall|j: int| 0 <= j < buffer.len() ==> !wanted(#[trigger] buffer[j]),
    ensures
        last_time_of(buffer, wanted) is None,
    decreases buffer.len(),
{
    if buffer.len() > 0 {
        assert(!wanted(buffer[buffer.len() - 1]));
        lemma_last_time_none(buffer.drop_last(), wanted);
    }
}

/// What the input layer reports of one combatant for one tick: the angle
/// of the movement input in tenths of a degree, if the input is deflected
/// at all, and the edges of the two buttons.
#[derive(Clone, Copy, Debug, PartialEq, Eq, Structural)]
pub struct InputSnapshot {
    pub movement: Option<u16>,
    pub punch_pressed: bool,
    pub punch_released: bool,
    pub kick_pressed: bool,
    pub kick_released: bool,
}

impl InputSnapshot {
    /// The direction of the movement input; Neutral where there is no
    /// angle.
    pub open spec fn resolved(self) -> AbsoluteDirection {
        match self.movement {
            Some(deci_degrees) => sector_direction(sector(deci_degrees as int)),
            None => AbsoluteDirection::Neutral,
        }
    }

    /// The direction of the movement input; Neutral where there is no
    /// angle.
    pub fn direction(&self) -> (r: AbsoluteDirection)
        ensures
            r == self.resolved(),
    {
        match self.movement {
            Some(deci_degrees) => AbsoluteDirection::from(deci_degrees),
            None => AbsoluteDirection::Neutral,
        }
    }
}

/// The log after a change of direction from the last recorded one to
/// `dir` at a tick: the release of the old direction, with the ticks since
/// its newest press, where such a press is on record, and then the press
/// of the new one.
pub open spec fn with_direction_change(
    buffer: Seq<InputAction>,
    last_dir: AbsoluteDirection,
    dir: AbsoluteDirection,
    current_frame: usize,
) -> Seq<InputAction> {
    let released = match last_pressed_dir(buffer, last_dir) {
        Some(time) => buffer.push(
            InputAction {
                time: current_frame,
                kind: InputActionKind::ReleaseDirection {
                    direction: last_dir,
                    duration: (current_frame - time) as usize,
                },
            },
        ),
        None => buffer,
    };
    released.push(InputAction { time: current_frame, kind: InputActionKind::PressDirection(dir) })
}

/// The log after the edges of one button at a tick: first the press, if
/// the button went down, then the release, if it went up and a press of it
/// is on record, with the ticks since the newest such press.
pub open spec fn with_button_edges(
    buffer: Seq<InputAction>,
    button: Button,
    pressed: bool,
    released: bool,
    current_frame: usize,
) -> Seq<InputAction> {
    let down = if pressed {
        buffer.push(InputAction { time: current_frame, kind: InputActionKind::PressButton(button) })
    } else {
        buffer
    };
    if released {
        match last_pressed_button(down, button) {
            Some(time) => down.push(
                InputAction {
                    time: current_frame,
                    kind: InputActionKind::ReleaseButton {
                        button,
                        duration: (current_frame - time) as usize,
                    },
                },
            ),
            None => down,
        }
    } else {
        down
    }
}

impl InputHistoryView {
    /// The log after the input of one tick is recorded: a change of
    /// direction first, then the edges of Punch, then those of Kick.
    pub open spec fn recorded(
        self,
        input: InputSnapshot,
        current_frame: usize,
    ) -> InputHistoryView {
        let dir = input.resolved();
        let turned = if dir != self.last_dir {
            with_direction_change(self.move_buffer, self.last_dir, dir, current_frame)
        } else {
            self.move_buffer
        };
        let punched = with_button_edges(
            turned,
            Button::Punch,
            input.punch_pressed,
            input.punch_released,
            current_frame,
        );
        let kicked = with_button_edges(
            punched,
            Button::Kick,
            input.kick_pressed,
            input.kick_released,
            current_frame,
        );
        InputHistoryView { last_dir: dir, move_buffer: kicked }
    }
}

/// Whether a log is another with events of one tick behind it.
pub open spec fn extends_at(longer: Seq<InputAction>, shorter: Seq<InputAction>, tick: usize) -> bool {
    &&& shorter.len() <= longer.len()
    &&& forall|i: int| 0 <= i < shorter.len() ==> #[trigger] longer[i] == shorter[i]
    &&& forall|i: int| shorter.len() <= i < longer.len() ==> (#[trigger] longer[i]).time == tick
}

/// Recording only appends: the log as it was stays at the front, and every
/// event behind it bears the tick of the recording. An ordered log with no
/// event from a later tick stays so.
pub proof fn lemma_recorded_appends(
    history: InputHistoryView,
    input: InputSnapshot,
    current_frame: usize,
)
    ensures
        extends_at(
            history.recorded(input, current_frame).move_buffer,
            history.move_buffer,
            current_frame,
        ),
        history.ordered() && history.no_later_than(current_frame) ==> history.recorded(
            input,
            current_frame,
        ).ordered() && history.recorded(input, current_frame).no_later_than(current_frame),
{
    let dir = input.resolved();
    let turned = if dir != history.last_dir {
        with_direction_change(history.move_buffer, history.last_dir, dir, current_frame)
    } else {
        history.move_buffer
    };
    let punched = with_button_edges(
        turned,
        Button::Punch,
        input.punch_pressed,
        input.punch_released,
        current_frame,
    );
    let kicked = with_button_edges(
        punched,
        Button::Kick,
        input.kick_pressed,
        input.kick_released,
        current_frame,
    );
    lemma_appended(history.move_buffer, turned, current_frame);
    lemma_appended(turned, punched, current_frame);
    lemma_appended(punched, kicked, current_frame);
    assert(history.recorded(input, current_frame).move_buffer == kicked);
}

/// Each step of a recording puts at most two events of the tick behind the
/// log.
proof fn lemma_appended(shorter: Seq<InputAction>, longer: Seq<InputAction>, tick: usize)
    requires
        longer == shorter || (exists|a: InputAction| a.time == tick && longer == shorter.push(a))
            || (exists|a: InputAction, b: InputAction|
            a.time == tick && b.time == tick && longer == shorter.push(a).push(b)),
    ensures
        extends_at(longer, shorter, tick),
{
}

/// The newest tick found in a log is the tick of one of its events.
pub proof fn lemma_last_time_is_recorded(
    buffer: Seq<InputAction>,
    wanted: spec_fn(InputAction) -> bool,
)
    ensures
        last_time_of(buffer, wanted) matches Some(time) ==> exists|i: int|
            0 <= i < buffer.len() && wanted(#[trigger] buffer[i]) && buffer[i].time == time,
    decreases buffer.len(),
{
    if buffer.len() > 0 {
        if wanted(buffer.last()) {
            assert(buffer[buffer.len() - 1] == buffer.last());
        } else {
            lemma_last_time_is_recorded(buffer.drop_last(), wanted);
            if let Some(time) = last_time_of(buffer, wanted) {
                let i = choose|i: int|
                    0 <= i < buffer.drop_last().len() && wanted(#[trigger] buffer.drop_last()[i])
                        && buffer.drop_last()[i].time == time;
                assert(buffer[i] == buffer.drop_last()[i]);
            }
        }
    }
}

/// A log in which no event is older than the one before it is ordered.
pub proof fn lemma_ordered_by_neighbours(buffer: Seq<InputAction>, i: int, j: int)
    requires
        forall|k: int| 0 < k < buffer.len() ==> buffer[k - 1].time <= (#[trigger] buffer[k]).time,
        0 <= i <= j < buffer.len(),
    ensures
        buffer[i].time <= buffer[j].time,
    decreases j - i,
{
    if i < j {
        lemma_ordered_by_neighbours(buffer, i, j - 1);
        assert(buffer[j - 1].time <= buffer[j].time);
    }
}

impl InputHistory {
    /// Whether the log is ordered and holds no event from a tick after
    /// `current_frame`.
    pub fn is_well_formed(&self, current_frame: usize) -> (r: bool)
        ensures
            r == (self@.ordered() && self@.no_later_than(current_frame)),
    {
        let mut k: usize = 0;
        while k < self.move_buffer.len()
            invariant
                k <= self.move_buffer.len(),
                forall|e: int|
                    0 <= e < k ==> (#[trigger] self.move_buffer[e]).time <= current_frame,
                forall|e: int|
                    0 < e < k ==> self.move_buffer[e - 1].time <= (
                    #[trigger] self.move_buffer[e]).time,
            decreases self.move_buffer.len() - k,
        {
            if self.move_buffer[k].time > current_frame {
                return false;
            }
            if k > 0 && self.move_buffer[k - 1].time > self.move_buffer[k].time {
                assert(!(self.move_buffer@[k - 1].time <= self.move_buffer@[k as int].time));
                return false;
            }
            k += 1;
        }
        proof {
            assert forall|i: int, j: int| 0 <= i <= j < self.move_buffer.len() implies (
            #[trigger] self.move_buffer@[i]).time <= (#[trigger] self.move_buffer@[j]).time by {
                lemma_ordered_by_neighbours(self.move_buffer@, i, j);
            }
        }
        true
    }

    /// Records the input of one tick. A release is logged with the ticks
    /// since the press it ends, and only where that press is on record.
    pub fn record_input(&mut self, input: &InputSnapshot, current_frame: usize)
        requires
            old(self)@.no_later_than(current_frame),
        ensures
            final(self)@ == old(self)@.recorded(*input, current_frame),
            final(self)@.no_later_than(current_frame),
    {
        let dir = input.direction();
        if dir != self.last_dir {
            let last_dir = self.last_dir;
            if let Some(time) = self.find_last_pressed_dir(last_dir) {
                proof {
                    lemma_last_time_is_recorded(
                        self.move_buffer@,
                        |a: InputAction| a.kind == InputActionKind::PressDirection(last_dir),
                    );
                }
                self.move_buffer.push(
                    InputAction {
                        time: current_frame,
                        kind: InputActionKind::ReleaseDirection {
                            direction: last_dir,
                            duration: current_frame - time,
                        },
                    },
                );
            }
            self.move_buffer.push(
                InputAction { time: current_frame, kind: InputActionKind::PressDirection(dir) },
            );
            self.last_dir = dir;
        }
        self.record_button(Button::Punch, input.punch_pressed, input.punch_released, current_frame);
        self.record_button(Button::Kick, input.kick_pressed, input.kick_released, current_frame);
    }

    /// Records the edges of one button at a tick.
    pub fn record_button(
        &mut self,
        button: Button,
        pressed: bool,
        released: bool,
        current_frame: usize,
    )
        requires
            old(self)@.no_later_than(current_frame),
        ensures
            final(self)@.last_dir == old(self)@.last_dir,
            final(self)@.move_buffer == with_button_edges(
                old(self)@.move_buffer,
                button,
                pressed,
                released,
                current_frame,
            ),
            final(self)@.no_later_than(current_frame),
    {
        if pressed {
            self.move_buffer.push(
                InputAction { time: current_frame, kind: InputActionKind::PressButton(button) },
            );
        }
        if released {
            if let Some(time) = self.find_last_pressed_button(button) {
                proof {
                    lemma_last_time_is_recorded(
                        self.move_buffer@,
                        |a: InputAction| a.kind == InputActionKind::PressButton(button),
                    );
                }
                self.move_buffer.push(
                    InputAction {
                        time: current_frame,
                        kind: InputActionKind::ReleaseButton {
                            button,
                            duration: current_frame - time,
                        },
                    },
                );
            }
        }
    }

    /// Lookback window of the move matcher, in ticks.
    pub const BUFFER: usize = 5;

    /// The newest event that the predicate accepts. The log is searched
    /// from its newest event backwards, and the predicate is asked about
    /// no event that is older than the one returned.
    pub fn find_last<F: Fn(&InputAction) -> bool>(&self, predicate: F) -> (r: Option<&InputAction>)
        requires
            forall|i: int|
                0 <= i < self.move_buffer.len() ==> call_requires(
                    predicate,
                    (&#[trigger] self.move_buffer[i],),
                ),
        ensures
            match r {
                Some(found) => exists|i: int|
                    0 <= i < self.move_buffer.len() && *found == #[trigger] self.move_buffer[i]
                        && call_ensures(predicate, (&self.move_buffer[i],), true) && forall|j: int|
                        i < j < self.move_buffer.len() ==> call_ensures(
                            predicate,
                            (&#[trigger] self.move_buffer[j],),
                            false,
                        ),
                None => forall|j: int|
                    0 <= j < self.move_buffer.len() ==> call_ensures(
                        predicate,
                        (&#[trigger] self.move_buffer[j],),
                        false,
                    ),
            },
    {
        let mut i: usize = self.move_buffer.len();
        while i > 0
            invariant
                i <= self.move_buffer.len(),
                forall|k: int|
                    0 <= k < self.move_buffer.len() ==> call_requires(
                        predicate,
                        (&#[trigger] self.move_buffer[k],),
                    ),
                forall|j: int|
                    i <= j < self.move_buffer.len() ==> call_ensures(
                        predicate,
                        (&#[trigger] self.move_buffer[j],),
                        false,
                    ),
            decreases i,
        {
            i -= 1;
            let action = &self.move_buffer[i];
            if predicate(action) {
                assert(*action == self.move_buffer[i as int]);
                return Some(action);
            }
        }
        None
    }

    /// What the mapping gives for the newest event for which it gives
    /// anything. The log is searched from its newest event backwards.
    pub fn find_last_mapped<T, F: Fn(&InputAction) -> Option<T>>(&self, predicate: F) -> (r: Option<
        T,
    >)
        requires
            forall|i: int|
                0 <= i < self.move_buffer.len() ==> call_requires(
                    predicate,
                    (&#[trigger] self.move_buffer[i],),
                ),
        ensures
            match r {
                Some(found) => exists|i: int|
                    0 <= i < self.move_buffer.len() && call_ensures(
                        predicate,
                        (&#[trigger] self.move_buffer[i],),
                        Some(found),
                    ) && forall|j: int|
                        i < j < self.move_buffer.len() ==> call_ensures(
                            predicate,
                            (&#[trigger] self.move_buffer[j],),
                            None,
                        ),
                None => forall|j: int|
                    0 <= j < self.move_buffer.len() ==> call_ensures(
                        predicate,
                        (&#[trigger] self.move_buffer[j],),
                        None,
                    ),
            },
    {
        let mut i: usize = self.move_buffer.len();
        while i > 0
            invariant
                i <= self.move_buffer.len(),
                forall|k: int|
                    0 <= k < self.move_buffer.len() ==> call_requires(
                        predicate,
                        (&#[trigger] self.move_buffer[k],),
                    ),
                forall|j: int|
                    i <= j < self.move_buffer.len() ==> call_ensures(
                        predicate,
                        (&#[trigger] self.move_buffer[j],),
                        None,
                    ),
            decreases i,
        {
            i -= 1;
            let mapped = predicate(&self.move_buffer[i]);
            if mapped.is_some() {
                return mapped;
            }
        }
        None
    }

    /// Tick of the newest press of `dir`.
    pub fn find_last_pressed_dir(&self, dir: AbsoluteDirection) -> (r: Option<usize>)
        ensures
            r == last_pressed_dir(self@.move_buffer, dir),
    {
        let ghost wanted = |a: InputAction| a.kind == InputActionKind::PressDirection(dir);
        let pressed_at = |ia: &InputAction| -> (t: Option<usize>)
            ensures
                t == time_if(*ia, InputActionKind::PressDirection(dir)),
            { if ia.kind == InputActionKind::PressDirection(dir) { Some(ia.time) } else { None } };
        let found = self.find_last_mapped(pressed_at);
        proof {
            match found {
                Some(t) => {
                    let i = choose|i: int|
                        0 <= i < self.move_buffer.len() && wanted(#[trigger] self.move_buffer[i])
                            && self.move_buffer[i].time == t && forall|j: int|
                            i < j < self.move_buffer.len() ==> !wanted(
                                #[trigger] self.move_buffer[j],
                            );
                    lemma_last_time_at(self.move_buffer@, wanted, i);
                },
                None => {
                    lemma_last_time_none(self.move_buffer@, wanted);
                },
            }
        }
        found
    }

    /// Tick of the newest press of `btn`.
    pub fn find_last_pressed_button(&self, btn: Button) -> (r: Option<usize>)
        ensures
            r == last_pressed_button(self@.move_buffer, btn),
    {
        let ghost wanted = |a: InputAction| a.kind == InputActionKind::PressButton(btn);
        let pressed_at = |ia: &InputAction| -> (t: Option<usize>)
            ensures
                t == time_if(*ia, InputActionKind::PressButton(btn)),
            { if ia.kind == InputActionKind::PressButton(btn) { Some(ia.time) } else { None } };
        let found = self.find_last_mapped(pressed_at);
        proof {
            match found {
                Some(t) => {
                    let i = choose|i: int|
                        0 <= i < self.move_buffer.len() && wanted(#[trigger] self.move_buffer[i])
                            && self.move_buffer[i].time == t && forall|j: int|
                            i < j < self.move_buffer.len() ==> !wanted(
                                #[trigger] self.move_buffer[j],
                            );
                    lemma_last_time_at(self.move_buffer@, wanted, i);
                },
                None => {
                    lemma_last_time_none(self.move_buffer@, wanted);
                },
            }
        }
        found
    }
}

} // verus!
