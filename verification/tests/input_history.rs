use fighting_game::input_history::{InputAction, InputActionKind, InputHistory, InputSnapshot};
use fighting_game::direction::{AbsoluteDirection, FacingDirection};
use fighting_game::movelist::{Button, InputMatcher};

fn quiet() -> InputSnapshot {
    InputSnapshot {
        movement: None,
        punch_pressed: false,
        punch_released: false,
        kick_pressed: false,
        kick_released: false,
    }
}

fn press(button: Button, time: usize) -> InputAction {
    InputAction { time, kind: InputActionKind::PressButton(button) }
}

fn history_of(events: Vec<InputAction>) -> InputHistory {
    InputHistory { last_dir: AbsoluteDirection::Neutral, move_buffer: events }
}

#[test]
fn new_history_is_empty_and_neutral() {
    let history = InputHistory::default();
    assert_eq!(history.last_dir, AbsoluteDirection::Neutral);
    assert!(history.move_buffer.is_empty());
    assert_eq!(InputHistory::BUFFER, 5);
}

#[test]
fn snapshot_without_angle_is_neutral() {
    assert_eq!(quiet().direction(), AbsoluteDirection::Neutral);
    let held = InputSnapshot { movement: Some(1800), ..quiet() };
    assert_eq!(held.direction(), AbsoluteDirection::Left);
}

#[test]
fn first_direction_is_recorded_as_a_press_only() {
    let mut history = InputHistory::default();
    history.record_input(&InputSnapshot { movement: Some(0), ..quiet() }, 7);
    assert_eq!(
        history.move_buffer,
        vec![InputAction { time: 7, kind: InputActionKind::PressDirection(AbsoluteDirection::Right) }]
    );
    assert_eq!(history.last_dir, AbsoluteDirection::Right);
}

#[test]
fn held_direction_is_not_recorded_again() {
    let mut history = InputHistory::default();
    let held = InputSnapshot { movement: Some(0), ..quiet() };
    history.record_input(&held, 7);
    history.record_input(&held, 8);
    history.record_input(&held, 9);
    assert_eq!(history.move_buffer.len(), 1);
}

#[test]
fn change_of_direction_records_release_then_press() {
    let mut history = InputHistory::default();
    history.record_input(&InputSnapshot { movement: Some(0), ..quiet() }, 7);
    history.record_input(&InputSnapshot { movement: Some(900), ..quiet() }, 12);
    assert_eq!(
        history.move_buffer,
        vec![
            InputAction { time: 7, kind: InputActionKind::PressDirection(AbsoluteDirection::Right) },
            InputAction {
                time: 12,
                kind: InputActionKind::ReleaseDirection {
                    direction: AbsoluteDirection::Right,
                    duration: 5,
                },
            },
            InputAction { time: 12, kind: InputActionKind::PressDirection(AbsoluteDirection::Up) },
        ]
    );
    assert_eq!(history.last_dir, AbsoluteDirection::Up);
}

#[test]
fn letting_go_records_release_and_press_of_neutral() {
    let mut history = InputHistory::default();
    history.record_input(&InputSnapshot { movement: Some(1800), ..quiet() }, 3);
    history.record_input(&quiet(), 4);
    assert_eq!(
        history.move_buffer,
        vec![
            InputAction { time: 3, kind: InputActionKind::PressDirection(AbsoluteDirection::Left) },
            InputAction {
                time: 4,
                kind: InputActionKind::ReleaseDirection {
                    direction: AbsoluteDirection::Left,
                    duration: 1,
                },
            },
            InputAction { time: 4, kind: InputActionKind::PressDirection(AbsoluteDirection::Neutral) },
        ]
    );
    // Neutral was pressed at tick 4, so leaving it is a release as well.
    history.record_input(&InputSnapshot { movement: Some(0), ..quiet() }, 10);
    assert_eq!(
        history.move_buffer[3],
        InputAction {
            time: 10,
            kind: InputActionKind::ReleaseDirection {
                direction: AbsoluteDirection::Neutral,
                duration: 6,
            },
        }
    );
    assert_eq!(history.move_buffer.len(), 5);
}

#[test]
fn button_edges_are_recorded_in_order() {
    let mut history = InputHistory::default();
    history.record_input(&InputSnapshot { punch_pressed: true, kick_pressed: true, ..quiet() }, 2);
    history.record_input(&InputSnapshot { punch_released: true, ..quiet() }, 6);
    assert_eq!(
        history.move_buffer,
        vec![
            press(Button::Punch, 2),
            press(Button::Kick, 2),
            InputAction {
                time: 6,
                kind: InputActionKind::ReleaseButton { button: Button::Punch, duration: 4 },
            },
        ]
    );
}

#[test]
fn press_and_release_in_one_tick_give_a_release_of_no_duration() {
    let mut history = InputHistory::default();
    history.record_input(&InputSnapshot { kick_pressed: true, kick_released: true, ..quiet() }, 9);
    assert_eq!(
        history.move_buffer,
        vec![
            press(Button::Kick, 9),
            InputAction {
                time: 9,
                kind: InputActionKind::ReleaseButton { button: Button::Kick, duration: 0 },
            },
        ]
    );
}

#[test]
fn release_without_a_press_on_record_is_dropped() {
    let mut history = InputHistory::default();
    history.record_input(&InputSnapshot { punch_released: true, ..quiet() }, 5);
    assert!(history.move_buffer.is_empty());
    history.record_button(Button::Kick, false, true, 5);
    assert!(history.move_buffer.is_empty());
}

#[test]
fn direction_comes_before_punch_and_punch_before_kick() {
    let mut history = InputHistory::default();
    history.record_input(
        &InputSnapshot { movement: Some(2700), punch_pressed: true, kick_pressed: true, ..quiet() },
        1,
    );
    assert_eq!(
        history.move_buffer,
        vec![
            InputAction { time: 1, kind: InputActionKind::PressDirection(AbsoluteDirection::Down) },
            press(Button::Punch, 1),
            press(Button::Kick, 1),
        ]
    );
}

#[test]
fn find_last_returns_the_newest_match() {
    let history = history_of(vec![
        press(Button::Punch, 1),
        press(Button::Kick, 2),
        press(Button::Punch, 3),
        press(Button::Kick, 4),
    ]);
    let found = history.find_last(|action| action.kind == InputActionKind::PressButton(Button::Punch));
    assert_eq!(found, Some(&press(Button::Punch, 3)));
    assert_eq!(history.find_last(|action| action.time > 10), None);
    assert_eq!(history.find_last(|_| true), Some(&press(Button::Kick, 4)));
}

#[test]
fn find_last_mapped_returns_what_the_newest_match_maps_to() {
    let history = history_of(vec![press(Button::Punch, 1), press(Button::Kick, 2)]);
    let doubled = history.find_last_mapped(|action| {
        if action.kind == InputActionKind::PressButton(Button::Punch) {
            Some(action.time * 2)
        } else {
            None
        }
    });
    assert_eq!(doubled, Some(2));
    let none: Option<u8> = history.find_last_mapped(|_| None);
    assert_eq!(none, None);
    let empty = history_of(vec![]);
    assert_eq!(empty.find_last_mapped(|action| Some(action.time)), None);
}

#[test]
fn find_last_pressed_gives_the_tick_of_the_newest_press() {
    let history = history_of(vec![
        InputAction { time: 1, kind: InputActionKind::PressDirection(AbsoluteDirection::Left) },
        press(Button::Punch, 2),
        InputAction {
            time: 3,
            kind: InputActionKind::ReleaseDirection { direction: AbsoluteDirection::Left, duration: 2 },
        },
        InputAction { time: 3, kind: InputActionKind::PressDirection(AbsoluteDirection::Up) },
        press(Button::Punch, 5),
        InputAction { time: 8, kind: InputActionKind::PressDirection(AbsoluteDirection::Left) },
    ]);
    assert_eq!(history.find_last_pressed_dir(AbsoluteDirection::Left), Some(8));
    assert_eq!(history.find_last_pressed_dir(AbsoluteDirection::Up), Some(3));
    assert_eq!(history.find_last_pressed_dir(AbsoluteDirection::Down), None);
    assert_eq!(history.find_last_pressed_button(Button::Punch), Some(5));
    assert_eq!(history.find_last_pressed_button(Button::Kick), None);
}

#[test]
fn press_matches_for_five_ticks_after_it_and_no_longer() {
    let history = history_of(vec![press(Button::Punch, 10)]);
    let matcher = InputMatcher::Button(Button::Punch);
    for tick in 10..=15 {
        assert!(matcher.matches(&history, FacingDirection::Right, tick), "tick {}", tick);
    }
    for tick in 16..=40 {
        assert!(!matcher.matches(&history, FacingDirection::Right, tick), "tick {}", tick);
    }
}

#[test]
fn press_of_another_button_does_not_match() {
    let history = history_of(vec![press(Button::Kick, 10)]);
    assert!(!InputMatcher::Button(Button::Punch).matches(&history, FacingDirection::Left, 10));
    assert!(InputMatcher::Button(Button::Kick).matches(&history, FacingDirection::Left, 10));
    assert!(!InputMatcher::Button(Button::Kick).matches(&history_of(vec![]), FacingDirection::Left, 0));
}

#[test]
fn press_behind_newer_events_still_matches_inside_the_window() {
    let history = history_of(vec![
        press(Button::Punch, 10),
        press(Button::Kick, 11),
        InputAction { time: 12, kind: InputActionKind::PressDirection(AbsoluteDirection::Down) },
    ]);
    let matcher = InputMatcher::Button(Button::Punch);
    assert!(matcher.matches(&history, FacingDirection::Right, 15));
    assert!(!matcher.matches(&history, FacingDirection::Right, 16));
}

#[test]
fn scan_stops_at_the_first_stale_event() {
    // The newer of the two presses is the stale one: the log is out of
    // order, and the scan gives up before it reaches the press at tick 20.
    let history = history_of(vec![press(Button::Punch, 20), press(Button::Kick, 3)]);
    assert!(!InputMatcher::Button(Button::Punch).matches(&history, FacingDirection::Right, 21));
}
