use fighting_game::animation::{Animator, Hitboxes};
use fighting_game::character::{
    AnimationSet, Character, CharacterBundle, CharacterState, Health, Team,
};
use fighting_game::input_history::{InputAction, InputActionKind, InputHistory};
use fighting_game::direction::{AbsoluteDirection, FacingDirection};
use fighting_game::effects::{Effect, Effects};
use fighting_game::fixedpoint::FixedPoint;
use fighting_game::movelist::{Button, InputMatcher, Move, Movelist, StateMatcher};
use fighting_game::physics::Collisions;
use fighting_game::vec2::Vec2;

const IDLE: usize = 0;
const WALK: usize = 1;
const WALK_2: usize = 2;
const BACK: usize = 3;
const PUNCH: usize = 4;
const KICK: usize = 5;

fn raw(value: i64) -> FixedPoint {
    FixedPoint::new_raw(value)
}

fn jab() -> Move {
    Move {
        name: String::from("Jab"),
        input_matcher: InputMatcher::Button(Button::Punch),
        valid_in_states: StateMatcher::all(),
        to_state: CharacterState::Normal,
        animation: PUNCH,
        effects: vec![
            Effect::Damage(raw(655360)),
            Effect::Hitstun(21),
            Effect::Blockstun(15),
            Effect::Pushback(raw(52428)),
        ],
    }
}

fn fighter(state: CharacterState, input_dir: AbsoluteDirection, facing: FacingDirection) -> CharacterBundle {
    CharacterBundle {
        character: Character {
            facing,
            state,
            just_transitioned: false,
            animations: AnimationSet {
                idle: IDLE,
                walking_forward: WALK,
                walking_forward_2: WALK_2,
                walking_backward: BACK,
            },
            new_anim: false,
            input_dir,
            current_move_on_hit: None,
        },
        input_history: InputHistory::default(),
        position: Vec2 { x: raw(0), y: raw(0) },
        velocity: Vec2 { x: raw(0), y: raw(0) },
        animator: Animator {
            animation: IDLE,
            frame: 1,
            just_changed_animation: false,
            last_frame_change: 2,
            idle_after_animation: false,
        },
        movelist: Movelist { moves: vec![jab()] },
        hitboxes: Hitboxes { hitboxes: vec![] },
        collisions: Collisions { collisions: vec![] },
        effects: Effects { effects: vec![] },
        team: Team::Team1,
        health: Health { value: raw(6553600) },
    }
}

fn untouched_animator() -> Animator {
    Animator {
        animation: IDLE,
        frame: 1,
        just_changed_animation: false,
        last_frame_change: 2,
        idle_after_animation: false,
    }
}

fn looping(animation: usize, tick: usize) -> Animator {
    Animator {
        animation,
        frame: 0,
        just_changed_animation: true,
        last_frame_change: tick,
        idle_after_animation: false,
    }
}

#[test]
fn stun_counts_down_and_ends_in_idle() {
    assert_eq!(CharacterState::Hitstun(21).counted_down(), CharacterState::Hitstun(20));
    assert_eq!(CharacterState::Hitstun(1).counted_down(), CharacterState::Hitstun(0));
    assert_eq!(CharacterState::Hitstun(0).counted_down(), CharacterState::Idle);
    assert_eq!(CharacterState::Blockstun(15).counted_down(), CharacterState::Blockstun(14));
    assert_eq!(CharacterState::Blockstun(0).counted_down(), CharacterState::Idle);
    for state in [
        CharacterState::Idle,
        CharacterState::MovingForward,
        CharacterState::MovingBackward,
        CharacterState::Normal,
    ] {
        assert_eq!(state.counted_down(), state);
    }
}

#[test]
fn movement_transitions_follow_the_table() {
    let (right, left, neutral) =
        (AbsoluteDirection::Right, AbsoluteDirection::Left, AbsoluteDirection::Neutral);
    let (up, down) = (AbsoluteDirection::Up, AbsoluteDirection::Down);
    let idle = CharacterState::Idle;
    let forward = CharacterState::MovingForward;
    let backward = CharacterState::MovingBackward;
    assert_eq!(idle.moved(right), Some(forward));
    assert_eq!(idle.moved(left), Some(backward));
    assert_eq!(idle.moved(neutral), None);
    assert_eq!(idle.moved(up), None);
    assert_eq!(forward.moved(left), Some(backward));
    assert_eq!(forward.moved(neutral), Some(idle));
    assert_eq!(forward.moved(right), None);
    assert_eq!(forward.moved(down), None);
    assert_eq!(backward.moved(right), Some(forward));
    assert_eq!(backward.moved(neutral), Some(idle));
    assert_eq!(backward.moved(left), None);
    for direction in [right, left, neutral, up, down] {
        assert_eq!(CharacterState::Normal.moved(direction), None);
        assert_eq!(CharacterState::Hitstun(3).moved(direction), None);
        assert_eq!(CharacterState::Blockstun(3).moved(direction), None);
    }
}

#[test]
fn state_matchers_admit_their_states_only() {
    let states = [
        CharacterState::Idle,
        CharacterState::MovingForward,
        CharacterState::MovingBackward,
        CharacterState::Normal,
        CharacterState::Hitstun(0),
        CharacterState::Blockstun(7),
    ];
    let expected = [
        (StateMatcher::idle(), [true, false, false, false, false, false]),
        (StateMatcher::forward(), [false, true, false, false, false, false]),
        (StateMatcher::backward(), [false, false, true, false, false, false]),
        (StateMatcher::all(), [true, true, true, false, false, false]),
    ];
    for (matcher, answers) in expected {
        for (state, answer) in states.iter().zip(answers) {
            assert_eq!(matcher.matches(*state), answer);
        }
    }
}

#[test]
fn canonical_animations_follow_the_state() {
    let set = AnimationSet { idle: 10, walking_forward: 11, walking_forward_2: 12, walking_backward: 13 };
    assert_eq!(set.animation_for(CharacterState::Idle, false), 10);
    assert_eq!(set.animation_for(CharacterState::Idle, true), 10);
    assert_eq!(set.animation_for(CharacterState::MovingForward, false), 11);
    assert_eq!(set.animation_for(CharacterState::MovingForward, true), 12);
    assert_eq!(set.animation_for(CharacterState::MovingBackward, true), 13);
    assert_eq!(set.animation_for(CharacterState::Hitstun(4), false), 10);
    assert_eq!(set.animation_for(CharacterState::Blockstun(4), true), 10);
}

#[test]
fn idle_with_input_to_the_front_walks_forward() {
    let mut entity = fighter(CharacterState::Idle, AbsoluteDirection::Right, FacingDirection::Right);
    entity.state_manager(9);
    assert_eq!(entity.character.state, CharacterState::MovingForward);
    assert!(!entity.character.just_transitioned);
    assert_eq!(entity.animator, looping(WALK, 9));
    assert_eq!(entity.velocity, Vec2 { x: raw(65536), y: raw(0) });
}

#[test]
fn input_is_seen_relative_to_the_facing() {
    let mut entity = fighter(CharacterState::Idle, AbsoluteDirection::Right, FacingDirection::Left);
    entity.state_manager(9);
    assert_eq!(entity.character.state, CharacterState::MovingBackward);
    assert_eq!(entity.animator, looping(BACK, 9));
    // Backward for one that faces Left is to the right.
    assert_eq!(entity.velocity.x, raw(65536));

    let mut entity = fighter(CharacterState::Idle, AbsoluteDirection::Left, FacingDirection::Left);
    entity.state_manager(9);
    assert_eq!(entity.character.state, CharacterState::MovingForward);
    assert_eq!(entity.velocity.x, raw(-65536));
}

#[test]
fn alternate_walk_animation_is_chosen_by_the_flag() {
    let mut entity = fighter(CharacterState::Idle, AbsoluteDirection::Right, FacingDirection::Right);
    entity.character.new_anim = true;
    entity.state_manager(4);
    assert_eq!(entity.animator, looping(WALK_2, 4));
}

#[test]
fn walking_forward_without_input_goes_idle() {
    let mut entity =
        fighter(CharacterState::MovingForward, AbsoluteDirection::Neutral, FacingDirection::Right);
    entity.velocity.x = raw(65536);
    entity.state_manager(3);
    assert_eq!(entity.character.state, CharacterState::Idle);
    assert_eq!(entity.animator, looping(IDLE, 3));
    assert_eq!(entity.velocity.x, raw(0));
}

#[test]
fn held_direction_keeps_the_state_and_the_animator() {
    let mut entity =
        fighter(CharacterState::MovingForward, AbsoluteDirection::Right, FacingDirection::Right);
    entity.state_manager(3);
    assert_eq!(entity.character.state, CharacterState::MovingForward);
    assert_eq!(entity.animator, untouched_animator());
    assert_eq!(entity.velocity.x, raw(65536));
}

#[test]
fn idle_without_input_changes_nothing() {
    let mut entity = fighter(CharacterState::Idle, AbsoluteDirection::Neutral, FacingDirection::Right);
    entity.state_manager(3);
    assert_eq!(entity.character.state, CharacterState::Idle);
    assert_eq!(entity.animator, untouched_animator());
    assert_eq!(entity.velocity, Vec2 { x: raw(0), y: raw(0) });
    assert_eq!(entity.character.current_move_on_hit, None);
}

#[test]
fn pending_transition_starts_the_animation_of_the_state() {
    let mut entity = fighter(CharacterState::Idle, AbsoluteDirection::Neutral, FacingDirection::Right);
    entity.character.just_transitioned = true;
    entity.animator.idle_after_animation = true;
    entity.state_manager(30);
    assert_eq!(entity.animator, looping(IDLE, 30));
    assert!(!entity.character.just_transitioned);
}

#[test]
fn hitstun_counts_down_by_one_and_damps_the_velocity() {
    let mut entity =
        fighter(CharacterState::Hitstun(21), AbsoluteDirection::Right, FacingDirection::Left);
    entity.velocity.x = raw(52428);
    entity.character.just_transitioned = true;
    entity.input_history.move_buffer.push(InputAction { time: 5, kind: InputActionKind::PressButton(Button::Punch) });
    entity.state_manager(5);
    assert_eq!(entity.character.state, CharacterState::Hitstun(20));
    // 52428 * 58982 = 3092308296, and 3092308296 / 65536 = 47184.88...
    assert_eq!(entity.velocity.x, raw(47184));
    assert_eq!(entity.animator, looping(IDLE, 5));
    assert_eq!(entity.character.current_move_on_hit, None);
    entity.state_manager(6);
    assert_eq!(entity.character.state, CharacterState::Hitstun(19));
    // 47184 * 58982 = 2783006688, and 2783006688 / 65536 = 42465.31...
    assert_eq!(entity.velocity.x, raw(42465));
}

#[test]
fn negative_velocity_is_damped_toward_negative_infinity() {
    let mut entity =
        fighter(CharacterState::Blockstun(3), AbsoluteDirection::Neutral, FacingDirection::Right);
    entity.velocity.x = raw(-52428);
    entity.state_manager(5);
    assert_eq!(entity.character.state, CharacterState::Blockstun(2));
    assert_eq!(entity.velocity.x, raw(-47185));
}

#[test]
fn spent_hitstun_ends_in_idle() {
    let mut entity =
        fighter(CharacterState::Hitstun(0), AbsoluteDirection::Neutral, FacingDirection::Right);
    entity.velocity.x = raw(1000);
    entity.state_manager(5);
    assert_eq!(entity.character.state, CharacterState::Idle);
    assert_eq!(entity.velocity.x, raw(0));
    // The end of a stun is no transition of its own: the animator is left alone.
    assert_eq!(entity.animator, untouched_animator());
}

#[test]
fn spent_blockstun_moves_on_in_the_same_tick() {
    let mut entity =
        fighter(CharacterState::Blockstun(0), AbsoluteDirection::Right, FacingDirection::Right);
    entity.state_manager(5);
    assert_eq!(entity.character.state, CharacterState::MovingForward);
    assert_eq!(entity.animator, looping(WALK, 5));
}

#[test]
fn move_fires_on_a_press_inside_the_window() {
    let mut entity = fighter(CharacterState::Idle, AbsoluteDirection::Right, FacingDirection::Right);
    entity.input_history.move_buffer.push(InputAction { time: 10, kind: InputActionKind::PressButton(Button::Punch) });
    entity.state_manager(15);
    // The move overrides the movement transition of the same tick.
    assert_eq!(entity.character.state, CharacterState::Normal);
    assert!(!entity.character.just_transitioned);
    assert_eq!(entity.character.current_move_on_hit, Some(jab().effects));
    assert_eq!(
        entity.animator,
        Animator {
            animation: PUNCH,
            frame: 0,
            just_changed_animation: true,
            last_frame_change: 15,
            idle_after_animation: true,
        }
    );
    assert_eq!(entity.velocity.x, raw(0));
}

#[test]
fn move_does_not_fire_after_the_window() {
    let mut entity = fighter(CharacterState::Idle, AbsoluteDirection::Neutral, FacingDirection::Right);
    entity.input_history.move_buffer.push(InputAction { time: 10, kind: InputActionKind::PressButton(Button::Punch) });
    entity.state_manager(16);
    assert_eq!(entity.character.state, CharacterState::Idle);
    assert_eq!(entity.character.current_move_on_hit, None);
    assert_eq!(entity.animator, untouched_animator());
}

#[test]
fn move_does_not_fire_from_normal_or_stun() {
    for state in [CharacterState::Normal, CharacterState::Hitstun(4), CharacterState::Blockstun(4)] {
        let mut entity = fighter(state, AbsoluteDirection::Neutral, FacingDirection::Right);
        entity.input_history.move_buffer.push(InputAction { time: 10, kind: InputActionKind::PressButton(Button::Punch) });
        entity.state_manager(10);
        assert_eq!(entity.character.state, state.counted_down());
        assert_eq!(entity.character.current_move_on_hit, None);
    }
}

#[test]
fn copied_effects_do_not_follow_the_move() {
    let mut entity = fighter(CharacterState::Idle, AbsoluteDirection::Neutral, FacingDirection::Right);
    entity.input_history.move_buffer.push(InputAction { time: 1, kind: InputActionKind::PressButton(Button::Punch) });
    entity.state_manager(1);
    entity.movelist.moves[0].effects.clear();
    assert_eq!(entity.character.current_move_on_hit, Some(jab().effects));
}

#[test]
fn first_of_two_moves_wins_when_both_lead_to_normal() {
    let mut entity = fighter(CharacterState::Idle, AbsoluteDirection::Neutral, FacingDirection::Right);
    let mut second = jab();
    second.name = String::from("Strong");
    second.animation = KICK;
    second.effects = vec![Effect::Damage(raw(131072))];
    entity.movelist.moves.push(second);
    entity.input_history.move_buffer.push(InputAction { time: 1, kind: InputActionKind::PressButton(Button::Punch) });
    entity.state_manager(1);
    assert_eq!(entity.animator.animation, PUNCH);
    assert_eq!(entity.character.current_move_on_hit, Some(jab().effects));
}

#[test]
fn later_move_overrides_when_the_first_leads_to_a_movement_state() {
    let mut entity = fighter(CharacterState::Idle, AbsoluteDirection::Neutral, FacingDirection::Right);
    let mut first = jab();
    first.to_state = CharacterState::MovingForward;
    first.valid_in_states = StateMatcher::idle();
    let mut second = jab();
    second.input_matcher = InputMatcher::Button(Button::Kick);
    second.valid_in_states = StateMatcher::forward();
    second.animation = KICK;
    second.effects = vec![Effect::Hitstun(3)];
    entity.movelist = Movelist { moves: vec![first, second] };
    entity.input_history.move_buffer.push(InputAction { time: 1, kind: InputActionKind::PressButton(Button::Punch) });
    entity.input_history.move_buffer.push(InputAction { time: 1, kind: InputActionKind::PressButton(Button::Kick) });
    entity.state_manager(1);
    // The second move is tried against the state that the first has left.
    assert_eq!(entity.character.state, CharacterState::Normal);
    assert_eq!(entity.animator.animation, KICK);
    assert_eq!(entity.character.current_move_on_hit, Some(vec![Effect::Hitstun(3)]));
}

#[test]
fn new_fighter_is_idle_with_full_health() {
    let set = AnimationSet { idle: IDLE, walking_forward: WALK, walking_forward_2: WALK_2, walking_backward: BACK };
    let entity = CharacterBundle::new(raw(-50 * 65536), Team::Team2, set, WALK_2, Movelist { moves: vec![jab()] });
    assert_eq!(entity.character.state, CharacterState::Idle);
    assert_eq!(entity.character.facing, FacingDirection::Right);
    assert!(entity.character.just_transitioned);
    assert!(entity.character.new_anim);
    assert_eq!(entity.character.input_dir, AbsoluteDirection::Neutral);
    assert_eq!(entity.character.current_move_on_hit, None);
    assert_eq!(entity.character.animations, set);
    assert_eq!(entity.position, Vec2 { x: raw(-3276800), y: raw(0) });
    assert_eq!(entity.velocity, Vec2 { x: raw(0), y: raw(0) });
    assert_eq!(entity.health, Health { value: raw(6553600) });
    assert_eq!(entity.team, Team::Team2);
    assert_eq!(entity.animator, looping(WALK_2, 0));
    assert!(entity.input_history.move_buffer.is_empty());
    assert!(entity.hitboxes.hitboxes.is_empty());
    assert!(entity.collisions.collisions.is_empty());
    assert!(entity.effects.effects.is_empty());
    assert_eq!(entity.movelist.moves.len(), 1);
    assert_eq!(CharacterState::default(), CharacterState::Idle);
}

#[test]
fn moves_are_tried_against_the_state_after_the_movement_transition() {
    let mut entity = fighter(CharacterState::Idle, AbsoluteDirection::Right, FacingDirection::Right);
    entity.movelist.moves[0].valid_in_states = StateMatcher::idle();
    entity.input_history.move_buffer.push(InputAction { time: 1, kind: InputActionKind::PressButton(Button::Punch) });
    entity.state_manager(1);
    // The combatant walks by the time the move is tried, so a move from Idle does not fire.
    assert_eq!(entity.character.state, CharacterState::MovingForward);
    assert_eq!(entity.character.current_move_on_hit, None);
}
