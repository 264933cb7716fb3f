use fighting_game::animation::{Animation, Animator, Frame, Hitbox, Hitbox2, HitboxPos, HitboxType};
use fighting_game::character::{AnimationSet, CharacterBundle, CharacterState, Team};
use fighting_game::direction::AbsoluteDirection;
use fighting_game::effects::{apply_effects, Effect};
use fighting_game::fixedpoint::FixedPoint;
use fighting_game::input_history::{InputAction, InputActionKind, InputHistory, InputSnapshot};
use fighting_game::movelist::{Button, InputMatcher, Move, Movelist, StateMatcher};
use fighting_game::physics::{
    collisions_can_be_detected, overlap_can_be_tested, pair_can_be_tested, Collision,
};
use fighting_game::stages::advance_all;
use fighting_game::state_machine::Decision;
use fighting_game::vec2::Vec2;
use fighting_game::wellformed::{
    animations_are_well_formed, can_loop, entities_are_well_formed,
};

fn fx(value: i64) -> FixedPoint {
    FixedPoint::new_raw(value)
}

fn point(x: i64, y: i64) -> Vec2 {
    Vec2 { x: fx(x), y: fx(y) }
}

fn sheet(frames: Vec<Frame>) -> Animation {
    Animation {
        frames,
        hitboxes: vec![
            Hitbox { id: 4, tag: String::from("body"), is_hurtbox: true },
            Hitbox { id: 9, tag: String::from("fist"), is_hurtbox: false },
        ],
    }
}

fn cell(duration: usize, ids: Vec<usize>) -> Frame {
    Frame {
        duration,
        offset: point(0, 0),
        root_motion: point(0, 0),
        hitboxes: ids
            .into_iter()
            .map(|id| HitboxPos { id, pos: point(-8, 40), size: point(16, 40), enabled: true })
            .collect(),
    }
}

fn library() -> Vec<Animation> {
    vec![sheet(vec![cell(5, vec![4])]), sheet(vec![cell(0, vec![]), cell(2, vec![4, 9])])]
}

fn tap() -> Move {
    Move {
        name: String::from("Tap"),
        input_matcher: InputMatcher::Button(Button::Kick),
        valid_in_states: StateMatcher::idle(),
        to_state: CharacterState::Normal,
        animation: 1,
        effects: vec![Effect::Hitstun(2)],
    }
}

fn member(team: Team) -> CharacterBundle {
    let set = AnimationSet { idle: 0, walking_forward: 1, walking_forward_2: 1, walking_backward: 0 };
    CharacterBundle::new(fx(0), team, set, 0, Movelist { moves: vec![tap()] })
}

fn silence() -> InputSnapshot {
    InputSnapshot {
        movement: None,
        punch_pressed: false,
        punch_released: false,
        kick_pressed: false,
        kick_released: false,
    }
}

fn kick_at(time: usize) -> InputAction {
    InputAction { time, kind: InputActionKind::PressButton(Button::Kick) }
}

fn live(hitbox_type: HitboxType, offset: Vec2, size: Vec2) -> Hitbox2 {
    Hitbox2 { offset, size, tag: String::new(), hitbox_type }
}

#[test]
fn table_entries_are_found_by_id() {
    let animation = sheet(vec![cell(1, vec![])]);
    assert!(animation.has_entry(4));
    assert!(animation.has_entry(9));
    assert!(!animation.has_entry(0));
    assert!(!Animation { frames: vec![], hitboxes: vec![] }.has_entry(4));
}

#[test]
fn timed_frames_are_found() {
    assert!(sheet(vec![cell(0, vec![]), cell(1, vec![])]).has_timed_frame());
    assert!(!sheet(vec![cell(0, vec![]), cell(0, vec![])]).has_timed_frame());
    assert!(!sheet(vec![]).has_timed_frame());
}

#[test]
fn repeated_ids_are_found() {
    let mut animation = sheet(vec![cell(1, vec![])]);
    assert!(animation.has_distinct_ids());
    animation.hitboxes.push(Hitbox { id: 4, tag: String::from("again"), is_hurtbox: false });
    assert!(!animation.has_distinct_ids());
    animation.hitboxes.clear();
    assert!(animation.has_distinct_ids());
}

#[test]
fn placements_must_be_in_the_table_and_mirrorable() {
    let animation = sheet(vec![cell(1, vec![])]);
    let placed = |id, x, width| HitboxPos { id, pos: point(x, 0), size: point(width, 1), enabled: false };
    assert!(animation.accepts_placement(&placed(4, 5, 10)));
    assert!(!animation.accepts_placement(&placed(5, 5, 10)));
    // The offset of the mirrored box is minus the position, minus the width.
    assert!(!animation.accepts_placement(&placed(4, i64::MIN, 0)));
    assert!(animation.accepts_placement(&placed(4, i64::MIN + 1, 0)));
    assert!(!animation.accepts_placement(&placed(4, i64::MIN + 1, -1)));
    assert!(animation.accepts_placement(&placed(4, 0, i64::MAX)));
    assert!(animation.accepts_placement(&placed(4, -1, i64::MAX)));
    assert!(!animation.accepts_placement(&placed(4, 2, i64::MAX)));
}

#[test]
fn animations_are_checked_as_a_whole() {
    assert!(animations_are_well_formed(&library()));
    assert!(animations_are_well_formed(&vec![]));
    assert!(sheet(vec![cell(0, vec![4, 9, 4])]).is_well_formed());
    assert!(!sheet(vec![]).is_well_formed());
    assert!(!sheet(vec![cell(1, vec![4]), cell(1, vec![7])]).is_well_formed());
    let mut table = library();
    table[1].hitboxes[1].id = 4;
    assert!(!animations_are_well_formed(&table));
}

#[test]
fn looping_needs_a_timed_frame_of_an_animation_of_the_table() {
    let table = vec![sheet(vec![cell(0, vec![])]), sheet(vec![cell(3, vec![])])];
    assert!(!can_loop(&table, 0));
    assert!(can_loop(&table, 1));
    assert!(!can_loop(&table, 2));
}

#[test]
fn logs_must_be_ordered_and_not_from_the_future() {
    let log = |times: Vec<usize>| InputHistory {
        last_dir: AbsoluteDirection::Neutral,
        move_buffer: times.into_iter().map(kick_at).collect(),
    };
    assert!(log(vec![]).is_well_formed(0));
    assert!(log(vec![1, 1, 2, 5]).is_well_formed(5));
    assert!(!log(vec![1, 1, 2, 5]).is_well_formed(4));
    assert!(!log(vec![1, 3, 2]).is_well_formed(9));
    assert!(!log(vec![2, 1]).is_well_formed(9));
}

#[test]
fn combatants_are_checked_against_the_table() {
    let table = library();
    let entity = member(Team::Team1);
    assert!(entity.is_well_formed(&table, 0));
    assert!(entity.is_well_formed(&table, 7));
    assert!(entity.moves_are_animated(2));
    assert!(!entity.moves_are_animated(1));
    assert!(entity.names_combatants(0));

    let mut broken = member(Team::Team1);
    broken.animator.frame = 1;
    assert!(!broken.is_well_formed(&table, 0));
    let mut broken = member(Team::Team1);
    broken.animator.animation = 2;
    assert!(!broken.is_well_formed(&table, 0));
    let mut broken = member(Team::Team1);
    broken.character.animations.walking_backward = 2;
    assert!(!broken.is_well_formed(&table, 0));
    let mut broken = member(Team::Team1);
    broken.movelist.moves[0].animation = 2;
    assert!(!broken.is_well_formed(&table, 0));
    let mut broken = member(Team::Team1);
    broken.input_history.move_buffer.push(kick_at(3));
    assert!(!broken.is_well_formed(&table, 2));
    assert!(broken.is_well_formed(&table, 3));

    // An animation without a timed frame may be played once, but not in a loop.
    let untimed = vec![sheet(vec![cell(1, vec![])]), sheet(vec![cell(1, vec![])]), sheet(vec![cell(0, vec![])])];
    let mut once = member(Team::Team1);
    once.animator = Animator {
        animation: 2,
        frame: 0,
        just_changed_animation: false,
        last_frame_change: 0,
        idle_after_animation: true,
    };
    assert!(once.is_well_formed(&untimed, 0));
    once.animator.idle_after_animation = false;
    assert!(!once.is_well_formed(&untimed, 0));
}

#[test]
fn pending_collisions_must_name_combatants_of_the_list() {
    let table = library();
    let mut entities = vec![member(Team::Team1), member(Team::Team2)];
    assert!(entities_are_well_formed(&entities, &table, 0));
    entities[0].collisions.collisions =
        vec![Collision { other_entity: 1, other_team: Team::Team2, did_the_hitting: false }];
    assert!(entities[0].names_combatants(2));
    assert!(!entities[0].names_combatants(1));
    assert!(entities_are_well_formed(&entities, &table, 0));
    entities[0].collisions.collisions[0].other_entity = 2;
    assert!(!entities_are_well_formed(&entities, &table, 0));
}

#[test]
fn overlap_test_needs_its_sums_to_fit() {
    let hit = |offset, size| live(HitboxType::Hitbox, offset, size);
    let hurt = |offset, size| live(HitboxType::Hurtbox, offset, size);
    let origin = point(0, 0);
    assert!(overlap_can_be_tested(origin, &hit(origin, point(1, 1)), origin, &hurt(origin, point(1, 1))));
    // The position of the first box cannot be held.
    assert!(!overlap_can_be_tested(point(i64::MAX, 0), &hit(point(1, 0), origin), origin, &hurt(origin, origin)));
    // The right edge of the second box cannot be held.
    assert!(!overlap_can_be_tested(origin, &hit(origin, origin), point(i64::MAX, 0), &hurt(origin, point(1, 0))));
    // The right edge of the first box is asked for only if its left edge lies left of that of the other.
    assert!(!overlap_can_be_tested(point(1, 0), &hit(origin, point(i64::MAX, 0)), point(1, 0), &hurt(origin, point(1, 0))));
    assert!(overlap_can_be_tested(point(5, 0), &hit(origin, point(i64::MAX, 0)), point(1, 0), &hurt(origin, point(1, 0))));
    // The bottom edge of the second box is asked for only if the boxes overlap horizontally.
    let tall = hurt(point(0, i64::MIN), point(1, 1));
    assert!(!overlap_can_be_tested(origin, &hit(origin, point(1, 1)), origin, &tall));
    assert!(overlap_can_be_tested(point(5, 0), &hit(origin, point(1, 1)), origin, &tall));
}

#[test]
fn pairs_of_one_type_need_no_sums() {
    let far = live(HitboxType::Hurtbox, point(i64::MAX, i64::MAX), point(i64::MAX, i64::MAX));
    let mut first = member(Team::Team1);
    let mut second = member(Team::Team2);
    first.position = point(i64::MAX, i64::MAX);
    first.hitboxes.hitboxes = vec![far.clone()];
    second.hitboxes.hitboxes = vec![far.clone()];
    assert!(pair_can_be_tested(&first, &second));
    assert!(collisions_can_be_detected(&vec![first.clone(), second.clone()]));
    second.hitboxes.hitboxes.push(live(HitboxType::Hitbox, point(0, 0), point(1, 1)));
    assert!(!pair_can_be_tested(&first, &second));
    assert!(!collisions_can_be_detected(&vec![member(Team::Neutral), first, second]));
}

#[test]
fn effects_are_checked_against_the_health_and_the_facing() {
    let mut entity = member(Team::Team1);
    entity.health.value = fx(i64::MIN + 10);
    assert!(entity.effect_can_be_applied(Effect::Damage(fx(10)), false));
    assert!(!entity.effect_can_be_applied(Effect::Damage(fx(11)), false));
    // Blocked, the damage is the fifth part, rounded down: 65536 * 13107 / 65536.
    assert!(entity.effect_can_be_applied(Effect::Damage(fx(50)), true));
    assert!(!entity.effect_can_be_applied(Effect::Damage(fx(65536)), true));
    assert!(!entity.effect_can_be_applied(Effect::Damage(fx(i64::MAX / 13107 + 1)), true));
    assert!(entity.effect_can_be_applied(Effect::Hitstun(usize::MAX), false));
    assert!(entity.effect_can_be_applied(Effect::Blockstun(usize::MAX), true));
    // One that faces Right is pushed by minus the pushback.
    assert!(entity.effect_can_be_applied(Effect::Pushback(fx(i64::MAX / 65536)), false));
    assert!(entity.effect_can_be_applied(Effect::Pushback(fx(i64::MAX / 65536 + 1)), false));
    assert!(!entity.effect_can_be_applied(Effect::Pushback(fx(i64::MAX / 65536 + 2)), false));
    assert!(entity.effect_can_be_applied(Effect::Pushback(fx(i64::MIN / 65536 + 1)), false));
    assert!(!entity.effect_can_be_applied(Effect::Pushback(fx(i64::MIN / 65536)), false));
}

#[test]
fn state_machine_refuses_a_stun_that_cannot_be_damped() {
    let mut entity = member(Team::Team1);
    entity.character.just_transitioned = false;
    entity.character.state = CharacterState::Blockstun(1);
    entity.velocity.x = fx(i64::MIN / 58982 - 1);
    let before = entity.clone();
    assert!(!entity.try_state_manager(0));
    assert_eq!(entity, before);
    entity.character.state = CharacterState::Blockstun(0);
    assert!(entity.try_state_manager(0));
    assert_eq!(entity.character.state, CharacterState::Idle);
    assert_eq!(entity.velocity.x, fx(0));
}

#[test]
fn motion_is_refused_when_the_position_cannot_be_held() {
    let mut entity = member(Team::Team1);
    entity.position.x = fx(i64::MIN);
    entity.velocity.x = fx(-1);
    let before = entity.clone();
    assert!(!entity.try_integrate());
    assert_eq!(entity, before);
    entity.velocity.x = fx(0);
    assert!(entity.try_integrate());
    assert_eq!(entity.position.x, fx(-6553600));
}

#[test]
fn decision_is_taken_before_anything_changes() {
    let mut entity = member(Team::Team1);
    entity.input_history.move_buffer.push(kick_at(4));
    let before = entity.clone();
    let decision = entity.decide(4);
    assert_eq!(entity, before);
    assert_eq!(decision, Decision { state: CharacterState::Normal, pending: true, fired: Some(0) });
    entity.settle(decision, 4);
    assert_eq!(entity.character.state, CharacterState::Normal);
    assert_eq!(entity.animator.animation, 1);
    assert_eq!(entity.character.current_move_on_hit, Some(vec![Effect::Hitstun(2)]));

    let mut calm = member(Team::Team1);
    calm.character.just_transitioned = false;
    assert_eq!(calm.decide(4), Decision { state: CharacterState::Idle, pending: false, fired: None });
}

#[test]
fn own_part_of_a_tick_runs_its_stages_in_order() {
    let table = library();
    let mut entity = member(Team::Team1);
    let input = InputSnapshot { movement: Some(900), kick_pressed: true, ..silence() };
    let mut staged = entity.clone();
    staged.ingest(&input, 0);
    assert_eq!(staged.character.input_dir, AbsoluteDirection::Up);
    assert_eq!(entity.character.input_dir, AbsoluteDirection::Neutral);
    assert_eq!(staged.input_history.move_buffer.len(), 2);
    staged.state_manager(0);
    staged.integrate();
    let playing = table[staged.animator.animation].clone();
    staged.animate(&playing, 0);
    entity.advance(&input, &table, 0);
    assert_eq!(entity, staged);
    assert_eq!(entity.character.state, CharacterState::Normal);
    // The first frame of the move has no duration, so its second frame is shown at once.
    assert_eq!(entity.animator.frame, 1);
    assert_eq!(entity.hitboxes.hitboxes.len(), 2);

    let mut entities = vec![member(Team::Team1), member(Team::Team2)];
    advance_all(&mut entities, &vec![input, silence()], &table, 0);
    assert_eq!(entities[0], staged);
    assert_eq!(entities[1].character.state, CharacterState::Idle);
    assert_eq!(entities[1].hitboxes.hitboxes.len(), 1);
}

#[test]
fn queued_effects_of_all_combatants_are_applied() {
    let mut entities = vec![member(Team::Team1), member(Team::Team2)];
    entities[0].effects.effects = vec![Effect::Damage(fx(3))];
    entities[1].effects.effects = vec![Effect::Hitstun(3), Effect::Damage(fx(4))];
    apply_effects(&mut entities);
    assert_eq!(entities[0].health.value, fx(6553597));
    assert_eq!(entities[1].health.value, fx(6553596));
    assert_eq!(entities[1].character.state, CharacterState::Hitstun(3));
    assert!(entities[0].effects.effects.is_empty());
    assert!(entities[1].effects.effects.is_empty());
}
