use fighting_game::character::{AnimationSet, CharacterBundle, CharacterState, Team};
use fighting_game::direction::FacingDirection;
use fighting_game::effects::{copy_effects, Effect};
use fighting_game::fixedpoint::FixedPoint;
use fighting_game::movelist::Movelist;

fn raw(value: i64) -> FixedPoint {
    FixedPoint::new_raw(value)
}

fn jab_effects() -> Vec<Effect> {
    vec![
        Effect::Damage(raw(655360)),
        Effect::Hitstun(21),
        Effect::Blockstun(15),
        Effect::Pushback(raw(52428)),
    ]
}

fn defender(state: CharacterState, facing: FacingDirection) -> CharacterBundle {
    let set = AnimationSet { idle: 0, walking_forward: 0, walking_forward_2: 0, walking_backward: 0 };
    let mut entity = CharacterBundle::new(raw(0), Team::Team2, set, 0, Movelist { moves: vec![] });
    entity.character.just_transitioned = false;
    entity.character.state = state;
    entity.character.facing = facing;
    entity
}

#[test]
fn copy_of_effects_is_equal_and_independent() {
    let source = jab_effects();
    let mut copy = copy_effects(&source);
    assert_eq!(copy, source);
    copy.pop();
    assert_eq!(source.len(), 4);
    assert!(copy_effects(&vec![]).is_empty());
}

#[test]
fn unblocked_hit_takes_full_damage_and_stuns() {
    let mut entity = defender(CharacterState::Idle, FacingDirection::Left);
    entity.effects.effects = jab_effects();
    entity.apply_effects();
    assert_eq!(entity.health.value, raw(6553600 - 655360));
    assert_eq!(entity.health.value, raw(90 * 65536));
    assert_eq!(entity.character.state, CharacterState::Hitstun(21));
    assert!(entity.character.just_transitioned);
    // One that faces Left is pushed to the right.
    assert_eq!(entity.velocity.x, raw(52428));
    assert_eq!(entity.velocity.y, raw(0));
    assert!(entity.effects.effects.is_empty());
}

#[test]
fn pushback_goes_against_the_facing() {
    let mut entity = defender(CharacterState::Idle, FacingDirection::Right);
    entity.effects.effects = jab_effects();
    entity.apply_effects();
    assert_eq!(entity.velocity.x, raw(-52428));
}

#[test]
fn blocked_hit_takes_a_fifth_and_blockstuns() {
    let mut entity = defender(CharacterState::MovingBackward, FacingDirection::Left);
    entity.effects.effects = jab_effects();
    entity.apply_effects();
    // 655360 * 13107 = 8589803520, and 8589803520 / 65536 = 131070.
    assert_eq!(entity.health.value, raw(6553600 - 131070));
    assert_eq!(entity.character.state, CharacterState::Blockstun(15));
    assert!(entity.character.just_transitioned);
    assert_eq!(entity.velocity.x, raw(52428));
}

#[test]
fn hit_during_blockstun_is_blocked() {
    let mut entity = defender(CharacterState::Blockstun(2), FacingDirection::Right);
    entity.effects.effects = jab_effects();
    entity.apply_effects();
    assert_eq!(entity.health.value, raw(6553600 - 131070));
    assert_eq!(entity.character.state, CharacterState::Blockstun(15));
}

#[test]
fn hit_during_a_move_or_a_hitstun_is_not_blocked() {
    for state in [CharacterState::Normal, CharacterState::Hitstun(3), CharacterState::MovingForward] {
        let mut entity = defender(state, FacingDirection::Right);
        entity.effects.effects = jab_effects();
        entity.apply_effects();
        assert_eq!(entity.health.value, raw(6553600 - 655360));
        assert_eq!(entity.character.state, CharacterState::Hitstun(21));
    }
}

#[test]
fn blocking_is_settled_before_the_first_effect() {
    // The hitstun takes the combatant out of no block: the second damage is full as well.
    let mut entity = defender(CharacterState::Idle, FacingDirection::Right);
    entity.effects.effects =
        vec![Effect::Hitstun(5), Effect::Blockstun(9), Effect::Damage(raw(65536))];
    entity.apply_effects();
    assert_eq!(entity.character.state, CharacterState::Hitstun(5));
    assert_eq!(entity.health.value, raw(6553600 - 65536));
    // The blockstun leaves the block in force for what follows in the same tick.
    let mut entity = defender(CharacterState::MovingBackward, FacingDirection::Right);
    entity.effects.effects =
        vec![Effect::Blockstun(9), Effect::Hitstun(5), Effect::Damage(raw(65536))];
    entity.apply_effects();
    assert_eq!(entity.character.state, CharacterState::Blockstun(9));
    assert_eq!(entity.health.value, raw(6553600 - 13107));
}

#[test]
fn effects_apply_in_order() {
    let mut entity = defender(CharacterState::Idle, FacingDirection::Right);
    entity.effects.effects = vec![
        Effect::Pushback(raw(100)),
        Effect::Hitstun(1),
        Effect::Pushback(raw(200)),
        Effect::Hitstun(2),
        Effect::Damage(raw(10)),
        Effect::Damage(raw(20)),
    ];
    entity.apply_effects();
    assert_eq!(entity.velocity.x, raw(-200));
    assert_eq!(entity.character.state, CharacterState::Hitstun(2));
    assert_eq!(entity.health.value, raw(6553600 - 30));
}

#[test]
fn health_is_not_held_at_zero() {
    let mut entity = defender(CharacterState::Idle, FacingDirection::Right);
    entity.health.value = raw(65536);
    entity.effects.effects = vec![Effect::Damage(raw(655360))];
    entity.apply_effects();
    assert_eq!(entity.health.value, raw(-589824));
}

#[test]
fn negative_damage_is_blocked_toward_negative_infinity() {
    let mut entity = defender(CharacterState::MovingBackward, FacingDirection::Right);
    entity.apply_effect(Effect::Damage(raw(-1)), true);
    // -1 * 13107 / 65536 rounds down to -1, so the health goes up by one raw unit.
    assert_eq!(entity.health.value, raw(6553601));
}

#[test]
fn no_effects_change_nothing() {
    let mut entity = defender(CharacterState::MovingForward, FacingDirection::Right);
    let before = entity.clone();
    entity.apply_effects();
    assert_eq!(entity, before);
}

#[test]
fn single_effects_respect_the_block() {
    let mut entity = defender(CharacterState::Idle, FacingDirection::Right);
    entity.apply_effect(Effect::Blockstun(4), false);
    assert_eq!(entity.character.state, CharacterState::Idle);
    assert!(!entity.character.just_transitioned);
    entity.apply_effect(Effect::Hitstun(4), true);
    assert_eq!(entity.character.state, CharacterState::Idle);
    entity.apply_effect(Effect::Blockstun(4), true);
    assert_eq!(entity.character.state, CharacterState::Blockstun(4));
    entity.apply_effect(Effect::Hitstun(6), false);
    assert_eq!(entity.character.state, CharacterState::Hitstun(6));
}

#[test]
fn hitstun_out_of_a_move_drops_the_effects_of_the_move() {
    let mut entity = defender(CharacterState::Normal, FacingDirection::Right);
    entity.character.current_move_on_hit = Some(jab_effects());
    entity.effects.effects = vec![Effect::Damage(raw(1)), Effect::Pushback(raw(5))];
    entity.apply_effects();
    // Neither damage nor pushback takes the combatant out of its move.
    assert_eq!(entity.character.state, CharacterState::Normal);
    assert_eq!(entity.character.current_move_on_hit, Some(jab_effects()));
    entity.effects.effects = vec![Effect::Blockstun(3), Effect::Hitstun(4)];
    entity.apply_effects();
    assert_eq!(entity.character.state, CharacterState::Hitstun(4));
    assert_eq!(entity.character.current_move_on_hit, None);
}

#[test]
fn hitstun_out_of_another_state_leaves_the_effects_alone() {
    let mut entity = defender(CharacterState::Idle, FacingDirection::Right);
    entity.character.current_move_on_hit = Some(jab_effects());
    entity.apply_effect(Effect::Hitstun(4), false);
    assert_eq!(entity.character.state, CharacterState::Hitstun(4));
    assert_eq!(entity.character.current_move_on_hit, Some(jab_effects()));
    let mut entity = defender(CharacterState::MovingBackward, FacingDirection::Right);
    entity.character.current_move_on_hit = Some(jab_effects());
    entity.apply_effect(Effect::Blockstun(4), true);
    assert_eq!(entity.character.current_move_on_hit, Some(jab_effects()));
}
