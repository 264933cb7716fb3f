use fighting_game::direction::{AbsoluteDirection, FacingDirection};

#[test]
fn nominal_angles_give_their_directions() {
    let expected = [
        (0u16, AbsoluteDirection::Right),
        (450, AbsoluteDirection::UpRight),
        (900, AbsoluteDirection::Up),
        (1350, AbsoluteDirection::UpLeft),
        (1800, AbsoluteDirection::Left),
        (2250, AbsoluteDirection::DownLeft),
        (2700, AbsoluteDirection::Down),
        (3150, AbsoluteDirection::DownRight),
    ];
    for (angle, direction) in expected {
        assert_eq!(AbsoluteDirection::from(angle), direction);
    }
}

#[test]
fn wedges_are_centred_on_their_directions() {
    assert_eq!(AbsoluteDirection::from(224), AbsoluteDirection::Right);
    assert_eq!(AbsoluteDirection::from(225), AbsoluteDirection::UpRight);
    assert_eq!(AbsoluteDirection::from(674), AbsoluteDirection::UpRight);
    assert_eq!(AbsoluteDirection::from(675), AbsoluteDirection::Up);
    assert_eq!(AbsoluteDirection::from(3374), AbsoluteDirection::DownRight);
    assert_eq!(AbsoluteDirection::from(3375), AbsoluteDirection::Right);
    assert_eq!(AbsoluteDirection::from(3599), AbsoluteDirection::Right);
}

#[test]
fn angles_are_taken_modulo_the_full_turn() {
    assert_eq!(AbsoluteDirection::from(3600), AbsoluteDirection::Right);
    assert_eq!(AbsoluteDirection::from(3600 + 900), AbsoluteDirection::Up);
    // 65535 + 225 = 65760 = 18 * 3600 + 960, which lies in the wedge of Up.
    assert_eq!(AbsoluteDirection::from(u16::MAX), AbsoluteDirection::Up);
}

#[test]
fn flipping_for_left_mirrors_left_and_right() {
    let pairs = [
        (AbsoluteDirection::Right, AbsoluteDirection::Left),
        (AbsoluteDirection::DownRight, AbsoluteDirection::DownLeft),
        (AbsoluteDirection::Down, AbsoluteDirection::Down),
        (AbsoluteDirection::DownLeft, AbsoluteDirection::DownRight),
        (AbsoluteDirection::Left, AbsoluteDirection::Right),
        (AbsoluteDirection::UpLeft, AbsoluteDirection::UpRight),
        (AbsoluteDirection::Up, AbsoluteDirection::Up),
        (AbsoluteDirection::UpRight, AbsoluteDirection::UpLeft),
        (AbsoluteDirection::Neutral, AbsoluteDirection::Neutral),
    ];
    for (direction, mirrored) in pairs {
        assert_eq!(direction.flipped(FacingDirection::Left), mirrored);
        assert_eq!(direction.flipped(FacingDirection::Right), direction);
        assert_eq!(
            direction.flipped(FacingDirection::Left).flipped(FacingDirection::Left),
            direction
        );
    }
}

#[test]
fn only_the_three_upward_directions_are_up() {
    let up = [AbsoluteDirection::Up, AbsoluteDirection::UpLeft, AbsoluteDirection::UpRight];
    let not_up = [
        AbsoluteDirection::Right,
        AbsoluteDirection::DownRight,
        AbsoluteDirection::Down,
        AbsoluteDirection::DownLeft,
        AbsoluteDirection::Left,
        AbsoluteDirection::Neutral,
    ];
    for direction in up {
        assert!(direction.is_up());
    }
    for direction in not_up {
        assert!(!direction.is_up());
    }
}

#[test]
fn defaults_are_neutral_and_right() {
    assert_eq!(AbsoluteDirection::default(), AbsoluteDirection::Neutral);
    assert_eq!(FacingDirection::default(), FacingDirection::Right);
}
