use crate::animation::{Animator, Hitbox2, Hitboxes};
use crate::direction::{AbsoluteDirection, FacingDirection};
use crate::effects::{Effect, Effects};
use crate::fixedpoint::FixedPoint;
use crate::input_history::{InputHistory, InputHistoryView};
use crate::movelist::{Move, Movelist};
use crate::physics::{Collision, Collisions};
use crate::vec2::Vec2;
use vstd::prelude::*;

verus! {

/// Side of a combatant; nobody is hit by their own side.
#[derive(Clone, Copy, Debug, PartialEq, Eq, Structural)]
pub enum Team {
    Team1,
    Team2,
    Neutral,
}

/// Combat state of a combatant. The two stun states carry the ticks that
/// remain.
#[derive(Clone, Copy, Debug, PartialEq, Eq, Structural)]
pub enum CharacterState {
    Idle,
    MovingForward,
    MovingBackward,
    Normal,
    Hitstun(usize),
    Blockstun(usize),
}

impl CharacterState {
    /// Whether the state is one of the two stun states.
    pub open spec fn is_stun(self) -> bool {
        self is Hitstun || self is Blockstun
    }

    /// Whether the state is one of the three movement states.
    pub open spec fn is_movement(self) -> bool {
        self == CharacterState::Idle || self == CharacterState::MovingForward || self
            == CharacterState::MovingBackward
    }

    /// The state after one tick of a stun has passed: a stun that has no
    /// ticks left ends in Idle, another has one tick less, and every other
    /// state stays.
    pub open spec fn stun_elapsed(self) -> CharacterState {
        match self {
            CharacterState::Hitstun(frames) => if frames == 0 {
                CharacterState::Idle
            } else {
                CharacterState::Hitstun((frames - 1) as usize)
            },
            CharacterState::Blockstun(frames) => if frames == 0 {
                CharacterState::Idle
            } else {
                CharacterState::Blockstun((frames - 1) as usize)
            },
            _ => self,
        }
    }

    /// The movement state that a movement input leads to, seen relative
    /// to the facing, where it leads to another state at all. Only the
    /// three movement states are left in this way.
    pub open spec fn movement_target(self, relative: AbsoluteDirection) -> Option<CharacterState> {
        match self {
            CharacterState::Idle => if relative == AbsoluteDirection::Right {
                Some(CharacterState::MovingForward)
            } else if relative == AbsoluteDirection::Left {
                Some(CharacterState::MovingBackward)
            } else {
                None
            },
            CharacterState::MovingForward => if relative == AbsoluteDirection::Left {
                Some(CharacterState::MovingBackward)
            } else if relative == AbsoluteDirection::Neutral {
                Some(CharacterState::Idle)
            } else {
                None
            },
            CharacterState::MovingBackward => if relative == AbsoluteDirection::Right {
                Some(CharacterState::MovingForward)
            } else if relative == AbsoluteDirection::Neutral {
                Some(CharacterState::Idle)
            } else {
                None
            },
            _ => None,
        }
    }

    /// Counts one tick of a stun down.
    pub fn counted_down(self) -> (r: Self)
        ensures
            r == self.stun_elapsed(),
    {
        match self {
            CharacterState::Hitstun(frames) => if frames == 0 {
                CharacterState::Idle
            } else {
                CharacterState::Hitstun(frames - 1)
            },
            CharacterState::Blockstun(frames) => if frames == 0 {
                CharacterState::Idle
            } else {
                CharacterState::Blockstun(frames - 1)
            },
            _ => self,
        }
    }

    /// The state that the movement input, seen relative to the facing,
    /// leads to, if it leads to another one.
    pub fn moved(self, relative: AbsoluteDirection) -> (r: Option<Self>)
        ensures
            r == self.movement_target(relative),
    {
        match self {
            CharacterState::Idle => if relative == AbsoluteDirection::Right {
                Some(CharacterState::MovingForward)
            } else if relative == AbsoluteDirection::Left {
                Some(CharacterState::MovingBackward)
            } else {
                None
            },
            CharacterState::MovingForward => if relative == AbsoluteDirection::Left {
                Some(CharacterState::MovingBackward)
            } else if relative == AbsoluteDirection::Neutral {
                Some(CharacterState::Idle)
            } else {
                None
            },
            CharacterState::MovingBackward => if relative == AbsoluteDirection::Right {
                Some(CharacterState::MovingForward)
            } else if relative == AbsoluteDirection::Neutral {
                Some(CharacterState::Idle)
            } else {
                None
            },
            _ => None,
        }
    }
}

impl Default for CharacterState {
    fn default() -> (r: Self)
        ensures
            r == CharacterState::Idle,
    {
        CharacterState::Idle
    }
}

/// The animations that the states of a combatant play, each by its index
/// in the table of animations.
#[derive(Clone, Copy, Debug, PartialEq, Eq, Structural)]
pub struct AnimationSet {
    pub idle: usize,
    pub walking_forward: usize,
    pub walking_forward_2: usize,
    pub walking_backward: usize,
}

impl AnimationSet {
    /// The animation that a state plays by itself. Normal has none: a move
    /// brings its own.
    pub open spec fn canonical(self, state: CharacterState, new_anim: bool) -> usize {
        match state {
            CharacterState::MovingForward => if new_anim {
                self.walking_forward_2
            } else {
                self.walking_forward
            },
            CharacterState::MovingBackward => self.walking_backward,
            _ => self.idle,
        }
    }

    /// The animation that a state other than Normal plays by itself.
    pub fn animation_for(&self, state: CharacterState, new_anim: bool) -> (r: usize)
        requires
            state != CharacterState::Normal,
        ensures
            r == self.canonical(state, new_anim),
    {
        match state {
            CharacterState::Idle => self.idle,
            CharacterState::MovingForward => if new_anim {
                self.walking_forward_2
            } else {
                self.walking_forward
            },
            CharacterState::MovingBackward => self.walking_backward,
            CharacterState::Hitstun(_) => self.idle,
            CharacterState::Blockstun(_) => self.idle,
            CharacterState::Normal => vstd::pervasive::unreached(),
        }
    }
}

/// The part of a combatant that its state machine runs on.
#[derive(Clone, Debug, PartialEq, Eq)]
pub struct Character {
    pub facing: FacingDirection,
    pub state: CharacterState,
    /// Set when the state has changed and the animation of the new state
    /// is still to be started.
    pub just_transitioned: bool,
    pub animations: AnimationSet,
    /// Whether walking forward plays the second of its two animations.
    pub new_anim: bool,
    /// Direction of the movement input of the present tick.
    pub input_dir: AbsoluteDirection,
    /// Effects of the move in flight, for whoever it hits.
    pub current_move_on_hit: Option<Vec<Effect>>,
}

/// A character, with the effects of the move in flight as a sequence.
#[verifier::ext_equal]
pub struct CharacterView {
    pub facing: FacingDirection,
    pub state: CharacterState,
    pub just_transitioned: bool,
    pub animations: AnimationSet,
    pub new_anim: bool,
    pub input_dir: AbsoluteDirection,
    pub current_move_on_hit: Option<Seq<Effect>>,
}

impl View for Character {
    type V = CharacterView;

    open spec fn view(&self) -> CharacterView {
        CharacterView {
            facing: self.facing,
            state: self.state,
            just_transitioned: self.just_transitioned,
            animations: self.animations,
            new_anim: self.new_anim,
            input_dir: self.input_dir,
            current_move_on_hit: match self.current_move_on_hit {
                Some(effects) => Some(effects@),
                None => None,
            },
        }
    }
}

/// Health of a combatant; one whose health is not above zero is down.
#[derive(Clone, Copy, Debug, PartialEq, Eq, Structural)]
pub struct Health {
    pub value: FixedPoint,
}

/// A combatant: everything that the simulation keeps of it.
#[derive(Clone, Debug, PartialEq, Eq)]
pub struct CharacterBundle {
    pub character: Character,
    pub input_history: InputHistory,
    pub position: Vec2,
    pub velocity: Vec2,
    pub animator: Animator,
    pub movelist: Movelist,
    /// The hitboxes that are live on the frame shown.
    pub hitboxes: Hitboxes,
    /// The overlaps detected in the present tick and not yet resolved.
    pub collisions: Collisions,
    /// The effects queued in the present tick and not yet applied.
    pub effects: Effects,
    pub team: Team,
    pub health: Health,
}

/// Health of a combatant at the start of a match, in raw units: one
/// hundred.
pub const FULL_HEALTH_RAW: i64 = 6553600;

/// A combatant, with every list as a sequence.
#[verifier::ext_equal]
pub struct CharacterBundleView {
    pub character: CharacterView,
    pub input_history: InputHistoryView,
    pub position: Vec2,
    pub velocity: Vec2,
    pub animator: Animator,
    pub movelist: Seq<Move>,
    pub hitboxes: Seq<Hitbox2>,
    pub collisions: Seq<Collision>,
    pub effects: Seq<Effect>,
    pub team: Team,
    pub health: Health,
}

impl View for CharacterBundle {
    type V = CharacterBundleView;

    open spec fn view(&self) -> CharacterBundleView {
        CharacterBundleView {
            character: self.character@,
            input_history: self.input_history@,
            position: self.position,
            velocity: self.velocity,
            animator: self.animator,
            movelist: self.movelist.moves@,
            hitboxes: self.hitboxes@,
            collisions: self.collisions@,
            effects: self.effects@,
            team: self.team,
            health: self.health,
        }
    }
}

impl CharacterBundleView {
    /// Whether the combatant is as one is at the start of a match: it
    /// stands on the floor at a horizontal position, faces Right, is idle
    /// and without velocity, has full health, and is to start its first
    /// animation, which loops; its log is empty, and nothing is pending.
    pub open spec fn is_fresh(
        self,
        x_pos: FixedPoint,
        team: Team,
        animations: AnimationSet,
        animation: usize,
        moves: Seq<Move>,
    ) -> bool {
        &&& self.character == (CharacterView {
            facing: FacingDirection::Right,
            state: CharacterState::Idle,
            just_transitioned: true,
            animations,
            new_anim: true,
            input_dir: AbsoluteDirection::Neutral,
            current_move_on_hit: None,
        })
        &&& self.input_history.last_dir == AbsoluteDirection::Neutral
        &&& self.input_history.move_buffer.len() == 0
        &&& self.position == (Vec2 { x: x_pos, y: FixedPoint(0) })
        &&& self.velocity == (Vec2 { x: FixedPoint(0), y: FixedPoint(0) })
        &&& self.animator == (Animator {
            animation,
            frame: 0,
            just_changed_animation: true,
            last_frame_change: 0,
            idle_after_animation: false,
        })
        &&& self.movelist == moves
        &&& self.hitboxes.len() == 0
        &&& self.collisions.len() == 0
        &&& self.effects.len() == 0
        &&& self.team == team
        &&& self.health.value@ == FULL_HEALTH_RAW
    }
}

impl CharacterBundle {
    /// A combatant as it is at the start of a match. `animation` is the
    /// index of the animation that it plays first.
    pub fn new(
        x_pos: FixedPoint,
        team: Team,
        animations: AnimationSet,
        animation: usize,
        movelist: Movelist,
    ) -> (r: Self)
        ensures
            r@.is_fresh(x_pos, team, animations, animation, movelist.moves@),
    {
        CharacterBundle {
            character: Character {
                facing: FacingDirection::Right,
                state: CharacterState::Idle,
                just_transitioned: true,
                animations,
                new_anim: true,
                input_dir: AbsoluteDirection::Neutral,
                current_move_on_hit: None,
            },
            input_history: InputHistory::default(),
            position: Vec2 { x: x_pos, y: FixedPoint::zero() },
            velocity: Vec2 { x: FixedPoint::zero(), y: FixedPoint::zero() },
            animator: Animator {
                animation,
                frame: 0,
                just_changed_animation: true,
                last_frame_change: 0,
                idle_after_animation: false,
            },
            movelist,
            hitboxes: Hitboxes { hitboxes: Vec::new() },
            collisions: Collisions { collisions: Vec::new() },
            effects: Effects { effects: Vec::new() },
            team,
            health: Health { value: FixedPoint::new_raw(FULL_HEALTH_RAW) },
        }
    }
}

/// The combatants of a list, each as its view.
pub open spec fn bundle_views(entities: Seq<CharacterBundle>) -> Seq<CharacterBundleView> {
    entities.map_values(|entity: CharacterBundle| entity@)
}

/// Index of the first combatant at or after `from` that is on a team, or
/// the number of combatants where there is none.
pub open spec fn first_on_team(entities: Seq<CharacterBundleView>, team: Team, from: int) -> int
    decreases entities.len() - from,
{
    if from >= entities.len() {
        entities.len() as int
    } else if entities[from].team == team {
        from
    } else {
        first_on_team(entities, team, from + 1)
    }
}

/// The first combatant of a team at or after `from` lies at or after
/// `from` and, where there is one, is on the team.
pub proof fn lemma_first_on_team(entities: Seq<CharacterBundleView>, team: Team, from: int)
    requires
        0 <= from <= entities.len(),
    ensures
        from <= first_on_team(entities, team, from) <= entities.len(),
        first_on_team(entities, team, from) < entities.len() ==> entities[first_on_team(
            entities,
            team,
            from,
        )].team == team,
    decreases entities.len() - from,
{
    if from < entities.len() && entities[from].team != team {
        lemma_first_on_team(entities, team, from + 1);
    }
}

impl CharacterBundleView {
    /// The combatant with another facing.
    pub open spec fn facing(self, facing: FacingDirection) -> CharacterBundleView {
        CharacterBundleView { character: CharacterView { facing, ..self.character }, ..self }
    }
}

/// Whether a list of combatants has one of each of the two playing teams.
pub open spec fn has_both_teams(entities: Seq<CharacterBundleView>) -> bool {
    first_on_team(entities, Team::Team1, 0) < entities.len() && first_on_team(
        entities,
        Team::Team2,
        0,
    ) < entities.len()
}

/// The combatants after the facings are set anew. The first combatant of
/// Team1 and the first of Team2 are made to face each other: the one
/// further left faces Right, the other Left. Where the two stand at the
/// same horizontal position, nothing changes.
pub open spec fn faced(entities: Seq<CharacterBundleView>) -> Seq<CharacterBundleView> {
    let p1 = first_on_team(entities, Team::Team1, 0);
    let p2 = first_on_team(entities, Team::Team2, 0);
    if entities[p1].position.x@ < entities[p2].position.x@ {
        entities.update(p1, entities[p1].facing(FacingDirection::Right)).update(
            p2,
            entities[p2].facing(FacingDirection::Left),
        )
    } else if entities[p1].position.x@ > entities[p2].position.x@ {
        entities.update(p1, entities[p1].facing(FacingDirection::Left)).update(
            p2,
            entities[p2].facing(FacingDirection::Right),
        )
    } else {
        entities
    }
}

/// Of the first combatant of Team1 and the first of Team2, the one
/// further left faces Right after the facings are set, and the other
/// Left, wherever the two stand; where they stand at the same horizontal
/// position, every facing stays as it was.
pub proof fn lemma_faced_by_position(entities: Seq<CharacterBundleView>)
    requires
        has_both_teams(entities),
    ensures
        ({
            let p1 = first_on_team(entities, Team::Team1, 0);
            let p2 = first_on_team(entities, Team::Team2, 0);
            let x1 = entities[p1].position.x@;
            let x2 = entities[p2].position.x@;
            &&& x1 < x2 ==> faced(entities)[p1].character.facing == FacingDirection::Right
                && faced(entities)[p2].character.facing == FacingDirection::Left
            &&& x1 > x2 ==> faced(entities)[p1].character.facing == FacingDirection::Left
                && faced(entities)[p2].character.facing == FacingDirection::Right
            &&& x1 == x2 ==> faced(entities) == entities
        }),
{
    lemma_first_on_team(entities, Team::Team1, 0);
    lemma_first_on_team(entities, Team::Team2, 0);
}

/// Index of the first combatant of a team.
pub fn find_team(entities: &Vec<CharacterBundle>, team: Team) -> (r: usize)
    ensures
        r == first_on_team(bundle_views(entities@), team, 0),
{
    let mut i: usize = 0;
    while i < entities.len() && entities[i].team != team
        invariant
            i <= entities.len(),
            first_on_team(bundle_views(entities@), team, 0) == first_on_team(
                bundle_views(entities@),
                team,
                i as int,
            ),
        decreases entities.len() - i,
    {
        i += 1;
    }
    i
}

/// Sets the facings of the first combatant of Team1 and the first of
/// Team2 by their horizontal positions.
pub fn facing_corrector(entities: &mut Vec<CharacterBundle>)
    requires
        has_both_teams(bundle_views(old(entities)@)),
    ensures
        final(entities).len() == old(entities).len(),
        bundle_views(final(entities)@) == faced(bundle_views(old(entities)@)),
{
    let p1 = find_team(entities, Team::Team1);
    let p2 = find_team(entities, Team::Team2);
    proof {
        lemma_first_on_team(bundle_views(entities@), Team::Team1, 0);
        lemma_first_on_team(bundle_views(entities@), Team::Team2, 0);
    }
    let x1 = entities[p1].position.x;
    let x2 = entities[p2].position.x;
    if x1.0 < x2.0 {
        entities[p1].character.facing = FacingDirection::Right;
        entities[p2].character.facing = FacingDirection::Left;
    } else if x1.0 > x2.0 {
        entities[p1].character.facing = FacingDirection::Left;
        entities[p2].character.facing = FacingDirection::Right;
    }
}

} // verus!
