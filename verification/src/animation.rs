use crate::character::{CharacterBundle, CharacterBundleView, CharacterState, CharacterView};
use crate::direction::FacingDirection;
use crate::fixedpoint::{fits_raw, FixedPoint};
use crate::vec2::Vec2;
use vstd::prelude::*;

verus! {

/// Entry of an animation's table of hitboxes: what the box with this id is.
#[derive(Clone, Debug, PartialEq, Eq)]
pub struct Hitbox {
    pub id: usize,
    pub tag: String,
    pub is_hurtbox: bool,
}

/// Placement of a hitbox on one frame.
#[derive(Clone, Copy, Debug, PartialEq, Eq, Structural)]
pub struct HitboxPos {
    pub id: usize,
    pub pos: Vec2,
    pub size: Vec2,
    pub enabled: bool,
}

/// One frame of an animation, with the hitboxes that it places.
#[derive(Clone, Debug, PartialEq, Eq)]
pub struct Frame {
    /// Ticks that the frame is shown.
    pub duration: usize,
    pub offset: Vec2,
    pub root_motion: Vec2,
    pub hitboxes: Vec<HitboxPos>,
}

/// A sequence of frames, with the table of the hitboxes that they place.
#[derive(Clone, Debug, PartialEq, Eq)]
pub struct Animation {
    pub frames: Vec<Frame>,
    pub hitboxes: Vec<Hitbox>,
}

/// Playback state of a combatant's animation.
#[derive(Clone, Copy, Debug, PartialEq, Eq, Structural)]
pub struct Animator {
    /// Index of the animation in the table of animations.
    pub animation: usize,
    /// Index of the frame that is shown.
    pub frame: usize,
    pub just_changed_animation: bool,
    pub last_frame_change: usize,
    pub idle_after_animation: bool,
}

/// What a box does: a hurtbox takes hits, a hitbox deals them.
#[derive(Clone, Copy, Debug, PartialEq, Eq, Structural)]
pub enum HitboxType {
    Hurtbox,
    Hitbox,
}

/// A hitbox that is live on the present frame, placed relative to its
/// combatant and mirrored for the combatant's facing. The box spans from
/// `offset.x` to the right by `size.x`, and from `offset.y` down by
/// `size.y`.
#[derive(Clone, Debug, PartialEq, Eq)]
pub struct Hitbox2 {
    pub offset: Vec2,
    pub size: Vec2,
    pub tag: String,
    pub hitbox_type: HitboxType,
}

/// The hitboxes of a combatant that are live on the present frame.
#[derive(Clone, Debug, PartialEq, Eq)]
pub struct Hitboxes {
    pub hitboxes: Vec<Hitbox2>,
}

impl View for Hitboxes {
    type V = Seq<Hitbox2>;

    open spec fn view(&self) -> Seq<Hitbox2> {
        self.hitboxes@
    }
}

/// Index of the first entry of a table of hitboxes that has the id, or the
/// length of the table where none has it.
pub open spec fn table_index(table: Seq<Hitbox>, id: usize) -> nat
    decreases table.len(),
{
    if table.len() == 0 {
        0
    } else if table.first().id == id {
        0
    } else {
        1 + table_index(table.drop_first(), id)
    }
}

/// Horizontal offset of a placed hitbox for a facing: as placed for Right;
/// for Left the box is mirrored about the combatant, so that its left edge
/// comes to lie at the negated right edge.
pub open spec fn mirrored_x(placed: HitboxPos, facing: FacingDirection) -> int {
    if facing == FacingDirection::Left {
        -placed.pos.x@ - placed.size.x@
    } else {
        placed.pos.x@
    }
}

impl Animation {
    /// Whether the table of hitboxes has an entry for an id.
    pub open spec fn defines(&self, id: usize) -> bool {
        table_index(self.hitboxes@, id) < self.hitboxes.len()
    }

    /// The entry of the table of hitboxes for an id.
    pub open spec fn entry(&self, id: usize) -> Hitbox {
        self.hitboxes[table_index(self.hitboxes@, id) as int]
    }

    /// Whether some frame is shown for at least one tick.
    pub open spec fn takes_time(&self) -> bool {
        exists|i: int| 0 <= i < self.frames.len() && (#[trigger] self.frames[i]).duration > 0
    }

    /// Well-formedness: there is a frame; the table of hitboxes names no
    /// id twice; every hitbox that a frame places is in the table, and its
    /// mirrored offset can be held.
    pub open spec fn wf(&self) -> bool {
        &&& self.frames.len() > 0
        &&& forall|i: int, j: int|
            0 <= i < j < self.hitboxes.len() ==> (#[trigger] self.hitboxes[i]).id != (
            #[trigger] self.hitboxes[j]).id
        &&& forall|f: int, h: int|
            0 <= f < self.frames.len() && 0 <= h < self.frames[f].hitboxes.len()
                ==> self.placement_wf(#[trigger] self.frames[f].hitboxes[h])
    }

    /// The live hitbox that a placement on a frame resolves to, or none
    /// where the placement is disabled.
    pub open spec fn resolved(&self, placed: HitboxPos, facing: FacingDirection) -> Option<
        Hitbox2,
    > {
        if placed.enabled {
            Some(
                Hitbox2 {
                    offset: Vec2 {
                        x: FixedPoint(mirrored_x(placed, facing) as i64),
                        y: placed.pos.y,
                    },
                    size: placed.size,
                    tag: self.entry(placed.id).tag,
                    hitbox_type: if self.entry(placed.id).is_hurtbox {
                        HitboxType::Hurtbox
                    } else {
                        HitboxType::Hitbox
                    },
                },
            )
        } else {
            None
        }
    }

    /// The hitboxes that are live on a frame for a facing: the enabled
    /// placements of the frame, in the frame's order, each resolved.
    pub open spec fn live_hitboxes(&self, frame: int, facing: FacingDirection) -> Seq<Hitbox2> {
        self.frames[frame].hitboxes@.filter_map(|placed: HitboxPos| self.resolved(placed, facing))
    }

    /// Whether the table of hitboxes has an entry for an id.
    pub fn has_entry(&self, id: usize) -> (r: bool)
        ensures
            r == self.defines(id),
    {
        let mut i: usize = 0;
        assert(self.hitboxes@.skip(0) =~= self.hitboxes@);
        while i < self.hitboxes.len()
            invariant
                i <= self.hitboxes.len(),
                table_index(self.hitboxes@, id) == i + table_index(
                    self.hitboxes@.skip(i as int),
                    id,
                ),
            decreases self.hitboxes.len() - i,
        {
            proof {
                let rest = self.hitboxes@.skip(i as int);
                assert(rest.first() == self.hitboxes@[i as int]);
                assert(rest.drop_first() =~= self.hitboxes@.skip(i as int + 1));
            }
            if self.hitboxes[i].id == id {
                return true;
            }
            i += 1;
        }
        false
    }

    /// Whether some frame is shown for at least one tick.
    pub fn has_timed_frame(&self) -> (r: bool)
        ensures
            r == self.takes_time(),
    {
        let mut i: usize = 0;
        while i < self.frames.len()
            invariant
                i <= self.frames.len(),
                forall|f: int| 0 <= f < i ==> (#[trigger] self.frames[f]).duration == 0,
            decreases self.frames.len() - i,
        {
            if self.frames[i].duration > 0 {
                return true;
            }
            i += 1;
        }
        false
    }

    /// Whether the table of hitboxes names no id twice.
    pub fn has_distinct_ids(&self) -> (r: bool)
        ensures
            r == forall|i: int, j: int|
                0 <= i < j < self.hitboxes.len() ==> (#[trigger] self.hitboxes[i]).id != (
                #[trigger] self.hitboxes[j]).id,
    {
        let mut j: usize = 0;
        while j < self.hitboxes.len()
            invariant
                j <= self.hitboxes.len(),
                forall|a: int, b: int|
                    0 <= a < b < j ==> (#[trigger] self.hitboxes[a]).id != (
                    #[trigger] self.hitboxes[b]).id,
            decreases self.hitboxes.len() - j,
        {
            let mut i: usize = 0;
            while i < j
                invariant
                    i <= j < self.hitboxes.len(),
                    forall|a: int|
                        0 <= a < i ==> (#[trigger] self.hitboxes[a]).id
                            != self.hitboxes[j as int].id,
                decreases j - i,
            {
                if self.hitboxes[i].id == self.hitboxes[j].id {
                    return false;
                }
                i += 1;
            }
            j += 1;
        }
        true
    }

    /// Whether a placement is in the table of hitboxes and can be
    /// mirrored.
    pub open spec fn placement_wf(&self, placed: HitboxPos) -> bool {
        &&& self.defines(placed.id)
        &&& fits_raw(-placed.pos.x@)
        &&& fits_raw(-placed.pos.x@ - placed.size.x@)
    }

    /// Whether a placement is in the table of hitboxes and can be
    /// mirrored.
    pub fn accepts_placement(&self, placed: &HitboxPos) -> (r: bool)
        ensures
            r == self.placement_wf(*placed),
    {
        if !self.has_entry(placed.id) {
            return false;
        }
        if placed.pos.x.0 == i64::MIN {
            return false;
        }
        let negated: i64 = -placed.pos.x.0;
        negated.checked_sub(placed.size.x.0).is_some()
    }

    /// Whether the animation is well-formed.
    pub fn is_well_formed(&self) -> (r: bool)
        ensures
            r == self.wf(),
    {
        if self.frames.len() == 0 || !self.has_distinct_ids() {
            return false;
        }
        let mut f: usize = 0;
        while f < self.frames.len()
            invariant
                f <= self.frames.len(),
                forall|a: int, h: int|
                    0 <= a < f && 0 <= h < self.frames[a].hitboxes.len() ==> self.placement_wf(
                        #[trigger] self.frames[a].hitboxes[h],
                    ),
            decreases self.frames.len() - f,
        {
            let placements = &self.frames[f].hitboxes;
            let mut h: usize = 0;
            while h < placements.len()
                invariant
                    f < self.frames.len(),
                    placements@ == self.frames[f as int].hitboxes@,
                    h <= placements.len(),
                    forall|b: int| 0 <= b < h ==> self.placement_wf(#[trigger] placements[b]),
                decreases placements.len() - h,
            {
                if !self.accepts_placement(&placements[h]) {
                    assert(!self.placement_wf(self.frames[f as int].hitboxes[h as int]));
                    return false;
                }
                h += 1;
            }
            f += 1;
        }
        true
    }

    /// The entry of the table of hitboxes for an id.
    pub fn lookup(&self, id: usize) -> (r: &Hitbox)
        requires
            self.defines(id),
        ensures
            *r == self.entry(id),
    {
        let mut i: usize = 0;
        assert(self.hitboxes@.skip(0) =~= self.hitboxes@);
        while self.hitboxes[i].id != id
            invariant
                i < self.hitboxes.len(),
                table_index(self.hitboxes@, id) == i + table_index(
                    self.hitboxes@.skip(i as int),
                    id,
                ),
                table_index(self.hitboxes@, id) < self.hitboxes.len(),
            decreases self.hitboxes.len() - i,
        {
            proof {
                let rest = self.hitboxes@.skip(i as int);
                assert(rest.first() == self.hitboxes@[i as int]);
                assert(rest.drop_first() =~= self.hitboxes@.skip(i as int + 1));
            }
            i += 1;
        }
        proof {
            let rest = self.hitboxes@.skip(i as int);
            assert(rest.first() == self.hitboxes@[i as int]);
        }
        &self.hitboxes[i]
    }

    /// The hitboxes that are live on a frame for a facing.
    pub fn resolve_hitboxes(&self, frame: usize, facing: FacingDirection) -> (r: Vec<Hitbox2>)
        requires
            self.wf(),
            frame < self.frames.len(),
        ensures
            r@ == self.live_hitboxes(frame as int, facing),
    {
        let flip = facing == FacingDirection::Left;
        let placements = &self.frames[frame].hitboxes;
        let ghost resolve = |placed: HitboxPos| self.resolved(placed, facing);
        let mut out: Vec<Hitbox2> = Vec::new();
        let mut i: usize = 0;
        while i < placements.len()
            invariant
                self.wf(),
                frame < self.frames.len(),
                placements@ == self.frames[frame as int].hitboxes@,
                flip == (facing == FacingDirection::Left),
                resolve == |placed: HitboxPos| self.resolved(placed, facing),
                i <= placements.len(),
                out@ == placements@.take(i as int).filter_map(resolve),
            decreases placements.len() - i,
        {
            let hp = placements[i];
            assert(hp == self.frames[frame as int].hitboxes[i as int]);
            let hb = self.lookup(hp.id);
            proof {
                placements@.lemma_filter_map_take_succ(resolve, i as int);
            }
            if hp.enabled {
                let x = if flip {
                    FixedPoint::zero() - hp.pos.x - hp.size.x
                } else {
                    hp.pos.x
                };
                out.push(
                    Hitbox2 {
                        offset: Vec2 { x, y: hp.pos.y },
                        size: hp.size,
                        tag: hb.tag.clone(),
                        hitbox_type: if hb.is_hurtbox {
                            HitboxType::Hurtbox
                        } else {
                            HitboxType::Hitbox
                        },
                    },
                );
            }
            i += 1;
        }
        assert(placements@.take(placements.len() as int) =~= placements@);
        out
    }
}

/// Index of the first frame at or after `from` that is shown for at least
/// one tick, or the number of frames where there is none.
pub open spec fn next_timed(frames: Seq<Frame>, from: int) -> int
    decreases frames.len() - from,
{
    if from >= frames.len() {
        frames.len() as int
    } else if frames[from].duration > 0 {
        from
    } else {
        next_timed(frames, from + 1)
    }
}

/// The first timed frame at or after `from` lies at or after `from`, and
/// no later than any timed frame there.
pub proof fn lemma_next_timed_bounds(frames: Seq<Frame>, from: int, timed: int)
    requires
        0 <= from <= frames.len(),
    ensures
        from <= next_timed(frames, from) <= frames.len(),
        from <= timed < frames.len() && frames[timed].duration > 0 ==> next_timed(frames, from)
            <= timed,
        next_timed(frames, from) < frames.len() ==> frames[next_timed(frames, from)].duration > 0,
    decreases frames.len() - from,
{
    if from < frames.len() && frames[from].duration == 0 {
        lemma_next_timed_bounds(frames, from + 1, timed);
    }
}

/// What one tick does to the frame that is shown.
pub enum FrameStep {
    /// The frame stays.
    Stay,
    /// Another frame is shown from this tick on.
    Show(int),
    /// An animation that plays once has run off its end. `touched` says
    /// whether frames were passed on the way.
    Finished { touched: bool },
}

impl Animation {
    /// What a tick does to the frame that an animator shows of this
    /// animation.
    ///
    /// The frame stays until it has been shown for its duration. Then the
    /// next frame that takes time is shown; frames without duration are
    /// passed over. Past the last frame a looping animation goes on from
    /// its first frame, and one that plays once is finished.
    pub open spec fn frame_step(&self, animator: Animator, current_frame: usize) -> FrameStep {
        let shown = self.frames[animator.frame as int];
        if current_frame - animator.last_frame_change < shown.duration {
            FrameStep::Stay
        } else {
            let ahead = next_timed(self.frames@, animator.frame + 1);
            if ahead < self.frames.len() {
                FrameStep::Show(ahead)
            } else if animator.idle_after_animation {
                FrameStep::Finished { touched: animator.frame + 1 < self.frames.len() }
            } else {
                FrameStep::Show(next_timed(self.frames@, 0))
            }
        }
    }
}

impl CharacterBundleView {
    /// What the frame driver needs: a well-formed animation, of which the
    /// animator shows a frame since a tick that is not in the future, and
    /// which, if it loops, has a frame that takes time.
    pub open spec fn animate_ready(self, animation: Animation, current_frame: usize) -> bool {
        &&& animation.wf()
        &&& self.animator.frame < animation.frames.len()
        &&& self.animator.last_frame_change <= current_frame
        &&& self.animator.idle_after_animation || animation.takes_time()
    }

    /// The combatant after the frame driver has run for a tick.
    ///
    /// When an animation that plays once is finished, the combatant goes
    /// back to Idle as one that has just transitioned, the effects of its
    /// move are dropped, and the live hitboxes stay as they were.
    /// Otherwise, when the frame has changed or the animation was newly
    /// assigned, the live hitboxes are replaced by those of the frame
    /// shown.
    pub open spec fn animated(
        self,
        animation: Animation,
        current_frame: usize,
    ) -> CharacterBundleView {
        match animation.frame_step(self.animator, current_frame) {
            FrameStep::Finished { touched } => CharacterBundleView {
                character: CharacterView {
                    state: CharacterState::Idle,
                    just_transitioned: true,
                    current_move_on_hit: None,
                    ..self.character
                },
                animator: Animator {
                    frame: (animation.frames.len() - 1) as usize,
                    last_frame_change: if touched {
                        current_frame
                    } else {
                        self.animator.last_frame_change
                    },
                    ..self.animator
                },
                ..self
            },
            FrameStep::Show(frame) => CharacterBundleView {
                animator: Animator {
                    frame: frame as usize,
                    last_frame_change: current_frame,
                    just_changed_animation: false,
                    ..self.animator
                },
                hitboxes: animation.live_hitboxes(frame, self.character.facing),
                ..self
            },
            FrameStep::Stay => if self.animator.just_changed_animation {
                CharacterBundleView {
                    animator: Animator { just_changed_animation: false, ..self.animator },
                    hitboxes: animation.live_hitboxes(
                        self.animator.frame as int,
                        self.character.facing,
                    ),
                    ..self
                }
            } else {
                self
            },
        }
    }
}

impl CharacterBundle {
    /// Drives the combatant's animation for one tick. `animation` is the
    /// animation that the animator plays.
    pub fn animate(&mut self, animation: &Animation, current_frame: usize)
        requires
            old(self)@.animate_ready(*animation, current_frame),
        ensures
            final(self)@ == old(self)@.animated(*animation, current_frame),
    {
        let count = animation.frames.len();
        let ghost start = self.animator;
        let ghost mut wrapped = false;
        let mut diff: usize = current_frame - self.animator.last_frame_change;
        let mut just_changed = false;
        proof {
            lemma_next_timed_bounds(animation.frames@, 0, 0);
            if animation.takes_time() {
                let timed = choose|i: int|
                    0 <= i < animation.frames.len() && (#[trigger] animation.frames[i]).duration
                        > 0;
                lemma_next_timed_bounds(animation.frames@, 0, timed);
            }
        }
        while diff >= animation.frames[self.animator.frame].duration
            invariant
                count == animation.frames.len(),
                start == old(self).animator,
                old(self)@.animate_ready(*animation, current_frame),
                self.animator.frame < count,
                !start.idle_after_animation ==> next_timed(animation.frames@, 0) < count,
                *self == (CharacterBundle { animator: self.animator, ..*old(self) }),
                self.animator == (Animator {
                    frame: self.animator.frame,
                    last_frame_change: self.animator.last_frame_change,
                    ..start
                }),
                !just_changed ==> self.animator == start && diff == current_frame
                    - start.last_frame_change && !wrapped,
                just_changed ==> diff == 0 && self.animator.last_frame_change == current_frame
                    && current_frame - start.last_frame_change
                    >= animation.frames[start.frame as int].duration,
                just_changed && !wrapped ==> start.frame < self.animator.frame && next_timed(
                    animation.frames@,
                    start.frame + 1,
                ) == next_timed(animation.frames@, self.animator.frame as int),
                wrapped ==> just_changed && !start.idle_after_animation && next_timed(
                    animation.frames@,
                    start.frame + 1,
                ) == count && next_timed(animation.frames@, 0) == next_timed(
                    animation.frames@,
                    self.animator.frame as int,
                ),
            decreases
                    (if wrapped {
                        count - self.animator.frame
                    } else {
                        2 * count - self.animator.frame + 1
                    }),
        {
            proof {
                lemma_next_timed_bounds(animation.frames@, self.animator.frame + 1, 0);
                lemma_next_timed_bounds(animation.frames@, self.animator.frame as int, 0);
            }
            self.animator.frame += 1;
            if self.animator.frame >= count {
                if self.animator.idle_after_animation {
                    self.animator.frame = count - 1;
                    self.character.state = CharacterState::Idle;
                    self.character.just_transitioned = true;
                    self.character.current_move_on_hit = None;
                    return;
                }
                self.animator.frame = 0;
                proof {
                    wrapped = true;
                }
            }
            self.animator.last_frame_change = current_frame;
            just_changed = true;
            diff = 0;
        }
        proof {
            lemma_next_timed_bounds(animation.frames@, self.animator.frame as int, 0);
        }
        if just_changed || self.animator.just_changed_animation {
            self.animator.just_changed_animation = false;
            self.hitboxes.hitboxes = animation.resolve_hitboxes(
                self.animator.frame,
                self.character.facing,
            );
        }
    }
}

} // verus!
