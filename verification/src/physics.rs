use crate::animation::{Hitbox2, HitboxType};
use crate::character::{bundle_views, CharacterBundle, CharacterBundleView, Team};
use crate::effects::{copy_effects, Effect};
use crate::fixedpoint::{fits_raw, FixedPoint};
use crate::vec2::Vec2;
use vstd::prelude::*;

verus! {

/// An overlap, as the combatant that holds the record sees it.
#[derive(Clone, Copy, Debug, PartialEq, Eq, Structural)]
pub struct Collision {
    /// Index of the opposing combatant.
    pub other_entity: usize,
    pub other_team: Team,
    /// Whether the box of the combatant that holds the record was the
    /// attacking one.
    pub did_the_hitting: bool,
}

/// The overlaps detected for a combatant in the present tick.
#[derive(Clone, Debug, PartialEq, Eq)]
pub struct Collisions {
    pub collisions: Vec<Collision>,
}

impl View for Collisions {
    type V = Seq<Collision>;

    open spec fn view(&self) -> Seq<Collision> {
        self.collisions@
    }
}

/// Left bound of the arena, in raw units: minus one hundred.
pub const ARENA_MIN_X_RAW: i64 = -6553600;

/// Right bound of the arena, in raw units: one hundred.
pub const ARENA_MAX_X_RAW: i64 = 6553600;

/// A horizontal position, held to the bounds of the arena.
pub open spec fn clamped_x(x: int) -> int {
    if x < ARENA_MIN_X_RAW {
        ARENA_MIN_X_RAW as int
    } else if x > ARENA_MAX_X_RAW {
        ARENA_MAX_X_RAW as int
    } else {
        x
    }
}

impl CharacterBundleView {
    /// Whether the position can be moved by the velocity within the range
    /// of the raw values.
    pub open spec fn integrate_ready(self) -> bool {
        fits_raw(self.position.x@ + self.velocity.x@) && fits_raw(
            self.position.y@ + self.velocity.y@,
        )
    }

    /// The combatant after one step of motion: the velocity is added to
    /// the position; a combatant that would sink below the floor is set on
    /// it, without vertical velocity; and the horizontal position is held
    /// to the arena.
    pub open spec fn integrated(self) -> CharacterBundleView {
        let x = clamped_x(self.position.x@ + self.velocity.x@);
        let y = self.position.y@ + self.velocity.y@;
        if y < 0 {
            CharacterBundleView {
                position: Vec2 { x: FixedPoint(x as i64), y: FixedPoint(0) },
                velocity: Vec2 { x: self.velocity.x, y: FixedPoint(0) },
                ..self
            }
        } else {
            CharacterBundleView {
                position: Vec2 { x: FixedPoint(x as i64), y: FixedPoint(y as i64) },
                ..self
            }
        }
    }
}

impl CharacterBundle {
    /// Moves the combatant by its velocity, within the arena.
    pub fn integrate(&mut self)
        requires
            old(self)@.integrate_ready(),
        ensures
            final(self)@ == old(self)@.integrated(),
            ARENA_MIN_X_RAW <= final(self).position.x@ <= ARENA_MAX_X_RAW,
            final(self).position.y@ >= 0,
    {
        self.position = self.position + self.velocity;
        if self.position.y.0 < 0 {
            self.position.y = FixedPoint::zero();
            self.velocity.y = FixedPoint::zero();
        }
        if self.position.x.0 < ARENA_MIN_X_RAW {
            self.position.x = FixedPoint::new_raw(ARENA_MIN_X_RAW);
        }
        if self.position.x.0 > ARENA_MAX_X_RAW {
            self.position.x = FixedPoint::new_raw(ARENA_MAX_X_RAW);
        }
    }

    /// Moves the combatant by its velocity, within the arena, if the new
    /// position can be held, and says whether it did; else the combatant
    /// stays as it is.
    pub fn try_integrate(&mut self) -> (ok: bool)
        ensures
            ok == old(self)@.integrate_ready(),
            ok ==> final(self)@ == old(self)@.integrated(),
            !ok ==> *final(self) == *old(self),
    {
        let x = self.position.x.0.checked_add(self.velocity.x.0);
        let y = self.position.y.0.checked_add(self.velocity.y.0);
        if x.is_none() || y.is_none() {
            return false;
        }
        self.integrate();
        true
    }
}

/// Whether the overlap of two placed boxes can be tested within the range
/// of the raw values. A sum is asked for only where the test gets to it.
pub open spec fn overlap_fits(apos: Vec2, abox: Hitbox2, bpos: Vec2, bbox: Hitbox2) -> bool {
    let ax = apos.x@ + abox.offset.x@;
    let ay = apos.y@ + abox.offset.y@;
    let bx = bpos.x@ + bbox.offset.x@;
    let by = bpos.y@ + bbox.offset.y@;
    &&& fits_raw(ax) && fits_raw(ay) && fits_raw(bx) && fits_raw(by)
    &&& fits_raw(bx + bbox.size.x@)
    &&& ax < bx + bbox.size.x@ ==> {
        &&& fits_raw(ax + abox.size.x@)
        &&& ax + abox.size.x@ > bx ==> {
            &&& fits_raw(by - bbox.size.y@)
            &&& ay > by - bbox.size.y@ ==> fits_raw(ay - abox.size.y@)
        }
    }
}

/// Whether two boxes, each placed relative to the position of its
/// combatant, overlap. A box spans from its left edge to the right by its
/// width, and from its top edge down by its height; boxes that only touch
/// do not overlap.
pub open spec fn overlaps(apos: Vec2, abox: Hitbox2, bpos: Vec2, bbox: Hitbox2) -> bool {
    let ax = apos.x@ + abox.offset.x@;
    let ay = apos.y@ + abox.offset.y@;
    let bx = bpos.x@ + bbox.offset.x@;
    let by = bpos.y@ + bbox.offset.y@;
    &&& ax < bx + bbox.size.x@
    &&& ax + abox.size.x@ > bx
    &&& ay > by - bbox.size.y@
    &&& ay - abox.size.y@ < by
}

/// Whether two boxes collide: one is a hitbox, the other a hurtbox, and
/// they overlap.
pub open spec fn collides(apos: Vec2, abox: Hitbox2, bpos: Vec2, bbox: Hitbox2) -> bool {
    abox.hitbox_type != bbox.hitbox_type && overlaps(apos, abox, bpos, bbox)
}

/// Tests two boxes for a collision.
pub fn boxes_collide(apos: Vec2, abox: &Hitbox2, bpos: Vec2, bbox: &Hitbox2) -> (r: bool)
    requires
        abox.hitbox_type != bbox.hitbox_type ==> overlap_fits(apos, *abox, bpos, *bbox),
    ensures
        r == collides(apos, *abox, bpos, *bbox),
{
    if abox.hitbox_type == bbox.hitbox_type {
        return false;
    }
    let a = apos + abox.offset;
    let b = bpos + bbox.offset;
    a.x.0 < (b.x + bbox.size.x).0 && (a.x + abox.size.x).0 > b.x.0 && a.y.0 > (b.y
        - bbox.size.y).0 && (a.y - abox.size.y).0 < b.y.0
}

/// Whether the overlap of two boxes can be tested within the range of the
/// raw values.
pub fn overlap_can_be_tested(apos: Vec2, abox: &Hitbox2, bpos: Vec2, bbox: &Hitbox2) -> (r: bool)
    ensures
        r == overlap_fits(apos, *abox, bpos, *bbox),
{
    let ax = match apos.x.0.checked_add(abox.offset.x.0) {
        Some(sum) => sum,
        None => { return false; },
    };
    let ay = match apos.y.0.checked_add(abox.offset.y.0) {
        Some(sum) => sum,
        None => { return false; },
    };
    let bx = match bpos.x.0.checked_add(bbox.offset.x.0) {
        Some(sum) => sum,
        None => { return false; },
    };
    let by = match bpos.y.0.checked_add(bbox.offset.y.0) {
        Some(sum) => sum,
        None => { return false; },
    };
    let b_right = match bx.checked_add(bbox.size.x.0) {
        Some(sum) => sum,
        None => { return false; },
    };
    if ax < b_right {
        let a_right = match ax.checked_add(abox.size.x.0) {
            Some(sum) => sum,
            None => { return false; },
        };
        if a_right > bx {
            let b_bottom = match by.checked_sub(bbox.size.y.0) {
                Some(difference) => difference,
                None => { return false; },
            };
            if ay > b_bottom {
                return ay.checked_sub(abox.size.y.0).is_some();
            }
        }
    }
    true
}

/// Whether every pair of boxes of two combatants, a hitbox with a hurtbox,
/// can be tested for overlap within the range of the raw values.
pub fn pair_can_be_tested(a: &CharacterBundle, b: &CharacterBundle) -> (r: bool)
    ensures
        r == pair_fits(a@.position, a@.hitboxes, b@.position, b@.hitboxes),
{
    let mut p: usize = 0;
    while p < a.hitboxes.hitboxes.len()
        invariant
            p <= a.hitboxes.hitboxes.len(),
            forall|e: int, q: int|
                0 <= e < p && 0 <= q < b@.hitboxes.len() && (#[trigger] a@.hitboxes[e]).hitbox_type
                    != (#[trigger] b@.hitboxes[q]).hitbox_type ==> overlap_fits(
                    a@.position,
                    a@.hitboxes[e],
                    b@.position,
                    b@.hitboxes[q],
                ),
        decreases a.hitboxes.hitboxes.len() - p,
    {
        let abox = &a.hitboxes.hitboxes[p];
        let mut q: usize = 0;
        while q < b.hitboxes.hitboxes.len()
            invariant
                p < a.hitboxes.hitboxes.len(),
                *abox == a@.hitboxes[p as int],
                q <= b.hitboxes.hitboxes.len(),
                forall|e: int|
                    0 <= e < q && abox.hitbox_type != (#[trigger] b@.hitboxes[e]).hitbox_type
                        ==> overlap_fits(a@.position, *abox, b@.position, b@.hitboxes[e]),
            decreases b.hitboxes.hitboxes.len() - q,
        {
            let bbox = &b.hitboxes.hitboxes[q];
            if abox.hitbox_type != bbox.hitbox_type && !overlap_can_be_tested(
                a.position,
                abox,
                b.position,
                bbox,
            ) {
                assert(a@.hitboxes[p as int].hitbox_type != b@.hitboxes[q as int].hitbox_type);
                assert(!overlap_fits(
                    a@.position,
                    a@.hitboxes[p as int],
                    b@.position,
                    b@.hitboxes[q as int],
                ));
                return false;
            }
            q += 1;
        }
        p += 1;
    }
    true
}

/// For one box of the first combatant and the first `upto` boxes of the
/// second, in order: for each pair that collides, whether the box of the
/// first was the attacking one.
pub open spec fn row_hits(
    apos: Vec2,
    abox: Hitbox2,
    bpos: Vec2,
    bboxes: Seq<Hitbox2>,
    upto: int,
) -> Seq<bool>
    decreases upto,
{
    if upto <= 0 {
        Seq::empty()
    } else {
        let before = row_hits(apos, abox, bpos, bboxes, upto - 1);
        if collides(apos, abox, bpos, bboxes[upto - 1]) {
            before.push(abox.hitbox_type == HitboxType::Hitbox)
        } else {
            before
        }
    }
}

/// For the first `upto` boxes of the first combatant, in order, each
/// against all boxes of the second, in order: for each pair that collides,
/// whether the box of the first was the attacking one.
pub open spec fn pair_hits(
    apos: Vec2,
    aboxes: Seq<Hitbox2>,
    bpos: Vec2,
    bboxes: Seq<Hitbox2>,
    upto: int,
) -> Seq<bool>
    decreases upto,
{
    if upto <= 0 {
        Seq::empty()
    } else {
        pair_hits(apos, aboxes, bpos, bboxes, upto - 1) + row_hits(
            apos,
            aboxes[upto - 1],
            bpos,
            bboxes,
            bboxes.len() as int,
        )
    }
}

/// Whether every pair of boxes of two combatants, a hitbox with a hurtbox,
/// can be tested for overlap within the range of the raw values.
pub open spec fn pair_fits(
    apos: Vec2,
    aboxes: Seq<Hitbox2>,
    bpos: Vec2,
    bboxes: Seq<Hitbox2>,
) -> bool {
    forall|p: int, q: int|
        0 <= p < aboxes.len() && 0 <= q < bboxes.len() && (#[trigger] aboxes[p]).hitbox_type != (
        #[trigger] bboxes[q]).hitbox_type ==> overlap_fits(apos, aboxes[p], bpos, bboxes[q])
}

/// Detects the collisions between the boxes of two combatants.
pub fn detect_pair(a: &CharacterBundle, b: &CharacterBundle) -> (r: Vec<bool>)
    requires
        pair_fits(a@.position, a@.hitboxes, b@.position, b@.hitboxes),
    ensures
        r@ == pair_hits(
            a@.position,
            a@.hitboxes,
            b@.position,
            b@.hitboxes,
            a@.hitboxes.len() as int,
        ),
{
    let mut hits: Vec<bool> = Vec::new();
    let mut p: usize = 0;
    while p < a.hitboxes.hitboxes.len()
        invariant
            pair_fits(a@.position, a@.hitboxes, b@.position, b@.hitboxes),
            p <= a.hitboxes.hitboxes.len(),
            hits@ == pair_hits(a@.position, a@.hitboxes, b@.position, b@.hitboxes, p as int),
        decreases a.hitboxes.hitboxes.len() - p,
    {
        let abox = &a.hitboxes.hitboxes[p];
        let ghost done = hits@;
        let mut q: usize = 0;
        while q < b.hitboxes.hitboxes.len()
            invariant
                pair_fits(a@.position, a@.hitboxes, b@.position, b@.hitboxes),
                p < a.hitboxes.hitboxes.len(),
                *abox == a@.hitboxes[p as int],
                q <= b.hitboxes.hitboxes.len(),
                hits@ == done + row_hits(a@.position, *abox, b@.position, b@.hitboxes, q as int),
            decreases b.hitboxes.hitboxes.len() - q,
        {
            let bbox = &b.hitboxes.hitboxes[q];
            assert(*bbox == b@.hitboxes[q as int]);
            if boxes_collide(a.position, abox, b.position, bbox) {
                hits.push(abox.hitbox_type == HitboxType::Hitbox);
            }
            q += 1;
        }
        p += 1;
    }
    hits
}

/// The records that combatant `k` gets from its pair with combatant `m`:
/// one for each pair of boxes that collides, in the order of the boxes of
/// the combatant with the lower index, and under each of them in the order
/// of the boxes of the other.
pub open spec fn records_against(entities: Seq<CharacterBundleView>, k: int, m: int) -> Seq<
    Collision,
> {
    if k < m {
        pair_hits(
            entities[k].position,
            entities[k].hitboxes,
            entities[m].position,
            entities[m].hitboxes,
            entities[k].hitboxes.len() as int,
        ).map_values(
            |hit: bool|
                Collision {
                    other_entity: m as usize,
                    other_team: entities[m].team,
                    did_the_hitting: hit,
                },
        )
    } else if m < k {
        pair_hits(
            entities[m].position,
            entities[m].hitboxes,
            entities[k].position,
            entities[k].hitboxes,
            entities[m].hitboxes.len() as int,
        ).map_values(
            |hit: bool|
                Collision {
                    other_entity: m as usize,
                    other_team: entities[m].team,
                    did_the_hitting: !hit,
                },
        )
    } else {
        Seq::empty()
    }
}

/// The records that combatant `k` gets from its pairs with the first
/// `upto` combatants, in their order.
pub open spec fn received(entities: Seq<CharacterBundleView>, k: int, upto: int) -> Seq<Collision>
    decreases upto,
{
    if upto <= 0 {
        Seq::empty()
    } else {
        received(entities, k, upto - 1) + records_against(entities, k, upto - 1)
    }
}

/// Whether every pair of combatants can be tested for collisions within
/// the range of the raw values.
pub open spec fn collisions_ready(entities: Seq<CharacterBundleView>) -> bool {
    forall|i: int, j: int|
        0 <= i < j < entities.len() ==> pair_fits(
            (#[trigger] entities[i]).position,
            entities[i].hitboxes,
            (#[trigger] entities[j]).position,
            entities[j].hitboxes,
        )
}

/// Whether every pair of combatants can be tested for collisions within
/// the range of the raw values.
pub fn collisions_can_be_detected(entities: &Vec<CharacterBundle>) -> (r: bool)
    ensures
        r == collisions_ready(bundle_views(entities@)),
{
    let ghost views = bundle_views(entities@);
    let count = entities.len();
    let mut i: usize = 0;
    while i < count
        invariant
            views == bundle_views(entities@),
            count == entities.len(),
            i <= count,
            forall|a: int, b: int|
                0 <= a < b < count && a < i ==> pair_fits(
                    (#[trigger] views[a]).position,
                    views[a].hitboxes,
                    (#[trigger] views[b]).position,
                    views[b].hitboxes,
                ),
        decreases count - i,
    {
        let mut j: usize = i + 1;
        while j < count
            invariant
                views == bundle_views(entities@),
                count == entities.len(),
                i < j <= count,
                forall|b: int|
                    i < b < j ==> pair_fits(
                        views[i as int].position,
                        views[i as int].hitboxes,
                        (#[trigger] views[b]).position,
                        views[b].hitboxes,
                    ),
            decreases count - j,
        {
            if !pair_can_be_tested(&entities[i], &entities[j]) {
                assert(!pair_fits(
                    views[i as int].position,
                    views[i as int].hitboxes,
                    views[j as int].position,
                    views[j as int].hitboxes,
                ));
                return false;
            }
            j += 1;
        }
        i += 1;
    }
    true
}

/// A combatant with records added to its pending collisions.
pub open spec fn with_records(
    entity: CharacterBundleView,
    records: Seq<Collision>,
) -> CharacterBundleView {
    CharacterBundleView { collisions: entity.collisions + records, ..entity }
}

/// The combatants after collision detection: each has, behind the records
/// that it held, those from its pairs with all others. Records are not
/// merged: every pair of boxes that collides leaves one with either
/// combatant, whatever the teams.
pub open spec fn collided(entities: Seq<CharacterBundleView>) -> Seq<CharacterBundleView> {
    Seq::new(
        entities.len(),
        |k: int| with_records(entities[k], received(entities, k, entities.len() as int)),
    )
}

/// The records that combatant `k` has got when the pairs before the pair
/// of `i` and `j` are done, in the order in which the pairs are taken:
/// every combatant with each one after it.
pub open spec fn received_before(
    entities: Seq<CharacterBundleView>,
    i: int,
    j: int,
    k: int,
) -> Seq<Collision> {
    if k < i {
        received(entities, k, entities.len() as int)
    } else if k == i {
        received(entities, k, j)
    } else if k < j {
        received(entities, k, i + 1)
    } else {
        received(entities, k, i)
    }
}

/// Detects the collisions between all pairs of combatants, and gives each
/// combatant of a pair a record of each.
pub fn collisions(entities: &mut Vec<CharacterBundle>)
    requires
        collisions_ready(bundle_views(old(entities)@)),
    ensures
        final(entities).len() == old(entities).len(),
        bundle_views(final(entities)@) == collided(bundle_views(old(entities)@)),
{
    let ghost before = bundle_views(entities@);
    let count = entities.len();
    let mut i: usize = 0;
    while i < count
        invariant
            before == bundle_views(old(entities)@),
            collisions_ready(before),
            count == entities.len(),
            count == before.len(),
            i <= count,
            forall|k: int|
                0 <= k < count ==> (#[trigger] entities[k])@ == with_records(
                    before[k],
                    received_before(before, i as int, i as int, k),
                ),
        decreases count - i,
    {
        let mut j: usize = i + 1;
        while j < count
            invariant
                collisions_ready(before),
                count == entities.len(),
                count == before.len(),
                i < j <= count,
                forall|k: int|
                    0 <= k < count ==> (#[trigger] entities[k])@ == with_records(
                        before[k],
                        received_before(before, i as int, j as int, k),
                    ),
            decreases count - j,
        {
            let hits = detect_pair(&entities[i], &entities[j]);
            let team_i = entities[i].team;
            let team_j = entities[j].team;
            let ghost for_i = records_against(before, i as int, j as int);
            let ghost for_j = records_against(before, j as int, i as int);
            let mut h: usize = 0;
            while h < hits.len()
                invariant
                    count == entities.len(),
                    count == before.len(),
                    i < j < count,
                    h <= hits.len(),
                    team_i == before[i as int].team,
                    team_j == before[j as int].team,
                    hits@ == pair_hits(
                        before[i as int].position,
                        before[i as int].hitboxes,
                        before[j as int].position,
                        before[j as int].hitboxes,
                        before[i as int].hitboxes.len() as int,
                    ),
                    for_i == records_against(before, i as int, j as int),
                    for_j == records_against(before, j as int, i as int),
                    forall|k: int|
                        0 <= k < count && k != i && k != j ==> (#[trigger] entities[k])@
                            == with_records(
                            before[k],
                            received_before(before, i as int, j as int, k),
                        ),
                    entities[i as int]@ == with_records(
                        before[i as int],
                        received(before, i as int, j as int) + for_i.take(h as int),
                    ),
                    entities[j as int]@ == with_records(
                        before[j as int],
                        received(before, j as int, i as int) + for_j.take(h as int),
                    ),
                decreases hits.len() - h,
            {
                let hit = hits[h];
                proof {
                    assert(for_i.take(h + 1) =~= for_i.take(h as int).push(for_i[h as int]));
                    assert(for_j.take(h + 1) =~= for_j.take(h as int).push(for_j[h as int]));
                }
                entities[i].collisions.collisions.push(
                    Collision { other_entity: j, other_team: team_j, did_the_hitting: hit },
                );
                entities[j].collisions.collisions.push(
                    Collision { other_entity: i, other_team: team_i, did_the_hitting: !hit },
                );
                h += 1;
            }
            proof {
                assert(for_i.take(hits.len() as int) =~= for_i);
                assert(for_j.take(hits.len() as int) =~= for_j);
            }
            j += 1;
        }
        i += 1;
    }
    assert(bundle_views(entities@) =~= collided(before));
}

/// Effects on their way to a combatant.
pub struct Delivery {
    /// Index of the combatant that is struck.
    pub target: usize,
    pub effects: Seq<Effect>,
}

/// What a record of a combatant delivers: the effects of the combatant's
/// move in flight, to the other combatant of the record, where the other
/// is of another team and the combatant was the attacking side.
pub open spec fn delivery_of(entity: CharacterBundleView, record: Collision) -> Option<Delivery> {
    if record.other_team != entity.team && record.did_the_hitting {
        match entity.character.current_move_on_hit {
            Some(effects) => Some(Delivery { target: record.other_entity, effects }),
            None => None,
        }
    } else {
        None
    }
}

/// What the pending collisions of a combatant deliver, in their order.
pub open spec fn gathered(entity: CharacterBundleView) -> Seq<Delivery> {
    entity.collisions.filter_map(|record: Collision| delivery_of(entity, record))
}

/// What the first `upto` combatants deliver, in their order.
pub open spec fn deliveries(entities: Seq<CharacterBundleView>, upto: int) -> Seq<Delivery>
    decreases upto,
{
    if upto <= 0 {
        Seq::empty()
    } else {
        deliveries(entities, upto - 1) + gathered(entities[upto - 1])
    }
}

/// The effects that a list of deliveries brings to one combatant, in the
/// order of the list.
pub open spec fn delivered_to(table: Seq<Delivery>, target: int) -> Seq<Effect>
    decreases table.len(),
{
    if table.len() == 0 {
        Seq::empty()
    } else if table.last().target == target {
        delivered_to(table.drop_last(), target) + table.last().effects
    } else {
        delivered_to(table.drop_last(), target)
    }
}

/// Whether every delivery goes to a combatant that there is.
pub open spec fn resolver_ready(entities: Seq<CharacterBundleView>) -> bool {
    forall|d: int|
        0 <= d < deliveries(entities, entities.len() as int).len() ==> (#[trigger] deliveries(
            entities,
            entities.len() as int,
        )[d]).target < entities.len()
}

/// The combatants after the collisions are resolved: the pending
/// collisions of all are taken up, and each combatant has, behind the
/// effects that were queued for it, those that the deliveries bring it.
pub open spec fn resolved(entities: Seq<CharacterBundleView>) -> Seq<CharacterBundleView> {
    Seq::new(
        entities.len(),
        |k: int|
            CharacterBundleView {
                collisions: Seq::empty(),
                effects: entities[k].effects + delivered_to(
                    deliveries(entities, entities.len() as int),
                    k,
                ),
                ..entities[k]
            },
    )
}

/// A collision with a combatant of the same team delivers nothing: where
/// every pending collision of every combatant is with its own team, the
/// resolver takes the collisions up and queues no effect.
pub proof fn lemma_no_friendly_fire(entities: Seq<CharacterBundleView>)
    requires
        forall|k: int, c: int|
            0 <= k < entities.len() && 0 <= c < entities[k].collisions.len() ==> (
            #[trigger] entities[k].collisions[c]).other_team == entities[k].team,
    ensures
        forall|k: int|
            0 <= k < entities.len() ==> (#[trigger] resolved(entities)[k]).effects
                == entities[k].effects && resolved(entities)[k].collisions.len() == 0,
{
    lemma_friendly_deliveries(entities, entities.len() as int);
    assert forall|k: int| 0 <= k < entities.len() implies (#[trigger] resolved(
        entities,
    )[k]).effects =~= entities[k].effects by {}
}

/// Where every pending collision is with a combatant's own team, nothing
/// is delivered.
proof fn lemma_friendly_deliveries(entities: Seq<CharacterBundleView>, upto: int)
    requires
        0 <= upto <= entities.len(),
        forall|k: int, c: int|
            0 <= k < entities.len() && 0 <= c < entities[k].collisions.len() ==> (
            #[trigger] entities[k].collisions[c]).other_team == entities[k].team,
    ensures
        deliveries(entities, upto).len() == 0,
    decreases upto,
{
    if upto > 0 {
        lemma_friendly_deliveries(entities, upto - 1);
        let entity = entities[upto - 1];
        lemma_friendly_gathered(entity, entity.collisions);
    }
}

/// Records with a combatant's own team deliver nothing.
proof fn lemma_friendly_gathered(entity: CharacterBundleView, records: Seq<Collision>)
    requires
        forall|c: int| 0 <= c < records.len() ==> (#[trigger] records[c]).other_team == entity.team,
    ensures
        records.filter_map(|record: Collision| delivery_of(entity, record)).len() == 0,
    decreases records.len(),
{
    if records.len() > 0 {
        lemma_friendly_gathered(entity, records.drop_last());
        assert(records.last() == records[records.len() - 1]);
    }
}

/// Combatants without a move in flight deliver nothing, whatever
/// collisions are pending.
pub proof fn lemma_unarmed_deliveries(entities: Seq<CharacterBundleView>, upto: int)
    requires
        0 <= upto <= entities.len(),
        forall|k: int|
            0 <= k < entities.len() ==> (
            #[trigger] entities[k]).character.current_move_on_hit is None,
    ensures
        deliveries(entities, upto).len() == 0,
    decreases upto,
{
    if upto > 0 {
        lemma_unarmed_deliveries(entities, upto - 1);
        lemma_unarmed_gathered(entities[upto - 1], entities[upto - 1].collisions);
    }
}

/// Records of a combatant without a move in flight deliver nothing.
proof fn lemma_unarmed_gathered(entity: CharacterBundleView, records: Seq<Collision>)
    requires
        entity.character.current_move_on_hit is None,
    ensures
        records.filter_map(|record: Collision| delivery_of(entity, record)).len() == 0,
    decreases records.len(),
{
    if records.len() > 0 {
        lemma_unarmed_gathered(entity, records.drop_last());
    }
}

/// The deliveries of a table, each with its effects as a sequence.
pub open spec fn table_view(table: Seq<(usize, Vec<Effect>)>) -> Seq<Delivery> {
    table.map_values(|entry: (usize, Vec<Effect>)| Delivery { target: entry.0, effects: entry.1@ })
}

/// Takes up the pending collisions of one combatant and adds what they
/// deliver to a table.
pub fn gather(entity: &mut CharacterBundle, table: &mut Vec<(usize, Vec<Effect>)>)
    ensures
        final(entity)@ == (CharacterBundleView { collisions: Seq::empty(), ..old(entity)@ }),
        table_view(final(table)@) == table_view(old(table)@) + gathered(old(entity)@),
{
    let ghost deliver = |record: Collision| delivery_of(old(entity)@, record);
    let mut c: usize = 0;
    while c < entity.collisions.collisions.len()
        invariant
            *entity == *old(entity),
            deliver == |record: Collision| delivery_of(old(entity)@, record),
            c <= entity.collisions.collisions.len(),
            table_view(table@) == table_view(old(table)@) + entity@.collisions.take(
                c as int,
            ).filter_map(deliver),
        decreases entity.collisions.collisions.len() - c,
    {
        let record = entity.collisions.collisions[c];
        proof {
            entity@.collisions.lemma_filter_map_take_succ(deliver, c as int);
        }
        if record.other_team != entity.team && record.did_the_hitting {
            if let Some(effects) = &entity.character.current_move_on_hit {
                let ghost held = table@;
                table.push((record.other_entity, copy_effects(effects)));
                assert(table_view(table@) =~= table_view(held).push(
                    Delivery { target: record.other_entity, effects: effects@ },
                ));
            }
        }
        c += 1;
    }
    assert(entity@.collisions.take(entity@.collisions.len() as int) =~= entity@.collisions);
    entity.collisions.collisions.clear();
}

/// Resolves the pending collisions of all combatants into queued effects,
/// in two passes: the first takes the collisions up and gathers what they
/// deliver, the second hands the deliveries out.
pub fn collision_resolver(entities: &mut Vec<CharacterBundle>)
    requires
        resolver_ready(bundle_views(old(entities)@)),
    ensures
        final(entities).len() == old(entities).len(),
        bundle_views(final(entities)@) == resolved(bundle_views(old(entities)@)),
{
    let ghost before = bundle_views(entities@);
    let count = entities.len();
    let mut table: Vec<(usize, Vec<Effect>)> = Vec::new();
    let mut k: usize = 0;
    assert(table_view(table@) =~= deliveries(before, 0));
    while k < count
        invariant
            before == bundle_views(old(entities)@),
            count == entities.len(),
            count == before.len(),
            k <= count,
            table_view(table@) == deliveries(before, k as int),
            forall|e: int|
                0 <= e < k ==> (#[trigger] entities[e])@ == (CharacterBundleView {
                    collisions: Seq::empty(),
                    ..before[e]
                }),
            forall|e: int| k <= e < count ==> (#[trigger] entities[e])@ == before[e],
        decreases count - k,
    {
        gather(&mut entities[k], &mut table);
        k += 1;
    }
    let ghost all = table_view(table@);
    let mut d: usize = 0;
    while d < table.len()
        invariant
            before == bundle_views(old(entities)@),
            resolver_ready(before),
            count == entities.len(),
            count == before.len(),
            all == deliveries(before, count as int),
            table_view(table@) == all,
            d <= table.len(),
            forall|e: int|
                0 <= e < count ==> (#[trigger] entities[e])@ == (CharacterBundleView {
                    collisions: Seq::empty(),
                    effects: before[e].effects + delivered_to(all.take(d as int), e),
                    ..before[e]
                }),
        decreases table.len() - d,
    {
        let target = table[d].0;
        assert(all[d as int].target == target && all[d as int].effects == table[d as int].1@);
        let mut effects = copy_effects(&table[d].1);
        proof {
            assert(all.take(d + 1).drop_last() =~= all.take(d as int));
            assert(all.take(d + 1).last() == all[d as int]);
        }
        entities[target].effects.effects.append(&mut effects);
        d += 1;
    }
    assert(all.take(table.len() as int) =~= all);
    assert(bundle_views(entities@) =~= resolved(before));
}

} // verus!
