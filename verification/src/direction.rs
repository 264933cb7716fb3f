use vstd::prelude::*;
use vstd::std_specs::convert::FromSpecImpl;

verus! {

/// Side that a combatant fronts.
#[derive(Clone, Copy, Debug, PartialEq, Eq, Structural)]
pub enum FacingDirection {
    Left,
    Right,
}

impl Default for FacingDirection {
    fn default() -> (r: Self)
        ensures
            r == FacingDirection::Right,
    {
        FacingDirection::Right
    }
}

/// Eight-way direction of a movement input, or none.
#[derive(Clone, Copy, Debug, PartialEq, Eq, Structural)]
pub enum AbsoluteDirection {
    Right,
    DownRight,
    Down,
    DownLeft,
    Left,
    UpLeft,
    Up,
    UpRight,
    Neutral,
}

impl Default for AbsoluteDirection {
    fn default() -> (r: Self)
        ensures
            r == AbsoluteDirection::Neutral,
    {
        AbsoluteDirection::Neutral
    }
}

/// Sector of an angle given in tenths of a degree: the full turn is cut
/// into eight wedges of 45 degrees, each centred on its direction, and
/// counted counter-clockwise from Right.
pub open spec fn sector(deci_degrees: int) -> int {
    ((deci_degrees + 225) % 3600) / 450
}

/// Direction that owns a sector.
pub open spec fn sector_direction(sector: int) -> AbsoluteDirection {
    if sector == 0 {
        AbsoluteDirection::Right
    } else if sector == 1 {
        AbsoluteDirection::UpRight
    } else if sector == 2 {
        AbsoluteDirection::Up
    } else if sector == 3 {
        AbsoluteDirection::UpLeft
    } else if sector == 4 {
        AbsoluteDirection::Left
    } else if sector == 5 {
        AbsoluteDirection::DownLeft
    } else if sector == 6 {
        AbsoluteDirection::Down
    } else {
        AbsoluteDirection::DownRight
    }
}

impl AbsoluteDirection {
    /// The direction with left and right exchanged.
    pub open spec fn mirrored(self) -> AbsoluteDirection {
        match self {
            AbsoluteDirection::Right => AbsoluteDirection::Left,
            AbsoluteDirection::DownRight => AbsoluteDirection::DownLeft,
            AbsoluteDirection::Down => AbsoluteDirection::Down,
            AbsoluteDirection::DownLeft => AbsoluteDirection::DownRight,
            AbsoluteDirection::Left => AbsoluteDirection::Right,
            AbsoluteDirection::UpLeft => AbsoluteDirection::UpRight,
            AbsoluteDirection::Up => AbsoluteDirection::Up,
            AbsoluteDirection::UpRight => AbsoluteDirection::UpLeft,
            AbsoluteDirection::Neutral => AbsoluteDirection::Neutral,
        }
    }

    /// The direction as seen by a combatant with the given facing.
    pub open spec fn relative_to(self, facing: FacingDirection) -> AbsoluteDirection {
        if facing == FacingDirection::Left {
            self.mirrored()
        } else {
            self
        }
    }

    /// Whether the direction has an upward part.
    pub fn is_up(&self) -> (r: bool)
        ensures
            r == (*self == AbsoluteDirection::Up || *self == AbsoluteDirection::UpRight || *self
                == AbsoluteDirection::UpLeft),
    {
        match self {
            AbsoluteDirection::Up | AbsoluteDirection::UpRight | AbsoluteDirection::UpLeft => true,
            _ => false,
        }
    }

    /// Mirrors the direction for a combatant that faces Left; a combatant
    /// that faces Right sees it as it is.
    pub fn flipped(&self, facing: FacingDirection) -> (r: Self)
        ensures
            r == self.relative_to(facing),
    {
        if facing == FacingDirection::Left {
            match self {
                AbsoluteDirection::Right => AbsoluteDirection::Left,
                AbsoluteDirection::DownRight => AbsoluteDirection::DownLeft,
                AbsoluteDirection::Down => AbsoluteDirection::Down,
                AbsoluteDirection::DownLeft => AbsoluteDirection::DownRight,
                AbsoluteDirection::Left => AbsoluteDirection::Right,
                AbsoluteDirection::UpLeft => AbsoluteDirection::UpRight,
                AbsoluteDirection::Up => AbsoluteDirection::Up,
                AbsoluteDirection::UpRight => AbsoluteDirection::UpLeft,
                AbsoluteDirection::Neutral => AbsoluteDirection::Neutral,
            }
        } else {
            *self
        }
    }
}

impl FromSpecImpl<u16> for AbsoluteDirection {
    open spec fn obeys_from_spec() -> bool {
        true
    }

    open spec fn from_spec(deci_degrees: u16) -> AbsoluteDirection {
        sector_direction(sector(deci_degrees as int))
    }
}

impl From<u16> for AbsoluteDirection {
    /// Quantizes an angle, given in tenths of a degree, to the direction
    /// whose wedge holds it.
    fn from(deci_degrees: u16) -> (r: Self) {
        let turned: u32 = (deci_degrees as u32 + 225) % 3600;
        let bucket: u32 = turned / 450;
        if bucket == 0 {
            AbsoluteDirection::Right
        } else if bucket == 1 {
            AbsoluteDirection::UpRight
        } else if bucket == 2 {
            AbsoluteDirection::Up
        } else if bucket == 3 {
            AbsoluteDirection::UpLeft
        } else if bucket == 4 {
            AbsoluteDirection::Left
        } else if bucket == 5 {
            AbsoluteDirection::DownLeft
        } else if bucket == 6 {
            AbsoluteDirection::Down
        } else {
            AbsoluteDirection::DownRight
        }
    }
}

/// Mirroring twice gives the direction back, and leaves the vertical
/// directions and Neutral as they are.
pub proof fn lemma_mirror_involution(d: AbsoluteDirection)
    ensures
        d.mirrored().mirrored() == d,
        d == AbsoluteDirection::Up || d == AbsoluteDirection::Down || d
            == AbsoluteDirection::Neutral ==> d.mirrored() == d,
{
}

/// Every angle falls in one of the eight sectors, and each nominal angle
/// lies in the middle of its own wedge: the wedge of sector `k` holds the
/// angles from `450 k - 225` up to, not including, `450 k + 225`.
pub proof fn lemma_sector_wedge(deci_degrees: int, k: int)
    requires
        0 <= deci_degrees < 3600,
        0 <= k < 8,
    ensures
        0 <= sector(deci_degrees) < 8,
        k >= 1 ==> (sector(deci_degrees) == k <==> 450 * k - 225 <= deci_degrees < 450 * k + 225),
        k == 0 ==> (sector(deci_degrees) == 0 <==> deci_degrees < 225 || deci_degrees >= 3375),
{
}

} // verus!
