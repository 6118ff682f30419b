use vstd::prelude::*;

verus! {

/// The eight compass directions in which a grid cell has a neighbor.
///
/// Rows grow southward (row 0 is the top of the grid) and columns grow
/// eastward, so `North` is one row up and `East` is one column right.
#[derive(Clone, Copy, Debug, PartialEq, Eq, Structural)]
pub enum Direction {
    North,
    NorthEast,
    East,
    SouthEast,
    South,
    SouthWest,
    West,
    NorthWest,
}

/// The row offset of one step in direction `d` (negative is up).
pub open spec fn dir_dr(d: Direction) -> int {
    match d {
        Direction::North => -1,
        Direction::NorthEast => -1,
        Direction::East => 0,
        Direction::SouthEast => 1,
        Direction::South => 1,
        Direction::SouthWest => 1,
        Direction::West => 0,
        Direction::NorthWest => -1,
    }
}

/// The column offset of one step in direction `d` (positive is right).
pub open spec fn dir_dc(d: Direction) -> int {
    match d {
        Direction::North => 0,
        Direction::NorthEast => 1,
        Direction::East => 1,
        Direction::SouthEast => 1,
        Direction::South => 0,
        Direction::SouthWest => -1,
        Direction::West => -1,
        Direction::NorthWest => -1,
    }
}

impl Direction {
    /// The direction pointing the opposite way, pairing North with South,
    /// NorthEast with SouthWest, East with West, and SouthEast with NorthWest.
    pub open spec fn spec_opposite(self) -> Direction {
        match self {
            Direction::North => Direction::South,
            Direction::NorthEast => Direction::SouthWest,
            Direction::East => Direction::West,
            Direction::SouthEast => Direction::NorthWest,
            Direction::South => Direction::North,
            Direction::SouthWest => Direction::NorthEast,
            Direction::West => Direction::East,
            Direction::NorthWest => Direction::SouthEast,
        }
    }

    /// Reverses the direction.
    pub fn opposite(self) -> (r: Direction)
        ensures
            r == self.spec_opposite(),
    {
        match self {
            Direction::North => Direction::South,
            Direction::NorthEast => Direction::SouthWest,
            Direction::East => Direction::West,
            Direction::SouthEast => Direction::NorthWest,
            Direction::South => Direction::North,
            Direction::SouthWest => Direction::NorthEast,
            Direction::West => Direction::East,
            Direction::NorthWest => Direction::SouthEast,
        }
    }
}

/// Reversing a direction is an involution: the opposite of the opposite
/// of any direction is that direction again.
pub proof fn lemma_opposite_involution(d: Direction)
    ensures
        d.spec_opposite().spec_opposite() == d,
{
}

/// One step in the opposite direction undoes one step in the original
/// direction: the row and column offsets are exactly negated.
pub proof fn lemma_opposite_offsets(d: Direction)
    ensures
        dir_dr(d.spec_opposite()) == -dir_dr(d),
        dir_dc(d.spec_opposite()) == -dir_dc(d),
{
}

} // verus!
