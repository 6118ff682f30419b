use vstd::prelude::*;

use crate::direction::{dir_dc, dir_dr, Direction};
use crate::player::Player;
use crate::token::Token;
use vstd::pervasive::VecAdditionalExecFns;

verus! {

/// The mathematical abstraction of a [`Board`]: fixed dimensions and one
/// optional value per cell, addressed row-major as `row * width + column`.
#[verifier::ext_equal]
pub struct BoardView<T> {
    pub width: int,
    pub height: int,
    pub cells: Seq<Option<T>>,
}

impl<T> BoardView<T> {
    /// The dimensions are non-negative, the board area fits an `i32`
    /// index, and there is exactly one cell per coordinate pair.
    pub open spec fn wf(self) -> bool {
        &&& 0 <= self.width
        &&& 0 <= self.height
        &&& self.width * self.height <= i32::MAX as int
        &&& self.cells.len() == self.width * self.height
    }

    pub open spec fn in_bounds(self, row: int, column: int) -> bool {
        0 <= row < self.height && 0 <= column < self.width
    }

    /// The row-major storage index of a coordinate pair.
    pub open spec fn idx(self, row: int, column: int) -> int {
        row * self.width + column
    }

    /// The value stored at a coordinate pair. An out-of-bounds coordinate
    /// holds nothing, exactly like an empty cell.
    pub open spec fn cell(self, row: int, column: int) -> Option<T> {
        if self.in_bounds(row, column) {
            self.cells[self.idx(row, column)]
        } else {
            None
        }
    }

    pub open spec fn occupied(self, row: int, column: int) -> bool {
        self.cell(row, column) is Some
    }

    /// The board after writing `value` at a coordinate pair; a write to an
    /// out-of-bounds coordinate changes nothing.
    pub open spec fn set_cell(self, row: int, column: int, value: T) -> Self {
        if self.in_bounds(row, column) {
            BoardView { cells: self.cells.update(self.idx(row, column), Some(value)), ..self }
        } else {
            self
        }
    }

    /// Every cell holds a value.
    pub open spec fn full(self) -> bool {
        forall|i: int| 0 <= i < self.cells.len() ==> self.cells[i] is Some
    }
}

/// Distinct in-bounds coordinate pairs have distinct row-major indices.
pub proof fn lemma_rc_index_injective(w: int, r1: int, c1: int, r2: int, c2: int)
    by (nonlinear_arith)
    requires
        0 <= c1 < w,
        0 <= c2 < w,
        r1 * w + c1 == r2 * w + c2,
    ensures
        r1 == r2,
        c1 == c2,
{
}

/// The row-major index of an in-bounds coordinate pair lies within the
/// board area.
pub proof fn lemma_rc_index_bounds(w: int, h: int, r: int, c: int)
    by (nonlinear_arith)
    requires
        0 <= r < h,
        0 <= c < w,
    ensures
        0 <= r * w + c,
        r * w + c < w * h,
        0 <= r * w,
{
}

/// How one write changes the whole board: the written cell now holds the
/// value, every other cell is unchanged, and the dimensions and
/// well-formedness are kept.
pub proof fn lemma_set_cell_spec<T>(b: BoardView<T>, row: int, column: int, value: T)
    requires
        b.wf(),
    ensures
        b.set_cell(row, column, value).wf(),
        b.set_cell(row, column, value).width == b.width,
        b.set_cell(row, column, value).height == b.height,
        forall|r2: int, c2: int|
            #[trigger] b.set_cell(row, column, value).cell(r2, c2) == (if r2 == row && c2
                == column && b.in_bounds(row, column) {
                Some(value)
            } else {
                b.cell(r2, c2)
            }),
{
    if b.in_bounds(row, column) {
        lemma_rc_index_bounds(b.width, b.height, row, column);
        assert forall|r2: int, c2: int|
            #[trigger] b.set_cell(row, column, value).cell(r2, c2) == (if r2 == row && c2
                == column && b.in_bounds(row, column) {
                Some(value)
            } else {
                b.cell(r2, c2)
            }) by {
            if b.in_bounds(r2, c2) {
                lemma_rc_index_bounds(b.width, b.height, r2, c2);
                if b.idx(r2, c2) == b.idx(row, column) {
                    lemma_rc_index_injective(b.width, r2, c2, row, column);
                }
            }
        }
    }
}

/// Writing a value and reading it back.
///
/// For every in-bounds coordinate pair, a read after a write returns the
/// written value. An out-of-bounds coordinate never holds a value, no
/// matter what was written before, and a write to it changes nothing.
pub proof fn lemma_round_trip<T>(b: BoardView<T>, row: int, column: int, value: T)
    requires
        b.wf(),
    ensures
        b.in_bounds(row, column) ==> b.set_cell(row, column, value).cell(row, column) == Some(
            value,
        ),
        !b.in_bounds(row, column) ==> b.cell(row, column) is None && b.set_cell(
            row,
            column,
            value,
        ) == b,
{
    lemma_set_cell_spec(b, row, column, value);
}

/// A two-dimensional container of optional values with bounds-checked
/// access. Cells are stored row-major; each occupied cell remembers its
/// own coordinates as a [`Token`].
#[derive(Clone, Debug, PartialEq)]
pub struct Board<T> {
    pub width: i32,
    pub height: i32,
    pub data: Vec<Option<Token<T>>>,
}

impl<T> View for Board<T> {
    type V = BoardView<T>;

    open spec fn view(&self) -> BoardView<T> {
        BoardView {
            width: self.width as int,
            height: self.height as int,
            cells: self.data@.map_values(
                |slot: Option<Token<T>>|
                    match slot {
                        Some(token) => Some(token.value),
                        None => None,
                    },
            ),
        }
    }
}

impl<T> Board<T> {
    /// The stored token at a raw row-major index, named so that the
    /// well-formedness condition below can quantify over coordinates.
    pub open spec fn tok_at(self, row: int, column: int) -> Option<Token<T>> {
        self.data@[row * self.width + column]
    }

    /// The abstraction is well formed and every stored token carries the
    /// coordinates of the cell it sits in.
    pub open spec fn wf(self) -> bool {
        &&& self@.wf()
        &&& forall|r: int, c: int|
            0 <= r < self.height && 0 <= c < self.width ==> match #[trigger] self.tok_at(r, c) {
                Some(t) => t.row == r && t.column == c,
                None => true,
            }
    }

    /// An empty board of the given dimensions.
    pub fn new(width: i32, height: i32) -> (r: Self)
        requires
            0 <= width,
            0 <= height,
            width * height <= i32::MAX,
        ensures
            r.wf(),
            r.width == width,
            r.height == height,
            forall|rr: int, cc: int| #[trigger] r@.cell(rr, cc) is None,
    {
        let count = (width as usize) * (height as usize);
        let mut data: Vec<Option<Token<T>>> = Vec::new();
        while data.len() < count
            invariant
                count == width * height,
                data@.len() <= count,
                forall|i: int| 0 <= i < data@.len() ==> data@[i] is None,
            decreases count - data@.len(),
        {
            data.push(None);
        }
        let board = Self { width, height, data };
        proof {
            assert forall|rr: int, cc: int| #[trigger] board@.cell(rr, cc) is None by {
                if board@.in_bounds(rr, cc) {
                    lemma_rc_index_bounds(width as int, height as int, rr, cc);
                }
            }
            assert forall|rr: int, cc: int|
                0 <= rr < board.height && 0 <= cc < board.width implies (#[trigger] board.tok_at(
                rr,
                cc,
            )) is None by {
                lemma_rc_index_bounds(width as int, height as int, rr, cc);
            }
        }
        board
    }

    pub fn width(&self) -> (r: i32)
        ensures
            r == self.width,
    {
        self.width
    }

    pub fn height(&self) -> (r: i32)
        ensures
            r == self.height,
    {
        self.height
    }

    /// Read-only access to the backing storage.
    pub fn data(&self) -> (r: &Vec<Option<Token<T>>>)
        ensures
            r == &self.data,
    {
        &self.data
    }

    /// The row-major storage index of an in-bounds coordinate pair.
    pub fn rc_to_index(&self, row: i32, column: i32) -> (r: i32)
        requires
            self.wf(),
            0 <= row < self.height,
            0 <= column < self.width,
        ensures
            r == self@.idx(row as int, column as int),
    {
        proof {
            lemma_rc_index_bounds(self.width as int, self.height as int, row as int, column as int);
        }
        row * self.width + column
    }

    /// The stored token, or `None` if the cell is empty or the coordinates
    /// are out of bounds.
    pub fn get(&self, row: i32, column: i32) -> (r: Option<&Token<T>>)
        requires
            self.wf(),
        ensures
            match r {
                Some(t) => self@.cell(row as int, column as int) == Some(t.value) && t.row == row
                    && t.column == column,
                None => self@.cell(row as int, column as int) is None,
            },
    {
        let in_bounds = row >= 0 && row < self.height && column >= 0 && column < self.width;
        if in_bounds {
            proof {
                lemma_rc_index_bounds(
                    self.width as int,
                    self.height as int,
                    row as int,
                    column as int,
                );
            }
            let index = (row as usize) * (self.width as usize) + (column as usize);
            proof {
                assert(self.tok_at(row as int, column as int) == self.data@[index as int]);
            }
            self.data[index].as_ref()
        } else {
            None
        }
    }

    /// Writes `value` at the given coordinates and returns the board again
    /// so that writes can be chained. A write to an out-of-bounds
    /// coordinate is a silent no-op.
    pub fn set(&mut self, row: i32, column: i32, value: T) -> (r: &mut Self)
        requires
            old(self).wf(),
        ensures
            r.wf(),
            r.width == old(self).width,
            r.height == old(self).height,
            r@ == old(self)@.set_cell(row as int, column as int, value),
            !old(self)@.in_bounds(row as int, column as int) ==> *r == *old(self),
            *final(self) == *final(r),
    {
        let in_bounds = row >= 0 && row < self.height && column >= 0 && column < self.width;
        if in_bounds {
            proof {
                lemma_rc_index_bounds(
                    self.width as int,
                    self.height as int,
                    row as int,
                    column as int,
                );
            }
            let index = (row as usize) * (self.width as usize) + (column as usize);
            self.data.set(index, Some(Token::new(row, column, value)));
            proof {
                assert forall|r2: int, c2: int|
                    0 <= r2 < self.height && 0 <= c2 < self.width implies match #[trigger] self
                    .tok_at(r2, c2) {
                    Some(t) => t.row == r2 && t.column == c2,
                    None => true,
                } by {
                    lemma_rc_index_bounds(self.width as int, self.height as int, r2, c2);
                    if r2 * self.width as int + c2 == index as int {
                        lemma_rc_index_injective(
                            self.width as int,
                            r2,
                            c2,
                            row as int,
                            column as int,
                        );
                    } else {
                        assert(self.tok_at(r2, c2) == old(self).tok_at(r2, c2));
                    }
                }
                assert(self@ =~= old(self)@.set_cell(row as int, column as int, value));
            }
        } else {
            proof {
                assert(self@ =~= old(self)@.set_cell(row as int, column as int, value));
            }
        }
        self
    }

    /// The token one step away in the given direction, if that cell is
    /// in bounds and occupied.
    pub fn get_neighbor(&self, row: i32, column: i32, direction: Direction) -> (r: Option<
        &Token<T>,
    >)
        requires
            self.wf(),
        ensures
            match r {
                Some(t) => self@.cell(row as int + dir_dr(direction), column as int + dir_dc(direction))
                    == Some(t.value) && t.row as int == row as int + dir_dr(direction)
                    && t.column as int == column as int + dir_dc(direction),
                None => self@.cell(
                    row as int + dir_dr(direction),
                    column as int + dir_dc(direction),
                ) is None,
            },
    {
        let (dr, dc): (i32, i32) = match direction {
            Direction::North => (-1, 0),
            Direction::NorthEast => (-1, 1),
            Direction::East => (0, 1),
            Direction::SouthEast => (1, 1),
            Direction::South => (1, 0),
            Direction::SouthWest => (1, -1),
            Direction::West => (0, -1),
            Direction::NorthWest => (-1, -1),
        };
        let neighbor_row = (row as i64) + (dr as i64);
        let neighbor_column = (column as i64) + (dc as i64);
        let in_bounds = neighbor_row >= 0 && neighbor_row < (self.height as i64) && neighbor_column
            >= 0 && neighbor_column < (self.width as i64);
        if in_bounds {
            self.get(neighbor_row as i32, neighbor_column as i32)
        } else {
            None
        }
    }
}

impl<T: Copy> Board<T> {
    /// Writes `value` into every cell of the board.
    pub fn fill(&mut self, value: T)
        requires
            old(self).wf(),
        ensures
            final(self).wf(),
            final(self).width == old(self).width,
            final(self).height == old(self).height,
            forall|r: int, c: int|
                final(self)@.in_bounds(r, c) ==> #[trigger] final(self)@.cell(r, c) == Some(
                    value,
                ),
    {
        let height = self.height;
        let width = self.width;
        let mut row: i32 = 0;
        while row < height
            invariant
                self.wf(),
                self.width == width,
                self.height == height,
                0 <= row <= height || height < 0,
                forall|r: int, c: int|
                    self@.in_bounds(r, c) && r < row ==> #[trigger] self@.cell(r, c) == Some(
                        value,
                    ),
            decreases height - row,
        {
            let mut column: i32 = 0;
            while column < width
                invariant
                    self.wf(),
                    self.width == width,
                    self.height == height,
                    0 <= row < height,
                    0 <= column <= width || width < 0,
                    forall|r: int, c: int|
                        self@.in_bounds(r, c) && (r < row || (r == row && c < column))
                            ==> #[trigger] self@.cell(r, c) == Some(value),
                decreases width - column,
            {
                let ghost prev = self@;
                self.set(row, column, value);
                proof {
                    lemma_set_cell_spec(prev, row as int, column as int, value);
                }
                column = column + 1;
            }
            row = row + 1;
        }
    }
}

impl<T> Board<T> {
    /// Whether every cell of the board is occupied.
    pub(crate) fn is_full(&self) -> (r: bool)
        requires
            self.wf(),
        ensures
            r == self@.full(),
    {
        let total = self.data.len();
        let mut i: usize = 0;
        while i < total
            invariant
                self.wf(),
                total == self.data@.len(),
                0 <= i <= total,
                forall|j: int| 0 <= j < i ==> self@.cells[j] is Some,
            decreases total - i,
        {
            if self.data[i].is_none() {
                proof {
                    assert(self@.cells[i as int] is None);
                }
                return false;
            }
            i = i + 1;
        }
        true
    }
}

/// Steps a walk can still take along one axis before leaving `[0, limit)`,
/// moving by `step` (taken as downward when negative, upward otherwise).
pub open spec fn step_dist(limit: int, pos: int, step: int) -> int {
    if step < 0 {
        pos
    } else {
        limit - 1 - pos
    }
}

impl<T> BoardView<T> {
    /// How many steps a walk from `(row, column)` in direction `d` can take
    /// before leaving the board: the termination measure for `run_length`.
    pub open spec fn walk_dist(self, row: int, column: int, d: Direction) -> int {
        if dir_dr(d) == 0 {
            step_dist(self.width, column, dir_dc(d))
        } else if dir_dc(d) == 0 {
            step_dist(self.height, row, dir_dr(d))
        } else {
            let a = step_dist(self.height, row, dir_dr(d));
            let b = step_dist(self.width, column, dir_dc(d));
            if a <= b {
                a
            } else {
                b
            }
        }
    }

    /// The number of consecutive cells equal to the cell at `(row, column)`,
    /// starting there and walking in direction `d`; zero if the start cell
    /// is empty or out of bounds.
    pub open spec fn run_length(self, row: int, column: int, d: Direction) -> int
        decreases self.walk_dist(row, column, d),
    {
        if !self.occupied(row, column) {
            0
        } else {
            let nr = row + dir_dr(d);
            let nc = column + dir_dc(d);
            if self.occupied(nr, nc) && self.cell(nr, nc) == self.cell(row, column) {
                1 + self.run_length(nr, nc, d)
            } else {
                1
            }
        }
    }

    /// Consecutive equal cells through `(row, column)` along the axis of
    /// `d`: the runs both ways, counting the shared start cell only once.
    pub open spec fn bidir_count(self, row: int, column: int, d: Direction) -> int {
        self.run_length(row, column, d) + self.run_length(row, column, d.spec_opposite()) - 1
    }

    /// Whether a line of at least four consecutive equal cells passes
    /// through `(row, column)` along one of the four axes.
    pub open spec fn wins_at(self, row: int, column: int) -> bool {
        ||| self.bidir_count(row, column, Direction::North) >= 4
        ||| self.bidir_count(row, column, Direction::NorthEast) >= 4
        ||| self.bidir_count(row, column, Direction::East) >= 4
        ||| self.bidir_count(row, column, Direction::NorthWest) >= 4
    }
}

/// A run is never negative, and a run from an occupied cell exceeds the
/// room left on the board in its direction by at most the start cell.
pub proof fn lemma_run_length_bound<T>(b: BoardView<T>, row: int, column: int, d: Direction)
    ensures
        0 <= b.run_length(row, column, d),
        b.occupied(row, column) ==> 1 <= b.run_length(row, column, d) <= 1 + b.walk_dist(
            row,
            column,
            d,
        ),
    decreases b.walk_dist(row, column, d),
{
    if b.occupied(row, column) {
        let nr = row + dir_dr(d);
        let nc = column + dir_dc(d);
        if b.occupied(nr, nc) && b.cell(nr, nc) == b.cell(row, column) {
            lemma_run_length_bound(b, nr, nc, d);
        }
    }
}

/// A positive dimension never exceeds the board area.
pub proof fn lemma_dim_le_area(w: int, h: int)
    by (nonlinear_arith)
    requires
        0 <= w,
        0 <= h,
    ensures
        1 <= h ==> w <= w * h,
        1 <= w ==> h <= w * h,
{
}

/// On a well-formed board every run fits an `i32`.
pub proof fn lemma_run_length_fits<T>(b: BoardView<T>, row: int, column: int, d: Direction)
    requires
        b.wf(),
    ensures
        0 <= b.run_length(row, column, d) <= i32::MAX as int,
{
    lemma_run_length_bound(b, row, column, d);
    if b.occupied(row, column) {
        lemma_dim_le_area(b.width, b.height);
    }
}

/// A bidirectional count lies between -1 (an empty start cell) and
/// `i32::MAX` on a well-formed board.
pub proof fn lemma_bidir_fits<T>(b: BoardView<T>, row: int, column: int, d: Direction)
    requires
        b.wf(),
    ensures
        -1 <= b.bidir_count(row, column, d) <= i32::MAX as int,
        0 <= b.run_length(row, column, d) <= i32::MAX as int,
        0 <= b.run_length(row, column, d.spec_opposite()) <= i32::MAX as int,
{
    lemma_run_length_bound(b, row, column, d);
    lemma_run_length_bound(b, row, column, d.spec_opposite());
    lemma_run_length_fits(b, row, column, d);
    lemma_run_length_fits(b, row, column, d.spec_opposite());
    if b.occupied(row, column) {
        crate::direction::lemma_opposite_offsets(d);
        lemma_dim_le_area(b.width, b.height);
    }
}

/// Unfolds one step of a run whose next cell matches.
pub proof fn lemma_run_step<T>(b: BoardView<T>, row: int, column: int, d: Direction)
    requires
        b.occupied(row, column),
        b.cell(row + dir_dr(d), column + dir_dc(d)) == b.cell(row, column),
    ensures
        b.run_length(row, column, d) == 1 + b.run_length(
            row + dir_dr(d),
            column + dir_dc(d),
            d,
        ),
{
}

/// A run covers at least the first `n` cells of a walk on which the stored
/// values all equal the start value.
pub proof fn lemma_run_ge<T>(b: BoardView<T>, row: int, column: int, d: Direction, p: T, n: int)
    requires
        1 <= n <= 4,
        b.cell(row, column) == Some(p),
        n >= 2 ==> b.cell(row + dir_dr(d), column + dir_dc(d)) == Some(p),
        n >= 3 ==> b.cell(row + 2 * dir_dr(d), column + 2 * dir_dc(d)) == Some(p),
        n >= 4 ==> b.cell(row + 3 * dir_dr(d), column + 3 * dir_dc(d)) == Some(p),
    ensures
        b.run_length(row, column, d) >= n,
    decreases n,
{
    if n >= 2 {
        lemma_run_step(b, row, column, d);
        lemma_run_ge(b, row + dir_dr(d), column + dir_dc(d), d, p, n - 1);
    } else {
        lemma_run_length_bound(b, row, column, d);
    }
}

/// A bidirectional count does not depend on which end of the axis it is
/// taken from.
pub proof fn lemma_bidir_opposite<T>(b: BoardView<T>, row: int, column: int, d: Direction)
    ensures
        b.bidir_count(row, column, d) == b.bidir_count(row, column, d.spec_opposite()),
{
    crate::direction::lemma_opposite_involution(d);
}

/// Completing a line wins.
///
/// If four consecutive cells along direction `d`, starting at
/// `(r0, c0)`, all hold `p`, then a winning line passes through the
/// `i`-th of those cells, whichever of the four it is.
pub proof fn lemma_win_line<T>(
    b: BoardView<T>,
    r0: int,
    c0: int,
    d: Direction,
    i: int,
    row: int,
    column: int,
    p: T,
)
    requires
        b.cell(r0, c0) == Some(p),
        b.cell(r0 + dir_dr(d), c0 + dir_dc(d)) == Some(p),
        b.cell(r0 + 2 * dir_dr(d), c0 + 2 * dir_dc(d)) == Some(p),
        b.cell(r0 + 3 * dir_dr(d), c0 + 3 * dir_dc(d)) == Some(p),
        0 <= i < 4,
        row == r0 + i * dir_dr(d),
        column == c0 + i * dir_dc(d),
    ensures
        b.wins_at(row, column),
{
    crate::direction::lemma_opposite_offsets(d);
    if i == 0 {
        lemma_run_ge(b, row, column, d, p, 4);
        lemma_run_ge(b, row, column, d.spec_opposite(), p, 1);
    } else if i == 1 {
        lemma_run_ge(b, row, column, d, p, 3);
        lemma_run_ge(b, row, column, d.spec_opposite(), p, 2);
    } else if i == 2 {
        lemma_run_ge(b, row, column, d, p, 2);
        lemma_run_ge(b, row, column, d.spec_opposite(), p, 3);
    } else {
        lemma_run_ge(b, row, column, d, p, 1);
        lemma_run_ge(b, row, column, d.spec_opposite(), p, 4);
    }
    lemma_bidir_opposite(b, row, column, d);
    match d {
        Direction::North | Direction::South => {
            assert(b.bidir_count(row, column, Direction::North) >= 4);
        },
        Direction::NorthEast | Direction::SouthWest => {
            assert(b.bidir_count(row, column, Direction::NorthEast) >= 4);
        },
        Direction::East | Direction::West => {
            assert(b.bidir_count(row, column, Direction::East) >= 4);
        },
        Direction::SouthEast | Direction::NorthWest => {
            assert(b.bidir_count(row, column, Direction::NorthWest) >= 4);
        },
    }
}

impl Board<Player> {
    /// The number of consecutive cells equal to the cell at
    /// `(row, column)`, starting there and walking in the given direction;
    /// zero if the start cell is empty.
    pub fn count_in_direction(&self, row: i32, column: i32, direction: Direction) -> (count: i32)
        requires
            self.wf(),
        ensures
            count == self@.run_length(row as int, column as int, direction),
    {
        let start_value = match self.get(row, column) {
            Some(t) => t.value,
            None => {
                return 0;
            },
        };
        let mut r = row;
        let mut c = column;
        let mut count: i32 = 1;
        loop
            invariant
                self.wf(),
                self@.cell(r as int, c as int) == Some(start_value),
                1 <= count,
                count - 1 + self@.run_length(r as int, c as int, direction) == self@.run_length(
                    row as int,
                    column as int,
                    direction,
                ),
            decreases self@.walk_dist(r as int, c as int, direction),
        {
            match self.get_neighbor(r, c, direction) {
                Some(t) => {
                    if t.value == start_value {
                        proof {
                            let nr = r as int + dir_dr(direction);
                            let nc = c as int + dir_dc(direction);
                            lemma_run_length_fits(self@, row as int, column as int, direction);
                            lemma_run_step(self@, r as int, c as int, direction);
                            lemma_run_length_bound(self@, nr, nc, direction);
                            assert(self@.occupied(nr, nc));
                        }
                        count = count + 1;
                        r = t.row;
                        c = t.column;
                    } else {
                        return count;
                    }
                },
                None => {
                    return count;
                },
            }
        }
    }

    /// Consecutive equal cells through `(row, column)` along the axis of
    /// the given direction, counting the start cell only once.
    pub fn count_in_bidirection(&self, row: i32, column: i32, direction: Direction) -> (count:
        i32)
        requires
            self.wf(),
        ensures
            count == self@.bidir_count(row as int, column as int, direction),
    {
        proof {
            lemma_bidir_fits(self@, row as int, column as int, direction);
        }
        let forward = self.count_in_direction(row, column, direction);
        let backward = self.count_in_direction(row, column, direction.opposite());
        let total = (forward as i64) + (backward as i64) - 1;
        total as i32
    }
}

impl<T> Default for Board<T> {
    /// An empty zero-by-zero board.
    fn default() -> (r: Self)
        ensures
            r.wf(),
            r.width == 0,
            r.height == 0,
    {
        Self::new(0, 0)
    }
}

} // verus!
