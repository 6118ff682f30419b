use vstd::prelude::*;

use crate::board::{lemma_set_cell_spec, lemma_win_line, Board, BoardView};
use crate::c4::ConnectFour;
use crate::direction::{dir_dc, dir_dr, Direction};
use crate::game_status::GameStatus;
use crate::player::Player;

verus! {

impl<T> BoardView<T> {
    /// The row a dropped piece would land in, searching for the first
    /// empty cell from `row` downward toward row zero; `-1` if every cell
    /// from `row` down is occupied.
    pub open spec fn landing_row_from(self, column: int, row: int) -> int
        decreases row + 1,
    {
        if row < 0 {
            -1
        } else if !self.occupied(row, column) {
            row
        } else {
            self.landing_row_from(column, row - 1)
        }
    }

    /// The row a piece dropped into `column` lands in: the bottom-most
    /// empty cell of the column, or `-1` if the column is full.
    pub open spec fn landing_row(self, column: int) -> int {
        self.landing_row_from(column, self.height - 1)
    }
}

impl<T> Board<T> {
    /// Scans `column` from the bottom row upward and returns the first
    /// empty row, or `-1` if the column is full.
    pub(crate) fn find_landing_row(&self, column: i32) -> (r: i32)
        requires
            self.wf(),
            0 <= column < self.width,
        ensures
            r == self@.landing_row(column as int),
    {
        let mut row = self.height - 1;
        loop
            invariant
                self.wf(),
                0 <= column < self.width,
                -1 <= row <= self.height - 1,
                self@.landing_row(column as int) == self@.landing_row_from(
                    column as int,
                    row as int,
                ),
            decreases row + 1,
        {
            if row < 0 {
                return -1;
            }
            if self.get(row, column).is_none() {
                return row;
            }
            row = row - 1;
        }
    }
}

/// The mathematical abstraction of a [`ConnectFour2p`] game.
#[verifier::ext_equal]
pub struct EngineView {
    pub board: BoardView<Player>,
    pub turn: Player,
    pub status: GameStatus,
    pub last_row: int,
    pub last_column: int,
}

impl EngineView {
    pub open spec fn wf(self) -> bool {
        self.board.wf()
    }

    /// A move into `column` is accepted exactly when the game is still in
    /// progress, the column exists, and the column has an empty cell.
    pub open spec fn can_move(self, column: int) -> bool {
        &&& self.status == GameStatus::Playing
        &&& 0 <= column < self.board.width
        &&& self.board.landing_row(column) >= 0
    }

    /// The game after one `emplace(column)` transition.
    ///
    /// A rejected move changes nothing. An accepted move writes the
    /// current mover into the landing cell of `column`, records that cell
    /// as the last move, decides the new status — a completed line of four
    /// wins for the mover, a full board without one closes the game as a
    /// draw, anything else stays in progress — and always passes the turn
    /// to the other mover.
    pub open spec fn spec_emplace(self, column: int) -> EngineView {
        if !self.can_move(column) {
            self
        } else {
            let row = self.board.landing_row(column);
            let board = self.board.set_cell(row, column, self.turn);
            let status = if board.wins_at(row, column) {
                GameStatus::Won { player: self.turn }
            } else if board.full() {
                GameStatus::Closed
            } else {
                GameStatus::Playing
            };
            EngineView {
                board,
                turn: self.turn.spec_toggle(),
                status,
                last_row: row,
                last_column: column,
            }
        }
    }

    /// The game after `close()`: a decided win stands, anything else is
    /// closed.
    pub open spec fn spec_close(self) -> EngineView {
        match self.status {
            GameStatus::Won { player } => self,
            _ => EngineView { status: GameStatus::Closed, ..self },
        }
    }

    /// The winner is purely a projection of the status.
    pub open spec fn spec_winner(self) -> Option<Player> {
        match self.status {
            GameStatus::Won { player } => Some(player),
            _ => None,
        }
    }
}

/// A two-player Connect Four game: a grid of placed movers, the mover to
/// play next, the coordinates of the most recent piece, and the lifecycle
/// state.
#[derive(Clone, Debug)]
pub struct ConnectFour2p {
    pub turn: Player,
    pub state: GameStatus,
    pub board: Board<Player>,
    pub last_pos_r: i32,
    pub last_pos_c: i32,
}

impl View for ConnectFour2p {
    type V = EngineView;

    open spec fn view(&self) -> EngineView {
        EngineView {
            board: self.board@,
            turn: self.turn,
            status: self.state,
            last_row: self.last_pos_r as int,
            last_column: self.last_pos_c as int,
        }
    }
}

impl ConnectFour2p {
    pub open spec fn wf(self) -> bool {
        self.board.wf()
    }

    /// A fresh game on an empty `width` by `height` grid, in progress,
    /// with `Red` to move first.
    pub fn new(width: i32, height: i32) -> (r: Self)
        requires
            0 < width,
            0 < height,
            width * height <= i32::MAX,
        ensures
            r.wf(),
            r.state == GameStatus::Playing,
            r.turn == Player::Red,
            r.board.width == width,
            r.board.height == height,
            forall|rr: int, cc: int| #[trigger] r.board@.cell(rr, cc) is None,
    {
        Self {
            state: GameStatus::Playing,
            turn: Player::Red,
            board: Board::new(width, height),
            last_pos_r: 0,
            last_pos_c: 0,
        }
    }
}

impl ConnectFour for ConnectFour2p {
    open spec fn inv(&self) -> bool {
        self.wf()
    }

    fn board(&self) -> (r: &Board<Player>)
        ensures
            r == &self.board,
    {
        &self.board
    }

    fn state(&self) -> (r: GameStatus)
        ensures
            r == self.state,
    {
        self.state
    }

    fn turn(&self) -> (r: &Player)
        ensures
            *r == self.turn,
    {
        &self.turn
    }

    fn close(&mut self)
        ensures
            final (self).wf(),
            final (self)@ == old(self)@.spec_close(),
            final (self).board == old(self).board,
            final (self).turn == old(self).turn,
            final (self).last_pos_r == old(self).last_pos_r,
            final (self).last_pos_c == old(self).last_pos_c,
    {
        match self.state {
            GameStatus::Won { .. } => {},
            _ => {
                self.state = GameStatus::Closed;
            },
        }
    }

    fn emplace(&mut self, column: i32) -> (r: bool)
        ensures
            final (self).wf(),
            r == old(self)@.can_move(column as int),
            final (self)@ == old(self)@.spec_emplace(column as int),
            !r ==> *final (self) == *old(self),
    {
        let playing = self.state == GameStatus::Playing;
        if !(playing && 0 <= column && column < self.board.width) {
            return false;
        }
        let land = self.board.find_landing_row(column);
        if land < 0 {
            return false;
        }
        let ghost g0 = self@;
        let mover = self.turn;
        self.board.set(land, column, mover);
        self.last_pos_r = land;
        self.last_pos_c = column;
        let n_s = self.board.count_in_bidirection(land, column, Direction::North);
        let ne_sw = self.board.count_in_bidirection(land, column, Direction::NorthEast);
        let e_w = self.board.count_in_bidirection(land, column, Direction::East);
        let se_nw = self.board.count_in_bidirection(land, column, Direction::NorthWest);
        let mut max = n_s;
        if ne_sw > max {
            max = ne_sw;
        }
        if e_w > max {
            max = e_w;
        }
        if se_nw > max {
            max = se_nw;
        }
        if max >= 4 {
            self.state = GameStatus::Won { player: mover };
        } else if self.board.is_full() {
            self.state = GameStatus::Closed;
        }
        self.turn = mover.toggle();
        proof {
            assert(self@ =~= g0.spec_emplace(column as int));
        }
        true
    }

    fn get_winner(&self) -> (r: Option<Player>)
        ensures
            r == self@.spec_winner(),
    {
        match self.state {
            GameStatus::Won { player } => Some(player),
            _ => None,
        }
    }
}

/// A rejected move is a no-op: a move into a full column, into a column
/// that does not exist, or after the game has ended leaves the game
/// exactly as it was.
pub proof fn lemma_invalid_move_is_noop(g: EngineView, column: int)
    requires
        !g.can_move(column),
    ensures
        g.spec_emplace(column) == g,
{
}

/// Turn alternation: every accepted move passes the turn to the other
/// mover, even the move that ends the game.
pub proof fn lemma_turn_alternation(g: EngineView, column: int)
    requires
        g.can_move(column),
    ensures
        g.spec_emplace(column).turn == g.turn.spec_toggle(),
{
}

/// A won game is final: no further move is accepted, nothing changes, and
/// the recorded winner stays the same.
pub proof fn lemma_won_is_final(g: EngineView, column: int, p: Player)
    requires
        g.status == (GameStatus::Won { player: p }),
    ensures
        !g.can_move(column),
        g.spec_emplace(column) == g,
        g.spec_emplace(column).spec_winner() == Some(p),
{
}

/// Column `column` holds exactly `k` pieces, stacked bottom-up: the
/// bottom `k` rows of the column are occupied and the rest are empty.
pub open spec fn column_filled_to<T>(b: BoardView<T>, column: int, k: int) -> bool {
    forall|r: int|
        0 <= r < b.height ==> (#[trigger] b.occupied(r, column) <==> r >= b.height - k)
}

proof fn lemma_landing_row_filled<T>(b: BoardView<T>, column: int, k: int, row: int)
    requires
        0 <= k < b.height,
        column_filled_to(b, column, k),
        b.height - 1 - k <= row <= b.height - 1,
    ensures
        b.landing_row_from(column, row) == b.height - 1 - k,
    decreases row,
{
    if row > b.height - 1 - k {
        lemma_landing_row_filled(b, column, k, row - 1);
    }
}

/// Gravity: a move into a column whose bottom `k` rows are occupied (and
/// no others) is accepted while the column has room, lands exactly one
/// row above the existing stack, and leaves the column stacked to `k + 1`.
/// So successive moves into one column fill it bottom-up: the piece of
/// the `k + 1`-th accepted move comes to rest in row `height - 1 - k`.
pub proof fn lemma_gravity(g: EngineView, column: int, k: int)
    requires
        g.wf(),
        g.status == GameStatus::Playing,
        0 <= column < g.board.width,
        0 <= k < g.board.height,
        column_filled_to(g.board, column, k),
    ensures
        g.can_move(column),
        g.board.landing_row(column) == g.board.height - 1 - k,
        g.spec_emplace(column).board.cell(g.board.height - 1 - k, column) == Some(g.turn),
        column_filled_to(g.spec_emplace(column).board, column, k + 1),
{
    let target = g.board.height - 1 - k;
    lemma_landing_row_filled(g.board, column, k, g.board.height - 1);
    lemma_set_cell_spec(g.board, target, column, g.turn);
    let b2 = g.spec_emplace(column).board;
    assert forall|r: int|
        0 <= r < b2.height implies (#[trigger] b2.occupied(r, column) <==> r >= b2.height - (k
        + 1)) by {
        assert(g.board.occupied(r, column) <==> r >= g.board.height - k);
        assert(b2.cell(r, column) == (if r == target && g.board.in_bounds(target, column) {
            Some(g.turn)
        } else {
            g.board.cell(r, column)
        }));
    }
}

/// Win trigger: if the move into `column` completes a line of four equal
/// cells along direction `d` — the board after the move holds the mover
/// in four consecutive cells starting at `(r0, c0)`, the `i`-th of which
/// is the cell the piece landed in — then the game is won by the mover
/// who placed that piece, and the winner query reports that mover.
pub proof fn lemma_win_trigger(
    g: EngineView,
    column: int,
    r0: int,
    c0: int,
    d: Direction,
    i: int,
)
    requires
        g.wf(),
        g.can_move(column),
        0 <= i < 4,
        g.board.landing_row(column) == r0 + i * dir_dr(d),
        column == c0 + i * dir_dc(d),
        g.spec_emplace(column).board.cell(r0, c0) == Some(g.turn),
        g.spec_emplace(column).board.cell(r0 + dir_dr(d), c0 + dir_dc(d)) == Some(g.turn),
        g.spec_emplace(column).board.cell(r0 + 2 * dir_dr(d), c0 + 2 * dir_dc(d)) == Some(
            g.turn,
        ),
        g.spec_emplace(column).board.cell(r0 + 3 * dir_dr(d), c0 + 3 * dir_dc(d)) == Some(
            g.turn,
        ),
    ensures
        g.spec_emplace(column).status == (GameStatus::Won { player: g.turn }),
        g.spec_emplace(column).spec_winner() == Some(g.turn),
{
    let row = g.board.landing_row(column);
    let b2 = g.spec_emplace(column).board;
    lemma_win_line(b2, r0, c0, d, i, row, column, g.turn);
}

} // verus!
