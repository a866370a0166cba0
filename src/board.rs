//! The 15 x 15 board, colors, moves, five-in-a-row detection, and the state of
//! one match as the replay of its move list.

use vstd::prelude::*;

verus! {

/// Side length of the square board.
pub const BOARD_SIZE: usize = 15;

/// Number of cells on the board.
pub const CELL_COUNT: usize = 225;

/// Cell content of an empty cell.
pub const EMPTY: u8 = 0;

#[derive(Debug, Clone, Copy, PartialEq, Eq, Structural)]
pub enum Color {
    Black,
    White,
}

impl Color {
    pub open spec fn opposite(self) -> Color {
        match self {
            Color::Black => Color::White,
            Color::White => Color::Black,
        }
    }

    /// The cell content of a stone of this color.
    pub open spec fn stone(self) -> u8 {
        match self {
            Color::Black => 1,
            Color::White => 2,
        }
    }

    pub fn other(self) -> (r: Color)
        ensures
            r == self.opposite(),
    {
        match self {
            Color::Black => Color::White,
            Color::White => Color::Black,
        }
    }

    pub fn stone_code(self) -> (r: u8)
        ensures
            r == self.stone(),
    {
        match self {
            Color::Black => 1,
            Color::White => 2,
        }
    }
}

#[derive(Debug, Clone, Copy, PartialEq, Eq, Structural)]
pub struct Coord {
    pub row: i32,
    pub col: i32,
}

impl Coord {
    pub open spec fn on_board(self) -> bool {
        in_bounds(self.row as int, self.col as int)
    }

    /// Position of the cell in the row-major board sequence.
    pub open spec fn index(self) -> int {
        cell_index(self.row as int, self.col as int)
    }
}

#[derive(Debug, Clone, Copy, PartialEq, Eq, Structural)]
pub struct Move {
    pub color: Color,
    pub coord: Coord,
}

pub open spec fn in_bounds(r: int, c: int) -> bool {
    0 <= r < BOARD_SIZE && 0 <= c < BOARD_SIZE
}

pub open spec fn cell_index(r: int, c: int) -> int {
    r * 15 + c
}

/// The cell (r, c) is on the board and holds `v`.
pub open spec fn holds(board: Seq<u8>, r: int, c: int, v: u8) -> bool {
    in_bounds(r, c) && board[cell_index(r, c)] == v
}

/// How many cells holding `v` follow (r, c) without a gap in the direction
/// (dr, dc), looking at most `n` cells far.
pub open spec fn run_from(board: Seq<u8>, r: int, c: int, dr: int, dc: int, v: u8, n: nat) -> nat
    decreases n,
{
    if n == 0 {
        0
    } else if holds(board, r + dr, c + dc, v) {
        1 + run_from(board, r + dr, c + dc, dr, dc, v, (n - 1) as nat)
    } else {
        0
    }
}

/// Length of the line of `v` stones through (r, c) along (dr, dc), counting
/// (r, c) itself and at most four cells on each side.
pub open spec fn line_through(board: Seq<u8>, r: int, c: int, dr: int, dc: int, v: u8) -> nat {
    1 + run_from(board, r, c, dr, dc, v, 4) + run_from(board, r, c, -dr, -dc, v, 4)
}

/// Five stones of value `v` lie in a row through (r, c): horizontally,
/// vertically or along one of the two diagonals.
pub open spec fn five_through(board: Seq<u8>, r: int, c: int, v: u8) -> bool {
    line_through(board, r, c, 0, 1, v) >= 5 || line_through(board, r, c, 1, 0, v) >= 5
        || line_through(board, r, c, 1, 1, v) >= 5 || line_through(board, r, c, 1, -1, v) >= 5
}

fn run_length(board: &Vec<u8>, r: usize, c: usize, dr: i32, dc: i32, v: u8) -> (n: u32)
    requires
        board@.len() == CELL_COUNT,
        r < BOARD_SIZE,
        c < BOARD_SIZE,
        -1 <= dr <= 1,
        -1 <= dc <= 1,
    ensures
        n <= 4,
        n == run_from(board@, r as int, c as int, dr as int, dc as int, v, 4),
{
    let mut count: u32 = 0;
    let mut rr: i32 = r as i32;
    let mut cc: i32 = c as i32;
    while count < 4
        invariant
            count <= 4,
            0 <= rr < 15,
            0 <= cc < 15,
            -1 <= dr <= 1,
            -1 <= dc <= 1,
            board@.len() == CELL_COUNT,
            count + run_from(board@, rr as int, cc as int, dr as int, dc as int, v, (4 - count) as nat)
                == run_from(board@, r as int, c as int, dr as int, dc as int, v, 4),
        decreases 4 - count,
    {
        let nr = rr + dr;
        let nc = cc + dc;
        if nr < 0 || nc < 0 || nr >= 15 || nc >= 15 {
            return count;
        }
        if board[(nr * 15 + nc) as usize] != v {
            return count;
        }
        count = count + 1;
        rr = nr;
        cc = nc;
    }
    count
}

fn line_length(board: &Vec<u8>, r: usize, c: usize, dr: i32, dc: i32, v: u8) -> (n: u32)
    requires
        board@.len() == CELL_COUNT,
        r < BOARD_SIZE,
        c < BOARD_SIZE,
        -1 <= dr <= 1,
        -1 <= dc <= 1,
    ensures
        n == line_through(board@, r as int, c as int, dr as int, dc as int, v),
{
    1 + run_length(board, r, c, dr, dc, v) + run_length(board, r, c, -dr, -dc, v)
}

/// Whether the stone `v` just placed at (r, c) completes five in a row.
pub fn is_win(board: &Vec<u8>, r: usize, c: usize, v: u8) -> (won: bool)
    requires
        board@.len() == CELL_COUNT,
        r < BOARD_SIZE,
        c < BOARD_SIZE,
    ensures
        won == five_through(board@, r as int, c as int, v),
{
    line_length(board, r, c, 0, 1, v) >= 5 || line_length(board, r, c, 1, 0, v) >= 5
        || line_length(board, r, c, 1, 1, v) >= 5 || line_length(board, r, c, 1, -1, v) >= 5
}

/// How a placed stone leaves the match.
#[derive(Debug, Clone, Copy, PartialEq, Eq, Structural)]
pub enum Outcome {
    FiveInARow,
    BoardFull,
    Continue,
}

pub open spec fn empty_board() -> Seq<u8> {
    Seq::new(CELL_COUNT as nat, |i: int| EMPTY)
}

/// The board that results from playing `moves` in order on an empty board.
pub open spec fn replay(moves: Seq<Move>) -> Seq<u8>
    decreases moves.len(),
{
    if moves.len() == 0 {
        empty_board()
    } else {
        replay(moves.drop_last()).update(moves.last().coord.index(), moves.last().color.stone())
    }
}

/// The color that plays move number `i` (counting from zero).
pub open spec fn turn_color(i: int) -> Color {
    if i % 2 == 0 {
        Color::Black
    } else {
        Color::White
    }
}

/// Move colors alternate strictly, starting with Black.
pub open spec fn alternates(moves: Seq<Move>) -> bool {
    forall|i: int| 0 <= i < moves.len() ==> (#[trigger] moves[i]).color == turn_color(i)
}

/// What placing a stone of `color` at `coord` decides, `n` being the number of
/// moves played once it is placed.
pub open spec fn outcome_of(board: Seq<u8>, coord: Coord, color: Color, n: int) -> Outcome {
    if five_through(board, coord.row as int, coord.col as int, color.stone()) {
        Outcome::FiveInARow
    } else if n >= CELL_COUNT {
        Outcome::BoardFull
    } else {
        Outcome::Continue
    }
}

/// One match in progress.
#[derive(Debug)]
pub struct Match {
    pub match_id: u128,
    pub turn: Color,
    pub moves: Vec<Move>,
    pub board: Vec<u8>,
}

impl Match {
    /// An active match: the board is the replay of the moves, colors
    /// alternate from Black, the board is not full, and `turn` is the color
    /// of the next move.
    pub open spec fn wf(&self) -> bool {
        &&& self.board@.len() == CELL_COUNT
        &&& self.board@ == replay(self.moves@)
        &&& alternates(self.moves@)
        &&& self.moves@.len() < CELL_COUNT
        &&& self.turn == turn_color(self.moves@.len() as int)
        &&& forall|i: int| 0 <= i < self.moves@.len() ==> (#[trigger] self.moves@[i]).coord.on_board()
    }

    /// A fresh match: Black to move on an empty board.
    pub fn new(match_id: u128) -> (m: Match)
        ensures
            m.wf(),
            m.match_id == match_id,
            m.turn == Color::Black,
            m.moves@.len() == 0,
            m.board@ == empty_board(),
    {
        let mut board: Vec<u8> = Vec::new();
        let mut i: usize = 0;
        while i < CELL_COUNT
            invariant
                i <= CELL_COUNT,
                board@ =~= Seq::new(i as nat, |k: int| EMPTY),
            decreases CELL_COUNT - i,
        {
            board.push(EMPTY);
            i = i + 1;
        }
        let moves: Vec<Move> = Vec::new();
        proof {
            assert(board@ =~= empty_board());
            assert(moves@ =~= Seq::<Move>::empty());
        }
        Match { match_id, turn: Color::Black, moves, board }
    }

    /// Places a stone of the color to move on an empty cell of the board, and
    /// says whether that wins, fills the board, or passes the turn.
    pub fn play(&mut self, coord: Coord) -> (out: Outcome)
        requires
            old(self).wf(),
            coord.on_board(),
            old(self).board@[coord.index()] == EMPTY,
        ensures
            final(self).match_id == old(self).match_id,
            final(self).moves@ == old(self).moves@.push(Move { color: old(self).turn, coord }),
            final(self).board@ == old(self).board@.update(coord.index(), old(self).turn.stone()),
            final(self).board@ == replay(final(self).moves@),
            out == outcome_of(
                final(self).board@,
                coord,
                old(self).turn,
                final(self).moves@.len() as int,
            ),
            out == Outcome::Continue ==> final(self).wf() && final(self).turn
                == old(self).turn.opposite(),
            out != Outcome::Continue ==> final(self).turn == old(self).turn,
    {
        let color = self.turn;
        let idx = (coord.row * 15 + coord.col) as usize;
        self.board.set(idx, color.stone_code());
        self.moves.push(Move { color, coord });
        proof {
            assert(self.moves@.drop_last() =~= old(self).moves@);
        }
        let won = is_win(&self.board, coord.row as usize, coord.col as usize, color.stone_code());
        let out = if won {
            Outcome::FiveInARow
        } else if self.moves.len() >= CELL_COUNT {
            Outcome::BoardFull
        } else {
            Outcome::Continue
        };
        if !won && self.moves.len() < CELL_COUNT {
            self.turn = color.other();
            proof {
                let n = old(self).moves@.len() as int;
                assert(turn_color(n + 1) == turn_color(n).opposite());
                assert forall|i: int| 0 <= i < self.moves@.len() implies (#[trigger] self.moves@[i]).color
                    == turn_color(i) by {
                    if i < n {
                        assert(self.moves@[i] == old(self).moves@[i]);
                    }
                }
                assert forall|i: int| 0 <= i < self.moves@.len() implies (#[trigger] self.moves@[i]).coord.on_board() by {
                    if i < n {
                        assert(self.moves@[i] == old(self).moves@[i]);
                    }
                }
            }
        }
        out
    }
}

} // verus!
