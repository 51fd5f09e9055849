//! Tic-tac-toe: a 3×3 board, X moves first, and a reward vector of one entry
//! per player (X first, then O).

use crate::space::{is_valid_discrete, within_bounds};
use crate::StateSpace;
use vstd::prelude::*;

verus! {

/// A placement at (row, column) on the 3×3 board.
#[derive(Debug, Clone, Copy, PartialEq, Eq, Hash)]
pub struct TicTacAction(usize, usize);

impl TicTacAction {
    #[verifier::type_invariant]
    spec fn on_board(self) -> bool {
        self.0 < 3 && self.1 < 3
    }

    pub closed spec fn spec_row(self) -> usize {
        self.0
    }

    pub closed spec fn spec_col(self) -> usize {
        self.1
    }

    /// The values of the action, one per dimension: row, then column.
    pub open spec fn values(self) -> Seq<usize> {
        seq![self.spec_row(), self.spec_col()]
    }

    pub fn row(&self) -> (r: usize)
        ensures
            r == self.spec_row(),
            r < 3,
    {
        proof {
            use_type_invariant(self);
        }
        self.0
    }

    pub fn col(&self) -> (r: usize)
        ensures
            r == self.spec_col(),
            r < 3,
    {
        proof {
            use_type_invariant(self);
        }
        self.1
    }

    /// The value of dimension `d`: the row for 0, the column for 1.
    pub fn discrete(&self, d: usize) -> (r: Option<usize>)
        ensures
            r == (if d < 2 {
                Some(self.values()[d as int])
            } else {
                None::<usize>
            }),
    {
        if d == 0 {
            Some(self.0)
        } else if d == 1 {
            Some(self.1)
        } else {
            None
        }
    }

    /// Builds the action from its two discrete values; fails unless there are
    /// exactly two of them, both on the board, and no continuous value.
    pub fn try_build(discrete: &[usize], continuous_len: usize) -> (r: Option<TicTacAction>)
        ensures
            r is Some <==> (continuous_len == 0 && within_bounds(discrete@, seq![3usize, 3])),
            r matches Some(a) ==> a.values() == discrete@,
    {
        if discrete.len() == 2 && continuous_len == 0 && discrete[0] < 3 && discrete[1] < 3 {
            let a = TicTacAction(discrete[0], discrete[1]);
            assert(a.values() == discrete@);
            Some(a)
        } else {
            None
        }
    }

    /// Whether the action lies in the given space.
    pub fn is_valid(&self, space: &[usize]) -> (r: bool)
        ensures
            r == within_bounds(self.values(), space@),
    {
        let values = vec![self.0, self.1];
        assert(values@ == self.values());
        is_valid_discrete(values.as_slice(), space)
    }
}

/// The content of one cell.
#[derive(Debug, Clone, Copy, PartialEq, Eq, Hash, Structural)]
pub enum CellState {
    Empty,
    X,
    O,
}

/// The number that stands for a cell in the encoded state.
pub open spec fn cell_code(c: CellState) -> usize {
    match c {
        CellState::Empty => 0,
        CellState::X => 1,
        CellState::O => 2,
    }
}

impl CellState {
    /// The cell for its code: 0 is empty, 1 is X, 2 is O.
    pub fn from_usize(action: usize) -> (r: CellState)
        requires
            action < 3,
        ensures
            cell_code(r) == action,
    {
        if action == 0 {
            CellState::Empty
        } else if action == 1 {
            CellState::X
        } else {
            CellState::O
        }
    }

    pub fn code(&self) -> (r: usize)
        ensures
            r == cell_code(*self),
    {
        match self {
            CellState::Empty => 0,
            CellState::X => 1,
            CellState::O => 2,
        }
    }
}

/// The player whose move it is.
#[derive(Debug, Clone, Copy, PartialEq, Eq, Hash, Structural)]
pub enum TicTacPlayer {
    X,
    O,
}

/// The mark that a player puts on the board.
pub open spec fn mark_of(p: TicTacPlayer) -> CellState {
    match p {
        TicTacPlayer::X => CellState::X,
        TicTacPlayer::O => CellState::O,
    }
}

pub open spec fn opponent(p: TicTacPlayer) -> TicTacPlayer {
    match p {
        TicTacPlayer::X => TicTacPlayer::O,
        TicTacPlayer::O => TicTacPlayer::X,
    }
}

/// The nine cells in row-major order.
pub open spec fn cells_seq(cells: [[CellState; 3]; 3]) -> Seq<CellState> {
    seq![
        cells[0][0], cells[0][1], cells[0][2],
        cells[1][0], cells[1][1], cells[1][2],
        cells[2][0], cells[2][1], cells[2][2],
    ]
}

/// How many of the first `n` encoded cells hold `code`.
pub open spec fn count_code(values: Seq<usize>, code: usize, n: nat) -> nat
    decreases n,
{
    if n == 0 {
        0
    } else {
        count_code(values, code, (n - 1) as nat) + (if values[n - 1] == code {
            1nat
        } else {
            0nat
        })
    }
}

/// An encoded board is playable when X has made as many moves as O, or one more.
pub open spec fn playable_counts(values: Seq<usize>) -> bool {
    let x = count_code(values, 1, 9);
    let o = count_code(values, 2, 9);
    x == o || x == o + 1
}

/// The cells of line `k`, in the order in which the lines are checked: row 0,
/// column 0, row 1, column 1, row 2, column 2, then the two diagonals.
pub open spec fn line_spec(k: int) -> (int, int, int) {
    if k == 0 {
        (0, 1, 2)
    } else if k == 1 {
        (0, 3, 6)
    } else if k == 2 {
        (3, 4, 5)
    } else if k == 3 {
        (1, 4, 7)
    } else if k == 4 {
        (6, 7, 8)
    } else if k == 5 {
        (2, 5, 8)
    } else if k == 6 {
        (0, 4, 8)
    } else {
        (2, 4, 6)
    }
}

/// The mark that fills line `k`, if one does.
pub open spec fn line_owner(s: Seq<CellState>, k: int) -> Option<CellState> {
    let (a, b, c) = line_spec(k);
    if s[a] != CellState::Empty && s[a] == s[b] && s[b] == s[c] {
        Some(s[a])
    } else {
        None
    }
}

/// The owner of the last filled line among the first `n` lines.
pub open spec fn last_winner(s: Seq<CellState>, n: nat) -> Option<CellState>
    decreases n,
{
    if n == 0 {
        None
    } else {
        match line_owner(s, n - 1) {
            Some(m) => Some(m),
            None => last_winner(s, (n - 1) as nat),
        }
    }
}

/// The winner of a board: the mark of a filled line. (A board reached by play
/// has at most one; of two, the one checked last counts.)
pub open spec fn winner(s: Seq<CellState>) -> Option<CellState> {
    last_winner(s, 8)
}

pub open spec fn board_full(s: Seq<CellState>) -> bool {
    forall|i: int| 0 <= i < 9 ==> s[i] != CellState::Empty
}

/// A tic-tac-toe state: the cells, the player to move, and whether the game
/// has ended.
#[derive(Debug, Clone, Copy, PartialEq, Eq, Hash)]
pub struct Board {
    pub cells: [[CellState; 3]; 3],
    pub player: TicTacPlayer,
    pub done: bool,
}

impl Board {
    /// The encoded state: the nine cell codes in row-major order, then 1 if
    /// the game has ended and 0 if not.
    pub open spec fn values(self) -> Seq<usize> {
        cells_seq(self.cells).map_values(|c: CellState| cell_code(c)).push(
            if self.done {
                1usize
            } else {
                0usize
            },
        )
    }

    /// The value of dimension `d` of the encoded state.
    pub fn discrete(&self, d: usize) -> (r: Option<usize>)
        ensures
            r == (if d < 10 {
                Some(self.values()[d as int])
            } else {
                None::<usize>
            }),
    {
        if d < 9 {
            Some(self.cells[d / 3][d % 3].code())
        } else if d == 9 {
            Some(
                if self.done {
                    1
                } else {
                    0
                },
            )
        } else {
            None
        }
    }

    /// Builds a state from its ten encoded values. Fails unless there are ten
    /// values within the state space and no continuous value, and X has made
    /// as many moves as O or one more; the player to move follows from those
    /// counts.
    pub fn try_build(discrete: &[usize], continuous_len: usize) -> (r: Option<Board>)
        ensures
            r is Some <==> (continuous_len == 0 && within_bounds(
                discrete@,
                seq![3usize, 3, 3, 3, 3, 3, 3, 3, 3, 2],
            ) && playable_counts(discrete@)),
            r matches Some(b) ==> b.values() == discrete@ && b.player == (if count_code(
                discrete@,
                1,
                9,
            ) == count_code(discrete@, 2, 9) {
                TicTacPlayer::X
            } else {
                TicTacPlayer::O
            }),
    {
        let ghost space = seq![3usize, 3, 3, 3, 3, 3, 3, 3, 3, 2];
        if discrete.len() != 10 || continuous_len != 0 || discrete[9] >= 2 {
            return None;
        }
        let mut x_cells: usize = 0;
        let mut o_cells: usize = 0;
        let mut cells = [[CellState::Empty; 3]; 3];
        let mut i: usize = 0;
        while i < 9
            invariant
                discrete.len() == 10,
                i <= 9,
                x_cells == count_code(discrete@, 1, i as nat),
                o_cells == count_code(discrete@, 2, i as nat),
                x_cells <= i,
                o_cells <= i,
                forall|j: int| 0 <= j < i ==> discrete@[j] < 3,
                forall|j: int| 0 <= j < i ==> cell_code(#[trigger] cells_seq(cells)[j]) == discrete@[j],
            decreases 9 - i,
        {
            let v = discrete[i];
            if v >= 3 {
                return None;
            }
            if v == 1 {
                x_cells = x_cells + 1;
            } else if v == 2 {
                o_cells = o_cells + 1;
            }
            let ghost before = cells_seq(cells);
            let row = i / 3;
            let col = i % 3;
            assert(row * 3 + col == i && row < 3 && col < 3);
            cells[row][col] = CellState::from_usize(v);
            assert(cells_seq(cells) =~= before.update(i as int, cells_seq(cells)[i as int]));
            i = i + 1;
        }
        let player = if x_cells == o_cells {
            TicTacPlayer::X
        } else if x_cells == o_cells + 1 {
            TicTacPlayer::O
        } else {
            return None;
        };
        let b = Board { cells, player, done: discrete[9] == 1 };
        assert(b.values() =~= discrete@);
        Some(b)
    }

    /// The index of the player to move: 0 for X, 1 for O.
    pub fn current_player(&self) -> (r: usize)
        ensures
            r == (if self.player == TicTacPlayer::X {
                0usize
            } else {
                1usize
            }),
    {
        match self.player {
            TicTacPlayer::X => 0,
            TicTacPlayer::O => 1,
        }
    }
}

/// The state space: nine cells of three values, then the end-of-game flag.
#[derive(Debug, Clone, Copy, PartialEq, Eq, Hash, Default)]
pub struct Shape;

impl Shape {
    pub fn discrete_dim(&self, d: usize) -> (r: Option<usize>)
        ensures
            r == (if d < 9 {
                Some(3usize)
            } else if d == 9 {
                Some(2usize)
            } else {
                None::<usize>
            }),
    {
        if d < 9 {
            Some(3)
        } else if d == 9 {
            Some(2)
        } else {
            None
        }
    }
}

impl StateSpace for Shape {
    /// X and O.
    fn player_count(&self) -> usize {
        2
    }
}

/// The action space: a row and a column, three values each.
#[derive(Debug, Clone, Copy, PartialEq, Eq, Hash, Default)]
pub struct TicTacActionSpace;

impl TicTacActionSpace {
    pub fn discrete_dim(&self, d: usize) -> (r: Option<usize>)
        ensures
            r == (if d < 2 {
                Some(3usize)
            } else {
                None::<usize>
            }),
    {
        if d < 2 {
            Some(3)
        } else {
            None
        }
    }
}

/// The reward vector after a win of `mark`, X's entry first.
pub open spec fn win_reward(mark: CellState) -> Seq<i32> {
    if mark == CellState::X {
        seq![1i32, -1i32]
    } else {
        seq![-1i32, 1i32]
    }
}

/// The reward vector after `p` tried to move into an occupied cell of a board
/// that is not full.
pub open spec fn illegal_move_reward(p: TicTacPlayer) -> Seq<i32> {
    if p == TicTacPlayer::X {
        seq![-100i32, 1i32]
    } else {
        seq![1i32, -100i32]
    }
}

/// A game of tic-tac-toe and the reward vector of its last step.
#[derive(Debug, Clone, Copy, PartialEq, Eq, Hash)]
pub struct TicTacEnvironment {
    pub board: Board,
    pub reward: [i32; 2],
}

impl TicTacEnvironment {
    /// The empty board, X to move, and a zero reward.
    pub fn new() -> (r: TicTacEnvironment)
        ensures
            cells_seq(r.board.cells) == Seq::new(9, |i: int| CellState::Empty),
            r.board.player == TicTacPlayer::X,
            !r.board.done,
            r.reward@ == seq![0i32, 0i32],
    {
        let r = TicTacEnvironment {
            board: Board {
                cells: [[CellState::Empty; 3]; 3],
                player: TicTacPlayer::X,
                done: false,
            },
            reward: [0, 0],
        };
        assert(cells_seq(r.board.cells) =~= Seq::new(9, |i: int| CellState::Empty));
        assert(r.reward@ =~= seq![0i32, 0i32]);
        r
    }

    pub fn state_space(&self) -> Shape {
        Shape
    }

    pub fn action_space(&self) -> TicTacActionSpace {
        TicTacActionSpace
    }

    /// Starts a new game.
    pub fn reset(&mut self)
        ensures
            cells_seq(final(self).board.cells) == Seq::new(9, |i: int| CellState::Empty),
            final(self).board.player == TicTacPlayer::X,
            !final(self).board.done,
            final(self).reward@ == seq![0i32, 0i32],
    {
        *self = TicTacEnvironment::new();
    }

    fn cell(&self, i: usize) -> (r: CellState)
        requires
            i < 9,
        ensures
            r == cells_seq(self.board.cells)[i as int],
    {
        self.board.cells[i / 3][i % 3]
    }

    fn line(k: usize) -> (r: (usize, usize, usize))
        requires
            k < 8,
        ensures
            (r.0 as int, r.1 as int, r.2 as int) == line_spec(k as int),
            r.0 < 9 && r.1 < 9 && r.2 < 9,
    {
        if k == 0 {
            (0, 1, 2)
        } else if k == 1 {
            (0, 3, 6)
        } else if k == 2 {
            (3, 4, 5)
        } else if k == 3 {
            (1, 4, 7)
        } else if k == 4 {
            (6, 7, 8)
        } else if k == 5 {
            (2, 5, 8)
        } else if k == 6 {
            (0, 4, 8)
        } else {
            (2, 4, 6)
        }
    }

    /// Ends the game with a win when a line is filled.
    fn calc_reward(&mut self)
        ensures
            final(self).board.cells == old(self).board.cells,
            final(self).board.player == old(self).board.player,
            match winner(cells_seq(old(self).board.cells)) {
                Some(m) => final(self).reward@ == win_reward(m) && final(self).board.done,
                None => final(self).reward == old(self).reward && final(self).board.done
                    == old(self).board.done,
            },
    {
        let ghost s = cells_seq(self.board.cells);
        let mut found: Option<CellState> = None;
        let mut k: usize = 0;
        while k < 8
            invariant
                k <= 8,
                s == cells_seq(self.board.cells),
                found == last_winner(s, k as nat),
            decreases 8 - k,
        {
            let (a, b, c) = Self::line(k);
            let ca = self.cell(a);
            if ca != CellState::Empty && ca == self.cell(b) && self.cell(b) == self.cell(c) {
                found = Some(ca);
            }
            k = k + 1;
        }
        match found {
            Some(CellState::X) => {
                self.reward = [1, -1];
                self.board.done = true;
            },
            Some(_) => {
                self.reward = [-1, 1];
                self.board.done = true;
            },
            None => {},
        }
        assert(found is Some ==> self.reward@ =~= win_reward(found->0));
    }

    /// Whether every cell is occupied.
    fn is_draw(&self) -> (r: bool)
        ensures
            r == board_full(cells_seq(self.board.cells)),
    {
        let mut i: usize = 0;
        while i < 9
            invariant
                i <= 9,
                forall|j: int| 0 <= j < i ==> cells_seq(self.board.cells)[j] != CellState::Empty,
            decreases 9 - i,
        {
            if self.cell(i) == CellState::Empty {
                return false;
            }
            i = i + 1;
        }
        true
    }

    /// The player to move places a mark. Into an empty cell, the mark goes down,
    /// a filled line ends the game with a win, and the turn passes. Into an
    /// occupied cell, the game ends: a draw on a full board, otherwise a loss of
    /// 100 for the mover and a reward of 1 for the opponent. Returns whether the
    /// game has ended (then there is no next state).
    pub fn step(&mut self, action: &TicTacAction) -> (r: bool)
        ensures
            ({
                let s = cells_seq(old(self).board.cells);
                let i = 3 * action.spec_row() + action.spec_col();
                let p = old(self).board.player;
                if s[i] == CellState::Empty {
                    let placed = s.update(i, mark_of(p));
                    &&& cells_seq(final(self).board.cells) == placed
                    &&& final(self).board.player == opponent(p)
                    &&& match winner(placed) {
                        Some(m) => final(self).reward@ == win_reward(m) && final(self).board.done,
                        None => final(self).reward == old(self).reward && final(self).board.done
                            == old(self).board.done,
                    }
                } else {
                    &&& final(self).board.cells == old(self).board.cells
                    &&& final(self).board.player == p
                    &&& final(self).board.done
                    &&& final(self).reward@ == (if board_full(s) {
                        seq![0i32, 0i32]
                    } else {
                        illegal_move_reward(p)
                    })
                }
            }),
            r == final(self).board.done,
    {
        let row = action.row();
        let col = action.col();
        let ghost s = cells_seq(self.board.cells);
        let ghost i = 3 * row + col;
        let player = self.board.player;
        let mark = match player {
            TicTacPlayer::X => CellState::X,
            TicTacPlayer::O => CellState::O,
        };
        if self.board.cells[row][col] == CellState::Empty {
            self.board.cells[row][col] = mark;
            assert(cells_seq(self.board.cells) =~= s.update(i, mark));
            self.calc_reward();
            self.board.player = match player {
                TicTacPlayer::X => TicTacPlayer::O,
                TicTacPlayer::O => TicTacPlayer::X,
            };
        } else {
            if self.is_draw() {
                self.reward = [0, 0];
                assert(self.reward@ =~= seq![0i32, 0i32]);
            } else {
                self.reward = match player {
                    TicTacPlayer::X => [-100, 1],
                    TicTacPlayer::O => [1, -100],
                };
                assert(self.reward@ =~= illegal_move_reward(player));
            }
            self.board.done = true;
        }
        self.board.done
    }
}

} // verus!
