//! A grid world: the agent moves one cell at a time and is rewarded for
//! reaching the center cell.

use crate::space::{is_valid_discrete, random_below, within_bounds};
use crate::StateSpace;
use vstd::prelude::*;

verus! {

/// A move on the grid. Up and Down change the row, Left and Right the column.
#[derive(Debug, Clone, Copy, PartialEq, Eq, Hash, Structural)]
pub enum MoveAction {
    Up,
    Down,
    Left,
    Right,
}

/// The number that stands for an action in its one-dimensional space.
pub open spec fn move_code(a: MoveAction) -> usize {
    match a {
        MoveAction::Up => 0,
        MoveAction::Down => 1,
        MoveAction::Left => 2,
        MoveAction::Right => 3,
    }
}

impl Default for MoveAction {
    fn default() -> (r: MoveAction)
        ensures
            r == MoveAction::Up,
    {
        MoveAction::Up
    }
}

impl MoveAction {
    pub open spec fn values(self) -> Seq<usize> {
        seq![move_code(self)]
    }

    /// The action's code for dimension 0.
    pub fn discrete(&self, d: usize) -> (r: Option<usize>)
        ensures
            r == (if d == 0 {
                Some(move_code(*self))
            } else {
                None::<usize>
            }),
    {
        if d == 0 {
            Some(
                match self {
                    MoveAction::Up => 0,
                    MoveAction::Down => 1,
                    MoveAction::Left => 2,
                    MoveAction::Right => 3,
                },
            )
        } else {
            None
        }
    }

    /// Builds the action from its code; fails unless there is exactly one
    /// discrete value, below 4, and no continuous value.
    pub fn try_build(discrete: &[usize], continuous_len: usize) -> (r: Option<MoveAction>)
        ensures
            r is Some <==> (continuous_len == 0 && within_bounds(discrete@, seq![4usize])),
            r matches Some(a) ==> a.values() == discrete@,
    {
        if discrete.len() == 1 && continuous_len == 0 {
            let r = if discrete[0] == 0 {
                Some(MoveAction::Up)
            } else if discrete[0] == 1 {
                Some(MoveAction::Down)
            } else if discrete[0] == 2 {
                Some(MoveAction::Left)
            } else if discrete[0] == 3 {
                Some(MoveAction::Right)
            } else {
                None
            };
            assert(r matches Some(a) ==> a.values() =~= discrete@);
            r
        } else {
            None
        }
    }

    /// Whether the action lies in the given space.
    pub fn is_valid(&self, space: &[usize]) -> (r: bool)
        ensures
            r == within_bounds(self.values(), space@),
    {
        let values = vec![
            match self {
                MoveAction::Up => 0,
                MoveAction::Down => 1,
                MoveAction::Left => 2,
                MoveAction::Right => 3,
            },
        ];
        assert(values@ =~= self.values());
        is_valid_discrete(values.as_slice(), space)
    }
}

/// A grid-world state: the agent's (row, column) and whether the episode has
/// ended.
#[derive(Debug, Clone, Copy, PartialEq, Eq, Hash)]
pub struct Board {
    pub position: (usize, usize),
    pub done: bool,
}

impl Board {
    pub open spec fn values(self) -> Seq<usize> {
        seq![self.position.0, self.position.1]
    }

    /// The row for dimension 0, the column for dimension 1.
    pub fn discrete(&self, d: usize) -> (r: Option<usize>)
        ensures
            r == (if d < 2 {
                Some(self.values()[d as int])
            } else {
                None::<usize>
            }),
    {
        if d == 0 {
            Some(self.position.0)
        } else if d == 1 {
            Some(self.position.1)
        } else {
            None
        }
    }

    /// Builds a state of the grid whose dimensions are `space`; fails unless
    /// the position lies on the grid and there is no continuous value. The
    /// state counts as ended at the center.
    pub fn try_build(space: &[usize], discrete: &[usize], continuous_len: usize) -> (r: Option<
        Board,
    >)
        ensures
            r is Some <==> (continuous_len == 0 && space.len() == 2 && within_bounds(
                discrete@,
                space@,
            )),
            r matches Some(b) ==> b.values() == discrete@ && b.done == (discrete@[0] == space@[0]
                / 2 && discrete@[1] == space@[1] / 2),
    {
        if discrete.len() == 2 && space.len() == 2 && continuous_len == 0 && discrete[0]
            < space[0] && discrete[1] < space[1] {
            let done = discrete[0] == space[0] / 2 && discrete[1] == space[1] / 2;
            let b = Board { position: (discrete[0], discrete[1]), done };
            assert(b.values() =~= discrete@);
            Some(b)
        } else {
            None
        }
    }

    /// A single player moves.
    pub fn current_player(&self) -> (r: usize)
        ensures
            r == 0,
    {
        0
    }
}

/// The grid: rows, then columns.
#[derive(Debug, Clone, Copy, PartialEq, Eq, Hash, Default)]
pub struct Shape {
    pub rows: usize,
    pub cols: usize,
}

impl Shape {
    /// The number of rows for dimension 0, of columns for dimension 1.
    pub fn discrete_dim(&self, d: usize) -> (r: Option<usize>)
        ensures
            r == (if d == 0 {
                Some(self.rows)
            } else if d == 1 {
                Some(self.cols)
            } else {
                None::<usize>
            }),
    {
        if d == 0 {
            Some(self.rows)
        } else if d == 1 {
            Some(self.cols)
        } else {
            None
        }
    }
}

impl StateSpace for Shape {
    /// A single agent moves on the grid.
    fn player_count(&self) -> usize {
        1
    }
}

/// The action space: one dimension of four moves.
#[derive(Debug, Clone, Copy, PartialEq, Eq, Hash, Default)]
pub struct MoveActionSpace;

impl MoveActionSpace {
    pub fn discrete_dim(&self, d: usize) -> (r: Option<usize>)
        ensures
            r == (if d == 0 {
                Some(4usize)
            } else {
                None::<usize>
            }),
    {
        if d == 0 {
            Some(4)
        } else {
            None
        }
    }
}

/// The reward of the last step. At the center it is 100; elsewhere it is the
/// inverse of the Euclidean distance to the center, given here by the offsets
/// along both axes.
#[derive(Debug, Clone, Copy, PartialEq, Eq, Hash, Structural)]
pub enum GridReward {
    /// No step has been taken since the last reset.
    Nothing,
    /// The agent stands on the center cell.
    Center,
    /// The agent stands this many rows and columns away from the center.
    Away { rows: usize, cols: usize },
}

pub open spec fn center(shape: Shape) -> (usize, usize) {
    ((shape.rows / 2) as usize, (shape.cols / 2) as usize)
}

pub open spec fn abs_diff(a: usize, b: usize) -> usize {
    if a >= b {
        (a - b) as usize
    } else {
        (b - a) as usize
    }
}

/// The reward for standing at `pos`.
pub open spec fn reward_at(shape: Shape, pos: (usize, usize)) -> GridReward {
    if pos == center(shape) {
        GridReward::Center
    } else {
        GridReward::Away {
            rows: abs_diff(pos.0, center(shape).0),
            cols: abs_diff(pos.1, center(shape).1),
        }
    }
}

/// Whether the move would leave the grid.
pub open spec fn blocked(shape: Shape, pos: (usize, usize), a: MoveAction) -> bool {
    match a {
        MoveAction::Up => pos.0 == 0,
        MoveAction::Down => pos.0 + 1 >= shape.rows,
        MoveAction::Left => pos.1 == 0,
        MoveAction::Right => pos.1 + 1 >= shape.cols,
    }
}

/// The position after the move; a blocked move leaves it where it is.
pub open spec fn moved(shape: Shape, pos: (usize, usize), a: MoveAction) -> (usize, usize) {
    if blocked(shape, pos, a) {
        pos
    } else {
        match a {
            MoveAction::Up => ((pos.0 - 1) as usize, pos.1),
            MoveAction::Down => ((pos.0 + 1) as usize, pos.1),
            MoveAction::Left => (pos.0, (pos.1 - 1) as usize),
            MoveAction::Right => (pos.0, (pos.1 + 1) as usize),
        }
    }
}

/// A grid world: its shape, the current state and the reward of the last step.
#[derive(Debug, Clone, Copy, PartialEq, Eq, Hash)]
pub struct GridEnvironment {
    pub shape: Shape,
    pub board: Board,
    pub reward: GridReward,
}

impl GridEnvironment {
    /// A grid of `rows` × `cols` with the agent in the top-left corner.
    pub fn new(rows: usize, cols: usize) -> (r: GridEnvironment)
        ensures
            r.shape.rows == rows,
            r.shape.cols == cols,
            r.board.position == (0usize, 0usize),
            !r.board.done,
            r.reward == GridReward::Nothing,
    {
        GridEnvironment {
            board: Board { position: (0, 0), done: false },
            shape: Shape { rows, cols },
            reward: GridReward::Nothing,
        }
    }

    pub fn state_space(&self) -> (r: Shape)
        ensures
            r == self.shape,
    {
        self.shape
    }

    pub fn action_space(&self) -> MoveActionSpace {
        MoveActionSpace
    }

    /// Sets the reward for the current position; the center ends the episode.
    fn calc_reward(&mut self)
        ensures
            final(self).shape == old(self).shape,
            final(self).board.position == old(self).board.position,
            final(self).reward == reward_at(old(self).shape, old(self).board.position),
            final(self).board.done == (old(self).board.done || old(self).board.position
                == center(old(self).shape)),
    {
        let cr = self.shape.rows / 2;
        let cc = self.shape.cols / 2;
        let (r, c) = self.board.position;
        if r == cr && c == cc {
            self.reward = GridReward::Center;
            self.board.done = true;
        } else {
            let rows = if r >= cr {
                r - cr
            } else {
                cr - r
            };
            let cols = if c >= cc {
                c - cc
            } else {
                cc - c
            };
            self.reward = GridReward::Away { rows, cols };
        }
    }

    /// Starts a new episode at a position drawn uniformly among the cells
    /// other than the center.
    pub fn reset(&mut self)
        requires
            2 <= old(self).shape.rows * old(self).shape.cols <= usize::MAX,
        ensures
            final(self).shape == old(self).shape,
            within_bounds(
                final(self).board.values(),
                seq![old(self).shape.rows, old(self).shape.cols],
            ),
            final(self).board.position != center(old(self).shape),
            !final(self).board.done,
            final(self).reward == GridReward::Nothing,
    {
        let rows = self.shape.rows;
        let cols = self.shape.cols;
        let cells = rows * cols;
        assert(rows > 0 && cols > 0) by (nonlinear_arith)
            requires
                2 <= rows * cols,
        ;
        assert((rows / 2) * cols + cols / 2 < cells) by (nonlinear_arith)
            requires
                cells == rows * cols,
                rows > 0,
                cols > 0,
        ;
        let middle = (rows / 2) * cols + cols / 2;
        let drawn = random_below(cells - 1);
        let k = if drawn >= middle {
            drawn + 1
        } else {
            drawn
        };
        let r = k / cols;
        let c = k % cols;
        assert(r < rows) by (nonlinear_arith)
            requires
                k < rows * cols,
                r == k / cols,
                cols > 0,
        ;
        assert(k == r * cols + c) by (nonlinear_arith)
            requires
                r == k / cols,
                c == k % cols,
                cols > 0,
        ;
        assert(c < cols && (r, c) != ((rows / 2) as usize, (cols / 2) as usize)) by (
        nonlinear_arith)
            requires
                k == r * cols + c,
                c == k % cols,
                cols > 0,
                k != middle,
                middle == (rows / 2) * cols + cols / 2,
                cols / 2 < cols,
        ;
        self.board.position = (r, c);
        self.board.done = false;
        self.reward = GridReward::Nothing;
    }

    /// Moves the agent one cell. A move off the grid leaves it in place and
    /// ends the episode; reaching the center ends it as well. Returns whether
    /// the episode has ended (then there is no next state).
    pub fn step(&mut self, action: &MoveAction) -> (r: bool)
        ensures
            final(self).shape == old(self).shape,
            final(self).board.position == moved(old(self).shape, old(self).board.position, *action),
            final(self).reward == reward_at(old(self).shape, final(self).board.position),
            final(self).board.done == (old(self).board.done || blocked(
                old(self).shape,
                old(self).board.position,
                *action,
            ) || final(self).board.position == center(old(self).shape)),
            r == final(self).board.done,
    {
        let rows = self.shape.rows;
        let cols = self.shape.cols;
        match action {
            MoveAction::Up => {
                if self.board.position.0 > 0 {
                    self.board.position.0 = self.board.position.0 - 1;
                    self.calc_reward();
                } else {
                    self.calc_reward();
                    self.board.done = true;
                }
            },
            MoveAction::Down => {
                if rows > 0 && self.board.position.0 < rows - 1 {
                    self.board.position.0 = self.board.position.0 + 1;
                    self.calc_reward();
                } else {
                    self.calc_reward();
                    self.board.done = true;
                }
            },
            MoveAction::Left => {
                if self.board.position.1 > 0 {
                    self.board.position.1 = self.board.position.1 - 1;
                    self.calc_reward();
                } else {
                    self.calc_reward();
                    self.board.done = true;
                }
            },
            MoveAction::Right => {
                if cols > 0 && self.board.position.1 < cols - 1 {
                    self.board.position.1 = self.board.position.1 + 1;
                    self.calc_reward();
                } else {
                    self.calc_reward();
                    self.board.done = true;
                }
            },
        }
        self.board.done
    }
}

} // verus!
