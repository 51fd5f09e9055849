use rust_rl::environment::move_to_center::{
    Board as GridBoard, GridEnvironment, GridReward, MoveAction, MoveActionSpace,
    Shape as GridShape,
};
use rust_rl::environment::tic_tac_toe::{
    Board, CellState, Shape, TicTacAction, TicTacActionSpace, TicTacEnvironment, TicTacPlayer,
};
use rust_rl::StateSpace;

fn place(env: &mut TicTacEnvironment, row: usize, col: usize) -> bool {
    let a = TicTacAction::try_build(&[row, col], 0).expect("on the board");
    env.step(&a)
}

#[test]
fn grid_center_of_nine_by_nine() {
    let mut env = GridEnvironment::new(9, 9);
    env.board.position = (4, 3);
    let done = env.step(&MoveAction::Right);
    assert_eq!(env.board.position, (4, 4));
    assert_eq!(env.reward, GridReward::Center);
    assert!(done);
    assert!(env.board.done);
}

#[test]
fn grid_up_at_top_row_stays_and_ends() {
    let mut env = GridEnvironment::new(9, 9);
    env.board.position = (0, 2);
    let done = env.step(&MoveAction::Up);
    assert_eq!(env.board.position, (0, 2));
    assert!(done);
    assert_eq!(env.reward, GridReward::Away { rows: 4, cols: 2 });
}

#[test]
fn grid_ordinary_move_continues() {
    let mut env = GridEnvironment::new(9, 9);
    env.board.position = (2, 2);
    assert!(!env.step(&MoveAction::Down));
    assert_eq!(env.board.position, (3, 2));
    assert_eq!(env.reward, GridReward::Away { rows: 1, cols: 2 });
    assert!(!env.step(&MoveAction::Left));
    assert_eq!(env.board.position, (3, 1));
    env.board.position = (8, 8);
    assert!(env.step(&MoveAction::Down));
    assert_eq!(env.board.position, (8, 8));
}

#[test]
fn grid_reset_avoids_center() {
    let mut env = GridEnvironment::new(3, 3);
    for _ in 0..200 {
        env.reset();
        assert_ne!(env.board.position, (1, 1));
        assert!(env.board.position.0 < 3 && env.board.position.1 < 3);
        assert!(!env.board.done);
        assert_eq!(env.reward, GridReward::Nothing);
    }
    let mut two = GridEnvironment::new(1, 2);
    two.reset();
    assert_eq!(two.board.position, (0, 0));
}

#[test]
fn grid_elements_round_trip() {
    let space = [9, 9];
    let b = GridBoard::try_build(&space, &[4, 4], 0).expect("on the grid");
    assert!(b.done);
    assert_eq!(b.discrete(0), Some(4));
    assert_eq!(b.discrete(1), Some(4));
    assert_eq!(b.discrete(2), None);
    assert!(GridBoard::try_build(&space, &[9, 0], 0).is_none());
    assert!(GridBoard::try_build(&space, &[1, 0], 1).is_none());
    assert!(GridBoard::try_build(&space, &[1], 0).is_none());
    assert_eq!(GridBoard::try_build(&space, &[1, 0], 0).map(|b| b.done), Some(false));
    for code in 0..4 {
        let a = MoveAction::try_build(&[code], 0).expect("a move");
        assert_eq!(a.discrete(0), Some(code));
        assert!(a.is_valid(&[4]));
    }
    assert!(MoveAction::try_build(&[4], 0).is_none());
    assert!(MoveAction::try_build(&[0, 0], 0).is_none());
    assert_eq!(MoveAction::default(), MoveAction::Up);
    assert!(!MoveAction::Right.is_valid(&[3]));
}

#[test]
fn grid_spaces() {
    let env = GridEnvironment::new(5, 7);
    let shape: GridShape = env.state_space();
    assert_eq!(shape.discrete_dim(0), Some(5));
    assert_eq!(shape.discrete_dim(1), Some(7));
    assert_eq!(shape.discrete_dim(2), None);
    assert_eq!(shape.player_count(), 1);
    assert_eq!(MoveActionSpace.discrete_dim(0), Some(4));
    assert_eq!(MoveActionSpace.discrete_dim(1), None);
    assert_eq!(GridBoard { position: (1, 1), done: false }.current_player(), 0);
}

#[test]
fn tic_tac_toe_occupied_cell_by_x() {
    let mut env = TicTacEnvironment::new();
    assert!(!place(&mut env, 0, 0));
    assert!(!place(&mut env, 1, 1));
    assert!(place(&mut env, 1, 1));
    assert_eq!(env.reward, [-100, 1]);
    assert!(env.board.done);
}

#[test]
fn tic_tac_toe_occupied_cell_by_o() {
    let mut env = TicTacEnvironment::new();
    assert!(!place(&mut env, 0, 0));
    assert!(place(&mut env, 0, 0));
    assert_eq!(env.reward, [1, -100]);
    assert!(env.board.done);
}

#[test]
fn tic_tac_toe_full_board_is_a_draw() {
    let mut env = TicTacEnvironment::new();
    // X O X / X O O / O X X: no line.
    let moves = [(0, 0), (0, 1), (0, 2), (1, 1), (1, 0), (1, 2), (2, 1), (2, 0), (2, 2)];
    for &(r, c) in moves.iter() {
        assert!(!place(&mut env, r, c));
    }
    assert_eq!(env.reward, [0, 0]);
    assert!(place(&mut env, 1, 1));
    assert_eq!(env.reward, [0, 0]);
    assert!(env.board.done);
}

#[test]
fn tic_tac_toe_wins() {
    let mut env = TicTacEnvironment::new();
    assert!(!place(&mut env, 0, 0)); // X
    assert!(!place(&mut env, 1, 0)); // O
    assert!(!place(&mut env, 0, 1)); // X
    assert!(!place(&mut env, 1, 1)); // O
    assert!(place(&mut env, 0, 2)); // X fills row 0
    assert_eq!(env.reward, [1, -1]);

    env.reset();
    assert_eq!(env.reward, [0, 0]);
    assert_eq!(env.board.player, TicTacPlayer::X);
    assert!(!place(&mut env, 0, 0)); // X
    assert!(!place(&mut env, 0, 2)); // O
    assert!(!place(&mut env, 1, 0)); // X
    assert!(!place(&mut env, 1, 1)); // O
    assert!(!place(&mut env, 2, 2)); // X
    assert!(place(&mut env, 2, 0)); // O fills the anti-diagonal
    assert_eq!(env.reward, [-1, 1]);
}

#[test]
fn tic_tac_toe_turns_alternate() {
    let mut env = TicTacEnvironment::new();
    assert_eq!(env.board.current_player(), 0);
    place(&mut env, 2, 2);
    assert_eq!(env.board.player, TicTacPlayer::O);
    assert_eq!(env.board.current_player(), 1);
    assert_eq!(env.board.cells[2][2], CellState::X);
}

#[test]
fn tic_tac_toe_elements_round_trip() {
    let values = [1, 2, 0, 0, 1, 0, 0, 0, 0, 0];
    let b = Board::try_build(&values, 0).expect("a playable board");
    for d in 0..10 {
        assert_eq!(b.discrete(d), Some(values[d]));
    }
    assert_eq!(b.discrete(10), None);
    assert_eq!(b.player, TicTacPlayer::O);
    assert_eq!(b.cells[0][1], CellState::O);
    // Two more X than O cannot happen in play.
    assert!(Board::try_build(&[1, 1, 0, 0, 0, 0, 0, 0, 0, 0], 0).is_none());
    assert!(Board::try_build(&[3, 0, 0, 0, 0, 0, 0, 0, 0, 0], 0).is_none());
    assert!(Board::try_build(&[0, 0, 0, 0, 0, 0, 0, 0, 0, 2], 0).is_none());
    assert!(Board::try_build(&[0, 0, 0, 0, 0, 0, 0, 0, 0], 0).is_none());
    let done = Board::try_build(&[0, 0, 0, 0, 0, 0, 0, 0, 0, 1], 0).expect("empty board");
    assert!(done.done);
    assert_eq!(done.player, TicTacPlayer::X);

    let a = TicTacAction::try_build(&[2, 1], 0).expect("on the board");
    assert_eq!((a.row(), a.col()), (2, 1));
    assert_eq!(a.discrete(0), Some(2));
    assert_eq!(a.discrete(1), Some(1));
    assert_eq!(a.discrete(2), None);
    assert!(a.is_valid(&[3, 3]));
    assert!(!a.is_valid(&[3, 1]));
    assert!(TicTacAction::try_build(&[3, 0], 0).is_none());
    assert!(TicTacAction::try_build(&[0, 0], 1).is_none());
}

#[test]
fn tic_tac_toe_spaces_and_cells() {
    assert_eq!(Shape.discrete_dim(8), Some(3));
    assert_eq!(Shape.discrete_dim(9), Some(2));
    assert_eq!(Shape.discrete_dim(10), None);
    assert_eq!(Shape.player_count(), 2);
    assert_eq!(TicTacActionSpace.discrete_dim(1), Some(3));
    assert_eq!(TicTacActionSpace.discrete_dim(2), None);
    assert_eq!(CellState::from_usize(0), CellState::Empty);
    assert_eq!(CellState::from_usize(1), CellState::X);
    assert_eq!(CellState::from_usize(2), CellState::O);
    assert_eq!(CellState::O.code(), 2);
}
