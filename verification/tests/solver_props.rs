use game_solver::games::order_and_chaos::OrderAndChaosPiece;
use game_solver::games::order_and_chaos::OrderAndChaosPlayer;
use game_solver::games::order_and_chaos::OrderAndChaosPosition;
use game_solver::games::order_and_chaos::OrderAndChaosPositionVEq;
use game_solver::games::tic_tac_toe::TicTacToePlayer;
use game_solver::games::tic_tac_toe::TicTacToePosition;
use game_solver::games::tic_tac_toe::TicTacToePositionD4Eq;
use game_solver::games::tic_tac_toe::TicTacToePositionGrpElem;
use game_solver::games::tic_tac_toe_non_sq::TicTacToeNonSqPlayer;
use game_solver::games::tic_tac_toe_non_sq::TicTacToeNonSqPosition;
use game_solver::games::tic_tac_toe_non_sq::TicTacToeNonSqPositionVEq;
use game_solver::solver::GameResult;
use game_solver::solver::MemoTable;
use game_solver::solver::Position;
use game_solver::solver::Solver;

fn corner_x_board() -> TicTacToePosition {
    TicTacToePosition {
        board: [
            [Some(TicTacToePlayer::X), None, None],
            [None, None, None],
            [None, None, None],
        ],
        player: TicTacToePlayer::O,
    }
}

fn corner_x_board_rotated() -> TicTacToePosition {
    TicTacToePosition {
        board: [
            [None, None, Some(TicTacToePlayer::X)],
            [None, None, None],
            [None, None, None],
        ],
        player: TicTacToePlayer::O,
    }
}

#[test]
fn determinism_across_solver_instances() {
    let mut first = Solver::<_, _, _, GameResult>::new(MemoTable::new());
    let mut second = Solver::<_, _, _, GameResult>::new(MemoTable::new());

    let r1 = first.solve(corner_x_board());
    let r2 = second.solve(corner_x_board());
    let r3 = first.solve(corner_x_board());

    assert_eq!(r1, r2);
    assert_eq!(r1, r3);
}

#[test]
fn memo_hit_adds_no_entries_and_no_expansions() {
    let mut solver = Solver::<_, _, _, GameResult>::new(MemoTable::new());

    let r1 = solver.solve(corner_x_board());
    let entries_after_first = solver.table.len();
    let expansions_after_first = solver.expansions;

    let r2 = solver.solve(corner_x_board());

    assert_eq!(r1, r2);
    assert_eq!(solver.table.len(), entries_after_first);
    assert_eq!(solver.expansions, expansions_after_first);
}

#[test]
fn pre_seeded_table_answers_without_expansion() {
    let mut first = Solver::<_, _, _, GameResult>::new(MemoTable::new());
    let r1 = first.solve(corner_x_board());
    let table = first.table;

    let mut second = Solver::new(table);
    let r2 = second.solve(corner_x_board());

    assert_eq!(r1, r2);
    assert_eq!(second.expansions, 0);
}

#[test]
fn symmetric_tic_tac_toe_positions_share_a_key() {
    let w1 = TicTacToePositionD4Eq { position: corner_x_board() };
    let w2 = TicTacToePositionD4Eq { position: corner_x_board_rotated() };

    assert_eq!(w1.key(), w2.key());

    let g1 = TicTacToePositionGrpElem { position: corner_x_board() };
    let g2 = TicTacToePositionGrpElem { position: corner_x_board_rotated() };

    assert_eq!(g1.key(), g2.key());

    let plain1 = corner_x_board();
    let plain2 = corner_x_board_rotated();
    assert_ne!(plain1.key(), plain2.key());
}

#[test]
fn symmetric_positions_share_a_memo_entry() {
    let mut solver = Solver::<_, _, _, GameResult>::new(MemoTable::new());

    let r1 = solver.solve(TicTacToePositionD4Eq { position: corner_x_board() });
    let entries_after_first = solver.table.len();
    let r2 = solver.solve(TicTacToePositionD4Eq { position: corner_x_board_rotated() });

    assert_eq!(r1, r2);
    assert_eq!(solver.table.len(), entries_after_first);
}

#[test]
fn reflected_order_and_chaos_positions_share_a_key() {
    let position = OrderAndChaosPosition {
        board: [
            [Some(OrderAndChaosPiece::O), None, None],
            [None, None, None],
            [Some(OrderAndChaosPiece::X), None, None],
        ],
        player: OrderAndChaosPlayer::Chaos,
    };
    let reflected = OrderAndChaosPosition {
        board: [
            [Some(OrderAndChaosPiece::X), None, None],
            [None, None, None],
            [Some(OrderAndChaosPiece::O), None, None],
        ],
        player: OrderAndChaosPlayer::Chaos,
    };

    let w1 = OrderAndChaosPositionVEq { position };
    let w2 = OrderAndChaosPositionVEq { position: reflected };
    assert_eq!(w1.key(), w2.key());
}

#[test]
fn reflected_non_sq_positions_share_a_key() {
    let position = TicTacToeNonSqPosition {
        board: [
            [Some(TicTacToeNonSqPlayer::X), None, None, None],
            [None, None, None, None],
            [None, None, None, None],
        ],
        player: TicTacToeNonSqPlayer::O,
    };
    let reflected = TicTacToeNonSqPosition {
        board: [
            [None, None, None, Some(TicTacToeNonSqPlayer::X)],
            [None, None, None, None],
            [None, None, None, None],
        ],
        player: TicTacToeNonSqPlayer::O,
    };

    let w1 = TicTacToeNonSqPositionVEq { position };
    let w2 = TicTacToeNonSqPositionVEq { position: reflected };
    assert_eq!(w1.key(), w2.key());
}
