use game_solver::games::order_and_chaos::OrderAndChaosPosition;
use game_solver::games::tic_tac_toe_non_sq::TicTacToeNonSqPlayer;
use game_solver::games::tic_tac_toe_non_sq::TicTacToeNonSqPosition;
use game_solver::solver::GameResult;
use game_solver::solver::GameResultWithRmt;
use game_solver::solver::MemoTable;
use game_solver::solver::RmtU32;
use game_solver::solver::Solver;

#[test]
fn test_order_and_chaos() {
    let mut solver = Solver::<_, _, _, GameResult>::new(MemoTable::new());

    let result = solver.solve(OrderAndChaosPosition::start());

    println!("{:?}", result);
}

#[test]
fn tic_tac_toe_non_sq_counts() {
    let mut solver = Solver::<_, _, _, GameResultWithRmt>::new(MemoTable::new());

    solver.solve(TicTacToeNonSqPosition {
        board: [
            [None, None, None, None],
            [None, None, None, None],
            [None, None, None, None],
        ],
        player: TicTacToeNonSqPlayer::X,
    });

    for rmt in 0..=10 {
        let wins = solver
            .table
            .entries
            .iter()
            .filter(|(_, r)| r.game_result == GameResult::Win && (r.rmt == RmtU32::Val(rmt)))
            .count();
        let loses = solver
            .table
            .entries
            .iter()
            .filter(|(_, r)| r.game_result == GameResult::Lose && (r.rmt == RmtU32::Val(rmt)))
            .count();
        let ties = solver
            .table
            .entries
            .iter()
            .filter(|(_, r)| r.game_result == GameResult::Tie && (r.rmt == RmtU32::Val(rmt)))
            .count();

        println!("Remoteness: {}", rmt);
        println!("wins: {}", wins);
        println!("loses: {}", loses);
        println!("ties: {}", ties);
    }

    let wins = solver.table.entries.iter().filter(|(_, r)| r.game_result == GameResult::Win).count();
    let loses = solver.table.entries.iter().filter(|(_, r)| r.game_result == GameResult::Lose).count();
    let ties = solver.table.entries.iter().filter(|(_, r)| r.game_result == GameResult::Tie).count();
    let total = solver.table.entries.iter().count();

    println!("Total: {}", total);
    println!("wins: {}", wins);
    println!("loses: {}", loses);
    println!("ties: {}", ties);
}
