use game_solver::games::tic_tac_toe::TicTacToePlayer;
use game_solver::games::tic_tac_toe::TicTacToePosition;
use game_solver::games::tic_tac_toe::TicTacToePositionD4Eq;
use game_solver::solver::GameResult;
use game_solver::solver::GameResultWithRmt;
use game_solver::solver::MemoTable;
use game_solver::solver::Position;
use game_solver::solver::PrimitiveValue;
use game_solver::solver::RmtU32;
use game_solver::solver::Solver;

fn empty_board() -> TicTacToePosition {
    TicTacToePosition {
        board: [[None, None, None], [None, None, None], [None, None, None]],
        player: TicTacToePlayer::X,
    }
}

#[test]
fn game_tic_tac_toe_it_works() {
    let mut solver = Solver::<_, _, _, GameResult>::new(MemoTable::new());

    let result = solver.solve(empty_board());

    assert_eq!(result, GameResult::Tie);
}

#[test]
fn tic_tac_toe_it_works() {
    let mut solver = Solver::<_, _, _, GameResult>::new(MemoTable::new());

    let result = solver.solve(TicTacToePosition {
        board: [[None, None, None], [None, None, None], [None, None, None]],
        player: TicTacToePlayer::X,
    });

    assert_eq!(result, GameResult::Tie);
}

#[test]
fn game_result_it_works() {
    let mut solver = Solver::<_, _, _, GameResult>::new(MemoTable::new());

    let result = solver.solve(empty_board());

    assert_eq!(result, GameResult::Tie);
}

#[test]
fn counts() {
    let mut solver = Solver::<_, _, _, GameResult>::new(MemoTable::new());

    solver.solve(empty_board());

    let wins = solver.table.entries.iter().filter(|(_, r)| *r == GameResult::Win).count();
    let loses = solver.table.entries.iter().filter(|(_, r)| *r == GameResult::Lose).count();
    let ties = solver.table.entries.iter().filter(|(_, r)| *r == GameResult::Tie).count();
    let total = solver.table.entries.iter().count();

    let prim_wins = solver
        .table
        .entries
        .iter()
        .filter(|(position, r)| *r == GameResult::Win && position.primitive_value().is_primitive())
        .count();
    let prim_loses = solver
        .table
        .entries
        .iter()
        .filter(|(position, r)| *r == GameResult::Lose && position.primitive_value().is_primitive())
        .count();
    let prim_ties = solver
        .table
        .entries
        .iter()
        .filter(|(position, r)| *r == GameResult::Tie && position.primitive_value().is_primitive())
        .count();
    let prim_total = solver
        .table
        .entries
        .iter()
        .filter(|(position, _)| position.primitive_value().is_primitive())
        .count();

    assert_eq!(2836, wins);
    assert_eq!(1574, loses);
    assert_eq!(1068, ties);
    assert_eq!(5478, total);

    assert_eq!(0, prim_wins);
    assert_eq!(942, prim_loses);
    assert_eq!(16, prim_ties);
    assert_eq!(958, prim_total);

    println!("wins: {}", wins);
    println!("loses: {}", loses);
    println!("ties: {}", ties);
    println!("total: {}", total);

    println!("primitive wins: {}", prim_wins);
    println!("primitive loses: {}", prim_loses);
    println!("primitive ties: {}", prim_ties);
    println!("primitive total: {}", prim_total);
}

#[test]
fn game_result_tic_tac_toe_counts() {
    let mut solver = Solver::<_, _, _, GameResult>::new(MemoTable::new());

    solver.solve(empty_board());

    let wins = solver.table.entries.iter().filter(|(_, r)| *r == GameResult::Win).count();
    let loses = solver.table.entries.iter().filter(|(_, r)| *r == GameResult::Lose).count();
    let ties = solver.table.entries.iter().filter(|(_, r)| *r == GameResult::Tie).count();
    let total = solver.table.entries.iter().count();

    let prim_wins = solver
        .table
        .entries
        .iter()
        .filter(|(position, r)| *r == GameResult::Win && position.primitive_value().is_primitive())
        .count();
    let prim_loses = solver
        .table
        .entries
        .iter()
        .filter(|(position, r)| *r == GameResult::Lose && position.primitive_value().is_primitive())
        .count();
    let prim_ties = solver
        .table
        .entries
        .iter()
        .filter(|(position, r)| *r == GameResult::Tie && position.primitive_value().is_primitive())
        .count();
    let prim_total = solver
        .table
        .entries
        .iter()
        .filter(|(position, _)| position.primitive_value().is_primitive())
        .count();

    assert_eq!(2836, wins);
    assert_eq!(1574, loses);
    assert_eq!(1068, ties);
    assert_eq!(5478, total);

    assert_eq!(0, prim_wins);
    assert_eq!(942, prim_loses);
    assert_eq!(16, prim_ties);
    assert_eq!(958, prim_total);

    println!("wins: {}", wins);
    println!("loses: {}", loses);
    println!("ties: {}", ties);
    println!("total: {}", total);

    println!("primitive wins: {}", prim_wins);
    println!("primitive loses: {}", prim_loses);
    println!("primitive ties: {}", prim_ties);
    println!("primitive total: {}", prim_total);
}

#[test]
fn tic_tac_toe() {
    let mut solver = Solver::<_, _, _, GameResultWithRmt>::new(MemoTable::new());

    let result = solver.solve(TicTacToePosition {
        board: [[None, None, None], [None, None, None], [None, None, None]],
        player: TicTacToePlayer::X,
    });

    assert_eq!(
        result,
        GameResultWithRmt {
            game_result: GameResult::Tie,
            rmt: RmtU32::Val(9),
        }
    );

    println!("{:#?}", result);
}

#[test]
fn game_result_with_rmt_tic_tac_toe_counts() {
    let mut solver = Solver::<_, _, _, GameResultWithRmt>::new(MemoTable::new());

    solver.solve(TicTacToePositionD4Eq {
        position: TicTacToePosition {
            board: [[None, None, None], [None, None, None], [None, None, None]],
            player: TicTacToePlayer::X,
        },
    });

    for rmt in 0..=10 {
        let wins = solver
            .table
            .entries
            .iter()
            .filter(|(_, r)| r.game_result == GameResult::Win && (r.rmt == RmtU32::Val(rmt)))
            .count();
        let loses = solver
            .table
            .entries
            .iter()
            .filter(|(_, r)| r.game_result == GameResult::Lose && (r.rmt == RmtU32::Val(rmt)))
            .count();
        let ties = solver
            .table
            .entries
            .iter()
            .filter(|(_, r)| r.game_result == GameResult::Tie && (r.rmt == RmtU32::Val(rmt)))
            .count();

        println!("Remoteness: {}", rmt);
        println!("wins: {}", wins);
        println!("loses: {}", loses);
        println!("ties: {}", ties);
    }

    let wins = solver.table.entries.iter().filter(|(_, r)| r.game_result == GameResult::Win).count();
    let loses = solver.table.entries.iter().filter(|(_, r)| r.game_result == GameResult::Lose).count();
    let ties = solver.table.entries.iter().filter(|(_, r)| r.game_result == GameResult::Tie).count();
    let total = solver.table.entries.iter().count();

    assert_eq!(390, wins);
    assert_eq!(224, loses);
    assert_eq!(151, ties);
    assert_eq!(765, total);

    println!("Total: {}", total);
    println!("wins: {}", wins);
    println!("loses: {}", loses);
    println!("ties: {}", ties);
}
