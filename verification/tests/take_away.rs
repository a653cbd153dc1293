use game_solver::games::take_10_to_0::TenToZeroPosition;
use game_solver::games::take_25_to_0::TwentyFiveToZeroPosition;
use game_solver::solver::GameResult;
use game_solver::solver::GameResultWithRemoteness;
use game_solver::solver::GameResultWithRmt;
use game_solver::solver::MemoTable;
use game_solver::solver::RemotenessU32;
use game_solver::solver::RmtU32;
use game_solver::solver::Solver;

#[test]
fn game_10_to_0_it_works() {
    let mut solver = Solver::<_, _, _, GameResult>::new(MemoTable::new());

    for i in (0..=10).rev() {
        let result = solver.solve(TenToZeroPosition { remaining_count: i });
        println!("{i}: {:?}", result);
    }
}

#[test]
fn game_25_to_0_it_works() {
    let mut solver = Solver::<_, _, _, GameResult>::new(MemoTable::new());

    for i in (0..=25).rev() {
        let result = solver.solve(TwentyFiveToZeroPosition { remaining_count: i });
        println!("{i}: {:?}", result);
    }
}

#[test]
fn take_10_to_0_it_works() {
    let mut solver = Solver::<_, _, _, GameResult>::new(MemoTable::new());

    for i in (0..=10).rev() {
        let result = solver.solve(TenToZeroPosition { remaining_count: i });

        match i % 3 {
            0 => assert_eq!(result, GameResult::Lose),
            1 => assert_eq!(result, GameResult::Win),
            2 => assert_eq!(result, GameResult::Win),
            _ => (),
        };

        println!("{i}: {:?}", result);
    }
}

#[test]
fn test_memoization() {
    let mut solver = Solver::<_, _, _, GameResult>::new(MemoTable::new());

    for i in (0..=100).rev() {
        let result = solver.solve(TenToZeroPosition { remaining_count: i });

        match i % 3 {
            0 => assert_eq!(result, GameResult::Lose),
            1 => assert_eq!(result, GameResult::Win),
            2 => assert_eq!(result, GameResult::Win),
            _ => (),
        };

        println!("{i}: {:?}", result);
    }

    println!("{:#?}", solver);
}

#[test]
fn take_25_to_0_it_works() {
    let mut solver = Solver::<_, _, _, GameResult>::new(MemoTable::new());

    for i in (0..=25).rev() {
        let result = solver.solve(TwentyFiveToZeroPosition { remaining_count: i });

        match i % 7 {
            0 => assert_eq!(result, GameResult::Lose),
            1 => assert_eq!(result, GameResult::Win),
            2 => assert_eq!(result, GameResult::Lose),
            3 => assert_eq!(result, GameResult::Win),
            4 => assert_eq!(result, GameResult::Win),
            5 => assert_eq!(result, GameResult::Win),
            6 => assert_eq!(result, GameResult::Win),
            _ => (),
        };

        println!("{i}: {:?}", result);
    }
}

#[test]
fn game_result_with_remoteness_it_works() {
    let mut solver = Solver::<_, _, _, GameResultWithRemoteness>::new(MemoTable::new());

    let result = solver.solve(TenToZeroPosition { remaining_count: 10 });

    assert_eq!(
        result,
        GameResultWithRemoteness {
            game_result: GameResult::Win,
            remoteness: RemotenessU32::Val(7),
        }
    );

    for i in (0..=10).rev() {
        let result = solver.solve(TenToZeroPosition { remaining_count: i });

        println!("{i}: {:?}", result);
    }
}

#[test]
fn game_result_with_rmt_it_works() {
    let mut solver = Solver::<_, _, _, GameResultWithRmt>::new(MemoTable::new());

    let result = solver.solve(TenToZeroPosition { remaining_count: 10 });

    assert_eq!(
        result,
        GameResultWithRmt {
            game_result: GameResult::Win,
            rmt: RmtU32::Val(7),
        }
    );

    for i in (0..=10).rev() {
        let result = solver.solve(TenToZeroPosition { remaining_count: i });

        println!("{i}: {:?}", result);
    }
}

#[test]
fn empty_pile_is_an_immediate_loss() {
    let mut solver = Solver::<_, _, _, GameResultWithRmt>::new(MemoTable::new());

    let result = solver.solve(TenToZeroPosition { remaining_count: 0 });

    assert_eq!(
        result,
        GameResultWithRmt {
            game_result: GameResult::Lose,
            rmt: RmtU32::Val(0),
        }
    );
    assert_eq!(solver.table.len(), 1);
}
