use game_solver::solver::GameResult;
use game_solver::solver::GameResultWithRemoteness;
use game_solver::solver::GameResultWithRmt;
use game_solver::solver::RecursiveValue;
use game_solver::solver::RemotenessU32;
use game_solver::solver::RmtU32;

#[test]
fn remoteness_u32_ord() {
    let min = RemotenessU32::Val(u32::MIN);
    let zero = RemotenessU32::Val(0);
    let one = RemotenessU32::Val(1);
    let two = RemotenessU32::Val(2);
    let max_minus_one = RemotenessU32::Val(u32::MAX - 1);
    let max = RemotenessU32::Val(u32::MAX);
    let inf = RemotenessU32::Inf;

    assert_eq!(min, zero);
    assert_eq!(zero < one, true);
    assert_eq!(one < two, true);
    assert_eq!(two < max_minus_one, true);
    assert_eq!(max < max_minus_one, false);
    assert_eq!(inf < max, false);
    assert_eq!(zero < inf, true);
}

#[test]
fn rmt_u32_ord() {
    let min = RmtU32::Val(u32::MIN);
    let zero = RmtU32::Val(0);
    let one = RmtU32::Val(1);
    let two = RmtU32::Val(2);
    let max_minus_one = RmtU32::Val(u32::MAX - 1);
    let max = RmtU32::Val(u32::MAX);
    let inf = RmtU32::Inf;

    assert_eq!(min, zero);
    assert_eq!(zero < one, true);
    assert_eq!(one < two, true);
    assert_eq!(two < max_minus_one, true);
    assert_eq!(max < max_minus_one, false);
    assert_eq!(inf < max, false);
    assert_eq!(zero < inf, true);
}

#[test]
fn outcome_rule_precedence() {
    let win = GameResult::Win;
    let lose = GameResult::Lose;
    let tie = GameResult::Tie;
    let draw = GameResult::Draw;

    assert_eq!(<GameResult as RecursiveValue>::recursion_step(&[win, lose, tie]), win);
    assert_eq!(<GameResult as RecursiveValue>::recursion_step(&[win, tie, draw]), tie);
    assert_eq!(<GameResult as RecursiveValue>::recursion_step(&[win, draw]), draw);
    assert_eq!(<GameResult as RecursiveValue>::recursion_step(&[win, win, win]), lose);
    assert_eq!(<GameResult as RecursiveValue>::recursion_step(&[lose]), win);
}

#[test]
fn remoteness_step_takes_quickest_win() {
    let children = [
        GameResultWithRemoteness { game_result: GameResult::Lose, remoteness: RemotenessU32::Val(5) },
        GameResultWithRemoteness { game_result: GameResult::Lose, remoteness: RemotenessU32::Val(3) },
        GameResultWithRemoteness { game_result: GameResult::Win, remoteness: RemotenessU32::Val(1) },
    ];
    let parent = <GameResultWithRemoteness as RecursiveValue>::recursion_step(&children);
    assert_eq!(
        parent,
        GameResultWithRemoteness { game_result: GameResult::Win, remoteness: RemotenessU32::Val(4) }
    );
}

#[test]
fn remoteness_step_drags_out_a_loss() {
    let children = [
        GameResultWithRemoteness { game_result: GameResult::Win, remoteness: RemotenessU32::Val(2) },
        GameResultWithRemoteness { game_result: GameResult::Win, remoteness: RemotenessU32::Val(7) },
    ];
    let parent = <GameResultWithRemoteness as RecursiveValue>::recursion_step(&children);
    assert_eq!(
        parent,
        GameResultWithRemoteness { game_result: GameResult::Lose, remoteness: RemotenessU32::Val(8) }
    );
}

#[test]
fn remoteness_step_tie_and_draw() {
    let tie_children = [
        GameResultWithRemoteness { game_result: GameResult::Win, remoteness: RemotenessU32::Val(1) },
        GameResultWithRemoteness { game_result: GameResult::Tie, remoteness: RemotenessU32::Val(4) },
    ];
    let tie_parent = <GameResultWithRemoteness as RecursiveValue>::recursion_step(&tie_children);
    assert_eq!(
        tie_parent,
        GameResultWithRemoteness { game_result: GameResult::Tie, remoteness: RemotenessU32::Val(5) }
    );

    let draw_children = [
        GameResultWithRemoteness { game_result: GameResult::Win, remoteness: RemotenessU32::Val(1) },
        GameResultWithRemoteness { game_result: GameResult::Draw, remoteness: RemotenessU32::Inf },
    ];
    let draw_parent = <GameResultWithRemoteness as RecursiveValue>::recursion_step(&draw_children);
    assert_eq!(
        draw_parent,
        GameResultWithRemoteness { game_result: GameResult::Draw, remoteness: RemotenessU32::Inf }
    );
}

#[test]
fn rmt_step_matches_remoteness_step() {
    let children = [
        GameResultWithRmt { game_result: GameResult::Lose, rmt: RmtU32::Val(6) },
        GameResultWithRmt { game_result: GameResult::Tie, rmt: RmtU32::Val(1) },
    ];
    let parent = <GameResultWithRmt as RecursiveValue>::recursion_step(&children);
    assert_eq!(
        parent,
        GameResultWithRmt { game_result: GameResult::Win, rmt: RmtU32::Val(7) }
    );
}

#[test]
fn remoteness_increment_saturates_at_inf() {
    assert_eq!(RemotenessU32::Val(0).increment(), RemotenessU32::Val(1));
    assert_eq!(RemotenessU32::Inf.increment(), RemotenessU32::Inf);
    assert!(RemotenessU32::inf().is_inf());
    assert!(!RemotenessU32::Val(7).is_inf());
    assert_eq!(RmtU32::Val(0).increment(), RmtU32::Val(1));
    assert_eq!(RmtU32::Inf.increment(), RmtU32::Inf);
    assert!(RmtU32::inf().is_inf());
    assert!(!RmtU32::Val(7).is_inf());
}
