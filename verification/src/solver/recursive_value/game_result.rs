use super::RecursiveValue;
use vstd::prelude::*;

verus! {

/// The plain outcome of a position, from the viewpoint of the player to
/// move.
#[derive(Debug, PartialEq, Eq, Structural, Clone, Copy)]
pub enum GameResult {
    Win,
    Lose,
    Tie,
    Draw,
}

impl RecursiveValue for GameResult {
    /// The retrograde rule: the mover wins if some child loses; otherwise
    /// the precedence is Tie, then Draw, then Lose (every child wins for
    /// the opponent).
    open spec fn step_spec(children: Seq<GameResult>) -> GameResult {
        if children.contains(GameResult::Lose) {
            GameResult::Win
        } else if children.contains(GameResult::Tie) {
            GameResult::Tie
        } else if children.contains(GameResult::Draw) {
            GameResult::Draw
        } else {
            GameResult::Lose
        }
    }

    proof fn lemma_step_permutation(c1: Seq<GameResult>, c2: Seq<GameResult>) {
        broadcast use vstd::seq_lib::group_to_multiset_ensures;

        assert(forall|r: GameResult| c1.contains(r) <==> c1.to_multiset().count(r) > 0);
        assert(forall|r: GameResult| c2.contains(r) <==> c2.to_multiset().count(r) > 0);
    }

    fn recursion_step(children: &[GameResult]) -> (r: GameResult) {
        let mut has_lose = false;
        let mut has_tie = false;
        let mut has_draw = false;
        let mut i: usize = 0;
        while i < children.len()
            invariant
                0 <= i <= children@.len(),
                has_lose == exists|j: int| 0 <= j < i && children@[j] == GameResult::Lose,
                has_tie == exists|j: int| 0 <= j < i && children@[j] == GameResult::Tie,
                has_draw == exists|j: int| 0 <= j < i && children@[j] == GameResult::Draw,
            decreases children@.len() - i,
        {
            match children[i] {
                GameResult::Lose => {
                    has_lose = true;
                },
                GameResult::Tie => {
                    has_tie = true;
                },
                GameResult::Draw => {
                    has_draw = true;
                },
                GameResult::Win => {
                },
            }
            i = i + 1;
        }
        if has_lose {
            GameResult::Win
        } else if has_tie {
            GameResult::Tie
        } else if has_draw {
            GameResult::Draw
        } else {
            GameResult::Lose
        }
    }
}

} // verus!
