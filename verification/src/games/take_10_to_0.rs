use crate::solver::GameResult;
use crate::solver::GameResultWithRemoteness;
use crate::solver::GameResultWithRmt;
use crate::solver::PlayerMove;
use crate::solver::Position;
use crate::solver::PrimitiveValue;
use crate::solver::RemotenessU32;
use crate::solver::RmtU32;
use crate::solver::ToRecursiveValue;
use vstd::prelude::*;

verus! {

/// Terminal classification for the take-away game: the player to move at an
/// empty pile has lost.
#[derive(Debug)]
pub enum TenToZeroPrimitiveValue {
    _Win,
    Lose,
    _Tie,
    NotPrimitive,
}

/// Take one or two counters from the pile.
#[derive(Debug, Clone, Copy)]
pub enum TenToZeroMove {
    Take1,
    Take2,
}

/// A take-away position: a single pile of counters.
#[derive(Debug, PartialEq, Eq, Hash)]
pub struct TenToZeroPosition {
    pub remaining_count: u32,
}

impl PlayerMove for TenToZeroMove {

}

impl PrimitiveValue for TenToZeroPrimitiveValue {
    open spec fn is_primitive_spec(&self) -> bool {
        !(*self is NotPrimitive)
    }

    fn is_primitive(&self) -> (r: bool) {
        match self {
            TenToZeroPrimitiveValue::NotPrimitive => false,
            _ => true,
        }
    }
}

impl ToRecursiveValue<GameResult> for TenToZeroPrimitiveValue {
    open spec fn to_recursive_value_spec(&self) -> Option<GameResult> {
        match self {
            TenToZeroPrimitiveValue::_Win => Option::Some(GameResult::Win),
            TenToZeroPrimitiveValue::Lose => Option::Some(GameResult::Lose),
            TenToZeroPrimitiveValue::_Tie => Option::Some(GameResult::Tie),
            TenToZeroPrimitiveValue::NotPrimitive => Option::None,
        }
    }

    proof fn lemma_to_recursive_value_primitive(&self) {
    }

    fn to_recursive_value(&self) -> (r: Option<GameResult>) {
        match self {
            TenToZeroPrimitiveValue::_Win => Some(GameResult::Win),
            TenToZeroPrimitiveValue::Lose => Some(GameResult::Lose),
            TenToZeroPrimitiveValue::_Tie => Some(GameResult::Tie),
            TenToZeroPrimitiveValue::NotPrimitive => None,
        }
    }
}

impl ToRecursiveValue<GameResultWithRemoteness> for TenToZeroPrimitiveValue {
    open spec fn to_recursive_value_spec(&self) -> Option<GameResultWithRemoteness> {
        match self {
            TenToZeroPrimitiveValue::_Win => Option::Some(
                GameResultWithRemoteness {
                    game_result: GameResult::Win,
                    remoteness: RemotenessU32::Val(0),
                },
            ),
            TenToZeroPrimitiveValue::Lose => Option::Some(
                GameResultWithRemoteness {
                    game_result: GameResult::Lose,
                    remoteness: RemotenessU32::Val(0),
                },
            ),
            TenToZeroPrimitiveValue::_Tie => Option::Some(
                GameResultWithRemoteness {
                    game_result: GameResult::Tie,
                    remoteness: RemotenessU32::Val(0),
                },
            ),
            TenToZeroPrimitiveValue::NotPrimitive => Option::None,
        }
    }

    proof fn lemma_to_recursive_value_primitive(&self) {
    }

    fn to_recursive_value(&self) -> (r: Option<GameResultWithRemoteness>) {
        match self {
            TenToZeroPrimitiveValue::_Win => Some(
                GameResultWithRemoteness {
                    game_result: GameResult::Win,
                    remoteness: RemotenessU32::Val(0),
                },
            ),
            TenToZeroPrimitiveValue::Lose => Some(
                GameResultWithRemoteness {
                    game_result: GameResult::Lose,
                    remoteness: RemotenessU32::Val(0),
                },
            ),
            TenToZeroPrimitiveValue::_Tie => Some(
                GameResultWithRemoteness {
                    game_result: GameResult::Tie,
                    remoteness: RemotenessU32::Val(0),
                },
            ),
            TenToZeroPrimitiveValue::NotPrimitive => None,
        }
    }
}

impl ToRecursiveValue<GameResultWithRmt> for TenToZeroPrimitiveValue {
    open spec fn to_recursive_value_spec(&self) -> Option<GameResultWithRmt> {
        match self {
            TenToZeroPrimitiveValue::_Win => Option::Some(
                GameResultWithRmt { game_result: GameResult::Win, rmt: RmtU32::Val(0) },
            ),
            TenToZeroPrimitiveValue::Lose => Option::Some(
                GameResultWithRmt { game_result: GameResult::Lose, rmt: RmtU32::Val(0) },
            ),
            TenToZeroPrimitiveValue::_Tie => Option::Some(
                GameResultWithRmt { game_result: GameResult::Tie, rmt: RmtU32::Val(0) },
            ),
            TenToZeroPrimitiveValue::NotPrimitive => Option::None,
        }
    }

    proof fn lemma_to_recursive_value_primitive(&self) {
    }

    fn to_recursive_value(&self) -> (r: Option<GameResultWithRmt>) {
        match self {
            TenToZeroPrimitiveValue::_Win => Some(
                GameResultWithRmt { game_result: GameResult::Win, rmt: RmtU32::Val(0) },
            ),
            TenToZeroPrimitiveValue::Lose => Some(
                GameResultWithRmt { game_result: GameResult::Lose, rmt: RmtU32::Val(0) },
            ),
            TenToZeroPrimitiveValue::_Tie => Some(
                GameResultWithRmt { game_result: GameResult::Tie, rmt: RmtU32::Val(0) },
            ),
            TenToZeroPrimitiveValue::NotPrimitive => None,
        }
    }
}

impl Position<TenToZeroMove, TenToZeroPrimitiveValue> for TenToZeroPosition {
    open spec fn measure_spec(&self) -> nat {
        self.remaining_count as nat
    }

    open spec fn key_spec(&self) -> u64 {
        self.remaining_count as u64
    }

    open spec fn moves_spec(&self) -> Seq<TenToZeroMove> {
        if self.remaining_count >= 2 {
            seq![TenToZeroMove::Take1, TenToZeroMove::Take2]
        } else if self.remaining_count == 1 {
            seq![TenToZeroMove::Take1]
        } else {
            Seq::<TenToZeroMove>::empty()
        }
    }

    open spec fn next_spec(&self, mov: TenToZeroMove) -> Self {
        match mov {
            TenToZeroMove::Take1 => TenToZeroPosition {
                remaining_count: (self.remaining_count - 1) as u32,
            },
            TenToZeroMove::Take2 => TenToZeroPosition {
                remaining_count: (self.remaining_count - 2) as u32,
            },
        }
    }

    open spec fn primitive_spec(&self) -> TenToZeroPrimitiveValue {
        if self.remaining_count == 0 {
            TenToZeroPrimitiveValue::Lose
        } else {
            TenToZeroPrimitiveValue::NotPrimitive
        }
    }

    fn key(&self) -> (k: u64) {
        self.remaining_count as u64
    }

    fn do_move(&self, mov: TenToZeroMove) -> (r: Self) {
        let remaining_count = match mov {
            TenToZeroMove::Take1 => self.remaining_count - 1,
            TenToZeroMove::Take2 => self.remaining_count - 2,
        };
        TenToZeroPosition { remaining_count }
    }

    fn generate_moves(&self) -> (moves: Vec<TenToZeroMove>) {
        let moves = if self.remaining_count >= 2 {
            vec![TenToZeroMove::Take1, TenToZeroMove::Take2]
        } else if self.remaining_count == 1 {
            vec![TenToZeroMove::Take1]
        } else {
            Vec::new()
        };
        proof {
            assert(moves@ =~= self.moves_spec());
        }
        moves
    }

    fn primitive_value(&self) -> (pv: TenToZeroPrimitiveValue) {
        if self.remaining_count == 0 {
            TenToZeroPrimitiveValue::Lose
        } else {
            TenToZeroPrimitiveValue::NotPrimitive
        }
    }

    proof fn lemma_moves_decrease(&self) {
    }

    proof fn lemma_nonprimitive_has_moves(&self) {
    }

    proof fn lemma_key_sound(&self, other: &Self) {
        assert(self.remaining_count == other.remaining_count);
        assert(*self == *other);
    }
}

} // verus!
