use crate::solver::GameResult;
use crate::solver::PlayerMove;
use crate::solver::Position;
use crate::solver::PrimitiveValue;
use crate::solver::ToRecursiveValue;
use vstd::prelude::*;

verus! {

/// Terminal classification for the larger take-away game: the player to
/// move at an empty pile has lost.
#[derive(Debug)]
pub enum TwentyFiveToZeroPrimitiveValue {
    _Win,
    Lose,
    _Tie,
    NotPrimitive,
}

/// Take one, three or four counters from the pile.
#[derive(Debug, Clone, Copy)]
pub enum TwentyFiveToZeroMove {
    Take1,
    Take3,
    Take4,
}

/// A take-away position: a single pile of counters.
#[derive(Debug, PartialEq, Eq, Hash)]
pub struct TwentyFiveToZeroPosition {
    pub remaining_count: u32,
}

impl PlayerMove for TwentyFiveToZeroMove {

}

impl PrimitiveValue for TwentyFiveToZeroPrimitiveValue {
    open spec fn is_primitive_spec(&self) -> bool {
        !(*self is NotPrimitive)
    }

    fn is_primitive(&self) -> (r: bool) {
        match self {
            TwentyFiveToZeroPrimitiveValue::NotPrimitive => false,
            _ => true,
        }
    }
}

impl ToRecursiveValue<GameResult> for TwentyFiveToZeroPrimitiveValue {
    open spec fn to_recursive_value_spec(&self) -> Option<GameResult> {
        match self {
            TwentyFiveToZeroPrimitiveValue::_Win => Option::Some(GameResult::Win),
            TwentyFiveToZeroPrimitiveValue::Lose => Option::Some(GameResult::Lose),
            TwentyFiveToZeroPrimitiveValue::_Tie => Option::Some(GameResult::Tie),
            TwentyFiveToZeroPrimitiveValue::NotPrimitive => Option::None,
        }
    }

    proof fn lemma_to_recursive_value_primitive(&self) {
    }

    fn to_recursive_value(&self) -> (r: Option<GameResult>) {
        match self {
            TwentyFiveToZeroPrimitiveValue::_Win => Some(GameResult::Win),
            TwentyFiveToZeroPrimitiveValue::Lose => Some(GameResult::Lose),
            TwentyFiveToZeroPrimitiveValue::_Tie => Some(GameResult::Tie),
            TwentyFiveToZeroPrimitiveValue::NotPrimitive => None,
        }
    }
}

impl Position<TwentyFiveToZeroMove, TwentyFiveToZeroPrimitiveValue> for TwentyFiveToZeroPosition {
    open spec fn measure_spec(&self) -> nat {
        self.remaining_count as nat
    }

    open spec fn key_spec(&self) -> u64 {
        self.remaining_count as u64
    }

    open spec fn moves_spec(&self) -> Seq<TwentyFiveToZeroMove> {
        if self.remaining_count >= 4 {
            seq![
                TwentyFiveToZeroMove::Take1,
                TwentyFiveToZeroMove::Take3,
                TwentyFiveToZeroMove::Take4,
            ]
        } else if self.remaining_count == 3 {
            seq![TwentyFiveToZeroMove::Take1, TwentyFiveToZeroMove::Take3]
        } else if self.remaining_count >= 1 {
            seq![TwentyFiveToZeroMove::Take1]
        } else {
            Seq::<TwentyFiveToZeroMove>::empty()
        }
    }

    open spec fn next_spec(&self, mov: TwentyFiveToZeroMove) -> Self {
        match mov {
            TwentyFiveToZeroMove::Take1 => TwentyFiveToZeroPosition {
                remaining_count: (self.remaining_count - 1) as u32,
            },
            TwentyFiveToZeroMove::Take3 => TwentyFiveToZeroPosition {
                remaining_count: (self.remaining_count - 3) as u32,
            },
            TwentyFiveToZeroMove::Take4 => TwentyFiveToZeroPosition {
                remaining_count: (self.remaining_count - 4) as u32,
            },
        }
    }

    open spec fn primitive_spec(&self) -> TwentyFiveToZeroPrimitiveValue {
        if self.remaining_count == 0 {
            TwentyFiveToZeroPrimitiveValue::Lose
        } else {
            TwentyFiveToZeroPrimitiveValue::NotPrimitive
        }
    }

    fn key(&self) -> (k: u64) {
        self.remaining_count as u64
    }

    fn do_move(&self, mov: TwentyFiveToZeroMove) -> (r: Self) {
        let remaining_count = match mov {
            TwentyFiveToZeroMove::Take1 => self.remaining_count - 1,
            TwentyFiveToZeroMove::Take3 => self.remaining_count - 3,
            TwentyFiveToZeroMove::Take4 => self.remaining_count - 4,
        };
        TwentyFiveToZeroPosition { remaining_count }
    }

    fn generate_moves(&self) -> (moves: Vec<TwentyFiveToZeroMove>) {
        let moves = if self.remaining_count >= 4 {
            vec![
                TwentyFiveToZeroMove::Take1,
                TwentyFiveToZeroMove::Take3,
                TwentyFiveToZeroMove::Take4,
            ]
        } else if self.remaining_count == 3 {
            vec![TwentyFiveToZeroMove::Take1, TwentyFiveToZeroMove::Take3]
        } else if self.remaining_count >= 1 {
            vec![TwentyFiveToZeroMove::Take1]
        } else {
            Vec::new()
        };
        proof {
            assert(moves@ =~= self.moves_spec());
        }
        moves
    }

    fn primitive_value(&self) -> (pv: TwentyFiveToZeroPrimitiveValue) {
        if self.remaining_count == 0 {
            TwentyFiveToZeroPrimitiveValue::Lose
        } else {
            TwentyFiveToZeroPrimitiveValue::NotPrimitive
        }
    }

    proof fn lemma_moves_decrease(&self) {
    }

    proof fn lemma_nonprimitive_has_moves(&self) {
    }

    proof fn lemma_key_sound(&self, other: &Self) {
        assert(self.remaining_count == other.remaining_count);
        assert(*self == *other);
    }
}

} // verus!
