mod position_v_eq;

pub use position_v_eq::TicTacToeNonSqPositionVEq;

use crate::solver::GameResult;
use crate::solver::GameResultWithRmt;
use crate::solver::PlayerMove;
use crate::solver::Position;
use crate::solver::PrimitiveValue;
use crate::solver::RmtU32;
use crate::solver::ToRecursiveValue;
use vstd::prelude::*;

verus! {

/// The two players: `X` moves first.
#[derive(Debug, PartialEq, Eq, Structural, Hash, Clone, Copy)]
pub enum TicTacToeNonSqPlayer {
    X,
    O,
}

impl TicTacToeNonSqPlayer {
    /// The player who moves after this one.
    pub open spec fn next_player_spec(&self) -> TicTacToeNonSqPlayer {
        match self {
            TicTacToeNonSqPlayer::X => TicTacToeNonSqPlayer::O,
            TicTacToeNonSqPlayer::O => TicTacToeNonSqPlayer::X,
        }
    }

    /// The player who moves after this one.
    pub fn next_player(&self) -> (r: TicTacToeNonSqPlayer)
        ensures
            r == self.next_player_spec(),
    {
        match self {
            TicTacToeNonSqPlayer::X => TicTacToeNonSqPlayer::O,
            TicTacToeNonSqPlayer::O => TicTacToeNonSqPlayer::X,
        }
    }
}

/// Terminal classification: the mover has lost when the opponent completed
/// three in a row, and the game is tied on a full board without one.
#[derive(Debug, PartialEq, Eq, Structural)]
pub enum TicTacToeNonSqPrimitiveValue {
    _Win,
    Lose,
    Tie,
    NotPrimitive,
}

/// Mark the cell in row `x`, column `y`.
#[derive(Debug, Clone, Copy)]
pub struct TicTacToeNonSqMove {
    pub x: usize,
    pub y: usize,
}

/// A three-by-four tic-tac-toe board with the player to move.
#[derive(Debug, PartialEq, Eq, Hash, Clone, Copy)]
pub struct TicTacToeNonSqPosition {
    pub board: [[Option<TicTacToeNonSqPlayer>; 4]; 3],
    pub player: TicTacToeNonSqPlayer,
}

/// The cell at flat index `n` (row-major) of a board.
pub open spec fn cell_at(
    b: [[Option<TicTacToeNonSqPlayer>; 4]; 3],
    n: int,
) -> Option<TicTacToeNonSqPlayer> {
    b[n / 4][n % 4]
}

/// The board with the cell in row `x`, column `y` replaced by `v`.
pub open spec fn place(
    b: [[Option<TicTacToeNonSqPlayer>; 4]; 3],
    x: int,
    y: int,
    v: Option<TicTacToeNonSqPlayer>,
) -> [[Option<TicTacToeNonSqPlayer>; 4]; 3] {
    vstd::array::spec_array_update(b, x, vstd::array::spec_array_update(b[x], y, v))
}

/// The moves at the empty cells among the first `n` cells, in row-major
/// order.
pub open spec fn moves_up_to(
    b: [[Option<TicTacToeNonSqPlayer>; 4]; 3],
    n: int,
) -> Seq<TicTacToeNonSqMove>
    decreases n,
{
    if n <= 0 {
        Seq::<TicTacToeNonSqMove>::empty()
    } else {
        let prev = moves_up_to(b, n - 1);
        if cell_at(b, n - 1) is None {
            prev.push(
                TicTacToeNonSqMove { x: ((n - 1) / 4) as usize, y: ((n - 1) % 4) as usize },
            )
        } else {
            prev
        }
    }
}

/// Whether `p` holds three in a row: a full column, or three adjacent cells
/// of one row.
pub open spec fn has_line(
    b: [[Option<TicTacToeNonSqPlayer>; 4]; 3],
    p: TicTacToeNonSqPlayer,
) -> bool {
    ||| (b[0][0] == Some(p) && b[1][0] == Some(p) && b[2][0] == Some(p))
    ||| (b[0][1] == Some(p) && b[1][1] == Some(p) && b[2][1] == Some(p))
    ||| (b[0][2] == Some(p) && b[1][2] == Some(p) && b[2][2] == Some(p))
    ||| (b[0][3] == Some(p) && b[1][3] == Some(p) && b[2][3] == Some(p))
    ||| (b[0][0] == Some(p) && b[0][1] == Some(p) && b[0][2] == Some(p))
    ||| (b[0][1] == Some(p) && b[0][2] == Some(p) && b[0][3] == Some(p))
    ||| (b[1][0] == Some(p) && b[1][1] == Some(p) && b[1][2] == Some(p))
    ||| (b[1][1] == Some(p) && b[1][2] == Some(p) && b[1][3] == Some(p))
    ||| (b[2][0] == Some(p) && b[2][1] == Some(p) && b[2][2] == Some(p))
    ||| (b[2][1] == Some(p) && b[2][2] == Some(p) && b[2][3] == Some(p))
}

/// Whether every cell of the board is marked.
pub open spec fn is_full(b: [[Option<TicTacToeNonSqPlayer>; 4]; 3]) -> bool {
    &&& b[0][0] is Some
    &&& b[0][1] is Some
    &&& b[0][2] is Some
    &&& b[0][3] is Some
    &&& b[1][0] is Some
    &&& b[1][1] is Some
    &&& b[1][2] is Some
    &&& b[1][3] is Some
    &&& b[2][0] is Some
    &&& b[2][1] is Some
    &&& b[2][2] is Some
    &&& b[2][3] is Some
}

/// The base-3 digit encoding a cell: empty, `X`, `O`.
pub open spec fn cell_digit(c: Option<TicTacToeNonSqPlayer>) -> int {
    match c {
        Option::None => 0,
        Option::Some(TicTacToeNonSqPlayer::X) => 1,
        Option::Some(TicTacToeNonSqPlayer::O) => 2,
    }
}

/// The digit encoding the player to move.
pub open spec fn player_digit(p: TicTacToeNonSqPlayer) -> int {
    match p {
        TicTacToeNonSqPlayer::X => 0,
        TicTacToeNonSqPlayer::O => 1,
    }
}

/// The injective base-3 code of a whole board.
pub open spec fn board_code(b: [[Option<TicTacToeNonSqPlayer>; 4]; 3]) -> int {
    cell_digit(b[0][0]) + 3 * cell_digit(b[0][1]) + 9 * cell_digit(b[0][2]) + 27 * cell_digit(
        b[0][3],
    ) + 81 * cell_digit(b[1][0]) + 243 * cell_digit(b[1][1]) + 729 * cell_digit(b[1][2]) + 2187
        * cell_digit(b[1][3]) + 6561 * cell_digit(b[2][0]) + 19683 * cell_digit(b[2][1]) + 59049
        * cell_digit(b[2][2]) + 177147 * cell_digit(b[2][3])
}

/// The injective code of a whole position.
pub open spec fn position_code(p: TicTacToeNonSqPosition) -> int {
    board_code(p.board) + 531441 * player_digit(p.player)
}

/// Two positions with the same code are equal.
pub proof fn lemma_position_code_injective(p1: TicTacToeNonSqPosition, p2: TicTacToeNonSqPosition)
    requires
        position_code(p1) == position_code(p2),
    ensures
        p1 == p2,
{
    broadcast use vstd::array::group_array_axioms;

    let b1 = p1.board;
    let b2 = p2.board;
    assert(cell_digit(b1[0][0]) == cell_digit(b2[0][0]) && cell_digit(b1[0][1]) == cell_digit(
        b2[0][1],
    ) && cell_digit(b1[0][2]) == cell_digit(b2[0][2]) && cell_digit(b1[0][3]) == cell_digit(
        b2[0][3],
    ) && cell_digit(b1[1][0]) == cell_digit(b2[1][0]) && cell_digit(b1[1][1]) == cell_digit(
        b2[1][1],
    ) && cell_digit(b1[1][2]) == cell_digit(b2[1][2]) && cell_digit(b1[1][3]) == cell_digit(
        b2[1][3],
    ) && cell_digit(b1[2][0]) == cell_digit(b2[2][0]) && cell_digit(b1[2][1]) == cell_digit(
        b2[2][1],
    ) && cell_digit(b1[2][2]) == cell_digit(b2[2][2]) && cell_digit(b1[2][3]) == cell_digit(
        b2[2][3],
    ) && player_digit(p1.player) == player_digit(p2.player));
    assert(b1[0] =~= b2[0]);
    assert(b1[1] =~= b2[1]);
    assert(b1[2] =~= b2[2]);
    assert(b1 =~= b2);
}

/// The exec counterpart of `cell_digit`.
fn cell_digit_exec(c: &Option<TicTacToeNonSqPlayer>) -> (d: u64)
    ensures
        d == cell_digit(*c),
{
    match c {
        Option::None => 0,
        Option::Some(TicTacToeNonSqPlayer::X) => 1,
        Option::Some(TicTacToeNonSqPlayer::O) => 2,
    }
}

/// Whether the cell holds the given player's mark.
fn cell_is(c: &Option<TicTacToeNonSqPlayer>, p: TicTacToeNonSqPlayer) -> (r: bool)
    ensures
        r == (*c == Some(p)),
{
    match c {
        Option::Some(q) => *q == p,
        Option::None => false,
    }
}

impl PlayerMove for TicTacToeNonSqMove {

}

impl PrimitiveValue for TicTacToeNonSqPrimitiveValue {
    open spec fn is_primitive_spec(&self) -> bool {
        !(*self is NotPrimitive)
    }

    fn is_primitive(&self) -> (r: bool) {
        match self {
            TicTacToeNonSqPrimitiveValue::NotPrimitive => false,
            _ => true,
        }
    }
}

impl ToRecursiveValue<GameResult> for TicTacToeNonSqPrimitiveValue {
    open spec fn to_recursive_value_spec(&self) -> Option<GameResult> {
        match self {
            TicTacToeNonSqPrimitiveValue::_Win => Option::Some(GameResult::Win),
            TicTacToeNonSqPrimitiveValue::Lose => Option::Some(GameResult::Lose),
            TicTacToeNonSqPrimitiveValue::Tie => Option::Some(GameResult::Tie),
            TicTacToeNonSqPrimitiveValue::NotPrimitive => Option::None,
        }
    }

    proof fn lemma_to_recursive_value_primitive(&self) {
    }

    fn to_recursive_value(&self) -> (r: Option<GameResult>) {
        match self {
            TicTacToeNonSqPrimitiveValue::_Win => Some(GameResult::Win),
            TicTacToeNonSqPrimitiveValue::Lose => Some(GameResult::Lose),
            TicTacToeNonSqPrimitiveValue::Tie => Some(GameResult::Tie),
            TicTacToeNonSqPrimitiveValue::NotPrimitive => None,
        }
    }
}

impl ToRecursiveValue<GameResultWithRmt> for TicTacToeNonSqPrimitiveValue {
    open spec fn to_recursive_value_spec(&self) -> Option<GameResultWithRmt> {
        match self {
            TicTacToeNonSqPrimitiveValue::_Win => Option::Some(
                GameResultWithRmt { game_result: GameResult::Win, rmt: RmtU32::Val(0) },
            ),
            TicTacToeNonSqPrimitiveValue::Lose => Option::Some(
                GameResultWithRmt { game_result: GameResult::Lose, rmt: RmtU32::Val(0) },
            ),
            TicTacToeNonSqPrimitiveValue::Tie => Option::Some(
                GameResultWithRmt { game_result: GameResult::Tie, rmt: RmtU32::Val(0) },
            ),
            TicTacToeNonSqPrimitiveValue::NotPrimitive => Option::None,
        }
    }

    proof fn lemma_to_recursive_value_primitive(&self) {
    }

    fn to_recursive_value(&self) -> (r: Option<GameResultWithRmt>) {
        match self {
            TicTacToeNonSqPrimitiveValue::_Win => Some(
                GameResultWithRmt { game_result: GameResult::Win, rmt: RmtU32::Val(0) },
            ),
            TicTacToeNonSqPrimitiveValue::Lose => Some(
                GameResultWithRmt { game_result: GameResult::Lose, rmt: RmtU32::Val(0) },
            ),
            TicTacToeNonSqPrimitiveValue::Tie => Some(
                GameResultWithRmt { game_result: GameResult::Tie, rmt: RmtU32::Val(0) },
            ),
            TicTacToeNonSqPrimitiveValue::NotPrimitive => None,
        }
    }
}

/// A move placed at an empty cell removes exactly that cell from the move
/// list.
proof fn lemma_moves_up_to_place(
    b: [[Option<TicTacToeNonSqPlayer>; 4]; 3],
    x: int,
    y: int,
    v: TicTacToeNonSqPlayer,
    n: int,
)
    requires
        0 <= x < 3,
        0 <= y < 4,
        cell_at(b, 4 * x + y) is None,
        0 <= n <= 12,
    ensures
        moves_up_to(place(b, x, y, Some(v)), n).len() == moves_up_to(b, n).len() - (
        if 4 * x + y < n {
            1int
        } else {
            0int
        }),
    decreases n,
{
    broadcast use vstd::array::group_array_axioms;

    if n > 0 {
        lemma_moves_up_to_place(b, x, y, v, n - 1);
        let b2 = place(b, x, y, Some(v));
        if n - 1 == 4 * x + y {
            assert(cell_at(b2, n - 1) == Some(v));
        } else {
            assert(cell_at(b2, n - 1) == cell_at(b, n - 1));
        }
    }
}

/// An empty cell below `n` guarantees at least one move among the first `n`
/// cells.
proof fn lemma_moves_up_to_nonempty(b: [[Option<TicTacToeNonSqPlayer>; 4]; 3], t: int, n: int)
    requires
        0 <= t < n,
        cell_at(b, t) is None,
    ensures
        moves_up_to(b, n).len() > 0,
    decreases n,
{
    if t < n - 1 {
        lemma_moves_up_to_nonempty(b, t, n - 1);
    }
}

/// Every move in the list points at an empty cell inside the board.
proof fn lemma_moves_up_to_props(b: [[Option<TicTacToeNonSqPlayer>; 4]; 3], n: int)
    requires
        0 <= n <= 12,
    ensures
        forall|i: int|
            0 <= i < moves_up_to(b, n).len() ==> {
                let m = #[trigger] moves_up_to(b, n)[i];
                m.x < 3 && m.y < 4 && cell_at(b, 4 * (m.x as int) + m.y as int) is None
            },
    decreases n,
{
    if n > 0 {
        lemma_moves_up_to_props(b, n - 1);
        if cell_at(b, n - 1) is None {
            assert(4 * ((n - 1) / 4) + (n - 1) % 4 == n - 1) by {
                vstd::arithmetic::div_mod::lemma_fundamental_div_mod(n - 1, 4);
            }
        }
    }
}

impl Position<TicTacToeNonSqMove, TicTacToeNonSqPrimitiveValue> for TicTacToeNonSqPosition {
    open spec fn measure_spec(&self) -> nat {
        moves_up_to(self.board, 12).len()
    }

    open spec fn key_spec(&self) -> u64 {
        position_code(*self) as u64
    }

    open spec fn moves_spec(&self) -> Seq<TicTacToeNonSqMove> {
        moves_up_to(self.board, 12)
    }

    open spec fn next_spec(&self, mov: TicTacToeNonSqMove) -> Self {
        TicTacToeNonSqPosition {
            board: place(self.board, mov.x as int, mov.y as int, Some(self.player)),
            player: self.player.next_player_spec(),
        }
    }

    open spec fn primitive_spec(&self) -> TicTacToeNonSqPrimitiveValue {
        if has_line(self.board, self.player.next_player_spec()) {
            TicTacToeNonSqPrimitiveValue::Lose
        } else if !is_full(self.board) {
            TicTacToeNonSqPrimitiveValue::NotPrimitive
        } else {
            TicTacToeNonSqPrimitiveValue::Tie
        }
    }

    fn key(&self) -> (k: u64) {
        let b = &self.board;
        let code = cell_digit_exec(&b[0][0]) + 3 * cell_digit_exec(&b[0][1]) + 9 * cell_digit_exec(
            &b[0][2],
        ) + 27 * cell_digit_exec(&b[0][3]) + 81 * cell_digit_exec(&b[1][0]) + 243
            * cell_digit_exec(&b[1][1]) + 729 * cell_digit_exec(&b[1][2]) + 2187 * cell_digit_exec(
            &b[1][3],
        ) + 6561 * cell_digit_exec(&b[2][0]) + 19683 * cell_digit_exec(&b[2][1]) + 59049
            * cell_digit_exec(&b[2][2]) + 177147 * cell_digit_exec(&b[2][3]);
        let player_code: u64 = match self.player {
            TicTacToeNonSqPlayer::X => 0,
            TicTacToeNonSqPlayer::O => 1,
        };
        code + 531441 * player_code
    }

    fn do_move(&self, mov: TicTacToeNonSqMove) -> (r: Self) {
        broadcast use vstd::array::group_array_axioms;

        proof {
            lemma_moves_up_to_props(self.board, 12);
            let w = choose|w: int|
                0 <= w < self.moves_spec().len() && self.moves_spec()[w] == mov;
            assert(mov.x < 3 && mov.y < 4);
        }
        let mut board = self.board;
        board[mov.x][mov.y] = Some(self.player);
        proof {
            assert(board@ =~= place(self.board, mov.x as int, mov.y as int, Some(self.player))@);
        }
        TicTacToeNonSqPosition { board, player: self.player.next_player() }
    }

    fn generate_moves(&self) -> (moves: Vec<TicTacToeNonSqMove>) {
        let mut moves: Vec<TicTacToeNonSqMove> = Vec::new();
        let mut n: usize = 0;
        while n < 12
            invariant
                0 <= n <= 12,
                moves@ == moves_up_to(self.board, n as int),
            decreases 12 - n,
        {
            let x = n / 4;
            let y = n % 4;
            proof {
                assert(cell_at(self.board, n as int) == self.board[n as int / 4][n as int % 4]);
            }
            if self.board[x][y].is_none() {
                moves.push(TicTacToeNonSqMove { x, y });
            }
            n = n + 1;
        }
        moves
    }

    fn primitive_value(&self) -> (pv: TicTacToeNonSqPrimitiveValue) {
        let b = &self.board;
        let opponent = self.player.next_player();
        let line = (cell_is(&b[0][0], opponent) && cell_is(&b[1][0], opponent) && cell_is(
            &b[2][0],
            opponent,
        )) || (cell_is(&b[0][1], opponent) && cell_is(&b[1][1], opponent) && cell_is(
            &b[2][1],
            opponent,
        )) || (cell_is(&b[0][2], opponent) && cell_is(&b[1][2], opponent) && cell_is(
            &b[2][2],
            opponent,
        )) || (cell_is(&b[0][3], opponent) && cell_is(&b[1][3], opponent) && cell_is(
            &b[2][3],
            opponent,
        )) || (cell_is(&b[0][0], opponent) && cell_is(&b[0][1], opponent) && cell_is(
            &b[0][2],
            opponent,
        )) || (cell_is(&b[0][1], opponent) && cell_is(&b[0][2], opponent) && cell_is(
            &b[0][3],
            opponent,
        )) || (cell_is(&b[1][0], opponent) && cell_is(&b[1][1], opponent) && cell_is(
            &b[1][2],
            opponent,
        )) || (cell_is(&b[1][1], opponent) && cell_is(&b[1][2], opponent) && cell_is(
            &b[1][3],
            opponent,
        )) || (cell_is(&b[2][0], opponent) && cell_is(&b[2][1], opponent) && cell_is(
            &b[2][2],
            opponent,
        )) || (cell_is(&b[2][1], opponent) && cell_is(&b[2][2], opponent) && cell_is(
            &b[2][3],
            opponent,
        ));
        if line {
            return TicTacToeNonSqPrimitiveValue::Lose;
        }
        let full = b[0][0].is_some() && b[0][1].is_some() && b[0][2].is_some() && b[0][3].is_some()
            && b[1][0].is_some() && b[1][1].is_some() && b[1][2].is_some() && b[1][3].is_some()
            && b[2][0].is_some() && b[2][1].is_some() && b[2][2].is_some() && b[2][3].is_some();
        if !full {
            return TicTacToeNonSqPrimitiveValue::NotPrimitive;
        }
        TicTacToeNonSqPrimitiveValue::Tie
    }

    proof fn lemma_moves_decrease(&self) {
        lemma_moves_up_to_props(self.board, 12);
        assert forall|i: int| 0 <= i < self.moves_spec().len() implies (#[trigger] self.next_spec(
            self.moves_spec()[i],
        )).measure_spec() < self.measure_spec() by {
            let m = self.moves_spec()[i];
            lemma_moves_up_to_place(self.board, m.x as int, m.y as int, self.player, 12);
        }
    }

    proof fn lemma_nonprimitive_has_moves(&self) {
        let b = self.board;
        if !self.primitive_spec().is_primitive_spec() {
            if b[0][0] is None {
                lemma_moves_up_to_nonempty(b, 0, 12);
            } else if b[0][1] is None {
                lemma_moves_up_to_nonempty(b, 1, 12);
            } else if b[0][2] is None {
                lemma_moves_up_to_nonempty(b, 2, 12);
            } else if b[0][3] is None {
                lemma_moves_up_to_nonempty(b, 3, 12);
            } else if b[1][0] is None {
                lemma_moves_up_to_nonempty(b, 4, 12);
            } else if b[1][1] is None {
                lemma_moves_up_to_nonempty(b, 5, 12);
            } else if b[1][2] is None {
                lemma_moves_up_to_nonempty(b, 6, 12);
            } else if b[1][3] is None {
                lemma_moves_up_to_nonempty(b, 7, 12);
            } else if b[2][0] is None {
                lemma_moves_up_to_nonempty(b, 8, 12);
            } else if b[2][1] is None {
                lemma_moves_up_to_nonempty(b, 9, 12);
            } else if b[2][2] is None {
                lemma_moves_up_to_nonempty(b, 10, 12);
            } else {
                lemma_moves_up_to_nonempty(b, 11, 12);
            }
        }
    }

    proof fn lemma_key_sound(&self, other: &Self) {
        assert(0 <= position_code(*self) < 1062882);
        assert(0 <= position_code(*other) < 1062882);
        lemma_position_code_injective(*self, *other);
    }
}

} // verus!
