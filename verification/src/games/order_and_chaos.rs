mod position_d4_eq;
mod position_v_eq;

pub use position_d4_eq::OrderAndChaosPositionD4Eq;
pub use position_v_eq::OrderAndChaosPositionVEq;

use crate::solver::GameResult;
use crate::solver::GameResultWithRmt;
use crate::solver::PlayerMove;
use crate::solver::Position;
use crate::solver::PrimitiveValue;
use crate::solver::RmtU32;
use crate::solver::ToRecursiveValue;
use vstd::prelude::*;

verus! {

/// The two players: Order, who moves first and wants a completed line, and
/// Chaos, who wants the board to fill without one.
#[derive(Debug, PartialEq, Eq, Structural, Hash, Clone, Copy)]
pub enum OrderAndChaosPlayer {
    Order,
    Chaos,
}

impl OrderAndChaosPlayer {
    /// The player who moves after this one.
    pub open spec fn next_player_spec(&self) -> OrderAndChaosPlayer {
        match self {
            OrderAndChaosPlayer::Order => OrderAndChaosPlayer::Chaos,
            OrderAndChaosPlayer::Chaos => OrderAndChaosPlayer::Order,
        }
    }

    /// The player who moves after this one.
    pub fn next_player(&self) -> (r: OrderAndChaosPlayer)
        ensures
            r == self.next_player_spec(),
    {
        match self {
            OrderAndChaosPlayer::Order => OrderAndChaosPlayer::Chaos,
            OrderAndChaosPlayer::Chaos => OrderAndChaosPlayer::Order,
        }
    }
}

/// The two kinds of piece; either player may place either kind.
#[derive(Debug, PartialEq, Eq, Structural, Hash, Clone, Copy)]
pub enum OrderAndChaosPiece {
    X,
    O,
}

/// Terminal classification: Order wins on any completed line, Chaos wins on
/// a full board without one.
#[derive(Debug, PartialEq, Eq, Structural)]
pub enum OrderAndChaosPrimitiveValue {
    Win,
    Lose,
    Tie,
    NotPrimitive,
}

/// Place `piece` on the cell in row `x`, column `y`.
#[derive(Debug, Clone, Copy)]
pub struct OrderAndChaosMove {
    pub piece: OrderAndChaosPiece,
    pub x: usize,
    pub y: usize,
}

/// An Order-and-Chaos board with the player to move.
#[derive(Debug, PartialEq, Eq, Hash, Clone, Copy)]
pub struct OrderAndChaosPosition {
    pub board: [[Option<OrderAndChaosPiece>; 3]; 3],
    pub player: OrderAndChaosPlayer,
}

impl OrderAndChaosPosition {
    /// The empty board, with Order to move.
    pub fn start() -> (r: OrderAndChaosPosition)
        ensures
            forall|i: int, j: int| 0 <= i < 3 && 0 <= j < 3 ==> r.board[i][j] is None,
            r.player == OrderAndChaosPlayer::Order,
    {
        broadcast use vstd::array::group_array_axioms;

        let row: [Option<OrderAndChaosPiece>; 3] = [None, None, None];
        let board = [row, row, row];
        OrderAndChaosPosition { board, player: OrderAndChaosPlayer::Order }
    }
}

/// The cell at flat index `n` (row-major) of a board.
pub open spec fn cell_at(
    b: [[Option<OrderAndChaosPiece>; 3]; 3],
    n: int,
) -> Option<OrderAndChaosPiece> {
    b[n / 3][n % 3]
}

/// The board with the cell in row `x`, column `y` replaced by `v`.
pub open spec fn place(
    b: [[Option<OrderAndChaosPiece>; 3]; 3],
    x: int,
    y: int,
    v: Option<OrderAndChaosPiece>,
) -> [[Option<OrderAndChaosPiece>; 3]; 3] {
    vstd::array::spec_array_update(b, x, vstd::array::spec_array_update(b[x], y, v))
}

/// The moves at the empty cells among the first `n` cells, row-major; each
/// empty cell offers both pieces, `X` first.
pub open spec fn moves_up_to(
    b: [[Option<OrderAndChaosPiece>; 3]; 3],
    n: int,
) -> Seq<OrderAndChaosMove>
    decreases n,
{
    if n <= 0 {
        Seq::<OrderAndChaosMove>::empty()
    } else {
        let prev = moves_up_to(b, n - 1);
        if cell_at(b, n - 1) is None {
            prev.push(
                OrderAndChaosMove {
                    piece: OrderAndChaosPiece::X,
                    x: ((n - 1) / 3) as usize,
                    y: ((n - 1) % 3) as usize,
                },
            ).push(
                OrderAndChaosMove {
                    piece: OrderAndChaosPiece::O,
                    x: ((n - 1) / 3) as usize,
                    y: ((n - 1) % 3) as usize,
                },
            )
        } else {
            prev
        }
    }
}

/// Whether `p` fills a full row, column or diagonal.
pub open spec fn has_k_in_a_row(
    b: [[Option<OrderAndChaosPiece>; 3]; 3],
    p: OrderAndChaosPiece,
) -> bool {
    ||| (b[0][0] == Some(p) && b[0][1] == Some(p) && b[0][2] == Some(p))
    ||| (b[1][0] == Some(p) && b[1][1] == Some(p) && b[1][2] == Some(p))
    ||| (b[2][0] == Some(p) && b[2][1] == Some(p) && b[2][2] == Some(p))
    ||| (b[0][0] == Some(p) && b[1][0] == Some(p) && b[2][0] == Some(p))
    ||| (b[0][1] == Some(p) && b[1][1] == Some(p) && b[2][1] == Some(p))
    ||| (b[0][2] == Some(p) && b[1][2] == Some(p) && b[2][2] == Some(p))
    ||| (b[0][0] == Some(p) && b[1][1] == Some(p) && b[2][2] == Some(p))
    ||| (b[0][2] == Some(p) && b[1][1] == Some(p) && b[2][0] == Some(p))
}

/// Whether no empty cell is left.
pub open spec fn has_no_space_left(b: [[Option<OrderAndChaosPiece>; 3]; 3]) -> bool {
    &&& b[0][0] is Some
    &&& b[0][1] is Some
    &&& b[0][2] is Some
    &&& b[1][0] is Some
    &&& b[1][1] is Some
    &&& b[1][2] is Some
    &&& b[2][0] is Some
    &&& b[2][1] is Some
    &&& b[2][2] is Some
}

/// The base-3 digit encoding a cell: empty, `X`, `O`.
pub open spec fn cell_digit(c: Option<OrderAndChaosPiece>) -> int {
    match c {
        Option::None => 0,
        Option::Some(OrderAndChaosPiece::X) => 1,
        Option::Some(OrderAndChaosPiece::O) => 2,
    }
}

/// The digit encoding the player to move.
pub open spec fn player_digit(p: OrderAndChaosPlayer) -> int {
    match p {
        OrderAndChaosPlayer::Order => 0,
        OrderAndChaosPlayer::Chaos => 1,
    }
}

/// The injective base-3 code of a whole board.
pub open spec fn board_code(b: [[Option<OrderAndChaosPiece>; 3]; 3]) -> int {
    cell_digit(b[0][0]) + 3 * cell_digit(b[0][1]) + 9 * cell_digit(b[0][2]) + 27 * cell_digit(
        b[1][0],
    ) + 81 * cell_digit(b[1][1]) + 243 * cell_digit(b[1][2]) + 729 * cell_digit(b[2][0]) + 2187
        * cell_digit(b[2][1]) + 6561 * cell_digit(b[2][2])
}

/// The injective code of a whole position.
pub open spec fn position_code(p: OrderAndChaosPosition) -> int {
    board_code(p.board) + 19683 * player_digit(p.player)
}

/// Two positions with the same code are equal.
pub proof fn lemma_position_code_injective(p1: OrderAndChaosPosition, p2: OrderAndChaosPosition)
    requires
        position_code(p1) == position_code(p2),
    ensures
        p1 == p2,
{
    broadcast use vstd::array::group_array_axioms;

    let b1 = p1.board;
    let b2 = p2.board;
    assert(cell_digit(b1[0][0]) == cell_digit(b2[0][0]) && cell_digit(b1[0][1]) == cell_digit(
        b2[0][1],
    ) && cell_digit(b1[0][2]) == cell_digit(b2[0][2]) && cell_digit(b1[1][0]) == cell_digit(
        b2[1][0],
    ) && cell_digit(b1[1][1]) == cell_digit(b2[1][1]) && cell_digit(b1[1][2]) == cell_digit(
        b2[1][2],
    ) && cell_digit(b1[2][0]) == cell_digit(b2[2][0]) && cell_digit(b1[2][1]) == cell_digit(
        b2[2][1],
    ) && cell_digit(b1[2][2]) == cell_digit(b2[2][2]) && player_digit(p1.player) == player_digit(
        p2.player,
    ));
    assert(b1[0] =~= b2[0]);
    assert(b1[1] =~= b2[1]);
    assert(b1[2] =~= b2[2]);
    assert(b1 =~= b2);
}

/// The exec counterpart of `cell_digit`.
fn cell_digit_exec(c: &Option<OrderAndChaosPiece>) -> (d: u64)
    ensures
        d == cell_digit(*c),
{
    match c {
        Option::None => 0,
        Option::Some(OrderAndChaosPiece::X) => 1,
        Option::Some(OrderAndChaosPiece::O) => 2,
    }
}

/// Whether the cell holds the given piece.
fn cell_is(c: &Option<OrderAndChaosPiece>, p: OrderAndChaosPiece) -> (r: bool)
    ensures
        r == (*c == Some(p)),
{
    match c {
        Option::Some(q) => *q == p,
        Option::None => false,
    }
}

impl PlayerMove for OrderAndChaosMove {

}

impl PrimitiveValue for OrderAndChaosPrimitiveValue {
    open spec fn is_primitive_spec(&self) -> bool {
        !(*self is NotPrimitive)
    }

    fn is_primitive(&self) -> (r: bool) {
        match self {
            OrderAndChaosPrimitiveValue::NotPrimitive => false,
            _ => true,
        }
    }
}

impl ToRecursiveValue<GameResult> for OrderAndChaosPrimitiveValue {
    open spec fn to_recursive_value_spec(&self) -> Option<GameResult> {
        match self {
            OrderAndChaosPrimitiveValue::Win => Option::Some(GameResult::Win),
            OrderAndChaosPrimitiveValue::Lose => Option::Some(GameResult::Lose),
            OrderAndChaosPrimitiveValue::Tie => Option::Some(GameResult::Tie),
            OrderAndChaosPrimitiveValue::NotPrimitive => Option::None,
        }
    }

    proof fn lemma_to_recursive_value_primitive(&self) {
    }

    fn to_recursive_value(&self) -> (r: Option<GameResult>) {
        match self {
            OrderAndChaosPrimitiveValue::Win => Some(GameResult::Win),
            OrderAndChaosPrimitiveValue::Lose => Some(GameResult::Lose),
            OrderAndChaosPrimitiveValue::Tie => Some(GameResult::Tie),
            OrderAndChaosPrimitiveValue::NotPrimitive => None,
        }
    }
}

impl ToRecursiveValue<GameResultWithRmt> for OrderAndChaosPrimitiveValue {
    open spec fn to_recursive_value_spec(&self) -> Option<GameResultWithRmt> {
        match self {
            OrderAndChaosPrimitiveValue::Win => Option::Some(
                GameResultWithRmt { game_result: GameResult::Win, rmt: RmtU32::Val(0) },
            ),
            OrderAndChaosPrimitiveValue::Lose => Option::Some(
                GameResultWithRmt { game_result: GameResult::Lose, rmt: RmtU32::Val(0) },
            ),
            OrderAndChaosPrimitiveValue::Tie => Option::Some(
                GameResultWithRmt { game_result: GameResult::Tie, rmt: RmtU32::Val(0) },
            ),
            OrderAndChaosPrimitiveValue::NotPrimitive => Option::None,
        }
    }

    proof fn lemma_to_recursive_value_primitive(&self) {
    }

    fn to_recursive_value(&self) -> (r: Option<GameResultWithRmt>) {
        match self {
            OrderAndChaosPrimitiveValue::Win => Some(
                GameResultWithRmt { game_result: GameResult::Win, rmt: RmtU32::Val(0) },
            ),
            OrderAndChaosPrimitiveValue::Lose => Some(
                GameResultWithRmt { game_result: GameResult::Lose, rmt: RmtU32::Val(0) },
            ),
            OrderAndChaosPrimitiveValue::Tie => Some(
                GameResultWithRmt { game_result: GameResult::Tie, rmt: RmtU32::Val(0) },
            ),
            OrderAndChaosPrimitiveValue::NotPrimitive => None,
        }
    }
}

/// Both moves placed at an empty cell leave the move list: among the first
/// `n` cells, two moves are lost when the changed cell lies below `n`.
proof fn lemma_moves_up_to_place(
    b: [[Option<OrderAndChaosPiece>; 3]; 3],
    x: int,
    y: int,
    v: OrderAndChaosPiece,
    n: int,
)
    requires
        0 <= x < 3,
        0 <= y < 3,
        cell_at(b, 3 * x + y) is None,
        0 <= n <= 9,
    ensures
        moves_up_to(place(b, x, y, Some(v)), n).len() == moves_up_to(b, n).len() - (
        if 3 * x + y < n {
            2int
        } else {
            0int
        }),
    decreases n,
{
    broadcast use vstd::array::group_array_axioms;

    if n > 0 {
        lemma_moves_up_to_place(b, x, y, v, n - 1);
        let b2 = place(b, x, y, Some(v));
        if n - 1 == 3 * x + y {
            assert(cell_at(b2, n - 1) == Some(v));
        } else {
            assert(cell_at(b2, n - 1) == cell_at(b, n - 1));
        }
    }
}

/// An empty cell below `n` guarantees at least one move among the first `n`
/// cells.
proof fn lemma_moves_up_to_nonempty(b: [[Option<OrderAndChaosPiece>; 3]; 3], t: int, n: int)
    requires
        0 <= t < n,
        cell_at(b, t) is None,
    ensures
        moves_up_to(b, n).len() > 0,
    decreases n,
{
    if t < n - 1 {
        lemma_moves_up_to_nonempty(b, t, n - 1);
    }
}

/// Every move in the list points at an empty cell inside the board.
proof fn lemma_moves_up_to_props(b: [[Option<OrderAndChaosPiece>; 3]; 3], n: int)
    requires
        0 <= n <= 9,
    ensures
        forall|i: int|
            0 <= i < moves_up_to(b, n).len() ==> {
                let m = #[trigger] moves_up_to(b, n)[i];
                m.x < 3 && m.y < 3 && cell_at(b, 3 * (m.x as int) + m.y as int) is None
            },
    decreases n,
{
    if n > 0 {
        lemma_moves_up_to_props(b, n - 1);
        if cell_at(b, n - 1) is None {
            assert(3 * ((n - 1) / 3) + (n - 1) % 3 == n - 1) by {
                vstd::arithmetic::div_mod::lemma_fundamental_div_mod(n - 1, 3);
            }
        }
    }
}

impl Position<OrderAndChaosMove, OrderAndChaosPrimitiveValue> for OrderAndChaosPosition {
    open spec fn measure_spec(&self) -> nat {
        moves_up_to(self.board, 9).len()
    }

    open spec fn key_spec(&self) -> u64 {
        position_code(*self) as u64
    }

    open spec fn moves_spec(&self) -> Seq<OrderAndChaosMove> {
        moves_up_to(self.board, 9)
    }

    open spec fn next_spec(&self, mov: OrderAndChaosMove) -> Self {
        OrderAndChaosPosition {
            board: place(self.board, mov.x as int, mov.y as int, Some(mov.piece)),
            player: self.player.next_player_spec(),
        }
    }

    open spec fn primitive_spec(&self) -> OrderAndChaosPrimitiveValue {
        let is_order = self.player is Order;
        if has_k_in_a_row(self.board, OrderAndChaosPiece::X) || has_k_in_a_row(
            self.board,
            OrderAndChaosPiece::O,
        ) {
            if is_order {
                OrderAndChaosPrimitiveValue::Win
            } else {
                OrderAndChaosPrimitiveValue::Lose
            }
        } else if has_no_space_left(self.board) {
            if is_order {
                OrderAndChaosPrimitiveValue::Lose
            } else {
                OrderAndChaosPrimitiveValue::Win
            }
        } else {
            OrderAndChaosPrimitiveValue::NotPrimitive
        }
    }

    fn key(&self) -> (k: u64) {
        let b = &self.board;
        let code = cell_digit_exec(&b[0][0]) + 3 * cell_digit_exec(&b[0][1]) + 9 * cell_digit_exec(
            &b[0][2],
        ) + 27 * cell_digit_exec(&b[1][0]) + 81 * cell_digit_exec(&b[1][1]) + 243
            * cell_digit_exec(&b[1][2]) + 729 * cell_digit_exec(&b[2][0]) + 2187 * cell_digit_exec(
            &b[2][1],
        ) + 6561 * cell_digit_exec(&b[2][2]);
        let player_code: u64 = match self.player {
            OrderAndChaosPlayer::Order => 0,
            OrderAndChaosPlayer::Chaos => 1,
        };
        code + 19683 * player_code
    }

    fn do_move(&self, mov: OrderAndChaosMove) -> (r: Self) {
        broadcast use vstd::array::group_array_axioms;

        proof {
            lemma_moves_up_to_props(self.board, 9);
            let w = choose|w: int|
                0 <= w < self.moves_spec().len() && self.moves_spec()[w] == mov;
            assert(mov.x < 3 && mov.y < 3);
        }
        let mut board = self.board;
        board[mov.x][mov.y] = Some(mov.piece);
        proof {
            assert(board@ =~= place(self.board, mov.x as int, mov.y as int, Some(mov.piece))@);
        }
        OrderAndChaosPosition { board, player: self.player.next_player() }
    }

    fn generate_moves(&self) -> (moves: Vec<OrderAndChaosMove>) {
        let mut moves: Vec<OrderAndChaosMove> = Vec::new();
        let mut n: usize = 0;
        while n < 9
            invariant
                0 <= n <= 9,
                moves@ == moves_up_to(self.board, n as int),
            decreases 9 - n,
        {
            let x = n / 3;
            let y = n % 3;
            proof {
                assert(cell_at(self.board, n as int) == self.board[n as int / 3][n as int % 3]);
            }
            if self.board[x][y].is_none() {
                moves.push(OrderAndChaosMove { piece: OrderAndChaosPiece::X, x, y });
                moves.push(OrderAndChaosMove { piece: OrderAndChaosPiece::O, x, y });
            }
            n = n + 1;
        }
        moves
    }

    fn primitive_value(&self) -> (pv: OrderAndChaosPrimitiveValue) {
        let b = &self.board;
        let is_order = match self.player {
            OrderAndChaosPlayer::Order => true,
            OrderAndChaosPlayer::Chaos => false,
        };
        let x_line = Self::line_exec(b, OrderAndChaosPiece::X);
        let o_line = Self::line_exec(b, OrderAndChaosPiece::O);
        if x_line || o_line {
            if is_order {
                return OrderAndChaosPrimitiveValue::Win;
            }
            return OrderAndChaosPrimitiveValue::Lose;
        }
        let full = b[0][0].is_some() && b[0][1].is_some() && b[0][2].is_some() && b[1][0].is_some()
            && b[1][1].is_some() && b[1][2].is_some() && b[2][0].is_some() && b[2][1].is_some()
            && b[2][2].is_some();
        if full {
            if is_order {
                return OrderAndChaosPrimitiveValue::Lose;
            }
            return OrderAndChaosPrimitiveValue::Win;
        }
        OrderAndChaosPrimitiveValue::NotPrimitive
    }

    proof fn lemma_moves_decrease(&self) {
        lemma_moves_up_to_props(self.board, 9);
        assert forall|i: int| 0 <= i < self.moves_spec().len() implies (#[trigger] self.next_spec(
            self.moves_spec()[i],
        )).measure_spec() < self.measure_spec() by {
            let m = self.moves_spec()[i];
            lemma_moves_up_to_place(self.board, m.x as int, m.y as int, m.piece, 9);
        }
    }

    proof fn lemma_nonprimitive_has_moves(&self) {
        let b = self.board;
        if !self.primitive_spec().is_primitive_spec() {
            if b[0][0] is None {
                lemma_moves_up_to_nonempty(b, 0, 9);
            } else if b[0][1] is None {
                lemma_moves_up_to_nonempty(b, 1, 9);
            } else if b[0][2] is None {
                lemma_moves_up_to_nonempty(b, 2, 9);
            } else if b[1][0] is None {
                lemma_moves_up_to_nonempty(b, 3, 9);
            } else if b[1][1] is None {
                lemma_moves_up_to_nonempty(b, 4, 9);
            } else if b[1][2] is None {
                lemma_moves_up_to_nonempty(b, 5, 9);
            } else if b[2][0] is None {
                lemma_moves_up_to_nonempty(b, 6, 9);
            } else if b[2][1] is None {
                lemma_moves_up_to_nonempty(b, 7, 9);
            } else {
                lemma_moves_up_to_nonempty(b, 8, 9);
            }
        }
    }

    proof fn lemma_key_sound(&self, other: &Self) {
        assert(0 <= position_code(*self) < 39366);
        assert(0 <= position_code(*other) < 39366);
        lemma_position_code_injective(*self, *other);
    }
}

impl OrderAndChaosPosition {
    /// Whether `p` fills a full row, column or diagonal.
    fn line_exec(b: &[[Option<OrderAndChaosPiece>; 3]; 3], p: OrderAndChaosPiece) -> (r: bool)
        ensures
            r == has_k_in_a_row(*b, p),
    {
        (cell_is(&b[0][0], p) && cell_is(&b[0][1], p) && cell_is(&b[0][2], p)) || (cell_is(
            &b[1][0],
            p,
        ) && cell_is(&b[1][1], p) && cell_is(&b[1][2], p)) || (cell_is(&b[2][0], p) && cell_is(
            &b[2][1],
            p,
        ) && cell_is(&b[2][2], p)) || (cell_is(&b[0][0], p) && cell_is(&b[1][0], p) && cell_is(
            &b[2][0],
            p,
        )) || (cell_is(&b[0][1], p) && cell_is(&b[1][1], p) && cell_is(&b[2][1], p)) || (cell_is(
            &b[0][2],
            p,
        ) && cell_is(&b[1][2], p) && cell_is(&b[2][2], p)) || (cell_is(&b[0][0], p) && cell_is(
            &b[1][1],
            p,
        ) && cell_is(&b[2][2], p)) || (cell_is(&b[0][2], p) && cell_is(&b[1][1], p) && cell_is(
            &b[2][0],
            p,
        ))
    }
}

} // verus!
