use super::cell_at;
use super::moves_up_to;
use super::place;
use super::position_code;
use super::TicTacToeNonSqMove;
use super::TicTacToeNonSqPlayer;
use super::TicTacToeNonSqPosition;
use super::TicTacToeNonSqPrimitiveValue;
use crate::solver::Position;
use crate::solver::PrimitiveValue;
use vstd::prelude::*;

verus! {

/// A non-square tic-tac-toe position keyed by its orbit under the two board
/// reflections, the symmetry group that remains valid when width and height
/// differ.
pub struct TicTacToeNonSqPositionVEq {
    pub position: TicTacToeNonSqPosition,
}

/// A board assembled from twelve cells, row-major.
#[verifier::opaque]
pub open spec fn make_board(
    c0: Option<TicTacToeNonSqPlayer>,
    c1: Option<TicTacToeNonSqPlayer>,
    c2: Option<TicTacToeNonSqPlayer>,
    c3: Option<TicTacToeNonSqPlayer>,
    c4: Option<TicTacToeNonSqPlayer>,
    c5: Option<TicTacToeNonSqPlayer>,
    c6: Option<TicTacToeNonSqPlayer>,
    c7: Option<TicTacToeNonSqPlayer>,
    c8: Option<TicTacToeNonSqPlayer>,
    c9: Option<TicTacToeNonSqPlayer>,
    c10: Option<TicTacToeNonSqPlayer>,
    c11: Option<TicTacToeNonSqPlayer>,
) -> [[Option<TicTacToeNonSqPlayer>; 4]; 3] {
    let r0 = vstd::array::spec_array_update(
        vstd::array::spec_array_update(
            vstd::array::spec_array_update(vstd::array::spec_array_fill_for_copy_type(c0), 1, c1),
            2,
            c2,
        ),
        3,
        c3,
    );
    let r1 = vstd::array::spec_array_update(
        vstd::array::spec_array_update(
            vstd::array::spec_array_update(vstd::array::spec_array_fill_for_copy_type(c4), 1, c5),
            2,
            c6,
        ),
        3,
        c7,
    );
    let r2 = vstd::array::spec_array_update(
        vstd::array::spec_array_update(
            vstd::array::spec_array_update(vstd::array::spec_array_fill_for_copy_type(c8), 1, c9),
            2,
            c10,
        ),
        3,
        c11,
    );
    vstd::array::spec_array_update(
        vstd::array::spec_array_update(vstd::array::spec_array_fill_for_copy_type(r0), 1, r1),
        2,
        r2,
    )
}

/// The cells of a board assembled by `make_board`.
pub proof fn lemma_make_board_cells(
    c0: Option<TicTacToeNonSqPlayer>,
    c1: Option<TicTacToeNonSqPlayer>,
    c2: Option<TicTacToeNonSqPlayer>,
    c3: Option<TicTacToeNonSqPlayer>,
    c4: Option<TicTacToeNonSqPlayer>,
    c5: Option<TicTacToeNonSqPlayer>,
    c6: Option<TicTacToeNonSqPlayer>,
    c7: Option<TicTacToeNonSqPlayer>,
    c8: Option<TicTacToeNonSqPlayer>,
    c9: Option<TicTacToeNonSqPlayer>,
    c10: Option<TicTacToeNonSqPlayer>,
    c11: Option<TicTacToeNonSqPlayer>,
)
    ensures
        make_board(c0, c1, c2, c3, c4, c5, c6, c7, c8, c9, c10, c11)[0][0] == c0,
        make_board(c0, c1, c2, c3, c4, c5, c6, c7, c8, c9, c10, c11)[0][1] == c1,
        make_board(c0, c1, c2, c3, c4, c5, c6, c7, c8, c9, c10, c11)[0][2] == c2,
        make_board(c0, c1, c2, c3, c4, c5, c6, c7, c8, c9, c10, c11)[0][3] == c3,
        make_board(c0, c1, c2, c3, c4, c5, c6, c7, c8, c9, c10, c11)[1][0] == c4,
        make_board(c0, c1, c2, c3, c4, c5, c6, c7, c8, c9, c10, c11)[1][1] == c5,
        make_board(c0, c1, c2, c3, c4, c5, c6, c7, c8, c9, c10, c11)[1][2] == c6,
        make_board(c0, c1, c2, c3, c4, c5, c6, c7, c8, c9, c10, c11)[1][3] == c7,
        make_board(c0, c1, c2, c3, c4, c5, c6, c7, c8, c9, c10, c11)[2][0] == c8,
        make_board(c0, c1, c2, c3, c4, c5, c6, c7, c8, c9, c10, c11)[2][1] == c9,
        make_board(c0, c1, c2, c3, c4, c5, c6, c7, c8, c9, c10, c11)[2][2] == c10,
        make_board(c0, c1, c2, c3, c4, c5, c6, c7, c8, c9, c10, c11)[2][3] == c11,
{
    broadcast use vstd::array::group_array_axioms;

    reveal(make_board);
}

/// The board reflected along the horizontal axis (rows reversed).
pub open spec fn reflect_along_x_spec(
    b: [[Option<TicTacToeNonSqPlayer>; 4]; 3],
) -> [[Option<TicTacToeNonSqPlayer>; 4]; 3] {
    make_board(
        b[2][0],
        b[2][1],
        b[2][2],
        b[2][3],
        b[1][0],
        b[1][1],
        b[1][2],
        b[1][3],
        b[0][0],
        b[0][1],
        b[0][2],
        b[0][3],
    )
}

/// The board reflected along the vertical axis (each row reversed).
pub open spec fn reflect_along_y_spec(
    b: [[Option<TicTacToeNonSqPlayer>; 4]; 3],
) -> [[Option<TicTacToeNonSqPlayer>; 4]; 3] {
    make_board(
        b[0][3],
        b[0][2],
        b[0][1],
        b[0][0],
        b[1][3],
        b[1][2],
        b[1][1],
        b[1][0],
        b[2][3],
        b[2][2],
        b[2][1],
        b[2][0],
    )
}

/// The position with its board reflected along the horizontal axis.
pub open spec fn reflx_p(p: TicTacToeNonSqPosition) -> TicTacToeNonSqPosition {
    TicTacToeNonSqPosition { board: reflect_along_x_spec(p.board), player: p.player }
}

/// The position with its board reflected along the vertical axis.
pub open spec fn refly_p(p: TicTacToeNonSqPosition) -> TicTacToeNonSqPosition {
    TicTacToeNonSqPosition { board: reflect_along_y_spec(p.board), player: p.player }
}

/// The smaller of two codes.
pub open spec fn min2(a: int, b: int) -> int {
    if a <= b {
        a
    } else {
        b
    }
}

/// The least position code in the reflection orbit of `p`.
#[verifier::opaque]
pub open spec fn v_orbit_min_code(p: TicTacToeNonSqPosition) -> int {
    min2(
        min2(position_code(p), position_code(reflx_p(p))),
        min2(position_code(refly_p(p)), position_code(refly_p(reflx_p(p)))),
    )
}

/// The cells of a board reflected along the horizontal axis.
proof fn lemma_reflx_cells(b: [[Option<TicTacToeNonSqPlayer>; 4]; 3])
    ensures
        reflect_along_x_spec(b)[0][0] == b[2][0],
        reflect_along_x_spec(b)[0][1] == b[2][1],
        reflect_along_x_spec(b)[0][2] == b[2][2],
        reflect_along_x_spec(b)[0][3] == b[2][3],
        reflect_along_x_spec(b)[1][0] == b[1][0],
        reflect_along_x_spec(b)[1][1] == b[1][1],
        reflect_along_x_spec(b)[1][2] == b[1][2],
        reflect_along_x_spec(b)[1][3] == b[1][3],
        reflect_along_x_spec(b)[2][0] == b[0][0],
        reflect_along_x_spec(b)[2][1] == b[0][1],
        reflect_along_x_spec(b)[2][2] == b[0][2],
        reflect_along_x_spec(b)[2][3] == b[0][3],
{
    lemma_make_board_cells(
        b[2][0],
        b[2][1],
        b[2][2],
        b[2][3],
        b[1][0],
        b[1][1],
        b[1][2],
        b[1][3],
        b[0][0],
        b[0][1],
        b[0][2],
        b[0][3],
    );
}

/// The cells of a board reflected along the vertical axis.
proof fn lemma_refly_cells(b: [[Option<TicTacToeNonSqPlayer>; 4]; 3])
    ensures
        reflect_along_y_spec(b)[0][0] == b[0][3],
        reflect_along_y_spec(b)[0][1] == b[0][2],
        reflect_along_y_spec(b)[0][2] == b[0][1],
        reflect_along_y_spec(b)[0][3] == b[0][0],
        reflect_along_y_spec(b)[1][0] == b[1][3],
        reflect_along_y_spec(b)[1][1] == b[1][2],
        reflect_along_y_spec(b)[1][2] == b[1][1],
        reflect_along_y_spec(b)[1][3] == b[1][0],
        reflect_along_y_spec(b)[2][0] == b[2][3],
        reflect_along_y_spec(b)[2][1] == b[2][2],
        reflect_along_y_spec(b)[2][2] == b[2][1],
        reflect_along_y_spec(b)[2][3] == b[2][0],
{
    lemma_make_board_cells(
        b[0][3],
        b[0][2],
        b[0][1],
        b[0][0],
        b[1][3],
        b[1][2],
        b[1][1],
        b[1][0],
        b[2][3],
        b[2][2],
        b[2][1],
        b[2][0],
    );
}

/// Two boards that agree on all twelve cells are equal.
proof fn lemma_boards_equal(
    x: [[Option<TicTacToeNonSqPlayer>; 4]; 3],
    y: [[Option<TicTacToeNonSqPlayer>; 4]; 3],
)
    requires
        x[0][0] == y[0][0],
        x[0][1] == y[0][1],
        x[0][2] == y[0][2],
        x[0][3] == y[0][3],
        x[1][0] == y[1][0],
        x[1][1] == y[1][1],
        x[1][2] == y[1][2],
        x[1][3] == y[1][3],
        x[2][0] == y[2][0],
        x[2][1] == y[2][1],
        x[2][2] == y[2][2],
        x[2][3] == y[2][3],
    ensures
        x == y,
{
    broadcast use vstd::array::group_array_axioms;

    assert(x[0] =~= y[0]);
    assert(x[1] =~= y[1]);
    assert(x[2] =~= y[2]);
    assert(x =~= y);
}

/// The group identities the reflection orbit rests on.
proof fn lemma_v_orbit_cells(p: TicTacToeNonSqPosition)
    ensures
        reflx_p(reflx_p(p)) == p,
        refly_p(refly_p(p)) == p,
        reflx_p(refly_p(p)) == refly_p(reflx_p(p)),
{
    let b = p.board;
    lemma_reflx_cells(b);
    lemma_refly_cells(b);
    lemma_reflx_cells(reflect_along_x_spec(b));
    lemma_refly_cells(reflect_along_y_spec(b));
    lemma_reflx_cells(reflect_along_y_spec(b));
    lemma_refly_cells(reflect_along_x_spec(b));
    lemma_boards_equal(reflect_along_x_spec(reflect_along_x_spec(b)), b);
    lemma_boards_equal(reflect_along_y_spec(reflect_along_y_spec(b)), b);
    lemma_boards_equal(
        reflect_along_x_spec(reflect_along_y_spec(b)),
        reflect_along_y_spec(reflect_along_x_spec(b)),
    );
}

/// Reflecting along the horizontal axis does not change the least code in
/// the reflection orbit.
proof fn lemma_vx_code(p: TicTacToeNonSqPosition)
    ensures
        v_orbit_min_code(reflx_p(p)) == v_orbit_min_code(p),
{
    reveal(v_orbit_min_code);
    lemma_v_orbit_cells(p);
    lemma_v_orbit_cells(reflx_p(p));
    lemma_v_orbit_cells(refly_p(p));
}

/// Reflecting along the vertical axis does not change the least code in the
/// reflection orbit.
proof fn lemma_vy_code(p: TicTacToeNonSqPosition)
    ensures
        v_orbit_min_code(refly_p(p)) == v_orbit_min_code(p),
{
    reveal(v_orbit_min_code);
    lemma_v_orbit_cells(p);
    lemma_v_orbit_cells(reflx_p(p));
    lemma_v_orbit_cells(refly_p(p));
    lemma_v_orbit_cells(refly_p(reflx_p(p)));
}

/// The memoization key of the wrapped child reached by marking flat cell
/// `t`.
#[verifier::opaque]
pub open spec fn child_key_at(p: TicTacToeNonSqPosition, t: int) -> u64 {
    v_orbit_min_code(
        TicTacToeNonSqPosition {
            board: place(p.board, t / 4, t % 4, Some(p.player)),
            player: p.player.next_player_spec(),
        },
    ) as u64
}

/// The child keys that the twelve cells give for `p`.
#[verifier::opaque]
pub open spec fn slot_keys(p: TicTacToeNonSqPosition) -> Seq<Option<u64>> {
    Seq::new(
        12,
        |t: int|
            if cell_at(p.board, t) is None {
                Some(child_key_at(p, t))
            } else {
                None
            },
    )
}

/// A position code is a base-3 numeral of thirteen digits.
proof fn lemma_code_bounds(p: TicTacToeNonSqPosition)
    ensures
        0 <= position_code(p) < 1062882,
{
}

/// Reflecting along the horizontal axis commutes with marking a cell.
proof fn lemma_reflx_place(
    b: [[Option<TicTacToeNonSqPlayer>; 4]; 3],
    x: int,
    y: int,
    v: Option<TicTacToeNonSqPlayer>,
)
    requires
        0 <= x < 3,
        0 <= y < 4,
    ensures
        reflect_along_x_spec(place(b, x, y, v)) == place(reflect_along_x_spec(b), 2 - x, y, v),
{
    broadcast use vstd::array::group_array_axioms;

    lemma_reflx_cells(b);
    lemma_reflx_cells(place(b, x, y, v));
    lemma_boards_equal(
        reflect_along_x_spec(place(b, x, y, v)),
        place(reflect_along_x_spec(b), 2 - x, y, v),
    );
}

/// Reflecting along the vertical axis commutes with marking a cell.
proof fn lemma_refly_place(
    b: [[Option<TicTacToeNonSqPlayer>; 4]; 3],
    x: int,
    y: int,
    v: Option<TicTacToeNonSqPlayer>,
)
    requires
        0 <= x < 3,
        0 <= y < 4,
    ensures
        reflect_along_y_spec(place(b, x, y, v)) == place(reflect_along_y_spec(b), x, 3 - y, v),
{
    broadcast use vstd::array::group_array_axioms;

    lemma_refly_cells(b);
    lemma_refly_cells(place(b, x, y, v));
    lemma_boards_equal(
        reflect_along_y_spec(place(b, x, y, v)),
        place(reflect_along_y_spec(b), x, 3 - y, v),
    );
}

/// One slot of the horizontally reflected slot sequence, moved to its
/// source cell.
proof fn lemma_vx_slot_at(p: TicTacToeNonSqPosition, t: int, t0: int)
    requires
        0 <= t < 12,
        0 <= t0 < 12,
        t0 == 4 * (2 - t / 4) + t % 4,
    ensures
        slot_keys(reflx_p(p))[t] == slot_keys(p)[t0],
{
    reveal(slot_keys);
    reveal(child_key_at);
    lemma_reflx_cells(p.board);
    assert(cell_at(reflx_p(p).board, t) == cell_at(p.board, t0));
    if cell_at(p.board, t0) is None {
        lemma_reflx_place(p.board, t0 / 4, t0 % 4, Some(p.player));
        lemma_vx_code(
            TicTacToeNonSqPosition {
                board: place(p.board, t0 / 4, t0 % 4, Some(p.player)),
                player: p.player.next_player_spec(),
            },
        );
        assert(child_key_at(reflx_p(p), t) == child_key_at(p, t0));
    }
}

/// One slot of the vertically reflected slot sequence, moved to its source
/// cell.
proof fn lemma_vy_slot_at(p: TicTacToeNonSqPosition, t: int, t0: int)
    requires
        0 <= t < 12,
        0 <= t0 < 12,
        t0 == 4 * (t / 4) + (3 - t % 4),
    ensures
        slot_keys(refly_p(p))[t] == slot_keys(p)[t0],
{
    reveal(slot_keys);
    reveal(child_key_at);
    lemma_refly_cells(p.board);
    assert(cell_at(refly_p(p).board, t) == cell_at(p.board, t0));
    if cell_at(p.board, t0) is None {
        lemma_refly_place(p.board, t0 / 4, t0 % 4, Some(p.player));
        lemma_vy_code(
            TicTacToeNonSqPosition {
                board: place(p.board, t0 / 4, t0 % 4, Some(p.player)),
                player: p.player.next_player_spec(),
            },
        );
        assert(child_key_at(refly_p(p), t) == child_key_at(p, t0));
    }
}

/// A horizontally reflected slot sequence keeps its key multiset.
#[verifier::rlimit(100)]
proof fn lemma_slots_perm_vx(p: TicTacToeNonSqPosition)
    ensures
        crate::solver::opt_ms(slot_keys(reflx_p(p)), 12) == crate::solver::opt_ms(
            slot_keys(p),
            12,
        ),
{
    let c1 = slot_keys(reflx_p(p));
    let c2 = slot_keys(p);
    lemma_vx_slot_at(p, 0, 8);
    lemma_vx_slot_at(p, 1, 9);
    lemma_vx_slot_at(p, 2, 10);
    lemma_vx_slot_at(p, 3, 11);
    lemma_vx_slot_at(p, 4, 4);
    lemma_vx_slot_at(p, 5, 5);
    lemma_vx_slot_at(p, 6, 6);
    lemma_vx_slot_at(p, 7, 7);
    lemma_vx_slot_at(p, 8, 0);
    lemma_vx_slot_at(p, 9, 1);
    lemma_vx_slot_at(p, 10, 2);
    lemma_vx_slot_at(p, 11, 3);
    assert forall|e: u64|
        crate::solver::opt_ms(c1, 12).count(e) == crate::solver::opt_ms(c2, 12).count(e) by {
        crate::solver::lemma_opt_ms_count(c1, 12, e);
        crate::solver::lemma_opt_ms_count(c2, 12, e);
        reveal_with_fuel(crate::solver::opt_count, 13);
    }
    assert(crate::solver::opt_ms(c1, 12) =~= crate::solver::opt_ms(c2, 12));
}

/// A horizontal reflection changes neither classification, orbit key, nor
/// the children's key multiset.
proof fn lemma_vx_invariants(p: TicTacToeNonSqPosition)
    ensures
        reflx_p(p).primitive_spec() == p.primitive_spec(),
        v_orbit_min_code(reflx_p(p)) == v_orbit_min_code(p),
        crate::solver::opt_ms(slot_keys(reflx_p(p)), 12) == crate::solver::opt_ms(
            slot_keys(p),
            12,
        ),
{
    lemma_reflx_cells(p.board);
    lemma_vx_code(p);
    lemma_slots_perm_vx(p);
}

/// A vertically reflected slot sequence keeps its key multiset.
#[verifier::rlimit(100)]
proof fn lemma_slots_perm_vy(p: TicTacToeNonSqPosition)
    ensures
        crate::solver::opt_ms(slot_keys(refly_p(p)), 12) == crate::solver::opt_ms(
            slot_keys(p),
            12,
        ),
{
    let c1 = slot_keys(refly_p(p));
    let c2 = slot_keys(p);
    lemma_vy_slot_at(p, 0, 3);
    lemma_vy_slot_at(p, 1, 2);
    lemma_vy_slot_at(p, 2, 1);
    lemma_vy_slot_at(p, 3, 0);
    lemma_vy_slot_at(p, 4, 7);
    lemma_vy_slot_at(p, 5, 6);
    lemma_vy_slot_at(p, 6, 5);
    lemma_vy_slot_at(p, 7, 4);
    lemma_vy_slot_at(p, 8, 11);
    lemma_vy_slot_at(p, 9, 10);
    lemma_vy_slot_at(p, 10, 9);
    lemma_vy_slot_at(p, 11, 8);
    assert forall|e: u64|
        crate::solver::opt_ms(c1, 12).count(e) == crate::solver::opt_ms(c2, 12).count(e) by {
        crate::solver::lemma_opt_ms_count(c1, 12, e);
        crate::solver::lemma_opt_ms_count(c2, 12, e);
        reveal_with_fuel(crate::solver::opt_count, 13);
    }
    assert(crate::solver::opt_ms(c1, 12) =~= crate::solver::opt_ms(c2, 12));
}

/// A vertical reflection changes neither classification, orbit key, nor the
/// children's key multiset.
proof fn lemma_vy_invariants(p: TicTacToeNonSqPosition)
    ensures
        refly_p(p).primitive_spec() == p.primitive_spec(),
        v_orbit_min_code(refly_p(p)) == v_orbit_min_code(p),
        crate::solver::opt_ms(slot_keys(refly_p(p)), 12) == crate::solver::opt_ms(
            slot_keys(p),
            12,
        ),
{
    lemma_refly_cells(p.board);
    lemma_vy_code(p);
    lemma_slots_perm_vy(p);
}

/// The orbit image of `p` whose code is least.
pub open spec fn canonical(p: TicTacToeNonSqPosition) -> TicTacToeNonSqPosition {
    let m = v_orbit_min_code(p);
    if position_code(p) == m {
        p
    } else if position_code(reflx_p(p)) == m {
        reflx_p(p)
    } else if position_code(refly_p(p)) == m {
        refly_p(p)
    } else {
        refly_p(reflx_p(p))
    }
}

/// The canonical image realizes the orbit key and behaves like `p` itself.
#[verifier::rlimit(100)]
pub proof fn lemma_canonical_props(p: TicTacToeNonSqPosition)
    ensures
        position_code(canonical(p)) == v_orbit_min_code(p),
        canonical(p).primitive_spec() == p.primitive_spec(),
        crate::solver::opt_ms(slot_keys(canonical(p)), 12) == crate::solver::opt_ms(
            slot_keys(p),
            12,
        ),
{
    reveal(v_orbit_min_code);
    lemma_vx_invariants(p);
    lemma_vy_invariants(p);
    lemma_vy_invariants(reflx_p(p));
}


/// Law: symmetry soundness.  A position and either of its reflections
/// receive the same memoization key from this wrapper.
pub proof fn lemma_symmetric_keys_equal(p: TicTacToeNonSqPosition)
    ensures
        (TicTacToeNonSqPositionVEq { position: reflx_p(p) }).key_spec()
            == (TicTacToeNonSqPositionVEq { position: p }).key_spec(),
        (TicTacToeNonSqPositionVEq { position: refly_p(p) }).key_spec()
            == (TicTacToeNonSqPositionVEq { position: p }).key_spec(),
{
    lemma_vx_code(p);
    lemma_vy_code(p);
}

/// The least code in the orbit is itself a position code.
proof fn lemma_v_orbit_min_bounds(p: TicTacToeNonSqPosition)
    ensures
        0 <= v_orbit_min_code(p) < 1062882,
{
    reveal(v_orbit_min_code);
}

impl TicTacToeNonSqPosition {
    /// The board reflected along the horizontal axis; the mover is kept.
    pub fn reflect_along_x(&self) -> (r: Self)
        ensures
            r == reflx_p(*self),
    {
        let b = &self.board;
        let board = [b[2], b[1], b[0]];
        proof {
            lemma_reflx_cells(self.board);
            lemma_boards_equal(board, reflect_along_x_spec(self.board));
        }
        TicTacToeNonSqPosition { board, player: self.player }
    }

    /// The board reflected along the vertical axis; the mover is kept.
    pub fn reflect_along_y(&self) -> (r: Self)
        ensures
            r == refly_p(*self),
    {
        let b = &self.board;
        let board = [
            [b[0][3], b[0][2], b[0][1], b[0][0]],
            [b[1][3], b[1][2], b[1][1], b[1][0]],
            [b[2][3], b[2][2], b[2][1], b[2][0]],
        ];
        proof {
            lemma_refly_cells(self.board);
            lemma_boards_equal(board, reflect_along_y_spec(self.board));
        }
        TicTacToeNonSqPosition { board, player: self.player }
    }

    /// The horizontal reflection.
    pub fn v1(&self) -> (r: Self)
        ensures
            r == reflx_p(*self),
    {
        self.reflect_along_x()
    }

    /// The vertical reflection.
    pub fn v2(&self) -> (r: Self)
        ensures
            r == refly_p(*self),
    {
        self.reflect_along_y()
    }

    /// Both reflections composed.
    pub fn v3(&self) -> (r: Self)
        ensures
            r == refly_p(reflx_p(*self)),
    {
        self.reflect_along_x().reflect_along_y()
    }
}

/// The children's keys of a wrapped position, scanning the first `n` cells,
/// agree with the keys the slot sequence gives.
proof fn lemma_children_ms(w: TicTacToeNonSqPositionVEq, n: int)
    requires
        0 <= n <= 12,
    ensures
        moves_up_to(w.position.board, n).map_values(
            |m: TicTacToeNonSqMove| w.next_spec(m).key_spec(),
        ).to_multiset() == crate::solver::opt_ms(slot_keys(w.position), n),
    decreases n,
{
    broadcast use vstd::seq_lib::group_to_multiset_ensures;
    broadcast use vstd::seq::Seq::lemma_push_map_commute;

    reveal(slot_keys);
    reveal(child_key_at);
    let f = |m: TicTacToeNonSqMove| w.next_spec(m).key_spec();
    if n > 0 {
        lemma_children_ms(w, n - 1);
        let prev = moves_up_to(w.position.board, n - 1);
        if cell_at(w.position.board, n - 1) is None {
            let m = TicTacToeNonSqMove { x: ((n - 1) / 4) as usize, y: ((n - 1) % 4) as usize };
            assert(moves_up_to(w.position.board, n) == prev.push(m));
            assert(m.x as int == (n - 1) / 4 && m.y as int == (n - 1) % 4);
            assert(f(m) == child_key_at(w.position, n - 1));
            assert(prev.push(m).map_values(f) =~= prev.map_values(f).push(f(m)));
        }
    } else {
        assert(moves_up_to(w.position.board, 0).map_values(f).to_multiset()
            =~= crate::solver::opt_ms(slot_keys(w.position), 0));
    }
}

impl Position<TicTacToeNonSqMove, TicTacToeNonSqPrimitiveValue> for TicTacToeNonSqPositionVEq {
    open spec fn measure_spec(&self) -> nat {
        self.position.measure_spec()
    }

    open spec fn key_spec(&self) -> u64 {
        v_orbit_min_code(self.position) as u64
    }

    open spec fn moves_spec(&self) -> Seq<TicTacToeNonSqMove> {
        self.position.moves_spec()
    }

    open spec fn next_spec(&self, mov: TicTacToeNonSqMove) -> Self {
        TicTacToeNonSqPositionVEq { position: self.position.next_spec(mov) }
    }

    open spec fn primitive_spec(&self) -> TicTacToeNonSqPrimitiveValue {
        self.position.primitive_spec()
    }

    fn key(&self) -> (k: u64) {
        proof {
            reveal(v_orbit_min_code);
            lemma_code_bounds(self.position);
        }
        let p0 = self.position;
        let q1 = p0.v1();
        let q2 = p0.v2();
        let q3 = p0.v3();
        let mut k = p0.key();
        let mut k2 = q1.key();
        if k2 < k {
            k = k2;
        }
        k2 = q2.key();
        if k2 < k {
            k = k2;
        }
        k2 = q3.key();
        if k2 < k {
            k = k2;
        }
        proof {
            lemma_code_bounds(reflx_p(p0));
            lemma_code_bounds(refly_p(p0));
            lemma_code_bounds(refly_p(reflx_p(p0)));
        }
        k
    }

    fn do_move(&self, mov: TicTacToeNonSqMove) -> (r: Self) {
        TicTacToeNonSqPositionVEq { position: self.position.do_move(mov) }
    }

    fn generate_moves(&self) -> (moves: Vec<TicTacToeNonSqMove>) {
        self.position.generate_moves()
    }

    fn primitive_value(&self) -> (pv: TicTacToeNonSqPrimitiveValue) {
        self.position.primitive_value()
    }

    proof fn lemma_moves_decrease(&self) {
        self.position.lemma_moves_decrease();
        assert forall|i: int| 0 <= i < self.moves_spec().len() implies (#[trigger] self.next_spec(
            self.moves_spec()[i],
        )).measure_spec() < self.measure_spec() by {
            assert(self.position.next_spec(
                self.position.moves_spec()[i],
            ).measure_spec() < self.position.measure_spec());
        }
    }

    proof fn lemma_nonprimitive_has_moves(&self) {
        self.position.lemma_nonprimitive_has_moves();
    }

    proof fn lemma_key_sound(&self, other: &Self) {
        broadcast use vstd::seq_lib::group_to_multiset_ensures;

        let p1 = self.position;
        let p2 = other.position;
        lemma_v_orbit_min_bounds(p1);
        lemma_v_orbit_min_bounds(p2);
        assert(v_orbit_min_code(p1) == v_orbit_min_code(p2));
        lemma_canonical_props(p1);
        lemma_canonical_props(p2);
        super::lemma_position_code_injective(canonical(p1), canonical(p2));
        lemma_children_ms(*self, 12);
        lemma_children_ms(*other, 12);
        let ks1 = self.moves_spec().map_values(
            |m: TicTacToeNonSqMove| self.next_spec(m).key_spec(),
        );
        let ks2 = other.moves_spec().map_values(
            |m: TicTacToeNonSqMove| other.next_spec(m).key_spec(),
        );
        assert(ks1.to_multiset() == crate::solver::opt_ms(slot_keys(p1), 12));
        assert(ks2.to_multiset() == crate::solver::opt_ms(slot_keys(p2), 12));
        assert(ks1.to_multiset() == ks2.to_multiset());
        assert(ks1.to_multiset().len() == ks1.len());
        assert(ks2.to_multiset().len() == ks2.len());
        assert(self.measure_spec() == other.measure_spec());
    }
}

} // verus!
