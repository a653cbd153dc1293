use super::cell_at;
use super::moves_up_to;
use super::place;
use super::position_code;
use super::TicTacToeMove;
use super::TicTacToePlayer;
use super::TicTacToePosition;
use super::TicTacToePrimitiveValue;
use crate::solver::Position;
use crate::solver::PrimitiveValue;
use vstd::prelude::*;

verus! {

/// A tic-tac-toe position keyed by its whole symmetry orbit under the
/// square's eight rotations and reflections: all positions of one orbit
/// share a memoization key, so the solver stores each orbit once.
pub struct TicTacToePositionD4Eq {
    pub position: TicTacToePosition,
}

/// A board assembled from nine cells, row-major.
#[verifier::opaque]
pub open spec fn make_board(
    c0: Option<TicTacToePlayer>,
    c1: Option<TicTacToePlayer>,
    c2: Option<TicTacToePlayer>,
    c3: Option<TicTacToePlayer>,
    c4: Option<TicTacToePlayer>,
    c5: Option<TicTacToePlayer>,
    c6: Option<TicTacToePlayer>,
    c7: Option<TicTacToePlayer>,
    c8: Option<TicTacToePlayer>,
) -> [[Option<TicTacToePlayer>; 3]; 3] {
    let r0 = vstd::array::spec_array_update(
        vstd::array::spec_array_update(vstd::array::spec_array_fill_for_copy_type(c0), 1, c1),
        2,
        c2,
    );
    let r1 = vstd::array::spec_array_update(
        vstd::array::spec_array_update(vstd::array::spec_array_fill_for_copy_type(c3), 1, c4),
        2,
        c5,
    );
    let r2 = vstd::array::spec_array_update(
        vstd::array::spec_array_update(vstd::array::spec_array_fill_for_copy_type(c6), 1, c7),
        2,
        c8,
    );
    vstd::array::spec_array_update(
        vstd::array::spec_array_update(vstd::array::spec_array_fill_for_copy_type(r0), 1, r1),
        2,
        r2,
    )
}

/// The cells of a board assembled by `make_board`.
pub proof fn lemma_make_board_cells(
    c0: Option<TicTacToePlayer>,
    c1: Option<TicTacToePlayer>,
    c2: Option<TicTacToePlayer>,
    c3: Option<TicTacToePlayer>,
    c4: Option<TicTacToePlayer>,
    c5: Option<TicTacToePlayer>,
    c6: Option<TicTacToePlayer>,
    c7: Option<TicTacToePlayer>,
    c8: Option<TicTacToePlayer>,
)
    ensures
        make_board(c0, c1, c2, c3, c4, c5, c6, c7, c8)[0][0] == c0,
        make_board(c0, c1, c2, c3, c4, c5, c6, c7, c8)[0][1] == c1,
        make_board(c0, c1, c2, c3, c4, c5, c6, c7, c8)[0][2] == c2,
        make_board(c0, c1, c2, c3, c4, c5, c6, c7, c8)[1][0] == c3,
        make_board(c0, c1, c2, c3, c4, c5, c6, c7, c8)[1][1] == c4,
        make_board(c0, c1, c2, c3, c4, c5, c6, c7, c8)[1][2] == c5,
        make_board(c0, c1, c2, c3, c4, c5, c6, c7, c8)[2][0] == c6,
        make_board(c0, c1, c2, c3, c4, c5, c6, c7, c8)[2][1] == c7,
        make_board(c0, c1, c2, c3, c4, c5, c6, c7, c8)[2][2] == c8,
{
    broadcast use vstd::array::group_array_axioms;

    reveal(make_board);
}

/// The board rotated a quarter turn clockwise.
pub open spec fn rotate_90_spec(
    b: [[Option<TicTacToePlayer>; 3]; 3],
) -> [[Option<TicTacToePlayer>; 3]; 3] {
    make_board(
        b[2][0],
        b[1][0],
        b[0][0],
        b[2][1],
        b[1][1],
        b[0][1],
        b[2][2],
        b[1][2],
        b[0][2],
    )
}

/// The board reflected along the horizontal axis (rows reversed).
pub open spec fn reflect_along_x_spec(
    b: [[Option<TicTacToePlayer>; 3]; 3],
) -> [[Option<TicTacToePlayer>; 3]; 3] {
    make_board(
        b[2][0],
        b[2][1],
        b[2][2],
        b[1][0],
        b[1][1],
        b[1][2],
        b[0][0],
        b[0][1],
        b[0][2],
    )
}

/// The position with its board rotated a quarter turn; the mover is kept.
pub open spec fn rot_p(p: TicTacToePosition) -> TicTacToePosition {
    TicTacToePosition { board: rotate_90_spec(p.board), player: p.player }
}

/// The position with its board reflected; the mover is kept.
pub open spec fn refl_p(p: TicTacToePosition) -> TicTacToePosition {
    TicTacToePosition { board: reflect_along_x_spec(p.board), player: p.player }
}

/// The smaller of two codes.
pub open spec fn min2(a: int, b: int) -> int {
    if a <= b {
        a
    } else {
        b
    }
}

/// The least position code in the symmetry orbit of `p`: the codes of the
/// identity, the three rotations, and each of those four composed with the
/// reflection.
#[verifier::opaque]
pub open spec fn orbit_min_code(p: TicTacToePosition) -> int {
    let p1 = rot_p(p);
    let p2 = rot_p(p1);
    let p3 = rot_p(p2);
    min2(
        min2(
            min2(position_code(p), position_code(p1)),
            min2(position_code(p2), position_code(p3)),
        ),
        min2(
            min2(position_code(refl_p(p)), position_code(refl_p(p1))),
            min2(position_code(refl_p(p2)), position_code(refl_p(p3))),
        ),
    )
}

/// The cells of a rotated board, one equation per cell.
proof fn lemma_rot_cells(b: [[Option<TicTacToePlayer>; 3]; 3])
    ensures
        rotate_90_spec(b)[0][0] == b[2][0],
        rotate_90_spec(b)[0][1] == b[1][0],
        rotate_90_spec(b)[0][2] == b[0][0],
        rotate_90_spec(b)[1][0] == b[2][1],
        rotate_90_spec(b)[1][1] == b[1][1],
        rotate_90_spec(b)[1][2] == b[0][1],
        rotate_90_spec(b)[2][0] == b[2][2],
        rotate_90_spec(b)[2][1] == b[1][2],
        rotate_90_spec(b)[2][2] == b[0][2],
{
    lemma_make_board_cells(
        b[2][0],
        b[1][0],
        b[0][0],
        b[2][1],
        b[1][1],
        b[0][1],
        b[2][2],
        b[1][2],
        b[0][2],
    );
}

/// The cells of a reflected board, one equation per cell.
proof fn lemma_refl_cells(b: [[Option<TicTacToePlayer>; 3]; 3])
    ensures
        reflect_along_x_spec(b)[0][0] == b[2][0],
        reflect_along_x_spec(b)[0][1] == b[2][1],
        reflect_along_x_spec(b)[0][2] == b[2][2],
        reflect_along_x_spec(b)[1][0] == b[1][0],
        reflect_along_x_spec(b)[1][1] == b[1][1],
        reflect_along_x_spec(b)[1][2] == b[1][2],
        reflect_along_x_spec(b)[2][0] == b[0][0],
        reflect_along_x_spec(b)[2][1] == b[0][1],
        reflect_along_x_spec(b)[2][2] == b[0][2],
{
    lemma_make_board_cells(
        b[2][0],
        b[2][1],
        b[2][2],
        b[1][0],
        b[1][1],
        b[1][2],
        b[0][0],
        b[0][1],
        b[0][2],
    );
}

/// Two boards that agree on all nine cells are equal.
proof fn lemma_boards_equal(
    x: [[Option<TicTacToePlayer>; 3]; 3],
    y: [[Option<TicTacToePlayer>; 3]; 3],
)
    requires
        x[0][0] == y[0][0],
        x[0][1] == y[0][1],
        x[0][2] == y[0][2],
        x[1][0] == y[1][0],
        x[1][1] == y[1][1],
        x[1][2] == y[1][2],
        x[2][0] == y[2][0],
        x[2][1] == y[2][1],
        x[2][2] == y[2][2],
    ensures
        x == y,
{
    broadcast use vstd::array::group_array_axioms;

    assert(x[0] =~= y[0]);
    assert(x[1] =~= y[1]);
    assert(x[2] =~= y[2]);
    assert(x =~= y);
}

/// The group identities the orbit lemmas rest on: four quarter turns are
/// the identity, two reflections are the identity, and a reflection
/// conjugates a rotation into the opposite rotation.
proof fn lemma_orbit_cells(p: TicTacToePosition)
    ensures
        rot_p(rot_p(rot_p(rot_p(p)))) == p,
        refl_p(refl_p(p)) == p,
        rot_p(refl_p(p)) == refl_p(rot_p(rot_p(rot_p(p)))),
{
    let b = p.board;
    let b1 = rotate_90_spec(b);
    let b2 = rotate_90_spec(b1);
    let b3 = rotate_90_spec(b2);
    let b4 = rotate_90_spec(b3);
    lemma_rot_cells(b);
    lemma_rot_cells(b1);
    lemma_rot_cells(b2);
    lemma_rot_cells(b3);
    lemma_boards_equal(b4, b);
    let s = reflect_along_x_spec(b);
    lemma_refl_cells(b);
    lemma_refl_cells(s);
    lemma_boards_equal(reflect_along_x_spec(s), b);
    lemma_rot_cells(s);
    lemma_refl_cells(b3);
    lemma_boards_equal(rotate_90_spec(s), reflect_along_x_spec(b3));
}

/// Rotating a position does not change the least code in its orbit.
proof fn lemma_rot_code(p: TicTacToePosition)
    ensures
        orbit_min_code(rot_p(p)) == orbit_min_code(p),
{
    reveal(orbit_min_code);
    lemma_orbit_cells(p);
    lemma_orbit_cells(rot_p(p));
    lemma_orbit_cells(rot_p(rot_p(p)));
    lemma_orbit_cells(rot_p(rot_p(rot_p(p))));
}

/// Reflecting a position does not change the least code in its orbit.
proof fn lemma_refl_code(p: TicTacToePosition)
    ensures
        orbit_min_code(refl_p(p)) == orbit_min_code(p),
{
    reveal(orbit_min_code);
    lemma_orbit_cells(p);
    lemma_orbit_cells(rot_p(p));
    lemma_orbit_cells(rot_p(rot_p(p)));
    lemma_orbit_cells(rot_p(rot_p(rot_p(p))));
    lemma_orbit_cells(refl_p(p));
    lemma_orbit_cells(rot_p(refl_p(p)));
    lemma_orbit_cells(rot_p(rot_p(refl_p(p))));
    lemma_orbit_cells(rot_p(rot_p(rot_p(refl_p(p)))));
}

/// The memoization key of the wrapped child reached by marking flat cell
/// `t`.
#[verifier::opaque]
pub open spec fn child_key_at(p: TicTacToePosition, t: int) -> u64 {
    orbit_min_code(
        TicTacToePosition {
            board: place(p.board, t / 3, t % 3, Some(p.player)),
            player: p.player.next_player_spec(),
        },
    ) as u64
}

/// The child keys that the nine cells give for the children of `p`: a child
/// key at an empty cell, nothing at a marked one.
pub open spec fn slot_keys(p: TicTacToePosition) -> Seq<Option<u64>> {
    Seq::new(
        9,
        |t: int|
            if cell_at(p.board, t) is None {
                Some(child_key_at(p, t))
            } else {
                None
            },
    )
}

/// A position code is a base-3 numeral of ten digits.
pub proof fn lemma_code_bounds(p: TicTacToePosition)
    ensures
        0 <= position_code(p) < 39366,
{
}

/// Rotating commutes with marking a cell: marking `(x, y)` and rotating is
/// rotating and marking the rotated image of `(x, y)`.
proof fn lemma_rot_place(
    b: [[Option<TicTacToePlayer>; 3]; 3],
    x: int,
    y: int,
    v: Option<TicTacToePlayer>,
)
    requires
        0 <= x < 3,
        0 <= y < 3,
    ensures
        rotate_90_spec(place(b, x, y, v)) == place(rotate_90_spec(b), y, 2 - x, v),
{
    broadcast use vstd::array::group_array_axioms;

    lemma_rot_cells(b);
    lemma_rot_cells(place(b, x, y, v));
    lemma_boards_equal(rotate_90_spec(place(b, x, y, v)), place(rotate_90_spec(b), y, 2 - x, v));
}

/// Reflecting commutes with marking a cell.
proof fn lemma_refl_place(
    b: [[Option<TicTacToePlayer>; 3]; 3],
    x: int,
    y: int,
    v: Option<TicTacToePlayer>,
)
    requires
        0 <= x < 3,
        0 <= y < 3,
    ensures
        reflect_along_x_spec(place(b, x, y, v)) == place(reflect_along_x_spec(b), 2 - x, y, v),
{
    broadcast use vstd::array::group_array_axioms;

    lemma_refl_cells(b);
    lemma_refl_cells(place(b, x, y, v));
    lemma_boards_equal(
        reflect_along_x_spec(place(b, x, y, v)),
        place(reflect_along_x_spec(b), 2 - x, y, v),
    );
}

/// One slot of the rotated slot sequence, moved to its source cell.
proof fn lemma_rot_slot_at(p: TicTacToePosition, t: int, t0: int)
    requires
        0 <= t < 9,
        0 <= t0 < 9,
        t0 == 3 * (2 - t % 3) + t / 3,
    ensures
        slot_keys(rot_p(p))[t] == slot_keys(p)[t0],
{
    reveal(child_key_at);
    lemma_rot_cells(p.board);
    assert(cell_at(rot_p(p).board, t) == cell_at(p.board, t0));
    if cell_at(p.board, t0) is None {
        lemma_rot_place(p.board, t0 / 3, t0 % 3, Some(p.player));
        assert(place(rot_p(p).board, t / 3, t % 3, Some(p.player)) == rotate_90_spec(
            place(p.board, t0 / 3, t0 % 3, Some(p.player)),
        ));
        lemma_rot_code(
            TicTacToePosition {
                board: place(p.board, t0 / 3, t0 % 3, Some(p.player)),
                player: p.player.next_player_spec(),
            },
        );
        assert(child_key_at(rot_p(p), t) == child_key_at(p, t0));
    }
}

/// One slot of the reflected slot sequence, moved to its source
/// cell.
proof fn lemma_refl_slot_at(p: TicTacToePosition, t: int, t0: int)
    requires
        0 <= t < 9,
        0 <= t0 < 9,
        t0 == 3 * (2 - t / 3) + t % 3,
    ensures
        slot_keys(refl_p(p))[t] == slot_keys(p)[t0],
{
    reveal(child_key_at);
    lemma_refl_cells(p.board);
    assert(cell_at(refl_p(p).board, t) == cell_at(p.board, t0));
    if cell_at(p.board, t0) is None {
        lemma_refl_place(p.board, t0 / 3, t0 % 3, Some(p.player));
        assert(place(refl_p(p).board, t / 3, t % 3, Some(p.player)) == reflect_along_x_spec(
            place(p.board, t0 / 3, t0 % 3, Some(p.player)),
        ));
        lemma_refl_code(
            TicTacToePosition {
                board: place(p.board, t0 / 3, t0 % 3, Some(p.player)),
                player: p.player.next_player_spec(),
            },
        );
        assert(child_key_at(refl_p(p), t) == child_key_at(p, t0));
    }
}

/// Rotating a position permutes its children's keys.
#[verifier::rlimit(100)]
proof fn lemma_rot_children(p: TicTacToePosition)
    ensures
        crate::solver::opt_ms(slot_keys(rot_p(p)), 9) == crate::solver::opt_ms(slot_keys(p), 9),
{
    let c1 = slot_keys(rot_p(p));
    let c2 = slot_keys(p);
    lemma_rot_slot_at(p, 0, 6);
    lemma_rot_slot_at(p, 1, 3);
    lemma_rot_slot_at(p, 2, 0);
    lemma_rot_slot_at(p, 3, 7);
    lemma_rot_slot_at(p, 4, 4);
    lemma_rot_slot_at(p, 5, 1);
    lemma_rot_slot_at(p, 6, 8);
    lemma_rot_slot_at(p, 7, 5);
    lemma_rot_slot_at(p, 8, 2);
    assert forall|e: u64|
        crate::solver::opt_ms(c1, 9).count(e) == crate::solver::opt_ms(c2, 9).count(e) by {
        crate::solver::lemma_opt_ms_count(c1, 9, e);
        crate::solver::lemma_opt_ms_count(c2, 9, e);
        reveal_with_fuel(crate::solver::opt_count, 10);
    }
    assert(crate::solver::opt_ms(c1, 9) =~= crate::solver::opt_ms(c2, 9));
}

/// Reflecting a position permutes its children's keys.
#[verifier::rlimit(100)]
proof fn lemma_refl_children(p: TicTacToePosition)
    ensures
        crate::solver::opt_ms(slot_keys(refl_p(p)), 9) == crate::solver::opt_ms(slot_keys(p), 9),
{
    let c1 = slot_keys(refl_p(p));
    let c2 = slot_keys(p);
    lemma_refl_slot_at(p, 0, 6);
    lemma_refl_slot_at(p, 1, 7);
    lemma_refl_slot_at(p, 2, 8);
    lemma_refl_slot_at(p, 3, 3);
    lemma_refl_slot_at(p, 4, 4);
    lemma_refl_slot_at(p, 5, 5);
    lemma_refl_slot_at(p, 6, 0);
    lemma_refl_slot_at(p, 7, 1);
    lemma_refl_slot_at(p, 8, 2);
    assert forall|e: u64|
        crate::solver::opt_ms(c1, 9).count(e) == crate::solver::opt_ms(c2, 9).count(e) by {
        crate::solver::lemma_opt_ms_count(c1, 9, e);
        crate::solver::lemma_opt_ms_count(c2, 9, e);
        reveal_with_fuel(crate::solver::opt_count, 10);
    }
    assert(crate::solver::opt_ms(c1, 9) =~= crate::solver::opt_ms(c2, 9));
}

/// Rotating a position changes neither its terminal classification, nor
/// its orbit key, nor the multiset of its children's keys.
proof fn lemma_rot_invariants(p: TicTacToePosition)
    ensures
        rot_p(p).primitive_spec() == p.primitive_spec(),
        orbit_min_code(rot_p(p)) == orbit_min_code(p),
        crate::solver::opt_ms(slot_keys(rot_p(p)), 9) == crate::solver::opt_ms(slot_keys(p), 9),
{
    lemma_rot_cells(p.board);
    lemma_rot_code(p);
    lemma_rot_children(p);
}

/// Reflecting a position changes neither its terminal classification, nor
/// its orbit key, nor the multiset of its children's keys.
proof fn lemma_refl_invariants(p: TicTacToePosition)
    ensures
        refl_p(p).primitive_spec() == p.primitive_spec(),
        orbit_min_code(refl_p(p)) == orbit_min_code(p),
        crate::solver::opt_ms(slot_keys(refl_p(p)), 9) == crate::solver::opt_ms(slot_keys(p), 9),
{
    lemma_refl_cells(p.board);
    lemma_refl_code(p);
    lemma_refl_children(p);
}

/// The orbit image of `p` whose code is least.
pub open spec fn canonical(p: TicTacToePosition) -> TicTacToePosition {
    let p1 = rot_p(p);
    let p2 = rot_p(p1);
    let p3 = rot_p(p2);
    let m = orbit_min_code(p);
    if position_code(p) == m {
        p
    } else if position_code(p1) == m {
        p1
    } else if position_code(p2) == m {
        p2
    } else if position_code(p3) == m {
        p3
    } else if position_code(refl_p(p)) == m {
        refl_p(p)
    } else if position_code(refl_p(p1)) == m {
        refl_p(p1)
    } else if position_code(refl_p(p2)) == m {
        refl_p(p2)
    } else {
        refl_p(p3)
    }
}

/// The canonical image realizes the orbit key and behaves like `p` itself:
/// same terminal classification and the same multiset of children's keys.
#[verifier::rlimit(100)]
pub proof fn lemma_canonical_props(p: TicTacToePosition)
    ensures
        position_code(canonical(p)) == orbit_min_code(p),
        canonical(p).primitive_spec() == p.primitive_spec(),
        crate::solver::opt_ms(slot_keys(canonical(p)), 9) == crate::solver::opt_ms(slot_keys(p), 9),
{
    reveal(orbit_min_code);
    let p1 = rot_p(p);
    let p2 = rot_p(p1);
    lemma_rot_invariants(p);
    lemma_rot_invariants(p1);
    lemma_rot_invariants(p2);
    lemma_refl_invariants(p);
    lemma_refl_invariants(p1);
    lemma_refl_invariants(p2);
    lemma_refl_invariants(rot_p(p2));
}


/// Law: symmetry soundness.  A position and any image of it under the
/// square's symmetry group receive the same memoization key from this
/// wrapper, shown here for the two group generators (the quarter turn and
/// the reflection), whose compositions reach the whole group.  Together
/// with `Position::lemma_key_sound` this makes the solver treat a whole
/// orbit as one position.
pub proof fn lemma_symmetric_keys_equal(p: TicTacToePosition)
    ensures
        (TicTacToePositionD4Eq { position: rot_p(p) }).key_spec() == (TicTacToePositionD4Eq {
            position: p,
        }).key_spec(),
        (TicTacToePositionD4Eq { position: refl_p(p) }).key_spec() == (TicTacToePositionD4Eq {
            position: p,
        }).key_spec(),
{
    lemma_rot_code(p);
    lemma_refl_code(p);
}

/// The least code in the orbit is itself a position code.
pub proof fn lemma_orbit_min_bounds(p: TicTacToePosition)
    ensures
        0 <= orbit_min_code(p) < 39366,
{
    reveal(orbit_min_code);
}

impl TicTacToePosition {
    /// The board rotated a quarter turn clockwise; the mover is kept.
    pub fn rotate_90(&self) -> (r: Self)
        ensures
            r == rot_p(*self),
    {
        let b = &self.board;
        let board = [
            [b[2][0], b[1][0], b[0][0]],
            [b[2][1], b[1][1], b[0][1]],
            [b[2][2], b[1][2], b[0][2]],
        ];
        proof {
            lemma_rot_cells(self.board);
            lemma_boards_equal(board, rotate_90_spec(self.board));
        }
        TicTacToePosition { board, player: self.player }
    }

    /// The board reflected along the horizontal axis; the mover is kept.
    pub fn reflect_along_x(&self) -> (r: Self)
        ensures
            r == refl_p(*self),
    {
        let b = &self.board;
        let board = [b[2], b[1], b[0]];
        proof {
            lemma_refl_cells(self.board);
            lemma_boards_equal(board, reflect_along_x_spec(self.board));
        }
        TicTacToePosition { board, player: self.player }
    }

    /// One quarter turn.
    pub fn r1(&self) -> (r: Self)
        ensures
            r == rot_p(*self),
    {
        self.rotate_90()
    }

    /// Two quarter turns.
    pub fn r2(&self) -> (r: Self)
        ensures
            r == rot_p(rot_p(*self)),
    {
        self.rotate_90().rotate_90()
    }

    /// Three quarter turns.
    pub fn r3(&self) -> (r: Self)
        ensures
            r == rot_p(rot_p(rot_p(*self))),
    {
        self.rotate_90().rotate_90().rotate_90()
    }

    /// The reflection.
    pub fn s(&self) -> (r: Self)
        ensures
            r == refl_p(*self),
    {
        self.reflect_along_x()
    }

    /// A quarter turn followed by the reflection.
    pub fn sr1(&self) -> (r: Self)
        ensures
            r == refl_p(rot_p(*self)),
    {
        self.r1().reflect_along_x()
    }

    /// Two quarter turns followed by the reflection.
    pub fn sr2(&self) -> (r: Self)
        ensures
            r == refl_p(rot_p(rot_p(*self))),
    {
        self.r2().reflect_along_x()
    }

    /// Three quarter turns followed by the reflection.
    pub fn sr3(&self) -> (r: Self)
        ensures
            r == refl_p(rot_p(rot_p(rot_p(*self)))),
    {
        self.r3().reflect_along_x()
    }
}

/// The children's keys of a wrapped position, scanning the first `n` cells,
/// agree with the keys the slot sequence gives.
proof fn lemma_children_ms(w: TicTacToePositionD4Eq, n: int)
    requires
        0 <= n <= 9,
    ensures
        moves_up_to(w.position.board, n).map_values(
            |m: TicTacToeMove| w.next_spec(m).key_spec(),
        ).to_multiset() == crate::solver::opt_ms(slot_keys(w.position), n),
    decreases n,
{
    broadcast use vstd::seq_lib::group_to_multiset_ensures;
    broadcast use vstd::seq::Seq::lemma_push_map_commute;

    reveal(child_key_at);
    let f = |m: TicTacToeMove| w.next_spec(m).key_spec();
    if n > 0 {
        lemma_children_ms(w, n - 1);
        let prev = moves_up_to(w.position.board, n - 1);
        if cell_at(w.position.board, n - 1) is None {
            let m = TicTacToeMove { x: ((n - 1) / 3) as usize, y: ((n - 1) % 3) as usize };
            assert(moves_up_to(w.position.board, n) == prev.push(m));
            assert(m.x as int == (n - 1) / 3 && m.y as int == (n - 1) % 3);
            assert(f(m) == child_key_at(w.position, n - 1));
            assert(prev.push(m).map_values(f) =~= prev.map_values(f).push(f(m)));
        }
    } else {
        assert(moves_up_to(w.position.board, 0).map_values(f).to_multiset() =~= crate::solver::opt_ms(
            slot_keys(w.position),
            0,
        ));
    }
}

impl Position<TicTacToeMove, TicTacToePrimitiveValue> for TicTacToePositionD4Eq {
    open spec fn measure_spec(&self) -> nat {
        self.position.measure_spec()
    }

    open spec fn key_spec(&self) -> u64 {
        orbit_min_code(self.position) as u64
    }

    open spec fn moves_spec(&self) -> Seq<TicTacToeMove> {
        self.position.moves_spec()
    }

    open spec fn next_spec(&self, mov: TicTacToeMove) -> Self {
        TicTacToePositionD4Eq { position: self.position.next_spec(mov) }
    }

    open spec fn primitive_spec(&self) -> TicTacToePrimitiveValue {
        self.position.primitive_spec()
    }

    fn key(&self) -> (k: u64) {
        proof {
            reveal(orbit_min_code);
            lemma_code_bounds(self.position);
        }
        let p0 = self.position;
        let p1 = p0.r1();
        let p2 = p0.r2();
        let p3 = p0.r3();
        let s0 = p0.s();
        let s1 = p0.sr1();
        let s2 = p0.sr2();
        let s3 = p0.sr3();
        let mut k = p0.key();
        let mut k2 = p1.key();
        if k2 < k {
            k = k2;
        }
        k2 = p2.key();
        if k2 < k {
            k = k2;
        }
        k2 = p3.key();
        if k2 < k {
            k = k2;
        }
        k2 = s0.key();
        if k2 < k {
            k = k2;
        }
        k2 = s1.key();
        if k2 < k {
            k = k2;
        }
        k2 = s2.key();
        if k2 < k {
            k = k2;
        }
        k2 = s3.key();
        if k2 < k {
            k = k2;
        }
        proof {
            lemma_code_bounds(rot_p(p0));
            lemma_code_bounds(rot_p(rot_p(p0)));
            lemma_code_bounds(rot_p(rot_p(rot_p(p0))));
            lemma_code_bounds(refl_p(p0));
            lemma_code_bounds(refl_p(rot_p(p0)));
            lemma_code_bounds(refl_p(rot_p(rot_p(p0))));
            lemma_code_bounds(refl_p(rot_p(rot_p(rot_p(p0)))));
        }
        k
    }

    fn do_move(&self, mov: TicTacToeMove) -> (r: Self) {
        TicTacToePositionD4Eq { position: self.position.do_move(mov) }
    }

    fn generate_moves(&self) -> (moves: Vec<TicTacToeMove>) {
        self.position.generate_moves()
    }

    fn primitive_value(&self) -> (pv: TicTacToePrimitiveValue) {
        self.position.primitive_value()
    }

    proof fn lemma_moves_decrease(&self) {
        self.position.lemma_moves_decrease();
        assert forall|i: int| 0 <= i < self.moves_spec().len() implies (#[trigger] self.next_spec(
            self.moves_spec()[i],
        )).measure_spec() < self.measure_spec() by {
            assert(self.position.next_spec(
                self.position.moves_spec()[i],
            ).measure_spec() < self.position.measure_spec());
        }
    }

    proof fn lemma_nonprimitive_has_moves(&self) {
        self.position.lemma_nonprimitive_has_moves();
    }

    proof fn lemma_key_sound(&self, other: &Self) {
        broadcast use vstd::seq_lib::group_to_multiset_ensures;

        let p1 = self.position;
        let p2 = other.position;
        lemma_orbit_min_bounds(p1);
        lemma_orbit_min_bounds(p2);
        assert(orbit_min_code(p1) == orbit_min_code(p2));
        lemma_canonical_props(p1);
        lemma_canonical_props(p2);
        super::lemma_position_code_injective(canonical(p1), canonical(p2));
        lemma_children_ms(*self, 9);
        lemma_children_ms(*other, 9);
        let ks1 = self.moves_spec().map_values(|m: TicTacToeMove| self.next_spec(m).key_spec());
        let ks2 = other.moves_spec().map_values(|m: TicTacToeMove| other.next_spec(m).key_spec());
        assert(ks1.to_multiset() == crate::solver::opt_ms(slot_keys(p1), 9));
        assert(ks2.to_multiset() == crate::solver::opt_ms(slot_keys(p2), 9));
        assert(ks1.to_multiset() == ks2.to_multiset());
        assert(ks1.to_multiset().len() == ks1.len());
        assert(ks2.to_multiset().len() == ks2.len());
        assert(self.measure_spec() == other.measure_spec());
    }
}

} // verus!
