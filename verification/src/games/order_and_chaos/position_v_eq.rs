use super::cell_at;
use super::moves_up_to;
use super::place;
use super::position_code;
use super::position_d4_eq::lemma_boards_equal;
use super::position_d4_eq::lemma_code_bounds;
use super::position_d4_eq::lemma_reflx_cells;
use super::position_d4_eq::lemma_reflx_place;
use super::position_d4_eq::lemma_refly_cells;
use super::position_d4_eq::min2;
use super::position_d4_eq::reflect_along_y_spec;
use super::position_d4_eq::reflx_p;
use super::position_d4_eq::refly_p;
use super::OrderAndChaosMove;
use super::OrderAndChaosPiece;
use super::OrderAndChaosPosition;
use super::OrderAndChaosPrimitiveValue;
use crate::solver::Position;
use crate::solver::PrimitiveValue;
use vstd::prelude::*;

verus! {

/// An Order-and-Chaos position keyed by its orbit under the two board
/// reflections; valid for any board shape.
pub struct OrderAndChaosPositionVEq {
    pub position: OrderAndChaosPosition,
}

/// The least position code in the reflection orbit of `p`: the identity,
/// the two single reflections, and both composed.
#[verifier::opaque]
pub open spec fn v_orbit_min_code(p: OrderAndChaosPosition) -> int {
    min2(
        min2(position_code(p), position_code(reflx_p(p))),
        min2(position_code(refly_p(p)), position_code(refly_p(reflx_p(p)))),
    )
}

/// Reflecting along the vertical axis commutes with placing a piece.
proof fn lemma_refly_place(
    b: [[Option<OrderAndChaosPiece>; 3]; 3],
    x: int,
    y: int,
    v: Option<OrderAndChaosPiece>,
)
    requires
        0 <= x < 3,
        0 <= y < 3,
    ensures
        reflect_along_y_spec(place(b, x, y, v)) == place(reflect_along_y_spec(b), x, 2 - y, v),
{
    broadcast use vstd::array::group_array_axioms;

    lemma_refly_cells(b);
    lemma_refly_cells(place(b, x, y, v));
    lemma_boards_equal(
        reflect_along_y_spec(place(b, x, y, v)),
        place(reflect_along_y_spec(b), x, 2 - y, v),
    );
}

/// The group identities the reflection orbit rests on: each reflection is
/// an involution and the two reflections commute.
proof fn lemma_v_orbit_cells(p: OrderAndChaosPosition)
    ensures
        reflx_p(reflx_p(p)) == p,
        refly_p(refly_p(p)) == p,
        reflx_p(refly_p(p)) == refly_p(reflx_p(p)),
{
    let b = p.board;
    lemma_reflx_cells(b);
    lemma_refly_cells(b);
    lemma_reflx_cells(super::position_d4_eq::reflect_along_x_spec(b));
    lemma_refly_cells(super::position_d4_eq::reflect_along_y_spec(b));
    lemma_reflx_cells(super::position_d4_eq::reflect_along_y_spec(b));
    lemma_refly_cells(super::position_d4_eq::reflect_along_x_spec(b));
    lemma_boards_equal(
        super::position_d4_eq::reflect_along_x_spec(
            super::position_d4_eq::reflect_along_x_spec(b),
        ),
        b,
    );
    lemma_boards_equal(
        super::position_d4_eq::reflect_along_y_spec(
            super::position_d4_eq::reflect_along_y_spec(b),
        ),
        b,
    );
    lemma_boards_equal(
        super::position_d4_eq::reflect_along_x_spec(
            super::position_d4_eq::reflect_along_y_spec(b),
        ),
        super::position_d4_eq::reflect_along_y_spec(
            super::position_d4_eq::reflect_along_x_spec(b),
        ),
    );
}

/// Reflecting along the horizontal axis does not change the least code in
/// the reflection orbit.
proof fn lemma_vx_code(p: OrderAndChaosPosition)
    ensures
        v_orbit_min_code(reflx_p(p)) == v_orbit_min_code(p),
{
    reveal(v_orbit_min_code);
    lemma_v_orbit_cells(p);
    lemma_v_orbit_cells(reflx_p(p));
    lemma_v_orbit_cells(refly_p(p));
}

/// Reflecting along the vertical axis does not change the least code in the
/// reflection orbit.
proof fn lemma_vy_code(p: OrderAndChaosPosition)
    ensures
        v_orbit_min_code(refly_p(p)) == v_orbit_min_code(p),
{
    reveal(v_orbit_min_code);
    lemma_v_orbit_cells(p);
    lemma_v_orbit_cells(reflx_p(p));
    lemma_v_orbit_cells(refly_p(p));
    lemma_v_orbit_cells(refly_p(reflx_p(p)));
}

/// The memoization key of the wrapped child reached by placing `piece` on
/// flat cell `t`.
#[verifier::opaque]
pub open spec fn child_key_at(p: OrderAndChaosPosition, t: int, piece: OrderAndChaosPiece) -> u64 {
    v_orbit_min_code(
        OrderAndChaosPosition {
            board: place(p.board, t / 3, t % 3, Some(piece)),
            player: p.player.next_player_spec(),
        },
    ) as u64
}

/// The child keys that the nine cells give for `p` by placing `piece`.
pub open spec fn slot_keys(p: OrderAndChaosPosition, piece: OrderAndChaosPiece) -> Seq<
    Option<u64>,
> {
    Seq::new(
        9,
        |t: int|
            if cell_at(p.board, t) is None {
                Some(child_key_at(p, t, piece))
            } else {
                None
            },
    )
}

/// The combined multiset of children keys of `p`.
pub open spec fn children_key_ms(p: OrderAndChaosPosition) -> vstd::multiset::Multiset<u64> {
    crate::solver::opt_ms(slot_keys(p, OrderAndChaosPiece::X), 9).add(
        crate::solver::opt_ms(slot_keys(p, OrderAndChaosPiece::O), 9),
    )
}

/// One slot of the horizontally reflected slot sequence, moved to its
/// source cell.
proof fn lemma_vx_slot_at(p: OrderAndChaosPosition, t: int, t0: int, piece: OrderAndChaosPiece)
    requires
        0 <= t < 9,
        0 <= t0 < 9,
        t0 == 3 * (2 - t / 3) + t % 3,
    ensures
        slot_keys(reflx_p(p), piece)[t] == slot_keys(p, piece)[t0],
{
    reveal(child_key_at);
    lemma_reflx_cells(p.board);
    assert(cell_at(reflx_p(p).board, t) == cell_at(p.board, t0));
    if cell_at(p.board, t0) is None {
        lemma_reflx_place(p.board, t0 / 3, t0 % 3, Some(piece));
        lemma_vx_code(
            OrderAndChaosPosition {
                board: place(p.board, t0 / 3, t0 % 3, Some(piece)),
                player: p.player.next_player_spec(),
            },
        );
        assert(child_key_at(reflx_p(p), t, piece) == child_key_at(p, t0, piece));
    }
}

/// One slot of the vertically reflected slot sequence, moved to its source
/// cell.
proof fn lemma_vy_slot_at(p: OrderAndChaosPosition, t: int, t0: int, piece: OrderAndChaosPiece)
    requires
        0 <= t < 9,
        0 <= t0 < 9,
        t0 == 3 * (t / 3) + (2 - t % 3),
    ensures
        slot_keys(refly_p(p), piece)[t] == slot_keys(p, piece)[t0],
{
    reveal(child_key_at);
    lemma_refly_cells(p.board);
    assert(cell_at(refly_p(p).board, t) == cell_at(p.board, t0));
    if cell_at(p.board, t0) is None {
        lemma_refly_place(p.board, t0 / 3, t0 % 3, Some(piece));
        lemma_vy_code(
            OrderAndChaosPosition {
                board: place(p.board, t0 / 3, t0 % 3, Some(piece)),
                player: p.player.next_player_spec(),
            },
        );
        assert(child_key_at(refly_p(p), t, piece) == child_key_at(p, t0, piece));
    }
}

/// A horizontally reflected slot sequence keeps its key multiset.
#[verifier::rlimit(100)]
proof fn lemma_slots_perm_vx(p: OrderAndChaosPosition, piece: OrderAndChaosPiece)
    ensures
        crate::solver::opt_ms(slot_keys(reflx_p(p), piece), 9) == crate::solver::opt_ms(
            slot_keys(p, piece),
            9,
        ),
{
    let c1 = slot_keys(reflx_p(p), piece);
    let c2 = slot_keys(p, piece);
    lemma_vx_slot_at(p, 0, 6, piece);
    lemma_vx_slot_at(p, 1, 7, piece);
    lemma_vx_slot_at(p, 2, 8, piece);
    lemma_vx_slot_at(p, 3, 3, piece);
    lemma_vx_slot_at(p, 4, 4, piece);
    lemma_vx_slot_at(p, 5, 5, piece);
    lemma_vx_slot_at(p, 6, 0, piece);
    lemma_vx_slot_at(p, 7, 1, piece);
    lemma_vx_slot_at(p, 8, 2, piece);
    assert forall|e: u64|
        crate::solver::opt_ms(c1, 9).count(e) == crate::solver::opt_ms(c2, 9).count(e) by {
        crate::solver::lemma_opt_ms_count(c1, 9, e);
        crate::solver::lemma_opt_ms_count(c2, 9, e);
        reveal_with_fuel(crate::solver::opt_count, 10);
    }
    assert(crate::solver::opt_ms(c1, 9) =~= crate::solver::opt_ms(c2, 9));
}

/// A vertically reflected slot sequence keeps its key multiset.
#[verifier::rlimit(100)]
proof fn lemma_slots_perm_vy(p: OrderAndChaosPosition, piece: OrderAndChaosPiece)
    ensures
        crate::solver::opt_ms(slot_keys(refly_p(p), piece), 9) == crate::solver::opt_ms(
            slot_keys(p, piece),
            9,
        ),
{
    let c1 = slot_keys(refly_p(p), piece);
    let c2 = slot_keys(p, piece);
    lemma_vy_slot_at(p, 0, 2, piece);
    lemma_vy_slot_at(p, 1, 1, piece);
    lemma_vy_slot_at(p, 2, 0, piece);
    lemma_vy_slot_at(p, 3, 5, piece);
    lemma_vy_slot_at(p, 4, 4, piece);
    lemma_vy_slot_at(p, 5, 3, piece);
    lemma_vy_slot_at(p, 6, 8, piece);
    lemma_vy_slot_at(p, 7, 7, piece);
    lemma_vy_slot_at(p, 8, 6, piece);
    assert forall|e: u64|
        crate::solver::opt_ms(c1, 9).count(e) == crate::solver::opt_ms(c2, 9).count(e) by {
        crate::solver::lemma_opt_ms_count(c1, 9, e);
        crate::solver::lemma_opt_ms_count(c2, 9, e);
        reveal_with_fuel(crate::solver::opt_count, 10);
    }
    assert(crate::solver::opt_ms(c1, 9) =~= crate::solver::opt_ms(c2, 9));
}

/// A horizontal reflection changes neither classification, orbit key, nor
/// the children's key multiset.
proof fn lemma_vx_invariants(p: OrderAndChaosPosition)
    ensures
        reflx_p(p).primitive_spec() == p.primitive_spec(),
        v_orbit_min_code(reflx_p(p)) == v_orbit_min_code(p),
        children_key_ms(reflx_p(p)) == children_key_ms(p),
{
    lemma_reflx_cells(p.board);
    lemma_vx_code(p);
    lemma_slots_perm_vx(p, OrderAndChaosPiece::X);
    lemma_slots_perm_vx(p, OrderAndChaosPiece::O);
}

/// A vertical reflection changes neither classification, orbit key, nor the
/// children's key multiset.
proof fn lemma_vy_invariants(p: OrderAndChaosPosition)
    ensures
        refly_p(p).primitive_spec() == p.primitive_spec(),
        v_orbit_min_code(refly_p(p)) == v_orbit_min_code(p),
        children_key_ms(refly_p(p)) == children_key_ms(p),
{
    lemma_refly_cells(p.board);
    lemma_vy_code(p);
    lemma_slots_perm_vy(p, OrderAndChaosPiece::X);
    lemma_slots_perm_vy(p, OrderAndChaosPiece::O);
}

/// The orbit image of `p` whose code is least.
pub open spec fn canonical(p: OrderAndChaosPosition) -> OrderAndChaosPosition {
    let m = v_orbit_min_code(p);
    if position_code(p) == m {
        p
    } else if position_code(reflx_p(p)) == m {
        reflx_p(p)
    } else if position_code(refly_p(p)) == m {
        refly_p(p)
    } else {
        refly_p(reflx_p(p))
    }
}

/// The canonical image realizes the orbit key and behaves like `p` itself.
#[verifier::rlimit(100)]
pub proof fn lemma_canonical_props(p: OrderAndChaosPosition)
    ensures
        position_code(canonical(p)) == v_orbit_min_code(p),
        canonical(p).primitive_spec() == p.primitive_spec(),
        children_key_ms(canonical(p)) == children_key_ms(p),
{
    reveal(v_orbit_min_code);
    lemma_vx_invariants(p);
    lemma_vy_invariants(p);
    lemma_vy_invariants(reflx_p(p));
}


/// Law: symmetry soundness.  A position and either of its reflections
/// receive the same memoization key from this wrapper.
pub proof fn lemma_symmetric_keys_equal(p: OrderAndChaosPosition)
    ensures
        (OrderAndChaosPositionVEq { position: reflx_p(p) }).key_spec()
            == (OrderAndChaosPositionVEq { position: p }).key_spec(),
        (OrderAndChaosPositionVEq { position: refly_p(p) }).key_spec()
            == (OrderAndChaosPositionVEq { position: p }).key_spec(),
{
    lemma_vx_code(p);
    lemma_vy_code(p);
}

/// The least code in the orbit is itself a position code.
pub proof fn lemma_v_orbit_min_bounds(p: OrderAndChaosPosition)
    ensures
        0 <= v_orbit_min_code(p) < 39366,
{
    reveal(v_orbit_min_code);
}

impl OrderAndChaosPosition {
    /// The board reflected along the horizontal axis; the mover is kept.
    pub fn reflect_along_x(&self) -> (r: Self)
        ensures
            r == reflx_p(*self),
    {
        self.reflect_along_x_d4()
    }

    /// The board reflected along the vertical axis; the mover is kept.
    pub fn reflect_along_y(&self) -> (r: Self)
        ensures
            r == refly_p(*self),
    {
        let b = &self.board;
        let board = [
            [b[0][2], b[0][1], b[0][0]],
            [b[1][2], b[1][1], b[1][0]],
            [b[2][2], b[2][1], b[2][0]],
        ];
        proof {
            lemma_refly_cells(self.board);
            lemma_boards_equal(board, reflect_along_y_spec(self.board));
        }
        OrderAndChaosPosition { board, player: self.player }
    }

    /// The horizontal reflection.
    pub fn v1(&self) -> (r: Self)
        ensures
            r == reflx_p(*self),
    {
        self.reflect_along_x()
    }

    /// The vertical reflection.
    pub fn v2(&self) -> (r: Self)
        ensures
            r == refly_p(*self),
    {
        self.reflect_along_y()
    }

    /// Both reflections composed.
    pub fn v3(&self) -> (r: Self)
        ensures
            r == refly_p(reflx_p(*self)),
    {
        self.reflect_along_x().reflect_along_y()
    }
}

/// The children's keys of a wrapped position, scanning the first `n` cells,
/// agree with the keys the slot sequences give.
proof fn lemma_children_ms(w: OrderAndChaosPositionVEq, n: int)
    requires
        0 <= n <= 9,
    ensures
        moves_up_to(w.position.board, n).map_values(
            |m: OrderAndChaosMove| w.next_spec(m).key_spec(),
        ).to_multiset() == crate::solver::opt_ms(
            slot_keys(w.position, OrderAndChaosPiece::X),
            n,
        ).add(crate::solver::opt_ms(slot_keys(w.position, OrderAndChaosPiece::O), n)),
    decreases n,
{
    broadcast use vstd::seq_lib::group_to_multiset_ensures;
    broadcast use vstd::seq::Seq::lemma_push_map_commute;
    broadcast use vstd::multiset::group_multiset_axioms;

    reveal(child_key_at);
    let f = |m: OrderAndChaosMove| w.next_spec(m).key_spec();
    let xs = slot_keys(w.position, OrderAndChaosPiece::X);
    let os = slot_keys(w.position, OrderAndChaosPiece::O);
    if n > 0 {
        lemma_children_ms(w, n - 1);
        let prev = moves_up_to(w.position.board, n - 1);
        if cell_at(w.position.board, n - 1) is None {
            let mx = OrderAndChaosMove {
                piece: OrderAndChaosPiece::X,
                x: ((n - 1) / 3) as usize,
                y: ((n - 1) % 3) as usize,
            };
            let mo = OrderAndChaosMove {
                piece: OrderAndChaosPiece::O,
                x: ((n - 1) / 3) as usize,
                y: ((n - 1) % 3) as usize,
            };
            assert(moves_up_to(w.position.board, n) == prev.push(mx).push(mo));
            assert(mx.x as int == (n - 1) / 3 && mx.y as int == (n - 1) % 3);
            assert(f(mx) == child_key_at(w.position, n - 1, OrderAndChaosPiece::X));
            assert(f(mo) == child_key_at(w.position, n - 1, OrderAndChaosPiece::O));
            assert(prev.push(mx).map_values(f) =~= prev.map_values(f).push(f(mx)));
            assert(prev.push(mx).push(mo).map_values(f) =~= prev.push(mx).map_values(f).push(
                f(mo),
            ));
            assert(xs[n - 1] == Some(child_key_at(w.position, n - 1, OrderAndChaosPiece::X)));
            assert(os[n - 1] == Some(child_key_at(w.position, n - 1, OrderAndChaosPiece::O)));
            assert(moves_up_to(w.position.board, n).map_values(f).to_multiset()
                =~= crate::solver::opt_ms(xs, n).add(crate::solver::opt_ms(os, n)));
        } else {
            assert(xs[n - 1] is None);
            assert(os[n - 1] is None);
        }
    } else {
        assert(moves_up_to(w.position.board, 0).map_values(f).to_multiset()
            =~= crate::solver::opt_ms(xs, 0).add(crate::solver::opt_ms(os, 0)));
    }
}

impl Position<OrderAndChaosMove, OrderAndChaosPrimitiveValue> for OrderAndChaosPositionVEq {
    open spec fn measure_spec(&self) -> nat {
        self.position.measure_spec()
    }

    open spec fn key_spec(&self) -> u64 {
        v_orbit_min_code(self.position) as u64
    }

    open spec fn moves_spec(&self) -> Seq<OrderAndChaosMove> {
        self.position.moves_spec()
    }

    open spec fn next_spec(&self, mov: OrderAndChaosMove) -> Self {
        OrderAndChaosPositionVEq { position: self.position.next_spec(mov) }
    }

    open spec fn primitive_spec(&self) -> OrderAndChaosPrimitiveValue {
        self.position.primitive_spec()
    }

    fn key(&self) -> (k: u64) {
        proof {
            reveal(v_orbit_min_code);
            lemma_code_bounds(self.position);
        }
        let p0 = self.position;
        let q1 = p0.v1();
        let q2 = p0.v2();
        let q3 = p0.v3();
        let mut k = p0.key();
        let mut k2 = q1.key();
        if k2 < k {
            k = k2;
        }
        k2 = q2.key();
        if k2 < k {
            k = k2;
        }
        k2 = q3.key();
        if k2 < k {
            k = k2;
        }
        proof {
            lemma_code_bounds(reflx_p(p0));
            lemma_code_bounds(refly_p(p0));
            lemma_code_bounds(refly_p(reflx_p(p0)));
        }
        k
    }

    fn do_move(&self, mov: OrderAndChaosMove) -> (r: Self) {
        OrderAndChaosPositionVEq { position: self.position.do_move(mov) }
    }

    fn generate_moves(&self) -> (moves: Vec<OrderAndChaosMove>) {
        self.position.generate_moves()
    }

    fn primitive_value(&self) -> (pv: OrderAndChaosPrimitiveValue) {
        self.position.primitive_value()
    }

    proof fn lemma_moves_decrease(&self) {
        self.position.lemma_moves_decrease();
        assert forall|i: int| 0 <= i < self.moves_spec().len() implies (#[trigger] self.next_spec(
            self.moves_spec()[i],
        )).measure_spec() < self.measure_spec() by {
            assert(self.position.next_spec(
                self.position.moves_spec()[i],
            ).measure_spec() < self.position.measure_spec());
        }
    }

    proof fn lemma_nonprimitive_has_moves(&self) {
        self.position.lemma_nonprimitive_has_moves();
    }

    proof fn lemma_key_sound(&self, other: &Self) {
        broadcast use vstd::seq_lib::group_to_multiset_ensures;

        let p1 = self.position;
        let p2 = other.position;
        lemma_v_orbit_min_bounds(p1);
        lemma_v_orbit_min_bounds(p2);
        assert(v_orbit_min_code(p1) == v_orbit_min_code(p2));
        lemma_canonical_props(p1);
        lemma_canonical_props(p2);
        super::lemma_position_code_injective(canonical(p1), canonical(p2));
        lemma_children_ms(*self, 9);
        lemma_children_ms(*other, 9);
        let ks1 = self.moves_spec().map_values(
            |m: OrderAndChaosMove| self.next_spec(m).key_spec(),
        );
        let ks2 = other.moves_spec().map_values(
            |m: OrderAndChaosMove| other.next_spec(m).key_spec(),
        );
        assert(ks1.to_multiset() == children_key_ms(p1));
        assert(ks2.to_multiset() == children_key_ms(p2));
        assert(ks1.to_multiset() == ks2.to_multiset());
        assert(ks1.to_multiset().len() == ks1.len());
        assert(ks2.to_multiset().len() == ks2.len());
        assert(self.measure_spec() == other.measure_spec());
    }
}

} // verus!
