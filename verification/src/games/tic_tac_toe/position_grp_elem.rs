use super::cell_at;
use super::moves_up_to;
use super::position_d4_eq::canonical;
use super::position_d4_eq::child_key_at;
use super::position_d4_eq::lemma_canonical_props;
use super::position_d4_eq::lemma_code_bounds;
use super::position_d4_eq::lemma_orbit_min_bounds;
use super::position_d4_eq::orbit_min_code;
use super::position_d4_eq::refl_p;
use super::position_d4_eq::rot_p;
use super::position_d4_eq::slot_keys;
use super::TicTacToeMove;
use super::TicTacToePosition;
use super::TicTacToePrimitiveValue;
use crate::solver::Position;
use crate::solver::PrimitiveValue;
use vstd::prelude::*;

verus! {

/// A tic-tac-toe position treated as an element of its symmetry orbit: like
/// `TicTacToePositionD4Eq`, it is keyed by the least code among the eight
/// group images, so the solver memoizes one entry per orbit.
pub struct TicTacToePositionGrpElem {
    pub position: TicTacToePosition,
}

/// The children's keys of a wrapped position, scanning the first `n` cells,
/// agree with the keys the slot sequence gives.
proof fn lemma_children_ms(w: TicTacToePositionGrpElem, n: int)
    requires
        0 <= n <= 9,
    ensures
        moves_up_to(w.position.board, n).map_values(
            |m: TicTacToeMove| w.next_spec(m).key_spec(),
        ).to_multiset() == crate::solver::opt_ms(slot_keys(w.position), n),
    decreases n,
{
    broadcast use vstd::seq_lib::group_to_multiset_ensures;
    broadcast use vstd::seq::Seq::lemma_push_map_commute;

    reveal(child_key_at);
    let f = |m: TicTacToeMove| w.next_spec(m).key_spec();
    if n > 0 {
        lemma_children_ms(w, n - 1);
        let prev = moves_up_to(w.position.board, n - 1);
        if cell_at(w.position.board, n - 1) is None {
            let m = TicTacToeMove { x: ((n - 1) / 3) as usize, y: ((n - 1) % 3) as usize };
            assert(moves_up_to(w.position.board, n) == prev.push(m));
            assert(m.x as int == (n - 1) / 3 && m.y as int == (n - 1) % 3);
            assert(f(m) == child_key_at(w.position, n - 1));
            assert(prev.push(m).map_values(f) =~= prev.map_values(f).push(f(m)));
        }
    } else {
        assert(moves_up_to(w.position.board, 0).map_values(f).to_multiset()
            =~= crate::solver::opt_ms(slot_keys(w.position), 0));
    }
}

/// Law: symmetry soundness.  A position and any image of it under the
/// square's symmetry group receive the same memoization key from this
/// wrapper; the orbit key is the one `TicTacToePositionD4Eq` uses, so the
/// generators' invariance carries over unchanged.
pub proof fn lemma_symmetric_keys_equal(p: TicTacToePosition)
    ensures
        (TicTacToePositionGrpElem { position: rot_p(p) }).key_spec()
            == (TicTacToePositionGrpElem { position: p }).key_spec(),
        (TicTacToePositionGrpElem { position: refl_p(p) }).key_spec()
            == (TicTacToePositionGrpElem { position: p }).key_spec(),
{
    super::position_d4_eq::lemma_symmetric_keys_equal(p);
}

impl Position<TicTacToeMove, TicTacToePrimitiveValue> for TicTacToePositionGrpElem {
    open spec fn measure_spec(&self) -> nat {
        self.position.measure_spec()
    }

    open spec fn key_spec(&self) -> u64 {
        orbit_min_code(self.position) as u64
    }

    open spec fn moves_spec(&self) -> Seq<TicTacToeMove> {
        self.position.moves_spec()
    }

    open spec fn next_spec(&self, mov: TicTacToeMove) -> Self {
        TicTacToePositionGrpElem { position: self.position.next_spec(mov) }
    }

    open spec fn primitive_spec(&self) -> TicTacToePrimitiveValue {
        self.position.primitive_spec()
    }

    fn key(&self) -> (k: u64) {
        proof {
            reveal(orbit_min_code);
            lemma_code_bounds(self.position);
        }
        let p0 = self.position;
        let p1 = p0.r1();
        let p2 = p0.r2();
        let p3 = p0.r3();
        let s0 = p0.s();
        let s1 = p0.sr1();
        let s2 = p0.sr2();
        let s3 = p0.sr3();
        let mut k = p0.key();
        let mut k2 = p1.key();
        if k2 < k {
            k = k2;
        }
        k2 = p2.key();
        if k2 < k {
            k = k2;
        }
        k2 = p3.key();
        if k2 < k {
            k = k2;
        }
        k2 = s0.key();
        if k2 < k {
            k = k2;
        }
        k2 = s1.key();
        if k2 < k {
            k = k2;
        }
        k2 = s2.key();
        if k2 < k {
            k = k2;
        }
        k2 = s3.key();
        if k2 < k {
            k = k2;
        }
        proof {
            lemma_code_bounds(rot_p(p0));
            lemma_code_bounds(rot_p(rot_p(p0)));
            lemma_code_bounds(rot_p(rot_p(rot_p(p0))));
            lemma_code_bounds(refl_p(p0));
            lemma_code_bounds(refl_p(rot_p(p0)));
            lemma_code_bounds(refl_p(rot_p(rot_p(p0))));
            lemma_code_bounds(refl_p(rot_p(rot_p(rot_p(p0)))));
        }
        k
    }

    fn do_move(&self, mov: TicTacToeMove) -> (r: Self) {
        TicTacToePositionGrpElem { position: self.position.do_move(mov) }
    }

    fn generate_moves(&self) -> (moves: Vec<TicTacToeMove>) {
        self.position.generate_moves()
    }

    fn primitive_value(&self) -> (pv: TicTacToePrimitiveValue) {
        self.position.primitive_value()
    }

    proof fn lemma_moves_decrease(&self) {
        self.position.lemma_moves_decrease();
        assert forall|i: int| 0 <= i < self.moves_spec().len() implies (#[trigger] self.next_spec(
            self.moves_spec()[i],
        )).measure_spec() < self.measure_spec() by {
            assert(self.position.next_spec(
                self.position.moves_spec()[i],
            ).measure_spec() < self.position.measure_spec());
        }
    }

    proof fn lemma_nonprimitive_has_moves(&self) {
        self.position.lemma_nonprimitive_has_moves();
    }

    proof fn lemma_key_sound(&self, other: &Self) {
        broadcast use vstd::seq_lib::group_to_multiset_ensures;

        let p1 = self.position;
        let p2 = other.position;
        lemma_orbit_min_bounds(p1);
        lemma_orbit_min_bounds(p2);
        assert(orbit_min_code(p1) == orbit_min_code(p2));
        lemma_canonical_props(p1);
        lemma_canonical_props(p2);
        super::lemma_position_code_injective(canonical(p1), canonical(p2));
        lemma_children_ms(*self, 9);
        lemma_children_ms(*other, 9);
        let ks1 = self.moves_spec().map_values(|m: TicTacToeMove| self.next_spec(m).key_spec());
        let ks2 = other.moves_spec().map_values(|m: TicTacToeMove| other.next_spec(m).key_spec());
        assert(ks1.to_multiset() == crate::solver::opt_ms(slot_keys(p1), 9));
        assert(ks2.to_multiset() == crate::solver::opt_ms(slot_keys(p2), 9));
        assert(ks1.to_multiset() == ks2.to_multiset());
        assert(ks1.to_multiset().len() == ks1.len());
        assert(ks2.to_multiset().len() == ks2.len());
        assert(self.measure_spec() == other.measure_spec());
    }
}

} // verus!
