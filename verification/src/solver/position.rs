use super::PlayerMove;
use super::PrimitiveValue;
use vstd::prelude::*;

verus! {

/// The keys of all children of a position, in move-enumeration order.
pub open spec fn children_keys<P: Position<M, PV>, M: PlayerMove, PV: PrimitiveValue>(
    p: P,
) -> Seq<u64> {
    p.moves_spec().map_values(|m: M| p.next_spec(m).key_spec())
}

/// One state of a game, as the solver sees it.
///
/// A position enumerates its legal moves, applies one to obtain a child
/// position, and classifies itself as terminal or not.  Every operation is
/// pinned to a specification-level model of the game's dynamics
/// (`moves_spec`, `next_spec`, `primitive_spec`), so that the solver's
/// result can be stated as a mathematical function of the position.
///
/// A position also presents a `u64` memoization key.  The proof obligations
/// below are what make memoization by key sound:
/// - every move strictly decreases a progress measure, so the game graph is
///   acyclic and the recursion terminates (`lemma_moves_decrease`);
/// - a non-terminal position has at least one legal move
///   (`lemma_nonprimitive_has_moves`);
/// - two positions with the same key are indistinguishable to the solver:
///   same measure, same terminal classification, and the same multiset of
///   children keys (`lemma_key_sound`).  A plain adapter discharges this by
///   making the key injective; a symmetry wrapper instead proves that all
///   members of one orbit behave alike.
pub trait Position<M: PlayerMove, PV: PrimitiveValue>: Sized {
    /// A progress measure that every move strictly decreases.
    spec fn measure_spec(&self) -> nat;

    /// The memoization key of this position.
    spec fn key_spec(&self) -> u64;

    /// The legal moves, in enumeration order.
    spec fn moves_spec(&self) -> Seq<M>;

    /// The position reached by applying a legal move.
    spec fn next_spec(&self, mov: M) -> Self;

    /// The terminal classification of this position.
    spec fn primitive_spec(&self) -> PV;

    /// Computes the memoization key.
    fn key(&self) -> (k: u64)
        ensures
            k == self.key_spec(),
    ;

    /// Applies a legal move, returning the child position; the receiver is
    /// not mutated.
    fn do_move(&self, mov: M) -> (r: Self)
        requires
            self.moves_spec().contains(mov),
        ensures
            r == self.next_spec(mov),
    ;

    /// Enumerates the legal moves.
    fn generate_moves(&self) -> (moves: Vec<M>)
        ensures
            moves@ == self.moves_spec(),
    ;

    /// Classifies this position as a definite outcome or "not primitive".
    fn primitive_value(&self) -> (pv: PV)
        ensures
            pv == self.primitive_spec(),
    ;

    /// Every legal move strictly advances the game: the child's measure is
    /// below the parent's.
    proof fn lemma_moves_decrease(&self)
        ensures
            forall|i: int|
                0 <= i < self.moves_spec().len() ==> (#[trigger] self.next_spec(
                    self.moves_spec()[i],
                )).measure_spec() < self.measure_spec(),
    ;

    /// A position that is not primitive has at least one legal move.
    proof fn lemma_nonprimitive_has_moves(&self)
        ensures
            !self.primitive_spec().is_primitive_spec() ==> self.moves_spec().len() > 0,
    ;

    /// Two positions with equal keys present the same game to the solver.
    proof fn lemma_key_sound(&self, other: &Self)
        requires
            self.key_spec() == other.key_spec(),
        ensures
            self.measure_spec() == other.measure_spec(),
            self.primitive_spec() == other.primitive_spec(),
            self.moves_spec().map_values(|m: M| self.next_spec(m).key_spec()).to_multiset()
                == other.moves_spec().map_values(|m: M| other.next_spec(m).key_spec()).to_multiset(),
    ;
}

} // verus!
