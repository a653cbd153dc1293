mod game_result;
mod game_result_with_remoteness;
mod game_result_with_rmt;

pub use game_result::GameResult;
pub use game_result_with_remoteness::GameResultWithRemoteness;
pub use game_result_with_remoteness::RemotenessU32;
pub use game_result_with_rmt::GameResultWithRmt;
pub use game_result_with_rmt::RmtU32;

use super::PrimitiveValue;
use vstd::prelude::*;

verus! {

/// The solver's per-position result type, defined recursively over children.
///
/// A recursive value can be aggregated: `recursion_step` folds the already
/// solved children's values of a non-terminal position into the parent's
/// value.  The fold is a pure function of the children's values
/// (`step_spec`), and it may not depend on the order in which the children
/// were enumerated (`lemma_step_permutation`); the latter is what lets the
/// solver reuse a memoized result for any position whose children agree with
/// the stored one's up to reordering, as happens under symmetry folding.
pub trait RecursiveValue: Sized + Copy {
    /// The aggregation rule: the parent's value as a function of the
    /// children's values.
    spec fn step_spec(children: Seq<Self>) -> Self;

    /// The aggregation rule does not depend on the order of the children:
    /// two child lists with the same multiset of values aggregate to the
    /// same parent value.
    proof fn lemma_step_permutation(c1: Seq<Self>, c2: Seq<Self>)
        requires
            c1.to_multiset() == c2.to_multiset(),
        ensures
            Self::step_spec(c1) == Self::step_spec(c2),
    ;

    /// Folds a non-empty list of children's values into the parent's value.
    fn recursion_step(children: &[Self]) -> (r: Self)
        requires
            children@.len() > 0,
        ensures
            r == Self::step_spec(children@),
    ;
}

/// Conversion from a terminal classification into a recursive value.
///
/// `to_recursive_value` returns a value exactly when the classification is
/// definite; for "not primitive" it returns `None` and the solver aggregates
/// the children instead.
pub trait ToRecursiveValue<RV: RecursiveValue>: PrimitiveValue {
    /// The recursive value derived from this classification, if definite.
    spec fn to_recursive_value_spec(&self) -> Option<RV>;

    /// A classification yields a recursive value if and only if it is
    /// definite.
    proof fn lemma_to_recursive_value_primitive(&self)
        ensures
            self.to_recursive_value_spec() is Some <==> self.is_primitive_spec(),
    ;

    /// Derives the recursive value of a definite classification.
    fn to_recursive_value(&self) -> (r: Option<RV>)
        ensures
            r == self.to_recursive_value_spec(),
    ;
}

} // verus!
