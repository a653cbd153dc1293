use vstd::prelude::*;

verus! {

/// A terminal classification: a position's immediate, non-recursive outcome.
///
/// A value of an implementing type either is a definite outcome (the game
/// ends at the position that produced it) or says "not primitive" (the game
/// continues).  It is computed purely from a position's own fields and is
/// never itself recursive.
pub trait PrimitiveValue: Sized {
    /// Whether this classification is definite, that is, whether the
    /// position it was computed from ends the game.
    spec fn is_primitive_spec(&self) -> bool;

    /// Reports whether the classification is definite.
    fn is_primitive(&self) -> (r: bool)
        ensures
            r == self.is_primitive_spec(),
    ;
}

} // verus!
