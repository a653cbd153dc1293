use vstd::prelude::*;

verus! {

/// A legal transition between two positions of one game.
///
/// A move is an opaque action value: it carries whatever game-specific
/// payload (coordinates, quantity taken, piece placed) the adapter needs,
/// and is consumed by exactly one `Position::do_move` call.
pub trait PlayerMove: Sized + Copy {

}

} // verus!
