mod permutations;
mod player_move;
mod position;
mod primitive_value;
mod recursive_value;

pub use self::permutations::lemma_filter_multiset_commute;
pub use self::permutations::lemma_opt_ms_count;
pub use self::permutations::opt_count;
pub use self::permutations::opt_ms;
pub use self::permutations::lemma_filter_to_multiset;
pub use self::permutations::lemma_map_values_to_multiset;
pub use self::player_move::PlayerMove;
pub use self::position::children_keys;
pub use self::position::Position;
pub use self::primitive_value::PrimitiveValue;
pub use self::recursive_value::GameResult;
pub use self::recursive_value::GameResultWithRemoteness;
pub use self::recursive_value::GameResultWithRmt;
pub use self::recursive_value::RemotenessU32;
pub use self::recursive_value::RmtU32;
pub use self::recursive_value::RecursiveValue;
pub use self::recursive_value::ToRecursiveValue;

use std::collections::HashMap;
use std::marker::PhantomData;
use vstd::prelude::*;

verus! {

/// The values of the first `n` children of `p`, in move-enumeration order.
pub open spec fn child_values<
    P: Position<M, PV>,
    M: PlayerMove,
    PV: PrimitiveValue + ToRecursiveValue<RV>,
    RV: RecursiveValue,
>(p: P, n: int) -> Seq<RV>
    decreases p.measure_spec(), n, 0nat,
        when 0 <= n <= p.moves_spec().len()
        via child_values_decreases::<P, M, PV, RV>
{
    if n <= 0 {
        Seq::<RV>::empty()
    } else {
        child_values::<P, M, PV, RV>(p, n - 1).push(
            game_value::<P, M, PV, RV>(p.next_spec(p.moves_spec()[n - 1])),
        )
    }
}

#[via_fn]
proof fn child_values_decreases<
    P: Position<M, PV>,
    M: PlayerMove,
    PV: PrimitiveValue + ToRecursiveValue<RV>,
    RV: RecursiveValue,
>(p: P, n: int) {
    if n > 0 {
        p.lemma_moves_decrease();
    }
}

/// The game-theoretic value of a position: the value derived from its
/// terminal classification when that classification is definite, and
/// otherwise the aggregation of the recursively defined values of all its
/// children.  `Solver::solve` computes exactly this function.
pub open spec fn game_value<
    P: Position<M, PV>,
    M: PlayerMove,
    PV: PrimitiveValue + ToRecursiveValue<RV>,
    RV: RecursiveValue,
>(p: P) -> RV
    decreases p.measure_spec(), p.moves_spec().len(), 1nat,
{
    match p.primitive_spec().to_recursive_value_spec() {
        Option::Some(v) => v,
        Option::None => RV::step_spec(
            child_values::<P, M, PV, RV>(p, p.moves_spec().len() as int),
        ),
    }
}

/// The length and the elements of `child_values`.
pub proof fn lemma_child_values_props<
    P: Position<M, PV>,
    M: PlayerMove,
    PV: PrimitiveValue + ToRecursiveValue<RV>,
    RV: RecursiveValue,
>(p: P, n: int)
    requires
        0 <= n <= p.moves_spec().len(),
    ensures
        child_values::<P, M, PV, RV>(p, n).len() == n,
        forall|i: int|
            0 <= i < n ==> #[trigger] child_values::<P, M, PV, RV>(p, n)[i] == game_value::<
                P,
                M,
                PV,
                RV,
            >(p.next_spec(p.moves_spec()[i])),
    decreases n,
{
    if n > 0 {
        lemma_child_values_props::<P, M, PV, RV>(p, n - 1);
    }
}

/// The law that makes memoization by key sound: two positions with the same
/// key have the same game value.  Terminal agreement comes straight from
/// `Position::lemma_key_sound`; for non-terminal positions the children's
/// key multisets agree, so by induction over the progress measure the
/// children's value multisets agree, and an order-insensitive aggregation
/// rule yields the same parent value.
pub proof fn lemma_key_determines_value<
    P: Position<M, PV>,
    M: PlayerMove,
    PV: PrimitiveValue + ToRecursiveValue<RV>,
    RV: RecursiveValue,
>(p: P, q: P)
    requires
        p.key_spec() == q.key_spec(),
    ensures
        game_value::<P, M, PV, RV>(p) == game_value::<P, M, PV, RV>(q),
    decreases p.measure_spec(),
{
    broadcast use vstd::seq_lib::group_to_multiset_ensures;

    p.lemma_key_sound(&q);
    let pvp = p.primitive_spec();
    match pvp.to_recursive_value_spec() {
        Option::Some(v) => {
        },
        Option::None => {
            p.lemma_moves_decrease();
            let np = p.moves_spec().len() as int;
            let nq = q.moves_spec().len() as int;
            lemma_child_values_props::<P, M, PV, RV>(p, np);
            lemma_child_values_props::<P, M, PV, RV>(q, nq);
            let ksp = children_keys(p);
            let ksq = children_keys(q);
            let f = |k: u64| game_value::<P, M, PV, RV>(choose|x: P| x.key_spec() == k);
            assert forall|i: int| 0 <= i < np implies #[trigger] child_values::<P, M, PV, RV>(
                p,
                np,
            )[i] == f(ksp[i]) by {
                let c = p.next_spec(p.moves_spec()[i]);
                assert(ksp[i] == c.key_spec());
                assert(exists|x: P| x.key_spec() == ksp[i]) by {
                    assert(c.key_spec() == ksp[i]);
                }
                let w = choose|x: P| x.key_spec() == ksp[i];
                lemma_key_determines_value::<P, M, PV, RV>(c, w);
            }
            assert forall|i: int| 0 <= i < nq implies #[trigger] child_values::<P, M, PV, RV>(
                q,
                nq,
            )[i] == f(ksq[i]) by {
                let cq = q.next_spec(q.moves_spec()[i]);
                assert(ksq[i] == cq.key_spec());
                assert(ksq.contains(ksq[i]));
                assert(ksq.to_multiset().count(ksq[i]) > 0);
                assert(ksp.contains(ksq[i]));
                let t = choose|t: int| 0 <= t < ksp.len() && ksp[t] == ksq[i];
                let cp = p.next_spec(p.moves_spec()[t]);
                assert(ksp[t] == cp.key_spec());
                assert(exists|x: P| x.key_spec() == ksq[i]) by {
                    assert(cq.key_spec() == ksq[i]);
                }
                let w = choose|x: P| x.key_spec() == ksq[i];
                lemma_key_determines_value::<P, M, PV, RV>(cp, w);
                lemma_key_determines_value::<P, M, PV, RV>(cp, cq);
            }
            assert(child_values::<P, M, PV, RV>(p, np) =~= ksp.map_values(f));
            assert(child_values::<P, M, PV, RV>(q, nq) =~= ksq.map_values(f));
            lemma_map_values_to_multiset(ksp, ksq, f);
            RV::lemma_step_permutation(
                child_values::<P, M, PV, RV>(p, np),
                child_values::<P, M, PV, RV>(q, nq),
            );
        },
    }
}

/// Law: the solver is deterministic.  `Solver::solve` is pinned to the
/// mathematical function `game_value`, so two calls on equal positions
/// return equal values, whether they are served by one solver instance's
/// table, by two distinct solvers, or computed afresh.
pub proof fn lemma_solve_deterministic<
    P: Position<M, PV>,
    M: PlayerMove,
    PV: PrimitiveValue + ToRecursiveValue<RV>,
    RV: RecursiveValue,
>(p: P, q: P, r1: RV, r2: RV)
    requires
        p == q,
        r1 == game_value::<P, M, PV, RV>(p),
        r2 == game_value::<P, M, PV, RV>(q),
    ensures
        r1 == r2,
{
}

/// Law: terminal agreement.  A position whose terminal classification is
/// definite has exactly the value derived from that classification; no
/// child contributes.
pub proof fn lemma_terminal_agreement<
    P: Position<M, PV>,
    M: PlayerMove,
    PV: PrimitiveValue + ToRecursiveValue<RV>,
    RV: RecursiveValue,
>(p: P, v: RV)
    requires
        p.primitive_spec().to_recursive_value_spec() == Some(v),
    ensures
        game_value::<P, M, PV, RV>(p) == v,
{
}

/// Law: aggregation correctness.  A position whose terminal classification
/// is not definite has exactly the aggregation of all its children's
/// values, in move-enumeration order.
pub proof fn lemma_aggregation<
    P: Position<M, PV>,
    M: PlayerMove,
    PV: PrimitiveValue + ToRecursiveValue<RV>,
    RV: RecursiveValue,
>(p: P)
    requires
        p.primitive_spec().to_recursive_value_spec() is None,
    ensures
        game_value::<P, M, PV, RV>(p) == RV::step_spec(
            child_values::<P, M, PV, RV>(p, p.moves_spec().len() as int),
        ),
        forall|i: int|
            0 <= i < p.moves_spec().len() ==> #[trigger] child_values::<P, M, PV, RV>(
                p,
                p.moves_spec().len() as int,
            )[i] == game_value::<P, M, PV, RV>(p.next_spec(p.moves_spec()[i])),
{
    lemma_child_values_props::<P, M, PV, RV>(p, p.moves_spec().len() as int);
}

/// The memo table: already solved positions together with their values.
///
/// `entries` holds the solved positions in insertion order; `index` maps a
/// position's memoization key to its slot in `entries`.  Keys are unique,
/// nothing is ever evicted, and once a key is present its value is final.
#[derive(Debug)]
pub struct MemoTable<P, RV> {
    /// Memoization key of each stored position, mapped to its slot in
    /// `entries`.
    pub index: HashMap<u64, usize>,
    /// The solved positions, each with its value, in insertion order.
    pub entries: Vec<(P, RV)>,
}

/// The structural invariant of a memo table: `index` and `entries` describe
/// each other, and no two entries share a key.
pub open spec fn table_linked<
    P: Position<M, PV>,
    M: PlayerMove,
    PV: PrimitiveValue,
    RV,
>(t: MemoTable<P, RV>) -> bool {
    &&& forall|k: u64| #[trigger]
        t.index@.contains_key(k) ==> t.index@[k] < t.entries@.len()
            && t.entries@[t.index@[k] as int].0.key_spec() == k
    &&& forall|j: int|
        0 <= j < t.entries@.len() ==> {
            let k = (#[trigger] t.entries@[j]).0.key_spec();
            t.index@.contains_key(k) && t.index@[k] == j
        }
}

/// A memo table is sound when it is linked and every stored value is the
/// game value of its stored position.
pub open spec fn table_sound<
    P: Position<M, PV>,
    M: PlayerMove,
    PV: PrimitiveValue + ToRecursiveValue<RV>,
    RV: RecursiveValue,
>(t: MemoTable<P, RV>) -> bool {
    &&& table_linked::<P, M, PV, RV>(t)
    &&& forall|j: int|
        0 <= j < t.entries@.len() ==> (#[trigger] t.entries@[j]).1 == game_value::<P, M, PV, RV>(
            t.entries@[j].0,
        )
}

impl<P, RV> MemoTable<P, RV> {
    /// An empty memo table.
    pub fn new() -> (t: Self)
        ensures
            t.index@ == Map::<u64, usize>::empty(),
            t.entries@ == Seq::<(P, RV)>::empty(),
    {
        MemoTable { index: HashMap::new(), entries: Vec::new() }
    }

    /// The number of solved positions stored.
    pub fn len(&self) -> (n: usize)
        ensures
            n == self.entries@.len(),
    {
        self.entries.len()
    }

    /// The stored position and value in slot `i`, in insertion order.
    pub fn entry(&self, i: usize) -> (e: &(P, RV))
        requires
            i < self.entries@.len(),
        ensures
            *e == self.entries@[i as int],
    {
        &self.entries[i]
    }
}

/// The memoized search engine.
///
/// A solver owns one memo table exclusively.  `solve` returns the game
/// value of any position handed to it, consulting the table before
/// expanding and recording every newly computed result.
#[derive(Debug)]
pub struct Solver<P, M, PV, RV> where
    P: Position<M, PV>,
    M: PlayerMove,
    PV: PrimitiveValue + ToRecursiveValue<RV>,
    RV: RecursiveValue,
{
    /// The memo table, which outlives every position handed to `solve`.
    pub table: MemoTable<P, RV>,
    /// How many positions have been expanded (solved other than by a memo
    /// hit) since construction; saturates instead of overflowing.
    pub expansions: u64,
    pub _phantom_m: PhantomData<M>,
    pub _phantom_pv: PhantomData<PV>,
}

impl<P, M, PV, RV> Solver<P, M, PV, RV> where
    P: Position<M, PV>,
    M: PlayerMove,
    PV: PrimitiveValue + ToRecursiveValue<RV>,
    RV: RecursiveValue,
{
    /// The solver's invariant: its memo table is sound.
    pub open spec fn wf(self) -> bool {
        table_sound::<P, M, PV, RV>(self.table)
    }

    /// Builds a solver around a memo table, most often an empty one; a
    /// table taken from an earlier solver of the same game pre-seeds the
    /// search.
    pub fn new(table: MemoTable<P, RV>) -> (s: Self)
        requires
            table_sound::<P, M, PV, RV>(table),
        ensures
            s.wf(),
            s.table == table,
            s.expansions == 0,
    {
        Solver { table, expansions: 0, _phantom_m: PhantomData, _phantom_pv: PhantomData }
    }

    /// All children of a position, in move-enumeration order.
    fn children(&self, position: &P) -> (kids: Vec<P>)
        ensures
            kids@.len() == position.moves_spec().len(),
            forall|i: int|
                0 <= i < kids@.len() ==> kids@[i] == position.next_spec(position.moves_spec()[i]),
    {
        let moves = position.generate_moves();
        let mut kids: Vec<P> = Vec::new();
        let mut i: usize = 0;
        while i < moves.len()
            invariant
                moves@ == position.moves_spec(),
                0 <= i <= moves@.len(),
                kids@.len() == i,
                forall|t: int| 0 <= t < i ==> kids@[t] == position.next_spec(moves@[t]),
            decreases moves@.len() - i,
        {
            let mov = moves[i];
            proof {
                assert(position.moves_spec()[i as int] == mov);
            }
            kids.push(position.do_move(mov));
            i = i + 1;
        }
        kids
    }

    /// Solves a position that is not yet memoized: derives the value
    /// directly when the position is terminal, and otherwise solves every
    /// child and aggregates.
    fn solve_not_memoized(&mut self, position: &P) -> (r: RV)
        requires
            old(self).wf(),
        ensures
            final(self).wf(),
            r == game_value::<P, M, PV, RV>(*position),
            old(self).table.entries@.len() <= final(self).table.entries@.len(),
            forall|j: int|
                0 <= j < old(self).table.entries@.len() ==> final(self).table.entries@[j] == old(
                    self,
                ).table.entries@[j],
            forall|k: u64| #[trigger]
                old(self).table.index@.contains_key(k) ==> final(self).table.index@.contains_key(k)
                    && final(self).table.index@[k] == old(self).table.index@[k],
            forall|j: int|
                old(self).table.entries@.len() <= j < final(self).table.entries@.len() ==> (
                #[trigger] final(self).table.entries@[j]).0.measure_spec() < position.measure_spec(),
        decreases position.measure_spec(), 0nat,
    {
        let pv = position.primitive_value();
        let direct = pv.to_recursive_value();
        if let Some(result) = direct {
            return result;
        }
        proof {
            pv.lemma_to_recursive_value_primitive();
            position.lemma_nonprimitive_has_moves();
            position.lemma_moves_decrease();
        }
        let mut remaining = self.children(position);
        let ghost kids0 = remaining@;
        let mut results: Vec<RV> = Vec::new();
        while remaining.len() > 0
            invariant
                self.wf(),
                results@.len() + remaining@.len() == kids0.len(),
                remaining@ == kids0.skip(results@.len() as int),
                kids0.len() == position.moves_spec().len(),
                forall|t: int|
                    0 <= t < kids0.len() ==> kids0[t] == position.next_spec(
                        position.moves_spec()[t],
                    ),
                forall|t: int|
                    0 <= t < results@.len() ==> results@[t] == game_value::<P, M, PV, RV>(
                        kids0[t],
                    ),
                forall|i: int|
                    0 <= i < position.moves_spec().len() ==> (#[trigger] position.next_spec(
                        position.moves_spec()[i],
                    )).measure_spec() < position.measure_spec(),
                old(self).table.entries@.len() <= self.table.entries@.len(),
                forall|j: int|
                    0 <= j < old(self).table.entries@.len() ==> self.table.entries@[j] == old(
                        self,
                    ).table.entries@[j],
                forall|k: u64| #[trigger]
                    old(self).table.index@.contains_key(k) ==> self.table.index@.contains_key(k)
                        && self.table.index@[k] == old(self).table.index@[k],
                forall|j: int|
                    old(self).table.entries@.len() <= j < self.table.entries@.len() ==> (
                    #[trigger] self.table.entries@[j]).0.measure_spec()
                        < position.measure_spec(),
            decreases remaining@.len(),
        {
            let ghost done = results@.len() as int;
            let child = remaining.remove(0);
            proof {
                assert(child == kids0[done]);
            }
            let r = self.solve(child);
            results.push(r);
        }
        proof {
            let n = position.moves_spec().len() as int;
            lemma_child_values_props::<P, M, PV, RV>(*position, n);
            assert(child_values::<P, M, PV, RV>(*position, n) =~= results@);
        }
        RV::recursion_step(results.as_slice())
    }

    /// Returns the game value of `position`.
    ///
    /// A position whose key is already memoized is answered from the table,
    /// without recomputation and without touching the solver's state.
    /// Otherwise the position is expanded, and the computed value is stored
    /// under its key before being returned; stored entries are never
    /// changed or evicted afterwards.
    pub fn solve(&mut self, position: P) -> (r: RV)
        requires
            old(self).wf(),
        ensures
            final(self).wf(),
            r == game_value::<P, M, PV, RV>(position),
            final(self).table.index@.contains_key(position.key_spec()),
            final(self).table.entries@[final(self).table.index@[position.key_spec()] as int].1 == r,
            old(self).table.entries@.len() <= final(self).table.entries@.len(),
            forall|j: int|
                0 <= j < old(self).table.entries@.len() ==> final(self).table.entries@[j] == old(
                    self,
                ).table.entries@[j],
            forall|k: u64| #[trigger]
                old(self).table.index@.contains_key(k) ==> final(self).table.index@.contains_key(k)
                    && final(self).table.index@[k] == old(self).table.index@[k],
            forall|j: int|
                old(self).table.entries@.len() <= j < final(self).table.entries@.len() ==> (
                #[trigger] final(self).table.entries@[j]).0.measure_spec() <= position.measure_spec(),
            old(self).table.index@.contains_key(position.key_spec()) ==> *final(self) == *old(self),
        decreases position.measure_spec(), 1nat,
    {
        broadcast use vstd::std_specs::hash::group_hash_axioms;

        let k = position.key();
        let cached: Option<usize> = match self.table.index.get(&k) {
            Some(j) => Some(*j),
            None => None,
        };
        if let Some(j) = cached {
            let e = &self.table.entries[j];
            proof {
                let ghost stored = self.table.entries@[j as int].0;
                lemma_key_determines_value::<P, M, PV, RV>(stored, position);
            }
            return e.1;
        }
        let result = self.solve_not_memoized(&position);
        self.expansions = if self.expansions < u64::MAX {
            self.expansions + 1
        } else {
            self.expansions
        };
        proof {
            assert(!self.table.index@.contains_key(k)) by {
                if self.table.index@.contains_key(k) {
                    let j2 = self.table.index@[k] as int;
                    if j2 < old(self).table.entries@.len() {
                        assert(self.table.entries@[j2] == old(self).table.entries@[j2]);
                        assert(old(self).table.index@.contains_key(k));
                    } else {
                        let ghost stored = self.table.entries@[j2].0;
                        stored.lemma_key_sound(&position);
                    }
                }
            }
        }
        let idx = self.table.entries.len();
        self.table.index.insert(k, idx);
        self.table.entries.push((position, result));
        proof {
            let t = self.table;
            assert forall|k2: u64| #[trigger] t.index@.contains_key(k2) implies t.index@[k2]
                < t.entries@.len() && t.entries@[t.index@[k2] as int].0.key_spec() == k2 by {
            }
            assert forall|j2: int| 0 <= j2 < t.entries@.len() implies {
                let k2 = (#[trigger] t.entries@[j2]).0.key_spec();
                t.index@.contains_key(k2) && t.index@[k2] == j2
            } by {
                if j2 < idx {
                    assert(t.entries@[j2].0.key_spec() != k);
                }
            }
        }
        result
    }
}

} // verus!
