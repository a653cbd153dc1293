use super::GameResult;
use super::RecursiveValue;
use crate::solver::lemma_filter_to_multiset;
use crate::solver::lemma_map_values_to_multiset;
use vstd::prelude::*;

verus! {

/// A distance to the end of the game: a number of moves, or the sentinel
/// `Inf`, which is greater than every finite value.
#[derive(Debug, PartialEq, Eq, PartialOrd, Ord, Structural, Clone, Copy)]
pub enum RmtU32 {
    Val(u32),
    Inf,
}

/// The order on remoteness values: finite values by magnitude, and `Inf`
/// above all of them.
pub open spec fn rmt_le(a: RmtU32, b: RmtU32) -> bool {
    match (a, b) {
        (RmtU32::Val(x), RmtU32::Val(y)) => x <= y,
        (RmtU32::Val(_), RmtU32::Inf) => true,
        (RmtU32::Inf, RmtU32::Val(_)) => false,
        (RmtU32::Inf, RmtU32::Inf) => true,
    }
}

/// The smaller of two remoteness values.
pub open spec fn rmt_min(a: RmtU32, b: RmtU32) -> RmtU32 {
    if rmt_le(a, b) {
        a
    } else {
        b
    }
}

/// The larger of two remoteness values.
pub open spec fn rmt_max(a: RmtU32, b: RmtU32) -> RmtU32 {
    if rmt_le(a, b) {
        b
    } else {
        a
    }
}

/// The least remoteness in a sequence; `Inf` for the empty sequence.
pub open spec fn seq_rmt_min(s: Seq<RmtU32>) -> RmtU32
    decreases s.len(),
{
    if s.len() == 0 {
        RmtU32::Inf
    } else {
        rmt_min(seq_rmt_min(s.drop_last()), s.last())
    }
}

/// The greatest remoteness in a sequence; `Val(0)` for the empty sequence.
pub open spec fn seq_rmt_max(s: Seq<RmtU32>) -> RmtU32
    decreases s.len(),
{
    if s.len() == 0 {
        RmtU32::Val(0)
    } else {
        rmt_max(seq_rmt_max(s.drop_last()), s.last())
    }
}

impl RmtU32 {
    /// The successor of a rmt: one more move.  `Inf` stays `Inf`,
    /// and a finite value at the top of the `u32` range saturates to `Inf`.
    pub open spec fn increment_spec(self) -> RmtU32 {
        match self {
            RmtU32::Val(v) => if v < u32::MAX {
                RmtU32::Val((v + 1) as u32)
            } else {
                RmtU32::Inf
            },
            RmtU32::Inf => RmtU32::Inf,
        }
    }

    /// The infinite sentinel.
    pub fn inf() -> (r: Self)
        ensures
            r == RmtU32::Inf,
    {
        RmtU32::Inf
    }

    /// Whether this is the infinite sentinel.
    pub fn is_inf(&self) -> (r: bool)
        ensures
            r == (*self is Inf),
    {
        match self {
            RmtU32::Val(_) => false,
            RmtU32::Inf => true,
        }
    }

    /// One more move than this remoteness.
    pub fn increment(&self) -> (r: Self)
        ensures
            r == self.increment_spec(),
    {
        match self {
            RmtU32::Val(v) => {
                if *v < u32::MAX {
                    RmtU32::Val(*v + 1)
                } else {
                    RmtU32::Inf
                }
            },
            RmtU32::Inf => RmtU32::Inf,
        }
    }
}

/// The smaller of two remoteness values.
fn rmt_min_exec(a: RmtU32, b: RmtU32) -> (r: RmtU32)
    ensures
        r == rmt_min(a, b),
{
    match (a, b) {
        (RmtU32::Val(x), RmtU32::Val(y)) => if x <= y {
            a
        } else {
            b
        },
        (RmtU32::Val(_), RmtU32::Inf) => a,
        (RmtU32::Inf, _) => b,
    }
}

/// The larger of two remoteness values.
fn rmt_max_exec(a: RmtU32, b: RmtU32) -> (r: RmtU32)
    ensures
        r == rmt_max(a, b),
{
    match (a, b) {
        (RmtU32::Val(x), RmtU32::Val(y)) => if x <= y {
            b
        } else {
            a
        },
        (RmtU32::Val(_), RmtU32::Inf) => b,
        (RmtU32::Inf, _) => a,
    }
}

/// An outcome together with its rmt: the length of the shortest
/// length of the shortest forcing line of play that realizes the outcome.
#[derive(Debug, PartialEq, Eq, Structural, Clone, Copy)]
pub struct GameResultWithRmt {
    pub game_result: GameResult,
    pub rmt: RmtU32,
}

/// The predicate selecting children whose outcome is `keep`.
pub open spec fn outcome_is(keep: GameResult) -> spec_fn(GameResultWithRmt) -> bool {
    |c: GameResultWithRmt| c.game_result == keep
}

/// The projection onto the remoteness component.
pub open spec fn rmt_field() -> spec_fn(GameResultWithRmt) -> RmtU32 {
    |c: GameResultWithRmt| c.rmt
}

/// The projection onto the outcome component.
pub open spec fn outcome_field() -> spec_fn(GameResultWithRmt) -> GameResult {
    |c: GameResultWithRmt| c.game_result
}

/// The remoteness values of the children whose outcome is `keep`.
pub open spec fn rmts_with(
    children: Seq<GameResultWithRmt>,
    keep: GameResult,
) -> Seq<RmtU32> {
    children.filter(outcome_is(keep)).map_values(rmt_field())
}

/// `seq_rmt_min` returns a member of a non-empty sequence, and a
/// lower bound of every member.
proof fn lemma_seq_rmt_min_props(s: Seq<RmtU32>)
    ensures
        s.len() > 0 ==> s.contains(seq_rmt_min(s)),
        forall|i: int| 0 <= i < s.len() ==> rmt_le(seq_rmt_min(s), #[trigger] s[i]),
    decreases s.len(),
{
    if s.len() > 0 {
        let t = s.drop_last();
        lemma_seq_rmt_min_props(t);
        let m = seq_rmt_min(s);
        let mt = seq_rmt_min(t);
        if m == s.last() {
            assert(s[s.len() - 1] == m);
        } else {
            assert(t.contains(mt));
            let w = choose|w: int| 0 <= w < t.len() && t[w] == mt;
            assert(s[w] == mt);
        }
        assert forall|i: int| 0 <= i < s.len() implies rmt_le(m, #[trigger] s[i]) by {
            if i < s.len() - 1 {
                assert(s[i] == t[i]);
                assert(rmt_le(mt, t[i]));
            }
        }
    }
}

/// `seq_rmt_max` returns a member of a non-empty sequence, and an
/// upper bound of every member.
proof fn lemma_seq_rmt_max_props(s: Seq<RmtU32>)
    ensures
        s.len() > 0 ==> s.contains(seq_rmt_max(s)),
        forall|i: int| 0 <= i < s.len() ==> rmt_le(#[trigger] s[i], seq_rmt_max(s)),
    decreases s.len(),
{
    if s.len() > 0 {
        let t = s.drop_last();
        lemma_seq_rmt_max_props(t);
        let m = seq_rmt_max(s);
        let mt = seq_rmt_max(t);
        if m == s.last() {
            assert(s[s.len() - 1] == m);
        } else {
            assert(t.contains(mt));
            let w = choose|w: int| 0 <= w < t.len() && t[w] == mt;
            assert(s[w] == mt);
        }
        assert forall|i: int| 0 <= i < s.len() implies rmt_le(#[trigger] s[i], m) by {
            if i < s.len() - 1 {
                assert(s[i] == t[i]);
                assert(rmt_le(t[i], mt));
            }
        }
    }
}

/// Two sequences with the same multiset of elements have the same least
/// remoteness.
proof fn lemma_seq_rmt_min_multiset(s1: Seq<RmtU32>, s2: Seq<RmtU32>)
    requires
        s1.to_multiset() == s2.to_multiset(),
    ensures
        seq_rmt_min(s1) == seq_rmt_min(s2),
{
    broadcast use vstd::seq_lib::group_to_multiset_ensures;

    if s1.len() == 0 {
        assert(s1.to_multiset().len() == s1.len());
        assert(s2.to_multiset().len() == s2.len());
    } else {
        assert(s1.to_multiset().len() == s1.len());
        assert(s2.to_multiset().len() == s2.len());
        lemma_seq_rmt_min_props(s1);
        lemma_seq_rmt_min_props(s2);
        let m1 = seq_rmt_min(s1);
        let m2 = seq_rmt_min(s2);
        assert(s1.to_multiset().count(m1) > 0);
        assert(s2.contains(m1));
        assert(s2.to_multiset().count(m2) > 0);
        assert(s1.contains(m2));
        let i = choose|i: int| 0 <= i < s2.len() && s2[i] == m1;
        let j = choose|j: int| 0 <= j < s1.len() && s1[j] == m2;
        assert(rmt_le(m2, s2[i]));
        assert(rmt_le(m1, s1[j]));
    }
}

/// Two sequences with the same multiset of elements have the same greatest
/// remoteness.
proof fn lemma_seq_rmt_max_multiset(s1: Seq<RmtU32>, s2: Seq<RmtU32>)
    requires
        s1.to_multiset() == s2.to_multiset(),
    ensures
        seq_rmt_max(s1) == seq_rmt_max(s2),
{
    broadcast use vstd::seq_lib::group_to_multiset_ensures;

    if s1.len() == 0 {
        assert(s1.to_multiset().len() == s1.len());
        assert(s2.to_multiset().len() == s2.len());
    } else {
        assert(s1.to_multiset().len() == s1.len());
        assert(s2.to_multiset().len() == s2.len());
        lemma_seq_rmt_max_props(s1);
        lemma_seq_rmt_max_props(s2);
        let m1 = seq_rmt_max(s1);
        let m2 = seq_rmt_max(s2);
        assert(s1.to_multiset().count(m1) > 0);
        assert(s2.contains(m1));
        assert(s2.to_multiset().count(m2) > 0);
        assert(s1.contains(m2));
        let i = choose|i: int| 0 <= i < s2.len() && s2[i] == m1;
        let j = choose|j: int| 0 <= j < s1.len() && s1[j] == m2;
        assert(rmt_le(s2[i], m2));
        assert(rmt_le(s1[j], m1));
    }
}


/// The remoteness rule never asks for an empty child subset: among a
/// non-empty child list, a Win outcome guarantees a losing child, a Tie
/// outcome a tying child, and a Lose outcome only (hence some) winning
/// children.  The inconsistency between the outcome rule and the remoteness
/// rule that would otherwise have to abort the solve cannot arise.
pub proof fn lemma_qualifying_children_exist(children: Seq<GameResultWithRmt>)
    requires
        children.len() > 0,
    ensures
        <GameResultWithRmt as RecursiveValue>::step_spec(children).game_result
            == GameResult::Win ==> rmts_with(children, GameResult::Lose).len() > 0,
        <GameResultWithRmt as RecursiveValue>::step_spec(children).game_result
            == GameResult::Tie ==> rmts_with(children, GameResult::Tie).len() > 0,
        <GameResultWithRmt as RecursiveValue>::step_spec(children).game_result
            == GameResult::Lose ==> rmts_with(children, GameResult::Win).len() > 0,
{
    broadcast use vstd::seq_lib::group_filter_ensures;

    let outcomes = children.map_values(outcome_field());
    let gr = <GameResult as RecursiveValue>::step_spec(outcomes);
    if gr == GameResult::Win {
        let i = choose|i: int| 0 <= i < outcomes.len() && outcomes[i] == GameResult::Lose;
        assert((outcome_is(GameResult::Lose))(children[i]));
        assert(children.filter(outcome_is(GameResult::Lose)).contains(children[i]));
    } else if gr == GameResult::Tie {
        let i = choose|i: int| 0 <= i < outcomes.len() && outcomes[i] == GameResult::Tie;
        assert((outcome_is(GameResult::Tie))(children[i]));
        assert(children.filter(outcome_is(GameResult::Tie)).contains(children[i]));
    } else if gr == GameResult::Lose {
        assert(!outcomes.contains(GameResult::Lose));
        assert(!outcomes.contains(GameResult::Tie));
        assert(!outcomes.contains(GameResult::Draw));
        assert(outcomes[0] == GameResult::Win);
        assert((outcome_is(GameResult::Win))(children[0]));
        assert(children.filter(outcome_is(GameResult::Win)).contains(children[0]));
    }
}

impl GameResultWithRmt {
    /// The least remoteness among the children whose outcome is `keep`.
    fn min_rmt_matching(children: &[Self], keep: GameResult) -> (r: RmtU32)
        ensures
            r == seq_rmt_min(rmts_with(children@, keep)),
    {
        broadcast use vstd::seq::Seq::lemma_push_map_commute;

        proof {
            reveal(Seq::filter);
            assert(children@.take(0).filter(outcome_is(keep)) =~= Seq::<Self>::empty());
        }
        let mut acc = RmtU32::Inf;
        let mut i: usize = 0;
        while i < children.len()
            invariant
                0 <= i <= children@.len(),
                acc == seq_rmt_min(rmts_with(children@.take(i as int), keep)),
            decreases children@.len() - i,
        {
            let c = children[i];
            proof {
                reveal(Seq::filter);
                let prefix = children@.take(i as int);
                let extended = children@.take(i + 1 as int);
                assert(extended.drop_last() =~= prefix);
                assert(extended.last() == c);
                let fpre = prefix.filter(outcome_is(keep));
                let fext = extended.filter(outcome_is(keep));
                if c.game_result == keep {
                    assert((outcome_is(keep))(c));
                    assert(fext == fpre.push(c));
                    assert(rmts_with(extended, keep) == rmts_with(
                        prefix,
                        keep,
                    ).push(c.rmt));
                    let w = rmts_with(prefix, keep).push(c.rmt);
                    assert(w.drop_last() =~= rmts_with(prefix, keep));
                } else {
                    assert(!(outcome_is(keep))(c));
                    assert(fext == fpre);
                }
            }
            if c.game_result == keep {
                acc = rmt_min_exec(acc, c.rmt);
            }
            i = i + 1;
        }
        proof {
            assert(children@.take(children@.len() as int) =~= children@);
        }
        acc
    }

    /// The greatest remoteness among the children whose outcome is `keep`.
    fn max_rmt_matching(children: &[Self], keep: GameResult) -> (r: RmtU32)
        ensures
            r == seq_rmt_max(rmts_with(children@, keep)),
    {
        broadcast use vstd::seq::Seq::lemma_push_map_commute;

        proof {
            reveal(Seq::filter);
            assert(children@.take(0).filter(outcome_is(keep)) =~= Seq::<Self>::empty());
        }
        let mut acc = RmtU32::Val(0);
        let mut i: usize = 0;
        while i < children.len()
            invariant
                0 <= i <= children@.len(),
                acc == seq_rmt_max(rmts_with(children@.take(i as int), keep)),
            decreases children@.len() - i,
        {
            let c = children[i];
            proof {
                reveal(Seq::filter);
                let prefix = children@.take(i as int);
                let extended = children@.take(i + 1 as int);
                assert(extended.drop_last() =~= prefix);
                assert(extended.last() == c);
                let fpre = prefix.filter(outcome_is(keep));
                let fext = extended.filter(outcome_is(keep));
                if c.game_result == keep {
                    assert((outcome_is(keep))(c));
                    assert(fext == fpre.push(c));
                    assert(rmts_with(extended, keep) == rmts_with(
                        prefix,
                        keep,
                    ).push(c.rmt));
                    let w = rmts_with(prefix, keep).push(c.rmt);
                    assert(w.drop_last() =~= rmts_with(prefix, keep));
                } else {
                    assert(!(outcome_is(keep))(c));
                    assert(fext == fpre);
                }
            }
            if c.game_result == keep {
                acc = rmt_max_exec(acc, c.rmt);
            }
            i = i + 1;
        }
        proof {
            assert(children@.take(children@.len() as int) =~= children@);
        }
        acc
    }
}

impl RecursiveValue for GameResultWithRmt {
    /// The outcome follows the retrograde rule on the outcome components;
    /// the remoteness is one more than the least remoteness of the losing
    /// children for a win, one more than the least remoteness of the tying
    /// children for a tie, one more than the greatest remoteness of the
    /// winning children for a loss, and infinite for a draw.
    open spec fn step_spec(children: Seq<GameResultWithRmt>) -> GameResultWithRmt {
        let outcomes = children.map_values(outcome_field());
        let game_result = <GameResult as RecursiveValue>::step_spec(outcomes);
        match game_result {
            GameResult::Win => GameResultWithRmt {
                game_result,
                rmt: seq_rmt_min(
                    rmts_with(children, GameResult::Lose),
                ).increment_spec(),
            },
            GameResult::Tie => GameResultWithRmt {
                game_result,
                rmt: seq_rmt_min(
                    rmts_with(children, GameResult::Tie),
                ).increment_spec(),
            },
            GameResult::Lose => GameResultWithRmt {
                game_result,
                rmt: seq_rmt_max(
                    rmts_with(children, GameResult::Win),
                ).increment_spec(),
            },
            GameResult::Draw => GameResultWithRmt {
                game_result,
                rmt: RmtU32::Inf,
            },
        }
    }

    proof fn lemma_step_permutation(
        c1: Seq<GameResultWithRmt>,
        c2: Seq<GameResultWithRmt>,
    ) {
        lemma_map_values_to_multiset(c1, c2, outcome_field());
        <GameResult as RecursiveValue>::lemma_step_permutation(
            c1.map_values(outcome_field()),
            c2.map_values(outcome_field()),
        );
        assert forall|keep: GameResult|
            rmts_with(c1, keep).to_multiset() == rmts_with(
                c2,
                keep,
            ).to_multiset() by {
            lemma_filter_to_multiset(c1, c2, outcome_is(keep));
            lemma_map_values_to_multiset(
                c1.filter(outcome_is(keep)),
                c2.filter(outcome_is(keep)),
                rmt_field(),
            );
        }
        lemma_seq_rmt_min_multiset(
            rmts_with(c1, GameResult::Lose),
            rmts_with(c2, GameResult::Lose),
        );
        lemma_seq_rmt_min_multiset(
            rmts_with(c1, GameResult::Tie),
            rmts_with(c2, GameResult::Tie),
        );
        lemma_seq_rmt_max_multiset(
            rmts_with(c1, GameResult::Win),
            rmts_with(c2, GameResult::Win),
        );
    }

    fn recursion_step(children: &[GameResultWithRmt]) -> (r: GameResultWithRmt) {
        broadcast use vstd::seq::Seq::lemma_push_map_commute;

        let mut outcomes: Vec<GameResult> = Vec::new();
        let mut i: usize = 0;
        while i < children.len()
            invariant
                0 <= i <= children@.len(),
                outcomes@ == children@.take(i as int).map_values(outcome_field()),
            decreases children@.len() - i,
        {
            let c = children[i];
            proof {
                let prefix = children@.take(i as int);
                let extended = children@.take(i + 1 as int);
                assert(extended =~= prefix.push(c));
            }
            outcomes.push(c.game_result);
            i = i + 1;
        }
        proof {
            assert(children@.take(children@.len() as int) =~= children@);
        }
        let game_result = GameResult::recursion_step(outcomes.as_slice());
        match game_result {
            GameResult::Win => GameResultWithRmt {
                game_result,
                rmt: Self::min_rmt_matching(
                    children,
                    GameResult::Lose,
                ).increment(),
            },
            GameResult::Tie => GameResultWithRmt {
                game_result,
                rmt: Self::min_rmt_matching(children, GameResult::Tie).increment(),
            },
            GameResult::Lose => GameResultWithRmt {
                game_result,
                rmt: Self::max_rmt_matching(children, GameResult::Win).increment(),
            },
            GameResult::Draw => GameResultWithRmt {
                game_result,
                rmt: RmtU32::Inf,
            },
        }
    }
}

} // verus!
