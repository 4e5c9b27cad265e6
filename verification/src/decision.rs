use vstd::prelude::*;

use crate::trit::Trit;

verus! {

/// Number of votes equal to `t`.
pub open spec fn count(votes: Seq<Trit>, t: Trit) -> nat
    decreases votes.len(),
{
    if votes.len() == 0 {
        0
    } else {
        count(votes.drop_last(), t) + if votes.last() == t {
            1nat
        } else {
            0nat
        }
    }
}

/// Every vote tally fits the 32-bit counters of a decision.
pub open spec fn tallies_fit(votes: Seq<Trit>) -> bool {
    &&& count(votes, Trit::Neg) <= i32::MAX
    &&& count(votes, Trit::Zero) <= i32::MAX
    &&& count(votes, Trit::Pos) <= i32::MAX
}

/// The majority decision: `Neg` or `Pos` when it has strictly more votes
/// than each of the two other values, `Zero` otherwise (ties included).
pub open spec fn spec_decision(votes: Seq<Trit>) -> Trit {
    let neg = count(votes, Trit::Neg);
    let zero = count(votes, Trit::Zero);
    let pos = count(votes, Trit::Pos);
    if neg > zero && neg > pos {
        Trit::Neg
    } else if pos > neg && pos > zero {
        Trit::Pos
    } else {
        Trit::Zero
    }
}

/// `n` votes, all equal to `t`.
pub open spec fn unanimous(t: Trit, n: nat) -> Seq<Trit> {
    Seq::new(n, |i: int| t)
}

/// The majority rule over vote counts: `Neg` exactly when `Neg` has strictly
/// more votes than `Zero` and than `Pos`, `Pos` exactly when `Pos` has
/// strictly more votes than `Neg` and than `Zero`, `Zero` otherwise; a
/// non-zero value with fewer votes than another value is never the decision.
pub proof fn lemma_decision_by_counts(votes: Seq<Trit>)
    ensures
        spec_decision(votes) == Trit::Neg <==> (count(votes, Trit::Neg) > count(votes, Trit::Zero)
            && count(votes, Trit::Neg) > count(votes, Trit::Pos)),
        spec_decision(votes) == Trit::Pos <==> (count(votes, Trit::Pos) > count(votes, Trit::Neg)
            && count(votes, Trit::Pos) > count(votes, Trit::Zero)),
        spec_decision(votes) == Trit::Zero <==> !(count(votes, Trit::Neg) > count(votes, Trit::Zero)
            && count(votes, Trit::Neg) > count(votes, Trit::Pos)) && !(count(votes, Trit::Pos)
            > count(votes, Trit::Neg) && count(votes, Trit::Pos) > count(votes, Trit::Zero)),
        forall|t: Trit, u: Trit|
            t != Trit::Zero && count(votes, t) < count(votes, u) ==> spec_decision(votes) != t,
{
}

/// A prefix never holds more votes of a value than the whole sequence.
pub proof fn lemma_count_prefix(votes: Seq<Trit>, t: Trit, i: int)
    requires
        0 <= i <= votes.len(),
    ensures
        count(votes.take(i), t) <= count(votes, t),
    decreases votes.len() - i,
{
    if i < votes.len() {
        lemma_count_prefix(votes, t, i + 1);
        assert(votes.take(i + 1).drop_last() =~= votes.take(i));
    } else {
        assert(votes.take(i) =~= votes);
    }
}

/// The tallies of a sequence are those of its multiset of votes.
pub proof fn lemma_count_is_multiset_count(votes: Seq<Trit>, t: Trit)
    ensures
        count(votes, t) == votes.to_multiset().count(t),
    decreases votes.len(),
{
    broadcast use vstd::seq_lib::group_to_multiset_ensures;
    broadcast use vstd::multiset::group_multiset_axioms;

    if votes.len() == 0 {
        assert(votes.to_multiset() =~= vstd::multiset::Multiset::empty());
    } else {
        let rest = votes.drop_last();
        lemma_count_is_multiset_count(rest, t);
        assert(rest.push(votes.last()) =~= votes);
    }
}

/// The decision depends on the votes only, not on the order in which they
/// were cast.
pub proof fn lemma_decision_order_independent(a: Seq<Trit>, b: Seq<Trit>)
    requires
        a.to_multiset() == b.to_multiset(),
    ensures
        spec_decision(a) == spec_decision(b),
{
    lemma_count_is_multiset_count(a, Trit::Neg);
    lemma_count_is_multiset_count(a, Trit::Zero);
    lemma_count_is_multiset_count(a, Trit::Pos);
    lemma_count_is_multiset_count(b, Trit::Neg);
    lemma_count_is_multiset_count(b, Trit::Zero);
    lemma_count_is_multiset_count(b, Trit::Pos);
}

/// In `n` equal votes for `t`, `t` has `n` votes and every other value none.
pub proof fn lemma_count_unanimous(t: Trit, n: nat, u: Trit)
    ensures
        count(unanimous(t, n), u) == if u == t {
            n
        } else {
            0
        },
    decreases n,
{
    if n > 0 {
        lemma_count_unanimous(t, (n - 1) as nat, u);
        assert(unanimous(t, n).drop_last() =~= unanimous(t, (n - 1) as nat));
    }
}

/// A unanimous vote decides for the value voted; no votes decide `Zero`.
pub proof fn lemma_unanimous_decision(t: Trit, n: nat)
    ensures
        spec_decision(unanimous(t, n)) == if n > 0 {
            t
        } else {
            Trit::Zero
        },
{
    lemma_count_unanimous(t, n, Trit::Neg);
    lemma_count_unanimous(t, n, Trit::Zero);
    lemma_count_unanimous(t, n, Trit::Pos);
}

/// Once every voter has adopted the decision, voting again gives the same
/// decision: the consensus is stable.
pub proof fn lemma_decision_is_stable(votes: Seq<Trit>)
    ensures
        spec_decision(unanimous(spec_decision(votes), votes.len())) == spec_decision(votes),
{
    lemma_unanimous_decision(spec_decision(votes), votes.len());
    if votes.len() == 0 {
        assert(votes =~= Seq::<Trit>::empty());
    }
}

/// Collective decision via majority vote on ternary values.
pub fn collective_decision(votes: &[Trit]) -> (r: Trit)
    requires
        tallies_fit(votes@),
    ensures
        r == spec_decision(votes@),
{
    let mut neg: i32 = 0;
    let mut zero: i32 = 0;
    let mut pos: i32 = 0;
    let mut i: usize = 0;
    while i < votes.len()
        invariant
            i <= votes@.len(),
            tallies_fit(votes@),
            neg == count(votes@.take(i as int), Trit::Neg),
            zero == count(votes@.take(i as int), Trit::Zero),
            pos == count(votes@.take(i as int), Trit::Pos),
        decreases votes.len() - i,
    {
        proof {
            assert(votes@.take(i + 1).drop_last() =~= votes@.take(i as int));
            lemma_count_prefix(votes@, Trit::Neg, i + 1);
            lemma_count_prefix(votes@, Trit::Zero, i + 1);
            lemma_count_prefix(votes@, Trit::Pos, i + 1);
        }
        match votes[i] {
            Trit::Neg => neg += 1,
            Trit::Zero => zero += 1,
            Trit::Pos => pos += 1,
        }
        i += 1;
    }
    assert(votes@.take(votes.len() as int) =~= votes@);
    if neg > zero && neg > pos {
        Trit::Neg
    } else if pos > neg && pos > zero {
        Trit::Pos
    } else {
        Trit::Zero
    }
}

/// A vector holding the same votes as `votes`.
fn copy_votes(votes: &[Trit]) -> (r: Vec<Trit>)
    ensures
        r@ == votes@,
{
    let mut v: Vec<Trit> = Vec::new();
    let mut i: usize = 0;
    while i < votes.len()
        invariant
            i <= votes@.len(),
            v@ == votes@.take(i as int),
        decreases votes.len() - i,
    {
        v.push(votes[i]);
        i += 1;
        assert(v@ =~= votes@.take(i as int));
    }
    assert(votes@.take(votes@.len() as int) =~= votes@);
    v
}

/// A vector of `n` copies of `t`.
fn unanimous_votes(t: Trit, n: usize) -> (r: Vec<Trit>)
    ensures
        r@ == unanimous(t, n as nat),
{
    let mut v: Vec<Trit> = Vec::new();
    let mut i: usize = 0;
    while i < n
        invariant
            i <= n,
            v@ == unanimous(t, i as nat),
        decreases n - i,
    {
        v.push(t);
        i += 1;
        assert(v@ =~= unanimous(t, i as nat));
    }
    v
}

/// Multi-round consensus decision (repeated voting until consensus).
///
/// After the first round every voter holds the majority decision, so the
/// outcome is the majority decision of the original votes whatever the
/// number of rounds.
pub fn consensus_round(votes: &[Trit], rounds: usize) -> (r: Trit)
    requires
        tallies_fit(votes@),
        rounds > 0 ==> votes@.len() <= i32::MAX,
    ensures
        r == spec_decision(votes@),
{
    let mut current: Vec<Trit> = copy_votes(votes);
    let mut round: usize = 0;
    while round < rounds
        invariant
            round <= rounds,
            current@.len() == votes@.len(),
            spec_decision(current@) == spec_decision(votes@),
            tallies_fit(current@),
            rounds > 0 ==> votes@.len() <= i32::MAX,
        decreases rounds - round,
    {
        let decision = collective_decision(current.as_slice());
        // All adopt the majority decision
        current = unanimous_votes(decision, current.len());
        proof {
            lemma_decision_is_stable(votes@);
            lemma_count_unanimous(decision, votes@.len(), Trit::Neg);
            lemma_count_unanimous(decision, votes@.len(), Trit::Zero);
            lemma_count_unanimous(decision, votes@.len(), Trit::Pos);
        }
        round += 1;
    }
    collective_decision(current.as_slice())
}

} // verus!
